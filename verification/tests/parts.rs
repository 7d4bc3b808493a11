use static_file_server::boot::{
    advance, begin, listen_address, root_directory, Action, Address, Cause, Event, Phase,
    RUNTIME_DIRECTORY,
};
use static_file_server::bytes::{same_bytes, starts_with};
use static_file_server::escape::{hex_digit, percent_decode};
use static_file_server::media::{announced, extension_of, media_type};
use static_file_server::path::resolve;
use static_file_server::route::{relative, route, Route};

#[test]
fn same_bytes_compares_content() {
    assert!(same_bytes(b"", b""));
    assert!(same_bytes(b"/foo", b"/foo"));
    assert!(!same_bytes(b"/foo", b"/fop"));
    assert!(!same_bytes(b"/foo", b"/foo/"));
    assert!(!same_bytes(b"/foo", b""));
}

#[test]
fn starts_with_checks_the_front() {
    assert!(starts_with(b"/assets/x", b"/assets"));
    assert!(starts_with(b"/assets", b"/assets"));
    assert!(starts_with(b"anything", b""));
    assert!(!starts_with(b"/asset", b"/assets"));
    assert!(!starts_with(b"x/assets", b"/assets"));
}

#[test]
fn hex_digits_have_their_values() {
    assert_eq!(hex_digit(b'0'), Some(0));
    assert_eq!(hex_digit(b'9'), Some(9));
    assert_eq!(hex_digit(b'a'), Some(10));
    assert_eq!(hex_digit(b'f'), Some(15));
    assert_eq!(hex_digit(b'A'), Some(10));
    assert_eq!(hex_digit(b'F'), Some(15));
    for other in [b'/', b':', b'@', b'G', b'`', b'g', b' ', 0u8, 255u8] {
        assert_eq!(hex_digit(other), None);
    }
}

#[test]
fn percent_decode_replaces_escapes() {
    assert_eq!(percent_decode(b""), b"".to_vec());
    assert_eq!(percent_decode(b"plain/path.txt"), b"plain/path.txt".to_vec());
    assert_eq!(percent_decode(b"foo%20bar%3f"), b"foo bar?".to_vec());
    assert_eq!(percent_decode(b"%41%4a%4A"), b"AJJ".to_vec());
    assert_eq!(percent_decode(b"%00%ff"), vec![0u8, 255u8]);
    assert_eq!(percent_decode(b"%2525"), b"%25".to_vec());
}

#[test]
fn percent_decode_keeps_what_is_no_escape() {
    assert_eq!(percent_decode(b"%"), b"%".to_vec());
    assert_eq!(percent_decode(b"%4"), b"%4".to_vec());
    assert_eq!(percent_decode(b"%zz"), b"%zz".to_vec());
    assert_eq!(percent_decode(b"%4g"), b"%4g".to_vec());
    assert_eq!(percent_decode(b"100%"), b"100%".to_vec());
    assert_eq!(percent_decode(b"%%41"), b"%A".to_vec());
}

#[test]
fn route_picks_the_first_rule_that_applies() {
    assert_eq!(route(b"/foo"), Route::Greeting);
    assert_eq!(route(b"/assets"), Route::Asset);
    assert_eq!(route(b"/assets/"), Route::Asset);
    assert_eq!(route(b"/assets/logo.png"), Route::Asset);
    assert_eq!(route(b"/assets/foo"), Route::Asset);
    assert_eq!(route(b"/assetsx"), Route::CatchAll);
    assert_eq!(route(b"/asset"), Route::CatchAll);
    assert_eq!(route(b"/foo/"), Route::CatchAll);
    assert_eq!(route(b"/"), Route::CatchAll);
    assert_eq!(route(b""), Route::CatchAll);
    assert_eq!(route(b"/x/assets/y"), Route::CatchAll);
}

#[test]
fn relative_drops_the_mount_prefix_only() {
    assert_eq!(relative(b"/assets/logo.png"), b"/logo.png");
    assert_eq!(relative(b"/assets"), b"");
    assert_eq!(relative(b"/assets/"), b"/");
    assert_eq!(relative(b"/random/page"), b"/random/page");
    assert_eq!(relative(b"/assetsx"), b"/assetsx");
    assert_eq!(relative(b"/foo"), b"/foo");
}

#[test]
fn resolve_names_the_file_under_the_root() {
    assert_eq!(resolve("root", b"/a/b.txt"), Some("root/a/b.txt".to_string()));
    assert_eq!(resolve("root", b"a/b.txt"), Some("root/a/b.txt".to_string()));
    assert_eq!(resolve("root", b"//a/./b.txt/"), Some("root/a/b.txt".to_string()));
    assert_eq!(resolve("", b"x"), Some("/x".to_string()));
    assert_eq!(resolve("root", b"/a%2Fb"), Some("root/a/b".to_string()));
    assert_eq!(resolve("root", b"/.../x"), Some("root/.../x".to_string()));
}

#[test]
fn resolve_refuses_what_names_no_file() {
    assert_eq!(resolve("root", b""), None);
    assert_eq!(resolve("root", b"/"), None);
    assert_eq!(resolve("root", b"/./"), None);
    assert_eq!(resolve("root", b".."), None);
    assert_eq!(resolve("root", b"/a/../b"), None);
    assert_eq!(resolve("root", b"/a/b/.."), None);
    assert_eq!(resolve("root", b"/%2e%2e/b"), None);
    assert_eq!(resolve("root", b"/a/%2E./b"), None);
    assert_eq!(resolve("root", b"/%ff"), None);
}

#[test]
fn extension_is_what_follows_the_last_dot_of_the_name() {
    assert_eq!(extension_of(b"root/logo.png"), b"png");
    assert_eq!(extension_of(b"archive.tar.gz"), b"gz");
    assert_eq!(extension_of(b"root/README"), b"");
    assert_eq!(extension_of(b"root/.bashrc"), b"");
    assert_eq!(extension_of(b".bashrc"), b"");
    assert_eq!(extension_of(b"root/.config.toml"), b"toml");
    assert_eq!(extension_of(b"root.d/file"), b"");
    assert_eq!(extension_of(b"root/file."), b"");
    assert_eq!(extension_of(b"root/dir.d/"), b"");
    assert_eq!(extension_of(b""), b"");
}

#[test]
fn media_type_comes_from_the_table() {
    assert_eq!(media_type("srv/assets/logo.png"), "image/png");
    assert_eq!(media_type("srv/assets/index.html"), "text/html");
    assert_eq!(media_type("srv/assets/index.htm"), "text/html");
    assert_eq!(media_type("srv/assets/site.css"), "text/css");
    assert_eq!(media_type("srv/assets/app.js"), "text/javascript");
    assert_eq!(media_type("srv/assets/notes.txt"), "text/plain");
    assert_eq!(media_type("srv/assets/LOGO.PNG"), "image/png");
}

#[test]
fn media_type_defaults_to_octet_stream() {
    assert_eq!(media_type("srv/assets/README"), "application/octet-stream");
    assert_eq!(media_type("srv/assets/.png"), "application/octet-stream");
    assert_eq!(media_type("srv/assets/file."), "application/octet-stream");
    assert_eq!(media_type("srv/assets.png/file"), "application/octet-stream");
    assert_eq!(media_type("srv/assets/file.no-such-extension"), "application/octet-stream");
    assert_eq!(media_type(""), "application/octet-stream");
}

#[test]
fn announced_keeps_a_guess_and_fills_a_gap() {
    assert_eq!(announced(Some("image/png")), "image/png");
    assert_eq!(announced(Some("")), "");
    assert_eq!(announced(None), "application/octet-stream");
}

#[test]
fn root_directory_is_assets_in_the_runtime_directory() {
    assert_eq!(root_directory(None), "./assets");
    assert_eq!(root_directory(Some(".")), "./assets");
    assert_eq!(root_directory(Some("/srv/site")), "/srv/site/assets");
    assert_eq!(root_directory(Some("/srv/site/")), "/srv/site/assets");
    assert_eq!(root_directory(Some("/")), "/assets");
    assert_eq!(root_directory(Some("")), "assets");
    assert_eq!(root_directory(Some("caf\u{e9}")), "caf\u{e9}/assets");
}

#[test]
fn listen_address_is_loopback_3000() {
    assert_eq!(listen_address(), Address { host: (127, 0, 0, 1), port: 3000 });
}

#[test]
fn start_lists_then_binds_then_serves() {
    let (phase, action) = begin();
    assert_eq!((phase, action), (Phase::Listing, Action::ListRoot));
    let (phase, action) = advance(phase, Event::Listed);
    assert_eq!((phase, action), (Phase::Binding, Action::Bind));
    let (phase, action) = advance(phase, Event::Bound);
    assert_eq!((phase, action), (Phase::Serving, Action::Serve));
    let (phase, action) = advance(phase, Event::ServeFailed);
    assert_eq!((phase, action), (Phase::Stopped, Action::Abort(Cause::ServerFailed)));
}

#[test]
fn unreadable_root_stops_before_binding() {
    let (phase, _) = begin();
    let (mut phase, action) = advance(phase, Event::ListFailed);
    assert_eq!((phase, action), (Phase::Stopped, Action::Abort(Cause::RootUnreadable)));
    for event in [Event::Listed, Event::Bound, Event::ListFailed, Event::BindFailed, Event::ServeFailed]
    {
        let (next, action) = advance(phase, event);
        assert_eq!((next, action), (Phase::Stopped, Action::Abort(Cause::OutOfTurn)));
        phase = next;
    }
}

#[test]
fn refused_bind_stops_before_serving() {
    let (phase, action) = advance(Phase::Binding, Event::BindFailed);
    assert_eq!((phase, action), (Phase::Stopped, Action::Abort(Cause::BindRefused)));
}

#[test]
fn events_out_of_turn_stop_the_start() {
    let stop = (Phase::Stopped, Action::Abort(Cause::OutOfTurn));
    assert_eq!(advance(Phase::Listing, Event::Bound), stop);
    assert_eq!(advance(Phase::Listing, Event::BindFailed), stop);
    assert_eq!(advance(Phase::Listing, Event::ServeFailed), stop);
    assert_eq!(advance(Phase::Binding, Event::Listed), stop);
    assert_eq!(advance(Phase::Binding, Event::ListFailed), stop);
    assert_eq!(advance(Phase::Binding, Event::ServeFailed), stop);
    assert_eq!(advance(Phase::Serving, Event::Listed), stop);
    assert_eq!(advance(Phase::Serving, Event::Bound), stop);
    assert_eq!(advance(Phase::Serving, Event::BindFailed), stop);
}

#[test]
fn runtime_directory_variable_has_its_name() {
    assert_eq!(RUNTIME_DIRECTORY, "RUNTIME_DIRECTORY");
}
