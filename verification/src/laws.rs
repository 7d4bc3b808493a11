//! What holds of every request, whatever the path and whatever the disk.

use vstd::prelude::*;
use vstd::string::StringSliceAdditionalSpecFns;
use vstd::utf8::*;

use crate::escape::{percent_decoded, plain_text_decodes_to_itself, PERCENT};
use crate::media::media_type_of;
use crate::path::{
    inside, is_name, parent_part, pieces, pieces_of_trail, target, target_is_inside_root, trail,
    trail_of_names_begins_with_slash, trail_skips_empty_front, SLASH,
};
use crate::route::{
    greeting_path, greeting_path_is_spelled, mount, mount_is_spelled, relative_of, route_of,
    Route,
};
use crate::serve::{
    first_step, greeting, index_file, index_file_is_inside_root, index_reply, index_step,
    next_step, page, run, served, Disk, Outcome, PendingView, StepView,
};

verus! {

/// Every request is answered after at most two reads, and the answer is the
/// one that `served` describes.
pub proof fn every_request_is_answered(root: Seq<u8>, disk: Disk, path: Seq<u8>)
    ensures
        run(root, disk, first_step(root, path), 2) == Some(served(root, disk, path)),
{
    reveal_with_fuel(run, 3);
}

/// The path `/foo` is answered with status 200 and the text `Hi from /foo`,
/// at once and whatever the disk holds.
pub proof fn greeting_is_fixed(root: Seq<u8>, disk: Disk)
    ensures
        first_step(root, greeting_path()) == StepView::Reply(greeting()),
        served(root, disk, greeting_path()) == greeting(),
        greeting().status == 200,
        greeting().body == "Hi from /foo".spec_bytes(),
{
}

/// A path under the mount prefix is routed to the files, and what follows
/// the prefix names the file.
pub proof fn mounted_path_is_an_asset(rel: Seq<u8>)
    requires
        rel.len() == 0 || rel[0] == SLASH,
    ensures
        route_of(mount() + rel) == Route::Asset,
        relative_of(mount() + rel) == rel,
{
    let path = mount() + rel;
    mount_is_spelled();
    greeting_path_is_spelled();
    assert(path[1] == 97);
    assert(greeting_path()[1] == 102);
    assert(path.subrange(0, mount().len() as int) =~= mount());
    assert(path.skip(mount().len() as int) =~= rel);
}

/// A file that is there is served as it is. Let the file be named by
/// `names` below the root directory, and let `rel` be a way to write that
/// name in a request: a path that begins with a slash and decodes to the
/// names, each behind a slash. Then the request for `/assets` followed by
/// `rel` is answered with status 200 and the bytes of the file.
///
/// The file name must be text, as all file names are here.
pub proof fn existing_file_is_served(
    root: Seq<u8>,
    disk: Disk,
    rel: Seq<u8>,
    names: Seq<Seq<u8>>,
    content: Seq<u8>,
)
    requires
        names.len() > 0,
        forall|k: int| 0 <= k < names.len() ==> is_name(#[trigger] names[k]),
        rel.len() > 0 && rel[0] == SLASH,
        percent_decoded(rel) == trail(names),
        valid_utf8(root + trail(names)),
        disk(root + trail(names)) == Outcome::Found(content),
    ensures
        served(root, disk, mount() + rel) == page(media_type_of(root + trail(names)), content),
        served(root, disk, mount() + rel).status == 200,
        served(root, disk, mount() + rel).body == content,
{
    mounted_path_is_an_asset(rel);
    named_file_is_the_target(root, rel, names);
}

/// Outside `/assets` a file that is there is served as well, unless the
/// request is `/foo` or lies under `/assets`.
pub proof fn existing_page_is_served(
    root: Seq<u8>,
    disk: Disk,
    rel: Seq<u8>,
    names: Seq<Seq<u8>>,
    content: Seq<u8>,
)
    requires
        names.len() > 0,
        forall|k: int| 0 <= k < names.len() ==> is_name(#[trigger] names[k]),
        percent_decoded(rel) == trail(names),
        valid_utf8(root + trail(names)),
        disk(root + trail(names)) == Outcome::Found(content),
        route_of(rel) == Route::CatchAll,
    ensures
        served(root, disk, rel) == page(media_type_of(root + trail(names)), content),
{
    named_file_is_the_target(root, rel, names);
}

/// A name written without escapes is a way to write itself: the path that
/// names spell, sent as it stands, is answered with the file of that name.
pub proof fn plain_name_is_served(
    root: Seq<u8>,
    disk: Disk,
    names: Seq<Seq<u8>>,
    content: Seq<u8>,
)
    requires
        names.len() > 0,
        forall|k: int| 0 <= k < names.len() ==> is_name(#[trigger] names[k]),
        !trail(names).contains(PERCENT),
        valid_utf8(root + trail(names)),
        disk(root + trail(names)) == Outcome::Found(content),
    ensures
        served(root, disk, mount() + trail(names)) == page(
            media_type_of(root + trail(names)),
            content,
        ),
{
    plain_text_decodes_to_itself(trail(names));
    trail_of_names_begins_with_slash(names);
    existing_file_is_served(root, disk, trail(names), names, content);
}

/// A path that decodes to what names spell names the file of those names
/// under the root.
pub proof fn named_file_is_the_target(root: Seq<u8>, rel: Seq<u8>, names: Seq<Seq<u8>>)
    requires
        names.len() > 0,
        forall|k: int| 0 <= k < names.len() ==> is_name(#[trigger] names[k]),
        percent_decoded(rel) == trail(names),
        valid_utf8(root + trail(names)),
    ensures
        target(root, rel) == Some(root + trail(names)),
{
    let parts = pieces(trail(names));
    trail_of_names_begins_with_slash(names);
    pieces_of_trail(names);
    trail_skips_empty_front(names);
    assert(!parts.contains(parent_part())) by {
        if parts.contains(parent_part()) {
            let k = choose|k: int| 0 <= k < parts.len() && parts[k] == parent_part();
            assert(parent_part().len() == 2);
            if k > 0 {
                assert(parts[k] == names[k - 1]);
                assert(is_name(names[k - 1]));
            }
        }
    }
}

/// The request path `rel` stands for no file that is there: it names no
/// file, or the file that it names is missing on `disk`.
pub open spec fn is_absent(root: Seq<u8>, disk: Disk, rel: Seq<u8>) -> bool {
    match target(root, rel) {
        None => true,
        Some(file) => disk(file) == Outcome::Missing,
    }
}

/// A path under `/assets` that stands for no file that is there is answered
/// with status 200 and the bytes of the index file.
pub proof fn missing_asset_gets_index(root: Seq<u8>, disk: Disk, p: Seq<u8>, home: Seq<u8>)
    requires
        disk(index_file(root)) == Outcome::Found(home),
        is_absent(root, disk, seq![SLASH] + p),
    ensures
        served(root, disk, mount() + (seq![SLASH] + p)) == page("text/html"@, home),
{
    mounted_path_is_an_asset(seq![SLASH] + p);
}

/// A path outside `/assets`, other than `/foo`, that stands for no file that
/// is there is answered with status 200 and the bytes of the index file.
pub proof fn missing_page_gets_index(root: Seq<u8>, disk: Disk, p: Seq<u8>, home: Seq<u8>)
    requires
        disk(index_file(root)) == Outcome::Found(home),
        route_of(seq![SLASH] + p) == Route::CatchAll,
        is_absent(root, disk, seq![SLASH] + p),
    ensures
        served(root, disk, seq![SLASH] + p) == page("text/html"@, home),
{
}

/// The answer depends on the disk through two files only: the one that the
/// path names and the index file. While these two stay as they are, the same
/// request gets the same answer.
pub proof fn same_files_same_answer(root: Seq<u8>, before: Disk, after: Disk, path: Seq<u8>)
    requires
        before(index_file(root)) == after(index_file(root)),
        target(root, relative_of(path)) matches Some(file) ==> before(file) == after(file),
    ensures
        served(root, before, path) == served(root, after, path),
{
}

/// No step ever asks for a file outside the root directory: neither the
/// first step of a request nor any step after a read.
pub proof fn reads_stay_inside_root(
    root: Seq<u8>,
    path: Seq<u8>,
    pending: PendingView,
    found: Outcome,
)
    ensures
        first_step(root, path) matches StepView::Read(first) ==> inside(root, first.file),
        next_step(root, pending, found) matches StepView::Read(next) ==> inside(root, next.file),
{
    target_is_inside_root(root, relative_of(path));
    index_file_is_inside_root(root);
}

/// A path with a `..` part names no file, so such a request is answered
/// from the index file alone.
pub proof fn climbing_request_gets_index(root: Seq<u8>, disk: Disk, path: Seq<u8>)
    requires
        route_of(path) != Route::Greeting,
        pieces(percent_decoded(relative_of(path))).contains(parent_part()),
    ensures
        target(root, relative_of(path)) is None,
        first_step(root, path) == index_step(root),
        served(root, disk, path) == index_reply(root, disk),
{
}

/// The body of an answer is the fixed text, or empty, or the bytes that the
/// disk holds for a file under the root directory.
pub proof fn bodies_come_from_inside_root(root: Seq<u8>, disk: Disk, path: Seq<u8>)
    ensures
        ({
            let reply = served(root, disk, path);
            ||| reply == greeting()
            ||| reply.body.len() == 0
            ||| exists|file: Seq<u8>|
                inside(root, file) && #[trigger] disk(file) == Outcome::Found(reply.body)
        }),
{
    let reply = served(root, disk, path);
    target_is_inside_root(root, relative_of(path));
    index_file_is_inside_root(root);
    if reply != greeting() && reply.body.len() != 0 {
        if let Some(file) = target(root, relative_of(path)) {
            if disk(file) is Found {
                assert(inside(root, file) && disk(file) == Outcome::Found(reply.body));
            } else {
                let index = index_file(root);
                assert(inside(root, index) && disk(index) == Outcome::Found(reply.body));
            }
        } else {
            let index = index_file(root);
            assert(inside(root, index) && disk(index) == Outcome::Found(reply.body));
        }
    }
}

} // verus!
