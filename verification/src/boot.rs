//! Getting the server up: where the files are, where to listen, and in which
//! order the steps of a start are taken.
//!
//! The program lists the root directory, binds its address and serves. Each
//! of these can fail, and a failure ends the start: nothing is bound while
//! the root directory cannot be listed.

use vstd::prelude::*;
use vstd::pervasive::unreached;
use vstd::slice::slice_to_vec;
use vstd::string::StringSliceAdditionalSpecFns;
use vstd::utf8::*;

use crate::bytes::text_of;
use crate::path::SLASH;

verus! {

/// The name of the environment variable that holds the runtime directory.
pub const RUNTIME_DIRECTORY: &'static str = "RUNTIME_DIRECTORY";

/// The address that the server listens on.
#[derive(Clone, Copy, Debug, PartialEq, Eq)]
pub struct Address {
    /// The four numbers of the IPv4 address.
    pub host: (u8, u8, u8, u8),
    /// The TCP port.
    pub port: u16,
}

/// The address of every start: port 3000 of the loopback interface.
pub open spec fn loopback() -> Address {
    Address { host: (127, 0, 0, 1), port: 3000 }
}

/// The address to listen on.
pub fn listen_address() -> (address: Address)
    ensures
        address == loopback(),
{
    Address { host: (127, 0, 0, 1), port: 3000 }
}

/// The directory `assets` in the directory `base`. The empty base is the
/// current directory, written without a name; a base that ends in a slash
/// gets no second one.
pub open spec fn assets_under(base: Seq<u8>) -> Seq<u8> {
    if base.len() == 0 {
        "assets".spec_bytes()
    } else if base.last() == SLASH {
        base + "assets".spec_bytes()
    } else {
        base + "/assets".spec_bytes()
    }
}

/// The root directory when the runtime directory is `base`: `assets` in that
/// directory, or in `.` where none is given.
pub open spec fn root_directory_of(base: Option<Seq<u8>>) -> Seq<u8> {
    match base {
        Some(dir) => assets_under(dir),
        None => assets_under(".".spec_bytes()),
    }
}

/// The root directory of the files, given the runtime directory that the
/// environment names, if it names one.
pub fn root_directory(base: Option<&str>) -> (root: String)
    ensures
        encode_utf8(root@) == root_directory_of(
            match base {
                Some(dir) => Some(dir.spec_bytes()),
                None => None,
            },
        ),
{
    let dir: &str = match base {
        Some(dir) => dir,
        None => ".",
    };
    let mut name: Vec<u8> = slice_to_vec(dir.as_bytes());
    let n: usize = name.len();
    let tail: &str = if n == 0 || name[n - 1] == SLASH {
        "assets"
    } else {
        "/assets"
    };
    name.extend_from_slice(tail.as_bytes());
    proof {
        assert(name@ =~= dir.spec_bytes() + tail.spec_bytes());
        assert(name@ =~= assets_under(dir.spec_bytes()));
        encode_utf8_valid_utf8(dir@);
        encode_utf8_valid_utf8(tail@);
        valid_utf8_concat(dir.spec_bytes(), tail.spec_bytes());
    }
    match text_of(name) {
        Some(root) => root,
        None => unreached(),
    }
}

/// How far a start has come.
#[derive(Clone, Copy, Debug, PartialEq, Eq, Structural)]
pub enum Phase {
    /// The root directory is being listed.
    Listing,
    /// The address is being bound.
    Binding,
    /// Requests are being served.
    Serving,
    /// The start has failed, or the server has ended.
    Stopped,
}

/// What the program reports back after a step.
#[derive(Clone, Copy, Debug, PartialEq, Eq, Structural)]
pub enum Event {
    /// The root directory was listed.
    Listed,
    /// The root directory, or one of its entries, could not be read.
    ListFailed,
    /// The address is bound.
    Bound,
    /// The address could not be bound.
    BindFailed,
    /// Serving ended with an error.
    ServeFailed,
}

/// Why a start was given up.
#[derive(Clone, Copy, Debug, PartialEq, Eq, Structural)]
pub enum Cause {
    /// The root directory cannot be listed.
    RootUnreadable,
    /// The address cannot be bound.
    BindRefused,
    /// Serving ended with an error.
    ServerFailed,
    /// An event was reported that the phase does not wait for.
    OutOfTurn,
}

/// What the program does next.
#[derive(Clone, Copy, Debug, PartialEq, Eq, Structural)]
pub enum Action {
    /// List the root directory.
    ListRoot,
    /// Bind the address.
    Bind,
    /// Serve requests until that fails.
    Serve,
    /// Give up, with an error that ends the process.
    Abort(Cause),
}

/// The phase in which every start begins, and its first action.
pub open spec fn first_move() -> (Phase, Action) {
    (Phase::Listing, Action::ListRoot)
}

/// The phase and the action that follow when `event` is reported in `phase`.
///
/// Success moves on to the next step. Failure stops, and so does an event
/// that the phase does not wait for.
pub open spec fn next_move(phase: Phase, event: Event) -> (Phase, Action) {
    match (phase, event) {
        (Phase::Listing, Event::Listed) => (Phase::Binding, Action::Bind),
        (Phase::Listing, Event::ListFailed) => (
            Phase::Stopped,
            Action::Abort(Cause::RootUnreadable),
        ),
        (Phase::Binding, Event::Bound) => (Phase::Serving, Action::Serve),
        (Phase::Binding, Event::BindFailed) => (Phase::Stopped, Action::Abort(Cause::BindRefused)),
        (Phase::Serving, Event::ServeFailed) => (
            Phase::Stopped,
            Action::Abort(Cause::ServerFailed),
        ),
        _ => (Phase::Stopped, Action::Abort(Cause::OutOfTurn)),
    }
}

/// Begins a start.
pub fn begin() -> (first: (Phase, Action))
    ensures
        first == first_move(),
{
    (Phase::Listing, Action::ListRoot)
}

/// Takes the report of the last step and says what to do next.
pub fn advance(phase: Phase, event: Event) -> (next: (Phase, Action))
    ensures
        next == next_move(phase, event),
{
    match phase {
        Phase::Listing => match event {
            Event::Listed => (Phase::Binding, Action::Bind),
            Event::ListFailed => (Phase::Stopped, Action::Abort(Cause::RootUnreadable)),
            _ => (Phase::Stopped, Action::Abort(Cause::OutOfTurn)),
        },
        Phase::Binding => match event {
            Event::Bound => (Phase::Serving, Action::Serve),
            Event::BindFailed => (Phase::Stopped, Action::Abort(Cause::BindRefused)),
            _ => (Phase::Stopped, Action::Abort(Cause::OutOfTurn)),
        },
        Phase::Serving => match event {
            Event::ServeFailed => (Phase::Stopped, Action::Abort(Cause::ServerFailed)),
            _ => (Phase::Stopped, Action::Abort(Cause::OutOfTurn)),
        },
        Phase::Stopped => (Phase::Stopped, Action::Abort(Cause::OutOfTurn)),
    }
}

/// The phase that a start has reached after `events`.
pub open spec fn phase_after(events: Seq<Event>) -> Phase
    decreases events.len(),
{
    if events.len() == 0 {
        first_move().0
    } else {
        next_move(phase_after(events.drop_last()), events.last()).0
    }
}

/// The action that answers the last of `events`: the first action, if there
/// is no event yet.
pub open spec fn action_after(events: Seq<Event>) -> Action {
    if events.len() == 0 {
        first_move().1
    } else {
        next_move(phase_after(events.drop_last()), events.last()).1
    }
}

/// A start that has stopped stays stopped.
pub proof fn stopped_is_final(events: Seq<Event>, n: int)
    requires
        0 <= n <= events.len(),
        phase_after(events.take(n)) == Phase::Stopped,
    ensures
        phase_after(events) == Phase::Stopped,
    decreases events.len() - n,
{
    if n < events.len() {
        assert(events.take(n + 1).drop_last() =~= events.take(n));
        stopped_is_final(events, n + 1);
    } else {
        assert(events.take(n) =~= events);
    }
}

/// Where the root directory cannot be listed, the start is over: whatever
/// is reported afterwards, the address is never bound and nothing is served.
pub proof fn unreadable_root_binds_nothing(events: Seq<Event>, n: int)
    requires
        1 <= n <= events.len(),
        events[0] == Event::ListFailed,
    ensures
        action_after(events.take(1)) == Action::Abort(Cause::RootUnreadable),
        action_after(events.take(n)) is Abort,
        phase_after(events.take(n)) == Phase::Stopped,
{
    let first = events.take(1);
    assert(first.drop_last() =~= Seq::<Event>::empty());
    assert(phase_after(first.drop_last()) == Phase::Listing);
    assert(phase_after(first) == Phase::Stopped);
    let upto = events.take(n);
    if n > 1 {
        let before = upto.drop_last();
        assert(before.take(1) =~= first);
        stopped_is_final(before, 1);
    } else {
        assert(upto =~= first);
    }
    assert(upto.take(1) =~= first);
    stopped_is_final(upto, 1);
}

/// The address is bound only as the answer to a listing that succeeded, and
/// requests are served only as the answer to a bind that succeeded.
pub proof fn steps_come_in_order(events: Seq<Event>)
    ensures
        action_after(events) == Action::Bind ==> events.len() == 1 && events[0] == Event::Listed,
        action_after(events) == Action::Serve ==> events.len() == 2 && events[0] == Event::Listed
            && events[1] == Event::Bound,
{
    if events.len() > 0 {
        let before = events.drop_last();
        if before.len() > 0 {
            let first = before.drop_last();
            if first.len() > 0 {
                phase_is_past_listing(first);
                assert(phase_after(before) == Phase::Serving || phase_after(before)
                    == Phase::Stopped);
            }
        }
    }
}

/// After the first event a start is never back at listing; after the second,
/// never back at binding.
pub proof fn phase_is_past_listing(events: Seq<Event>)
    requires
        events.len() > 0,
    ensures
        phase_after(events) != Phase::Listing,
        events.len() > 1 ==> phase_after(events) != Phase::Binding,
    decreases events.len(),
{
    if events.len() > 1 {
        phase_is_past_listing(events.drop_last());
    } else {
        assert(events.drop_last() =~= Seq::<Event>::empty());
    }
}

} // verus!
