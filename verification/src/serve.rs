//! Answering a request, one step at a time.
//!
//! The library never touches the disk. It tells its caller which file to
//! read, and the caller tells it what it found there. A request is over after
//! at most two reads: the file that the path names and, when that is missing,
//! the index file.

use vstd::prelude::*;
use vstd::pervasive::unreached;
use vstd::slice::slice_to_vec;
use vstd::string::{is_ascii_spec_bytes, StringSliceAdditionalSpecFns};
use vstd::utf8::*;

use crate::bytes::text_of;
use crate::media::{media_type, media_type_of};
use crate::path::{
    inside, is_name, parent_part, pieces_of_trail, resolve, target, target_is_inside_root, trail,
    DOT, SLASH,
};
use crate::route::{greeting_path, relative, relative_of, route, route_of, Route};

verus! {

/// What the caller found when it went to read a file.
#[derive(Clone, Debug, PartialEq, Eq)]
pub enum Lookup {
    /// A file is there, and these are its bytes.
    Found(Vec<u8>),
    /// No file is there.
    Missing,
    /// The disk failed in some other way, such as a refused permission.
    Failed,
}

/// A lookup, as the contracts see it.
pub enum Outcome {
    Found(Seq<u8>),
    Missing,
    Failed,
}

impl View for Lookup {
    type V = Outcome;

    open spec fn view(&self) -> Outcome {
        match self {
            Lookup::Found(bytes) => Outcome::Found(bytes@),
            Lookup::Missing => Outcome::Missing,
            Lookup::Failed => Outcome::Failed,
        }
    }
}

/// Why a read brought no bytes, as the operating system told it.
#[derive(Clone, Copy, Debug, PartialEq, Eq, Structural)]
pub enum ReadError {
    /// Nothing bears that name.
    NotFound,
    /// What bears the name is a directory, or a part of the path that
    /// should be a directory is none.
    NotAFile,
    /// Anything else, such as a refused permission.
    Other,
}

/// What a read came to: the bytes of a file are found; where nothing bears
/// the name, or what bears it is no file, the file is missing; any other
/// error is a failure of the disk.
pub open spec fn outcome_of(read: Result<Seq<u8>, ReadError>) -> Outcome {
    match read {
        Ok(bytes) => Outcome::Found(bytes),
        Err(ReadError::NotFound) => Outcome::Missing,
        Err(ReadError::NotAFile) => Outcome::Missing,
        Err(ReadError::Other) => Outcome::Failed,
    }
}

impl Lookup {
    /// Sorts the result of a read into found, missing and failed.
    pub fn of_read(read: Result<Vec<u8>, ReadError>) -> (found: Lookup)
        ensures
            found@ == outcome_of(
                match read {
                    Ok(bytes) => Ok(bytes@),
                    Err(error) => Err(error),
                },
            ),
    {
        match read {
            Ok(bytes) => Lookup::Found(bytes),
            Err(ReadError::NotFound) => Lookup::Missing,
            Err(ReadError::NotAFile) => Lookup::Missing,
            Err(ReadError::Other) => Lookup::Failed,
        }
    }
}

/// The answer to a request.
#[derive(Clone, Debug, PartialEq, Eq)]
pub struct Reply {
    /// The HTTP status code.
    pub status: u16,
    /// The media type of the body, where there is a body to speak of.
    pub content_type: Option<String>,
    /// The body.
    pub body: Vec<u8>,
}

/// An answer, as the contracts see it.
pub struct ReplyView {
    pub status: u16,
    pub content_type: Option<Seq<char>>,
    pub body: Seq<u8>,
}

impl View for Reply {
    type V = ReplyView;

    open spec fn view(&self) -> ReplyView {
        ReplyView {
            status: self.status,
            content_type: match self.content_type {
                Some(media) => Some(media@),
                None => None,
            },
            body: self.body@,
        }
    }
}

/// Which of the two reads of a request is under way.
#[derive(Clone, Copy, Debug, PartialEq, Eq, Structural)]
pub enum Stage {
    /// The file that the request path names.
    Asset,
    /// The index file, in place of a file that is missing.
    Index,
}

/// A read that the caller is asked to make.
#[derive(Clone, Debug, PartialEq, Eq)]
pub struct Pending {
    /// The name of the file to read.
    pub file: String,
    /// Which read this is.
    pub stage: Stage,
}

/// A pending read, as the contracts see it: the file name is taken as bytes.
pub struct PendingView {
    pub file: Seq<u8>,
    pub stage: Stage,
}

impl View for Pending {
    type V = PendingView;

    open spec fn view(&self) -> PendingView {
        PendingView { file: encode_utf8(self.file@), stage: self.stage }
    }
}

/// What happens next with a request.
#[derive(Clone, Debug, PartialEq, Eq)]
pub enum Step {
    /// The request is answered.
    Reply(Reply),
    /// The caller reads a file and comes back with what it found.
    Read(Pending),
}

/// A step, as the contracts see it.
pub enum StepView {
    Reply(ReplyView),
    Read(PendingView),
}

impl View for Step {
    type V = StepView;

    open spec fn view(&self) -> StepView {
        match self {
            Step::Reply(reply) => StepView::Reply(reply@),
            Step::Read(pending) => StepView::Read(pending@),
        }
    }
}

/// The answer to `/foo`.
pub open spec fn greeting() -> ReplyView {
    ReplyView {
        status: 200,
        content_type: Some("text/plain; charset=utf-8"@),
        body: "Hi from /foo".spec_bytes(),
    }
}

/// The answer that carries a file.
pub open spec fn page(media: Seq<char>, body: Seq<u8>) -> ReplyView {
    ReplyView { status: 200, content_type: Some(media), body }
}

/// The answer when not even the index file is there.
pub open spec fn not_found() -> ReplyView {
    ReplyView { status: 404, content_type: None, body: Seq::empty() }
}

/// The answer when the disk failed.
pub open spec fn failure() -> ReplyView {
    ReplyView { status: 500, content_type: None, body: Seq::empty() }
}

/// The name of the index file under `root`.
pub open spec fn index_file(root: Seq<u8>) -> Seq<u8> {
    root + "/index.html".spec_bytes()
}

/// The step that asks for the index file.
pub open spec fn index_step(root: Seq<u8>) -> StepView {
    StepView::Read(PendingView { file: index_file(root), stage: Stage::Index })
}

/// The first step of the request for `path`: the fixed text for `/foo`, else
/// a read of the file that the path names, else (the path names no file) a
/// read of the index file.
pub open spec fn first_step(root: Seq<u8>, path: Seq<u8>) -> StepView {
    if route_of(path) == Route::Greeting {
        StepView::Reply(greeting())
    } else {
        match target(root, relative_of(path)) {
            Some(file) => StepView::Read(PendingView { file, stage: Stage::Asset }),
            None => index_step(root),
        }
    }
}

/// The media type of what a read brings: that of the file's extension for
/// the file that the path names, `text/html` for the index file.
pub open spec fn media_of(pending: PendingView) -> Seq<char> {
    match pending.stage {
        Stage::Asset => media_type_of(pending.file),
        Stage::Index => "text/html"@,
    }
}

/// The step after the read `pending` came back with `found`.
///
/// A file that was found is the answer, with status 200. A failure of the
/// disk is answered with status 500. A missing file sends the request on to
/// the index file; a missing index file is answered with status 404.
pub open spec fn next_step(root: Seq<u8>, pending: PendingView, found: Outcome) -> StepView {
    match found {
        Outcome::Found(body) => StepView::Reply(page(media_of(pending), body)),
        Outcome::Failed => StepView::Reply(failure()),
        Outcome::Missing => match pending.stage {
            Stage::Asset => index_step(root),
            Stage::Index => StepView::Reply(not_found()),
        },
    }
}

/// What a disk holds: for each file name, what a read of it brings.
pub type Disk = spec_fn(Seq<u8>) -> Outcome;

/// The answer that the index file gives on `disk`.
pub open spec fn index_reply(root: Seq<u8>, disk: Disk) -> ReplyView {
    match disk(index_file(root)) {
        Outcome::Found(body) => page("text/html"@, body),
        Outcome::Missing => not_found(),
        Outcome::Failed => failure(),
    }
}

/// The answer to the request for `path` when the files are those of `disk`.
///
/// `/foo` gets the fixed text. Any other path gets the file that it names,
/// if that file is there; the index file, if the path names no file or the
/// file is missing; status 500, if the disk failed.
pub open spec fn served(root: Seq<u8>, disk: Disk, path: Seq<u8>) -> ReplyView {
    if route_of(path) == Route::Greeting {
        greeting()
    } else {
        match target(root, relative_of(path)) {
            None => index_reply(root, disk),
            Some(file) => match disk(file) {
                Outcome::Found(body) => page(media_type_of(file), body),
                Outcome::Missing => index_reply(root, disk),
                Outcome::Failed => failure(),
            },
        }
    }
}

/// Where a request that stands at `step` ends when each read is answered
/// from `disk`, if it ends within `reads` reads.
pub open spec fn run(root: Seq<u8>, disk: Disk, step: StepView, reads: nat) -> Option<ReplyView>
    decreases reads,
{
    match step {
        StepView::Reply(reply) => Some(reply),
        StepView::Read(pending) => if reads == 0 {
            None
        } else {
            run(root, disk, next_step(root, pending, disk(pending.file)), (reads - 1) as nat)
        },
    }
}

/// The index file lies under the root directory.
pub proof fn index_file_is_inside_root(root: Seq<u8>)
    ensures
        inside(root, index_file(root)),
{
    let name = seq![105u8, 110, 100, 101, 120, 46, 104, 116, 109, 108];
    let names = seq![name];
    reveal_strlit("/index.html");
    is_ascii_spec_bytes("/index.html");
    assert(parent_part().len() == 2);
    assert(seq![DOT].len() == 1);
    assert(is_name(name));
    assert(names.drop_last() =~= Seq::<Seq<u8>>::empty());
    assert(trail(names) =~= trail(names.drop_last()) + (seq![SLASH] + name));
    assert(trail(names) =~= "/index.html".spec_bytes());
    pieces_of_trail(names);
    let file = index_file(root);
    assert(file.skip(root.len() as int) =~= trail(names));
    assert(file.take(root.len() as int) =~= root);
}

/// The site that is served: the root directory of its files.
#[derive(Clone, Debug, PartialEq, Eq)]
pub struct Site {
    root: String,
}

impl Site {
    /// The root directory, as bytes.
    pub closed spec fn root_bytes(&self) -> Seq<u8> {
        encode_utf8(self.root@)
    }

    /// A site whose files lie under `root`.
    pub fn new(root: String) -> (site: Site)
        ensures
            site.root_bytes() == encode_utf8(root@),
    {
        Site { root }
    }

    /// The root directory.
    pub fn root(&self) -> (root: &str)
        ensures
            root.spec_bytes() == self.root_bytes(),
    {
        self.root.as_str()
    }

    /// The step that asks for the index file.
    fn ask_for_index(&self) -> (step: Step)
        ensures
            step@ == index_step(self.root_bytes()),
    {
        let mut name: Vec<u8> = slice_to_vec(self.root.as_str().as_bytes());
        name.extend_from_slice("/index.html".as_bytes());
        proof {
            assert(name@ =~= index_file(self.root_bytes()));
            encode_utf8_valid_utf8("/index.html"@);
            encode_utf8_valid_utf8(self.root@);
            valid_utf8_concat(self.root_bytes(), "/index.html".spec_bytes());
        }
        match text_of(name) {
            Some(file) => Step::Read(Pending { file, stage: Stage::Index }),
            None => unreached(),
        }
    }

    /// Takes up the request for `path` and says what to do first.
    pub fn start(&self, path: &str) -> (step: Step)
        ensures
            step@ == first_step(self.root_bytes(), path.spec_bytes()),
            path.spec_bytes() == greeting_path() ==> step@ == StepView::Reply(greeting()),
            step@ matches StepView::Read(pending) ==> inside(self.root_bytes(), pending.file),
    {
        proof {
            target_is_inside_root(self.root_bytes(), relative_of(path.spec_bytes()));
            index_file_is_inside_root(self.root_bytes());
        }
        let bytes = path.as_bytes();
        match route(bytes) {
            Route::Greeting => Step::Reply(
                Reply {
                    status: 200,
                    content_type: Some("text/plain; charset=utf-8".to_owned()),
                    body: slice_to_vec("Hi from /foo".as_bytes()),
                },
            ),
            _ => match resolve(self.root.as_str(), relative(bytes)) {
                Some(file) => Step::Read(Pending { file, stage: Stage::Asset }),
                None => self.ask_for_index(),
            },
        }
    }

    /// Takes what the caller found for the read `pending` and says what to
    /// do next.
    pub fn resume(&self, pending: Pending, found: Lookup) -> (step: Step)
        ensures
            step@ == next_step(self.root_bytes(), pending@, found@),
            step@ matches StepView::Read(next) ==> inside(self.root_bytes(), next.file),
    {
        proof {
            index_file_is_inside_root(self.root_bytes());
        }
        match found {
            Lookup::Found(body) => {
                let media = match pending.stage {
                    Stage::Asset => media_type(pending.file.as_str()),
                    Stage::Index => "text/html".to_owned(),
                };
                Step::Reply(Reply { status: 200, content_type: Some(media), body })
            },
            Lookup::Failed => Step::Reply(
                Reply { status: 500, content_type: None, body: Vec::new() },
            ),
            Lookup::Missing => match pending.stage {
                Stage::Asset => self.ask_for_index(),
                Stage::Index => Step::Reply(
                    Reply { status: 404, content_type: None, body: Vec::new() },
                ),
            },
        }
    }
}

} // verus!
