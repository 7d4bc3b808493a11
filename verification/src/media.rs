//! The media type of a file, told from the extension of its name.

use vstd::prelude::*;
use vstd::slice::{slice_subrange, slice_to_vec};
use vstd::string::StringSliceAdditionalSpecFns;
use vstd::utf8::*;

use crate::bytes::text_of;
use crate::path::{DOT, SLASH};

verus! {

/// Where the last part of the path `file` begins: behind its last slash, or
/// at the front if it has none.
pub open spec fn base_start(file: Seq<u8>) -> nat
    decreases file.len(),
{
    if file.len() == 0 || file.last() == SLASH {
        file.len()
    } else {
        base_start(file.drop_last())
    }
}

/// Where the last dot of `name` stands: -1 if it has none.
pub open spec fn last_dot(name: Seq<u8>) -> int
    decreases name.len(),
{
    if name.len() == 0 {
        -1
    } else if name.last() == DOT {
        name.len() - 1
    } else {
        last_dot(name.drop_last())
    }
}

/// The extension of the file name at the end of the path `file`: what stands
/// behind the last dot of that name. A name without a dot has none, and so
/// has a name whose only dot is its first byte; both give the empty
/// extension.
pub open spec fn extension(file: Seq<u8>) -> Seq<u8> {
    let name = file.skip(base_start(file) as int);
    let dot = last_dot(name);
    if dot <= 0 {
        Seq::empty()
    } else {
        name.skip(dot + 1)
    }
}

/// A guess of `mime_guess`: the media types that a file may have, in the
/// order of its table. Nothing is known of it but what `guesses` names.
#[verifier::external_type_specification]
#[verifier::external_body]
pub struct ExMimeGuess(mime_guess::MimeGuess);

/// The media types that the table of known extensions holds for
/// `extension`, in its order: none for an extension that it does not know.
pub uninterp spec fn known_media_types(extension: Seq<char>) -> Seq<Seq<char>>;

/// The media types that a guess holds, in its order.
pub uninterp spec fn guesses(guess: mime_guess::MimeGuess) -> Seq<Seq<char>>;

/// Trusted: `mime_guess::from_ext` looks the extension up in a table that is
/// compiled into that crate, so the guess depends on the extension alone.
/// The contract gives what the guess holds a name and claims nothing else
/// of it.
pub assume_specification[ mime_guess::from_ext ](ext: &str) -> (guess: mime_guess::MimeGuess)
    ensures
        guesses(guess) == known_media_types(ext@),
;

/// Trusted: `MimeGuess::first_raw` returns the first media type of the
/// guess, and `None` for a guess that holds none.
pub assume_specification[ mime_guess::MimeGuess::first_raw ](
    guess: &mime_guess::MimeGuess,
) -> (first: Option<&'static str>)
    ensures
        match first {
            Some(media) => guesses(*guess).len() > 0 && media@ == guesses(*guess)[0],
            None => guesses(*guess).len() == 0,
        },
;

/// The media type of a file whose extension says nothing.
pub open spec fn unknown_media_type() -> Seq<char> {
    "application/octet-stream"@
}

/// The first of `types`, or `application/octet-stream` where there is none.
pub open spec fn first_or_unknown(types: Seq<Seq<char>>) -> Seq<char> {
    if types.len() > 0 {
        types[0]
    } else {
        unknown_media_type()
    }
}

/// The media type of the file `file`: the first that its extension is known
/// for, else `application/octet-stream`.
pub open spec fn media_type_of(file: Seq<u8>) -> Seq<char> {
    let ext = extension(file);
    if ext.len() == 0 || !valid_utf8(ext) {
        unknown_media_type()
    } else {
        first_or_unknown(known_media_types(decode_utf8(ext)))
    }
}

/// Where the last part begins, told from the bytes around it.
pub proof fn base_start_is_at(file: Seq<u8>, b: int)
    requires
        0 <= b <= file.len(),
        b == 0 || file[b - 1] == SLASH,
        forall|k: int| b <= k < file.len() ==> file[k] != SLASH,
    ensures
        base_start(file) == b,
    decreases file.len(),
{
    if b < file.len() {
        base_start_is_at(file.drop_last(), b);
    }
}

/// Where the last dot stands, told from the bytes around it.
pub proof fn last_dot_is_at(name: Seq<u8>, d: int)
    requires
        -1 <= d < name.len(),
        d >= 0 ==> name[d] == DOT,
        forall|k: int| d < k < name.len() ==> name[k] != DOT,
    ensures
        last_dot(name) == d,
    decreases name.len(),
{
    if d + 1 < name.len() {
        last_dot_is_at(name.drop_last(), d);
    }
}

/// The extension of the file name at the end of `file`.
pub fn extension_of(file: &[u8]) -> (ext: &[u8])
    ensures
        ext@ == extension(file@),
{
    let n: usize = file.len();
    let mut b: usize = n;
    while b > 0 && file[b - 1] != SLASH
        invariant
            b <= n,
            n == file.len(),
            forall|k: int| b <= k < n ==> file@[k] != SLASH,
        decreases b,
    {
        b -= 1;
    }
    let mut d: usize = n;
    while d > b && file[d - 1] != DOT
        invariant
            b <= d <= n,
            n == file.len(),
            forall|k: int| d <= k < n ==> file@[k] != DOT,
        decreases d,
    {
        d -= 1;
    }
    proof {
        base_start_is_at(file@, b as int);
        last_dot_is_at(file@.skip(b as int), d - b - 1);
    }
    if d - b <= 1 {
        slice_subrange(file, n, n)
    } else {
        assert(file@.skip(b as int).skip(d - b) =~= file@.subrange(d as int, n as int));
        slice_subrange(file, d, n)
    }
}

/// The media type to announce when the first media type of a guess is
/// `first`: that one, or `application/octet-stream` where there is none.
pub fn announced(first: Option<&str>) -> (media: String)
    ensures
        media@ == match first {
            Some(known) => known@,
            None => unknown_media_type(),
        },
{
    match first {
        Some(known) => known.to_owned(),
        None => "application/octet-stream".to_owned(),
    }
}

/// The media type to announce for the file named `file`.
pub fn media_type(file: &str) -> (media: String)
    ensures
        media@ == media_type_of(file.spec_bytes()),
{
    let ext = extension_of(file.as_bytes());
    if ext.len() == 0 {
        return announced(None);
    }
    match text_of(slice_to_vec(ext)) {
        Some(text) => {
            proof {
                encode_utf8_decode_utf8(text@);
            }
            let guess = mime_guess::from_ext(text.as_str());
            announced(guess.first_raw())
        },
        None => announced(None),
    }
}

} // verus!
