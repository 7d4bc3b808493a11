//! From the path of a request to the name of a file under the root directory.
//!
//! A path is cut at its slashes into parts. Empty parts and `.` parts leave
//! no trace, a `..` part disqualifies the whole path, and the parts that are
//! left are names: the file is the root directory followed by each name
//! behind a slash. Nothing else reaches a file name, so no request can name a
//! file outside the root directory.

use vstd::prelude::*;
use vstd::slice::{slice_subrange, slice_to_vec};
use vstd::string::StringSliceAdditionalSpecFns;
use vstd::utf8::*;

use crate::bytes::text_of;
use crate::escape::{percent_decode, percent_decoded};

verus! {

/// The byte `/`, which parts a path.
pub const SLASH: u8 = 47;

/// The byte `.`.
pub const DOT: u8 = 46;

/// How many bytes of `s` stand before its first slash: all of them if it has
/// none.
pub open spec fn first_slash(s: Seq<u8>) -> nat
    decreases s.len(),
{
    if s.len() == 0 || s[0] == SLASH {
        0
    } else {
        1 + first_slash(s.skip(1))
    }
}

/// The parts of `s` between its slashes, in order. A path without a slash is
/// one part; two slashes in a row have an empty part between them.
pub open spec fn pieces(s: Seq<u8>) -> Seq<Seq<u8>>
    decreases s.len(),
{
    let n = first_slash(s) as int;
    if n >= s.len() {
        seq![s]
    } else {
        seq![s.take(n)] + pieces(s.skip(n + 1))
    }
}

/// The part `..`, which would climb out of a directory.
pub open spec fn parent_part() -> Seq<u8> {
    seq![DOT, DOT]
}

/// A part that names nothing: the empty part and the part `.`.
pub open spec fn is_blank(part: Seq<u8>) -> bool {
    part.len() == 0 || part == seq![DOT]
}

/// A part that names a file or a directory.
pub open spec fn is_name(part: Seq<u8>) -> bool {
    !is_blank(part) && part != parent_part() && !part.contains(SLASH)
}

/// What one part adds to a file name: nothing if it is blank, else a slash
/// and the part.
pub open spec fn spelled(part: Seq<u8>) -> Seq<u8> {
    if is_blank(part) {
        Seq::empty()
    } else {
        seq![SLASH] + part
    }
}

/// The path below the root that `parts` spell: each part that is not blank,
/// behind a slash.
pub open spec fn trail(parts: Seq<Seq<u8>>) -> Seq<u8>
    decreases parts.len(),
{
    if parts.len() == 0 {
        Seq::empty()
    } else {
        trail(parts.drop_last()) + spelled(parts.last())
    }
}

/// The file under `root` that the request path `rel` names, if it names one.
///
/// It names none if one of its parts is `..`, if it has no part that is a
/// name, or if the file name would not be UTF-8 text.
pub open spec fn target(root: Seq<u8>, rel: Seq<u8>) -> Option<Seq<u8>> {
    let parts = pieces(percent_decoded(rel));
    let file = root + trail(parts);
    if parts.contains(parent_part()) || trail(parts).len() == 0 || !valid_utf8(file) {
        None
    } else {
        Some(file)
    }
}

/// `file` lies under `root`: it is `root` followed by one or more names, each
/// behind a slash.
pub open spec fn inside(root: Seq<u8>, file: Seq<u8>) -> bool {
    let below = file.skip(root.len() as int);
    &&& root.len() < file.len()
    &&& file.take(root.len() as int) == root
    &&& below[0] == SLASH
    &&& forall|k: int| 1 <= k < pieces(below).len() ==> is_name(#[trigger] pieces(below)[k])
}

/// Where the first slash is, told from the bytes before it.
pub proof fn first_slash_is_at(s: Seq<u8>, n: int)
    requires
        0 <= n <= s.len(),
        forall|k: int| 0 <= k < n ==> s[k] != SLASH,
        n == s.len() || s[n] == SLASH,
    ensures
        first_slash(s) == n,
    decreases n,
{
    if n > 0 {
        first_slash_is_at(s.skip(1), n - 1);
    }
}

/// The first slash lies within the path, and no slash stands before it.
pub proof fn first_slash_is_first(s: Seq<u8>)
    ensures
        first_slash(s) <= s.len(),
        forall|k: int| 0 <= k < first_slash(s) ==> s[k] != SLASH,
        first_slash(s) < s.len() ==> s[first_slash(s) as int] == SLASH,
    decreases s.len(),
{
    if s.len() > 0 && s[0] != SLASH {
        first_slash_is_first(s.skip(1));
        assert forall|k: int| 0 <= k < first_slash(s) implies s[k] != SLASH by {
            if k > 0 {
                assert(s.skip(1)[k - 1] == s[k]);
            }
        }
    }
}

/// Cutting at a slash: the part before it, then the parts of what follows.
pub proof fn pieces_at_slash(s: Seq<u8>, n: int)
    requires
        0 <= n < s.len(),
        forall|k: int| 0 <= k < n ==> s[k] != SLASH,
        s[n] == SLASH,
    ensures
        pieces(s) == seq![s.take(n)] + pieces(s.skip(n + 1)),
{
    first_slash_is_at(s, n);
}

/// A path without a slash is a single part.
pub proof fn pieces_without_slash(s: Seq<u8>)
    requires
        !s.contains(SLASH),
    ensures
        pieces(s) == seq![s],
{
    first_slash_is_at(s, s.len() as int);
}

/// No part holds a slash.
pub proof fn pieces_hold_no_slash(s: Seq<u8>)
    ensures
        forall|k: int| 0 <= k < pieces(s).len() ==> !(#[trigger] pieces(s)[k]).contains(SLASH),
    decreases s.len(),
{
    let n = first_slash(s) as int;
    first_slash_is_first(s);
    if n < s.len() {
        pieces_hold_no_slash(s.skip(n + 1));
        assert forall|k: int| 0 <= k < pieces(s).len() implies !(#[trigger] pieces(
            s,
        )[k]).contains(SLASH) by {
            if k > 0 {
                assert(pieces(s)[k] == pieces(s.skip(n + 1))[k - 1]);
            }
        }
    }
}

/// Appending a slash and a part without slashes appends that part to the
/// parts.
pub proof fn pieces_of_appended(s: Seq<u8>, part: Seq<u8>)
    requires
        !part.contains(SLASH),
    ensures
        pieces(s + seq![SLASH] + part) == pieces(s).push(part),
    decreases s.len(),
{
    let whole = s + seq![SLASH] + part;
    let n = first_slash(s) as int;
    first_slash_is_first(s);
    first_slash_is_at(whole, n);
    assert(whole.take(n) =~= s.take(n));
    if n == s.len() {
        assert(whole.skip(n + 1) =~= part);
        assert(s.take(n) =~= s);
        pieces_without_slash(part);
        assert(seq![s] + seq![part] =~= seq![s].push(part));
    } else {
        assert(whole.skip(n + 1) =~= s.skip(n + 1) + seq![SLASH] + part);
        pieces_of_appended(s.skip(n + 1), part);
        assert(seq![s.take(n)] + pieces(s.skip(n + 1)).push(part) =~= (seq![s.take(n)] + pieces(
            s.skip(n + 1),
        )).push(part));
    }
}

/// What parts without `..` spell is cut back into names: behind the empty
/// part in front of the first slash, every part is a name.
pub proof fn trail_is_made_of_names(parts: Seq<Seq<u8>>)
    requires
        forall|k: int| 0 <= k < parts.len() ==> !(#[trigger] parts[k]).contains(SLASH),
        !parts.contains(parent_part()),
    ensures
        trail(parts).len() > 0 ==> trail(parts)[0] == SLASH,
        pieces(trail(parts))[0].len() == 0,
        forall|k: int|
            1 <= k < pieces(trail(parts)).len() ==> is_name(#[trigger] pieces(trail(parts))[k]),
    decreases parts.len(),
{
    if parts.len() == 0 {
        assert(pieces(trail(parts)) =~= seq![Seq::<u8>::empty()]);
    } else {
        let front = parts.drop_last();
        let part = parts.last();
        assert forall|k: int| 0 <= k < front.len() implies !(#[trigger] front[k]).contains(
            SLASH,
        ) by {
            assert(front[k] == parts[k]);
        }
        assert(!front.contains(parent_part())) by {
            if front.contains(parent_part()) {
                let k = choose|k: int| 0 <= k < front.len() && front[k] == parent_part();
                assert(parts[k] == parent_part());
            }
        }
        trail_is_made_of_names(front);
        if is_blank(part) {
            assert(trail(parts) =~= trail(front));
        } else {
            assert(part != parent_part());
            assert(trail(parts) =~= trail(front) + seq![SLASH] + part);
            pieces_of_appended(trail(front), part);
        }
    }
}

/// Names are spelled and cut back without loss: behind the empty part in
/// front of the first slash, the parts of what they spell are the names.
pub proof fn pieces_of_trail(names: Seq<Seq<u8>>)
    requires
        forall|k: int| 0 <= k < names.len() ==> is_name(#[trigger] names[k]),
    ensures
        pieces(trail(names)) == seq![Seq::<u8>::empty()] + names,
    decreases names.len(),
{
    if names.len() == 0 {
        assert(pieces(trail(names)) =~= seq![Seq::<u8>::empty()] + names);
    } else {
        let front = names.drop_last();
        let name = names.last();
        assert forall|k: int| 0 <= k < front.len() implies is_name(#[trigger] front[k]) by {
            assert(front[k] == names[k]);
        }
        pieces_of_trail(front);
        assert(is_name(name));
        assert(trail(names) =~= trail(front) + seq![SLASH] + name);
        pieces_of_appended(trail(front), name);
        assert((seq![Seq::<u8>::empty()] + front).push(name) =~= seq![Seq::<u8>::empty()]
            + names);
    }
}

/// An empty part in front changes nothing in what the parts spell.
pub proof fn trail_skips_empty_front(parts: Seq<Seq<u8>>)
    ensures
        trail(seq![Seq::<u8>::empty()] + parts) == trail(parts),
    decreases parts.len(),
{
    let front = seq![Seq::<u8>::empty()];
    if parts.len() == 0 {
        assert(front + parts =~= front);
        assert(front.drop_last() =~= Seq::<Seq<u8>>::empty());
        assert(trail(front) =~= trail(front.drop_last()) + spelled(front.last()));
    } else {
        trail_skips_empty_front(parts.drop_last());
        assert((front + parts).drop_last() =~= front + parts.drop_last());
    }
}

/// Names spell at least a slash, and begin with one.
pub proof fn trail_of_names_begins_with_slash(names: Seq<Seq<u8>>)
    requires
        names.len() > 0,
        forall|k: int| 0 <= k < names.len() ==> is_name(#[trigger] names[k]),
    ensures
        trail(names).len() > 0,
        trail(names)[0] == SLASH,
    decreases names.len(),
{
    let front = names.drop_last();
    assert(is_name(names.last()));
    if front.len() > 0 {
        assert forall|k: int| 0 <= k < front.len() implies is_name(#[trigger] front[k]) by {
            assert(front[k] == names[k]);
        }
        trail_of_names_begins_with_slash(front);
    }
}

/// The file that a request path names lies under the root directory.
pub proof fn target_is_inside_root(root: Seq<u8>, rel: Seq<u8>)
    ensures
        target(root, rel) matches Some(file) ==> inside(root, file),
{
    if let Some(file) = target(root, rel) {
        let parts = pieces(percent_decoded(rel));
        pieces_hold_no_slash(percent_decoded(rel));
        trail_is_made_of_names(parts);
        assert(file.skip(root.len() as int) =~= trail(parts));
        assert(file.take(root.len() as int) =~= root);
    }
}

/// Adds to `file` what `part` spells, unless the part is `..`.
///
/// Returns whether the part was accepted. A refused part leaves `file` as it
/// was.
fn take_part(file: &mut Vec<u8>, part: &[u8]) -> (accepted: bool)
    ensures
        accepted == (part@ != parent_part()),
        accepted ==> final(file)@ == old(file)@ + spelled(part@),
        !accepted ==> final(file)@ == old(file)@,
{
    let n: usize = part.len();
    if n == 0 {
        assert(file@ + spelled(part@) =~= file@);
        return true;
    }
    if n == 1 && part[0] == DOT {
        assert(part@ =~= seq![DOT]);
        assert(file@ + spelled(part@) =~= file@);
        return true;
    }
    if n == 2 && part[0] == DOT && part[1] == DOT {
        assert(part@ =~= parent_part());
        return false;
    }
    assert(!is_blank(part@) && part@ != parent_part()) by {
        if part@ == seq![DOT] {
            assert(seq![DOT].len() == 1);
            assert(seq![DOT][0] == DOT);
        }
        if part@ == parent_part() {
            assert(parent_part().len() == 2);
            assert(parent_part()[0] == DOT && parent_part()[1] == DOT);
        }
    }
    let ghost before = file@;
    file.push(SLASH);
    file.extend_from_slice(part);
    assert(file@ =~= before + (seq![SLASH] + part@));
    true
}

/// The name of the file under `root` that the request path `rel` names.
///
/// `None` means that the path names no file: it holds a `..` part, or no name
/// at all, or bytes that are not text.
pub fn resolve(root: &str, rel: &[u8]) -> (file: Option<String>)
    ensures
        match file {
            Some(name) => target(root.spec_bytes(), rel@) == Some(encode_utf8(name@)),
            None => target(root.spec_bytes(), rel@) is None,
        },
        file matches Some(name) ==> inside(root.spec_bytes(), encode_utf8(name@)),
{
    proof {
        target_is_inside_root(root.spec_bytes(), rel@);
    }
    let decoded = percent_decode(rel);
    let d = decoded.as_slice();
    let base = root.as_bytes();
    let mut file: Vec<u8> = slice_to_vec(base);
    let ghost mut seen: Seq<Seq<u8>> = Seq::empty();
    let mut start: usize = 0;
    let mut i: usize = 0;
    assert(seen + pieces(d@.skip(0)) =~= pieces(d@)) by {
        assert(d@.skip(0) =~= d@);
    }
    assert(base@ + trail(seen) =~= base@);
    while i < d.len()
        invariant
            start <= i <= d.len(),
            d@ == percent_decoded(rel@),
            base@ == root.spec_bytes(),
            pieces(d@) == seen + pieces(d@.skip(start as int)),
            forall|k: int| start <= k < i ==> d@[k] != SLASH,
            !seen.contains(parent_part()),
            file@ == base@ + trail(seen),
        decreases d.len() - i,
    {
        if d[i] == SLASH {
            let part = slice_subrange(d, start, i);
            let ghost rest = d@.skip(start as int);
            proof {
                pieces_at_slash(rest, i - start);
                assert(rest.take(i - start) =~= part@);
                assert(rest.skip(i - start + 1) =~= d@.skip(i + 1));
                assert(pieces(d@) =~= seen.push(part@) + pieces(d@.skip(i + 1)));
            }
            if !take_part(&mut file, part) {
                assert(pieces(d@)[seen.len() as int] == parent_part());
                return None;
            }
            proof {
                assert(seen.push(part@).drop_last() =~= seen);
                assert(file@ =~= base@ + trail(seen.push(part@)));
                seen = seen.push(part@);
            }
            start = i + 1;
        }
        i += 1;
    }
    let part = slice_subrange(d, start, d.len());
    proof {
        assert(d@.skip(start as int) =~= part@);
        pieces_without_slash(part@);
        assert(pieces(d@) =~= seen.push(part@));
    }
    if !take_part(&mut file, part) {
        assert(pieces(d@)[seen.len() as int] == parent_part());
        return None;
    }
    proof {
        assert(seen.push(part@).drop_last() =~= seen);
        assert(file@ =~= base@ + trail(pieces(d@)));
    }
    if file.len() == base.len() {
        return None;
    }
    text_of(file)
}

} // verus!
