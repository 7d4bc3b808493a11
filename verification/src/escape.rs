//! Percent-escapes in URL paths.
//!
//! A `%` followed by two hexadecimal digits stands for the byte those digits
//! name. A `%` that is not followed by two such digits stands for itself.

use vstd::prelude::*;

verus! {

/// The byte `%`, which opens an escape.
pub const PERCENT: u8 = 37;

/// `b` is one of `0`-`9`, `A`-`F`, `a`-`f`.
pub open spec fn is_hex_digit(b: u8) -> bool {
    (48 <= b <= 57) || (65 <= b <= 70) || (97 <= b <= 102)
}

/// The number that the hexadecimal digit `b` stands for.
pub open spec fn hex_value(b: u8) -> int {
    if 48 <= b <= 57 {
        b - 48
    } else if 65 <= b <= 70 {
        b - 55
    } else {
        b - 87
    }
}

/// An escape starts at the front of `s`.
pub open spec fn opens_with_escape(s: Seq<u8>) -> bool {
    s.len() >= 3 && s[0] == PERCENT && is_hex_digit(s[1]) && is_hex_digit(s[2])
}

/// The byte that the escape at the front of `s` stands for.
pub open spec fn escaped_byte(s: Seq<u8>) -> u8
    recommends
        opens_with_escape(s),
{
    (16 * hex_value(s[1]) + hex_value(s[2])) as u8
}

/// `s` with every escape replaced by the byte it stands for.
pub open spec fn percent_decoded(s: Seq<u8>) -> Seq<u8>
    decreases s.len(),
{
    if s.len() == 0 {
        Seq::empty()
    } else if opens_with_escape(s) {
        seq![escaped_byte(s)] + percent_decoded(s.skip(3))
    } else {
        seq![s[0]] + percent_decoded(s.skip(1))
    }
}

/// The value of a hexadecimal digit, or `None` for any other byte.
pub fn hex_digit(b: u8) -> (value: Option<u8>)
    ensures
        value is Some <==> is_hex_digit(b),
        value matches Some(v) ==> v == hex_value(b) && v < 16,
{
    if 48 <= b && b <= 57 {
        Some(b - 48)
    } else if 65 <= b && b <= 70 {
        Some(b - 55)
    } else if 97 <= b && b <= 102 {
        Some(b - 87)
    } else {
        None
    }
}

/// Replaces every escape in `s` by the byte it stands for.
pub fn percent_decode(s: &[u8]) -> (out: Vec<u8>)
    ensures
        out@ == percent_decoded(s@),
{
    let mut out: Vec<u8> = Vec::new();
    let mut i: usize = 0;
    assert(out@ + percent_decoded(s@.skip(0)) =~= percent_decoded(s@)) by {
        assert(s@.skip(0) =~= s@);
    }
    while i < s.len()
        invariant
            i <= s.len(),
            percent_decoded(s@) == out@ + percent_decoded(s@.skip(i as int)),
        decreases s.len() - i,
    {
        let ghost rest = s@.skip(i as int);
        let mut byte: u8 = s[i];
        let mut width: usize = 1;
        if byte == PERCENT && s.len() - i >= 3 {
            match (hex_digit(s[i + 1]), hex_digit(s[i + 2])) {
                (Some(high), Some(low)) => {
                    byte = 16 * high + low;
                    width = 3;
                },
                _ => {},
            }
        }
        proof {
            assert(rest.skip(width as int) =~= s@.skip(i + width));
            assert(percent_decoded(rest) == seq![byte] + percent_decoded(rest.skip(width as int)));
            assert(out@.push(byte) + percent_decoded(s@.skip(i + width)) =~= out@ + percent_decoded(
                rest,
            ));
        }
        out.push(byte);
        i += width;
    }
    assert(percent_decoded(s@.skip(i as int)) =~= Seq::<u8>::empty());
    out
}

/// A path without escapes is its own decoding.
pub proof fn plain_text_decodes_to_itself(s: Seq<u8>)
    requires
        !s.contains(PERCENT),
    ensures
        percent_decoded(s) == s,
    decreases s.len(),
{
    if s.len() > 0 {
        assert(s[0] != PERCENT);
        assert forall|b: u8| s.skip(1).contains(b) implies s.contains(b) by {
            let k = choose|k: int| 0 <= k < s.skip(1).len() && s.skip(1)[k] == b;
            assert(s[k + 1] == b);
        }
        plain_text_decodes_to_itself(s.skip(1));
        assert(seq![s[0]] + s.skip(1) =~= s);
    } else {
        assert(percent_decoded(s) =~= s);
    }
}

} // verus!
