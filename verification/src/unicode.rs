//! Repair of strings that carry a misencoded UTF-16 byte-order mark.
//!
//! Some upstream string payloads are UTF-16 data that was read as if it were
//! UTF-8, leaving the two-codepoint prefix `U+00FF U+00FE` (or the reverse)
//! where the byte-order mark used to be. [`fix_unicode_string`] detects that
//! prefix, drops its four UTF-8 bytes, and reinterprets the remaining bytes
//! as UTF-16 in the indicated endianness; if they do not parse, it yields a
//! single `U+FFFD` replacement character.

use vstd::prelude::*;
use vstd::utf8::encode_utf8;
use vstd::utf8::is_scalar;

verus! {

/// Byte order of the UTF-16 payload being repaired.
#[derive(Copy, Clone, PartialEq, Eq, Debug, Structural)]
pub enum Endian {
    Little,
    Big,
}

/// The 16-bit unit formed by two consecutive bytes.
pub open spec fn spec_unit(b0: u8, b1: u8, endian: Endian) -> u16 {
    match endian {
        Endian::Little => (b0 + 256 * b1) as u16,
        Endian::Big => (256 * b0 + b1) as u16,
    }
}

/// The 16-bit units of an even-length byte sequence.
pub open spec fn units_of(b: Seq<u8>, endian: Endian) -> Seq<u16>
    recommends
        b.len() % 2 == 0,
{
    Seq::new((b.len() / 2) as nat, |i: int| spec_unit(b[2 * i], b[2 * i + 1], endian))
}

pub open spec fn is_high_surrogate(u: u16) -> bool {
    0xD800 <= u < 0xDC00
}

pub open spec fn is_low_surrogate(u: u16) -> bool {
    0xDC00 <= u < 0xE000
}

/// The scalar value encoded by a surrogate pair.
pub open spec fn combine_surrogates(hi: u16, lo: u16) -> u32
    recommends
        is_high_surrogate(hi),
        is_low_surrogate(lo),
{
    (0x10000 + (hi - 0xD800) * 0x400 + (lo - 0xDC00)) as u32
}

/// UTF-16 decoding of a unit sequence; `None` when the sequence is not
/// well-formed (a lone or misordered surrogate).
pub open spec fn decode_utf16(units: Seq<u16>) -> Option<Seq<char>>
    decreases units.len(),
{
    if units.len() == 0 {
        Some(Seq::empty())
    } else if !is_high_surrogate(units[0]) && !is_low_surrogate(units[0]) {
        match decode_utf16(units.skip(1)) {
            Some(rest) => Some(seq![(units[0] as u32) as char] + rest),
            None => None,
        }
    } else if is_high_surrogate(units[0]) && units.len() >= 2 && is_low_surrogate(units[1]) {
        match decode_utf16(units.skip(2)) {
            Some(rest) => Some(seq![combine_surrogates(units[0], units[1]) as char] + rest),
            None => None,
        }
    } else {
        None
    }
}

/// The characters read from an even number of bytes taken as UTF-16 units;
/// `None` on odd length or ill-formed units.
pub open spec fn spec_parse_utf16(b: Seq<u8>, endian: Endian) -> Option<Seq<char>> {
    if b.len() % 2 == 0 {
        decode_utf16(units_of(b, endian))
    } else {
        None
    }
}

/// The repaired tail: its UTF-16 reading, or one replacement character.
pub open spec fn spec_fix_from(b: Seq<u8>, endian: Endian) -> Seq<char> {
    match spec_parse_utf16(b, endian) {
        Some(chars) => chars,
        None => seq!['\u{FFFD}'],
    }
}

/// True when the UTF-8 bytes start with `U+00FF U+00FE` misencoded as text
/// (`first`/`second` are the low bytes of the two codepoints, in order).
pub open spec fn spec_has_broken_bom(b: Seq<u8>, first: u8, second: u8) -> bool {
    b.len() >= 4 && b[0] == 0xC3 && b[1] == first && b[2] == 0xC3 && b[3] == second
}

/// What [`fix_unicode_string`] returns, over the UTF-8 bytes of the input.
pub open spec fn spec_fix_unicode(s: Seq<char>) -> Seq<char> {
    let b = encode_utf8(s);
    if spec_has_broken_bom(b, 0xBF, 0xBE) {
        spec_fix_from(b.skip(4), Endian::Little)
    } else if spec_has_broken_bom(b, 0xBE, 0xBF) {
        spec_fix_from(b.skip(4), Endian::Big)
    } else {
        s
    }
}

/// Relies on std's `String::push`: appends exactly the given character.
#[verifier::external_body]
pub(crate) fn push_char(s: &mut String, c: char)
    ensures
        final(s)@ == old(s)@.push(c),
{
    s.push(c);
}

/// Relies on std's `char::from_u32`: `Some` exactly for Unicode scalar
/// values, returning the character with that code.
#[verifier::external_body]
pub(crate) fn char_from_u32(u: u32) -> (r: Option<char>)
    ensures
        r is Some <==> is_scalar(u),
        r is Some ==> r->Some_0 as u32 == u,
{
    char::from_u32(u)
}

/// Unfolds one step of [`decode_utf16`] at a basic-plane unit.
proof fn lemma_decode_step_bmp(us: Seq<u16>, i: int)
    requires
        0 <= i < us.len(),
        !is_high_surrogate(us[i]),
        !is_low_surrogate(us[i]),
    ensures
        decode_utf16(us.skip(i)) == match decode_utf16(us.skip(i + 1)) {
            Some(rest) => Some(seq![(us[i] as u32) as char] + rest),
            None => None::<Seq<char>>,
        },
{
    assert(us.skip(i).len() == us.len() - i);
    assert(us.skip(i)[0] == us[i]);
    assert(us.skip(i).skip(1) =~= us.skip(i + 1));
}

/// Unfolds one step of [`decode_utf16`] at a surrogate pair.
proof fn lemma_decode_step_pair(us: Seq<u16>, i: int)
    requires
        0 <= i,
        i + 1 < us.len(),
        is_high_surrogate(us[i]),
        is_low_surrogate(us[i + 1]),
    ensures
        decode_utf16(us.skip(i)) == match decode_utf16(us.skip(i + 2)) {
            Some(rest) => Some(seq![combine_surrogates(us[i], us[i + 1]) as char] + rest),
            None => None::<Seq<char>>,
        },
{
    assert(us.skip(i).len() == us.len() - i);
    assert(us.skip(i)[0] == us[i]);
    assert(us.skip(i)[1] == us[i + 1]);
    assert(us.skip(i).skip(2) =~= us.skip(i + 2));
}

/// Unfolds one step of [`decode_utf16`] at an ill-formed position.
proof fn lemma_decode_step_bad(us: Seq<u16>, i: int)
    requires
        0 <= i < us.len(),
        is_high_surrogate(us[i]) || is_low_surrogate(us[i]),
        is_high_surrogate(us[i]) ==> !(i + 1 < us.len() && is_low_surrogate(us[i + 1])),
    ensures
        decode_utf16(us.skip(i)) is None,
{
    assert(us.skip(i).len() == us.len() - i);
    assert(us.skip(i)[0] == us[i]);
    if i + 1 < us.len() {
        assert(us.skip(i)[1] == us[i + 1]);
    }
}

/// Reads an even number of bytes as UTF-16 units in the given byte order.
pub fn parse_utf16(data: &[u8], endian: Endian) -> (r: Result<String, ()>)
    ensures
        match r {
            Ok(s) => spec_parse_utf16(data@, endian) == Some(s@),
            Err(_) => spec_parse_utf16(data@, endian) is None,
        },
{
    let bytes = vstd::slice::slice_to_vec(data);
    let n = bytes.len();
    if n % 2 != 0 {
        return Err(());
    }
    let mut units: Vec<u16> = Vec::new();
    let mut i: usize = 0;
    while i < n / 2
        invariant
            bytes@ == data@,
            data@.len() == n,
            n % 2 == 0,
            i <= n / 2,
            units@.len() == i,
            forall|j: int|
                0 <= j < i ==> units@[j] == spec_unit(data@[2 * j], data@[2 * j + 1], endian),
        decreases n / 2 - i,
    {
        let b0 = bytes[2 * i];
        let b1 = bytes[2 * i + 1];
        let u: u16 = match endian {
            Endian::Little => b0 as u16 + 256 * (b1 as u16),
            Endian::Big => 256 * (b0 as u16) + b1 as u16,
        };
        units.push(u);
        i += 1;
    }
    proof {
        assert(units@ =~= units_of(data@, endian));
    }
    let ghost us = units@;
    let mut out = String::new();
    let mut i: usize = 0;
    proof {
        assert(us.skip(0) =~= us);
        if decode_utf16(us) is Some {
            assert(out@ + decode_utf16(us)->Some_0 =~= decode_utf16(us)->Some_0);
        }
    }
    while i < units.len()
        invariant
            units@ == us,
            i <= us.len(),
            spec_parse_utf16(data@, endian) == decode_utf16(us),
            decode_utf16(us) is Some <==> decode_utf16(us.skip(i as int)) is Some,
            decode_utf16(us) is Some ==> decode_utf16(us) == Some(
                out@ + decode_utf16(us.skip(i as int))->Some_0,
            ),
        decreases us.len() - i,
    {
        let u = units[i];
        let ghost j = i as int;
        let ghost out0 = out@;
        if u < 0xD800 || u >= 0xE000 {
            proof {
                lemma_decode_step_bmp(us, j);
            }
            match char_from_u32(u as u32) {
                Some(c) => {
                    proof {
                        vstd::utf8::char_u32_cast(c, u as u32);
                    }
                    push_char(&mut out, c);
                    i += 1;
                    proof {
                        if decode_utf16(us) is Some {
                            let rest = decode_utf16(us.skip(j + 1))->Some_0;
                            assert(out0 + (seq![c] + rest) =~= out@ + rest);
                        }
                    }
                },
                None => {
                    proof {
                        assert(is_scalar(u as u32));
                    }
                    return Err(());
                },
            }
        } else if u < 0xDC00 {
            if i + 1 < units.len() {
                let u2 = units[i + 1];
                if 0xDC00 <= u2 && u2 < 0xE000 {
                    proof {
                        lemma_decode_step_pair(us, j);
                    }
                    let c32: u32 = 0x10000 + (u as u32 - 0xD800) * 0x400 + (u2 as u32 - 0xDC00);
                    match char_from_u32(c32) {
                        Some(c) => {
                            proof {
                                vstd::utf8::char_u32_cast(c, c32);
                            }
                            push_char(&mut out, c);
                            i += 2;
                            proof {
                                if decode_utf16(us) is Some {
                                    let rest = decode_utf16(us.skip(j + 2))->Some_0;
                                    assert(out0 + (seq![c] + rest) =~= out@ + rest);
                                }
                            }
                        },
                        None => {
                            proof {
                                assert(is_scalar(c32));
                            }
                            return Err(());
                        },
                    }
                } else {
                    proof {
                        lemma_decode_step_bad(us, j);
                    }
                    return Err(());
                }
            } else {
                proof {
                    lemma_decode_step_bad(us, j);
                }
                return Err(());
            }
        } else {
            proof {
                lemma_decode_step_bad(us, j);
            }
            return Err(());
        }
    }
    proof {
        assert(us.skip(us.len() as int) =~= Seq::<u16>::empty());
        if decode_utf16(us) is Some {
            assert(out@ + Seq::<char>::empty() =~= out@);
        }
    }
    Ok(out)
}

/// Drops the four bytes of the misencoded byte-order mark and reads the rest
/// as UTF-16; any failure yields one replacement character.
pub fn remove_broken_bom_and_parse_utf16(bytes: &Vec<u8>, endian: Endian) -> (r: String)
    requires
        bytes@.len() >= 4,
    ensures
        r@ == spec_fix_from(bytes@.skip(4), endian),
{
    let tail = vstd::slice::slice_subrange(bytes.as_slice(), 4, bytes.len());
    match parse_utf16(tail, endian) {
        Ok(s) => s,
        Err(_) => {
            let mut r = String::new();
            push_char(&mut r, '\u{FFFD}');
            proof {
                assert(r@ =~= seq!['\u{FFFD}']);
            }
            r
        },
    }
}

/// Repairs a string whose bytes start with a misencoded UTF-16 byte-order
/// mark; any other string passes through unchanged.
pub fn fix_unicode_string(s: &str) -> (r: String)
    ensures
        r@ == spec_fix_unicode(s@),
{
    let bytes = s.as_bytes_vec();
    if bytes.len() >= 4 && bytes[0] == 0xC3 && bytes[1] == 0xBF && bytes[2] == 0xC3 && bytes[3]
        == 0xBE {
        remove_broken_bom_and_parse_utf16(&bytes, Endian::Little)
    } else if bytes.len() >= 4 && bytes[0] == 0xC3 && bytes[1] == 0xBE && bytes[2] == 0xC3
        && bytes[3] == 0xBF {
        remove_broken_bom_and_parse_utf16(&bytes, Endian::Big)
    } else {
        s.to_owned()
    }
}

} // verus!
