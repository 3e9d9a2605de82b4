//! Turning the bytes of a key file into text: byte-order marks, UTF-8 and UTF-16.

use vstd::prelude::*;
use vstd::utf8::{decode_utf8, is_scalar, valid_utf8};
use crate::chars::string_of;

verus! {

/// The byte-order mark that a byte string starts with.
#[derive(Clone, Copy, Debug, PartialEq, Eq, Structural)]
pub enum BomKind {
    Null,
    Bocu1,
    Gb18030,
    Scsu,
    UtfEbcdic,
    Utf1,
    Utf7,
    Utf8,
    Utf16Be,
    Utf16Le,
    Utf32Be,
    Utf32Le,
}

/// `bytes` has at least `at + 1` bytes and the one at `at` is `b`.
pub open spec fn byte_is(bytes: Seq<u8>, at: int, b: u8) -> bool {
    at < bytes.len() && bytes[at] == b
}

/// The mark that `bytes` starts with. A mark is looked for only in two bytes or
/// more, and by the first byte: each first byte admits one mark, but `0xff`,
/// where the four-byte UTF-32 mark is preferred to the two-byte UTF-16 one.
pub open spec fn bom_of(bytes: Seq<u8>) -> BomKind {
    if bytes.len() < 2 {
        BomKind::Null
    } else if bytes[0] == 0x00 && bytes[1] == 0x00 && byte_is(bytes, 2, 0xfe) && byte_is(bytes, 3, 0xff) {
        BomKind::Utf32Be
    } else if bytes[0] == 0x0e && bytes[1] == 0xfe && byte_is(bytes, 2, 0xff) {
        BomKind::Scsu
    } else if bytes[0] == 0x2b && bytes[1] == 0x2f && byte_is(bytes, 2, 0x76) && (byte_is(bytes, 3, 0x38)
        || byte_is(bytes, 3, 0x39) || byte_is(bytes, 3, 0x2b) || byte_is(bytes, 3, 0x2f)) {
        BomKind::Utf7
    } else if bytes[0] == 0x84 && bytes[1] == 0x31 && byte_is(bytes, 2, 0x95) && byte_is(bytes, 3, 0x33) {
        BomKind::Gb18030
    } else if bytes[0] == 0xdd && bytes[1] == 0x73 && byte_is(bytes, 2, 0x66) && byte_is(bytes, 3, 0x73) {
        BomKind::UtfEbcdic
    } else if bytes[0] == 0xef && bytes[1] == 0xbb && byte_is(bytes, 2, 0xbf) {
        BomKind::Utf8
    } else if bytes[0] == 0xf7 && bytes[1] == 0x64 && byte_is(bytes, 2, 0x4c) {
        BomKind::Utf1
    } else if bytes[0] == 0xfb && bytes[1] == 0xee && byte_is(bytes, 2, 0x28) {
        BomKind::Bocu1
    } else if bytes[0] == 0xfe && bytes[1] == 0xff {
        BomKind::Utf16Be
    } else if bytes[0] == 0xff && bytes[1] == 0xfe {
        if byte_is(bytes, 2, 0x00) && byte_is(bytes, 3, 0x00) {
            BomKind::Utf32Le
        } else {
            BomKind::Utf16Le
        }
    } else {
        BomKind::Null
    }
}

/// Calls `unicode_bom::Bom::from` on a byte slice. The contract restates the
/// crate's table of marks: the result is the mark that `bom_of` gives.
#[verifier::external_body]
fn detect_bom(bytes: &[u8]) -> (kind: BomKind)
    ensures
        kind == bom_of(bytes@),
{
    match unicode_bom::Bom::from(bytes) {
        unicode_bom::Bom::Null => BomKind::Null,
        unicode_bom::Bom::Bocu1 => BomKind::Bocu1,
        unicode_bom::Bom::Gb18030 => BomKind::Gb18030,
        unicode_bom::Bom::Scsu => BomKind::Scsu,
        unicode_bom::Bom::UtfEbcdic => BomKind::UtfEbcdic,
        unicode_bom::Bom::Utf1 => BomKind::Utf1,
        unicode_bom::Bom::Utf7 => BomKind::Utf7,
        unicode_bom::Bom::Utf8 => BomKind::Utf8,
        unicode_bom::Bom::Utf16Be => BomKind::Utf16Be,
        unicode_bom::Bom::Utf16Le => BomKind::Utf16Le,
        unicode_bom::Bom::Utf32Be => BomKind::Utf32Be,
        unicode_bom::Bom::Utf32Le => BomKind::Utf32Le,
    }
}

/// The mark at the start of `bytes`.
pub fn bom_kind(bytes: &[u8]) -> (kind: BomKind)
    ensures
        kind == bom_of(bytes@),
{
    detect_bom(bytes)
}

/// The 16-bit unit that two bytes write: `high` counts 256-fold.
pub open spec fn unit_of(high: u8, low: u8) -> u16 {
    (high as int * 256 + low as int) as u16
}

/// The 16-bit units that `bytes` write, two bytes to a unit, the first byte of
/// each pair the high one if `be` and the low one if not. A last byte without
/// a partner makes a unit alone.
pub open spec fn units_of(bytes: Seq<u8>, be: bool) -> Seq<u16> {
    Seq::new(
        ((bytes.len() + 1) / 2) as nat,
        |k: int|
            if 2 * k + 1 < bytes.len() {
                if be {
                    unit_of(bytes[2 * k], bytes[2 * k + 1])
                } else {
                    unit_of(bytes[2 * k + 1], bytes[2 * k])
                }
            } else {
                bytes[2 * k] as u16
            },
    )
}

/// Pairs the bytes of `v` into 16-bit units, big-endian if `be` and
/// little-endian if not.
pub fn vecu8_to_vecu16(v: Vec<u8>, be: bool) -> (units: Vec<u16>)
    ensures
        units@ == units_of(v@, be),
{
    let mut units: Vec<u16> = Vec::new();
    let paired: usize = v.len() - v.len() % 2;
    let mut i: usize = 0;
    while i < paired
        invariant
            i <= paired <= v.len(),
            i % 2 == 0,
            paired % 2 == 0,
            units@.len() == i / 2,
            forall|k: int| 0 <= k < units@.len() ==> #[trigger] units@[k] == units_of(v@, be)[k],
        decreases paired - i,
    {
        let first: u16 = v[i] as u16;
        let second: u16 = v[i + 1] as u16;
        let unit: u16 = if be {
            first * 256 + second
        } else {
            second * 256 + first
        };
        units.push(unit);
        i += 2;
    }
    if paired != v.len() {
        units.push(v[paired] as u16);
    }
    proof {
        assert(units@ =~= units_of(v@, be));
    }
    units
}

/// A unit that is one half of a surrogate pair.
pub open spec fn is_surrogate(unit: u16) -> bool {
    0xd800 <= unit <= 0xdfff
}

/// The scalar value that a leading and a trailing surrogate write together.
pub open spec fn pair_scalar(lead: u16, trail: u16) -> u32 {
    (0x10000 + (lead - 0xd800) * 0x400 + (trail - 0xdc00)) as u32
}

/// The characters that `units` write in UTF-16, or `None` where a surrogate
/// stands without its partner.
pub open spec fn utf16_decode(units: Seq<u16>) -> Option<Seq<char>>
    decreases units.len(),
{
    if units.len() == 0 {
        Some(Seq::empty())
    } else if !is_surrogate(units[0]) {
        match utf16_decode(units.skip(1)) {
            Some(rest) => Some(seq![units[0] as u32 as char] + rest),
            None => None,
        }
    } else if units[0] <= 0xdbff && units.len() >= 2 && 0xdc00 <= units[1] <= 0xdfff {
        match utf16_decode(units.skip(2)) {
            Some(rest) => Some(seq![pair_scalar(units[0], units[1]) as char] + rest),
            None => None,
        }
    } else {
        None
    }
}

/// Calls `char::from_u32`: the character with the scalar value `scalar`, if
/// that is a scalar value (at most `0x10ffff` and no surrogate).
#[verifier::external_body]
fn char_of_scalar(scalar: u32) -> (c: Option<char>)
    ensures
        c == (if is_scalar(scalar) {
            Some(scalar as char)
        } else {
            None
        }),
{
    char::from_u32(scalar)
}

/// The text that `v` writes in UTF-16, or `None` where it is not well formed.
pub fn utf16_buf_to_str(v: Vec<u16>) -> (text: Option<String>)
    ensures
        match text {
            Some(t) => utf16_decode(v@) == Some(t@),
            None => utf16_decode(v@) is None,
        },
{
    let mut out: Vec<char> = Vec::new();
    let n = v.len();
    let mut i: usize = 0;
    proof {
        assert(v@.skip(0) =~= v@);
    }
    while i < n
        invariant
            i <= n,
            n == v@.len(),
            utf16_decode(v@) == match utf16_decode(v@.skip(i as int)) {
                Some(rest) => Some(out@ + rest),
                None => None,
            },
        decreases n - i,
    {
        let unit = v[i];
        let ghost here = v@.skip(i as int);
        let ghost before = out@;
        proof {
            assert(here[0] == unit);
        }
        if unit < 0xd800 || unit > 0xdfff {
            let scalar: u32 = unit as u32;
            match char_of_scalar(scalar) {
                Some(c) => {
                    out.push(c);
                    proof {
                        assert(here.skip(1) =~= v@.skip(i + 1));
                        match utf16_decode(v@.skip(i + 1)) {
                            Some(rest) => {
                                assert(before + (seq![c] + rest) =~= out@ + rest);
                            },
                            None => {},
                        }
                    }
                    i += 1;
                },
                None => {
                    return None;
                },
            }
        } else if unit <= 0xdbff && i + 1 < n && 0xdc00 <= v[i + 1] && v[i + 1] <= 0xdfff {
            let trail = v[i + 1];
            let scalar: u32 = 0x10000 + ((unit - 0xd800) as u32) * 0x400 + ((trail - 0xdc00) as u32);
            proof {
                assert(here[1] == trail);
                assert(scalar == pair_scalar(unit, trail));
            }
            match char_of_scalar(scalar) {
                Some(c) => {
                    out.push(c);
                    proof {
                        assert(here.skip(2) =~= v@.skip(i + 2));
                        match utf16_decode(v@.skip(i + 2)) {
                            Some(rest) => {
                                assert(before + (seq![c] + rest) =~= out@ + rest);
                            },
                            None => {},
                        }
                    }
                    i += 2;
                },
                None => {
                    return None;
                },
            }
        } else {
            proof {
                if i + 1 < n {
                    assert(here[1] == v@[i + 1]);
                }
            }
            return None;
        }
    }
    proof {
        assert(out@ + Seq::<char>::empty() =~= out@);
    }
    Some(string_of(&out))
}

/// Calls `String::from_utf8`: the text that `bytes` write in UTF-8, or `None`
/// where they are not valid UTF-8.
#[verifier::external_body]
fn string_from_utf8(bytes: Vec<u8>) -> (text: Option<String>)
    ensures
        match text {
            Some(t) => valid_utf8(bytes@) && t@ == decode_utf8(bytes@),
            None => !valid_utf8(bytes@),
        },
{
    String::from_utf8(bytes).ok()
}

/// The text that `bytes` write in UTF-8, or `None` where they are not valid.
pub open spec fn utf8_text(bytes: Seq<u8>) -> Option<Seq<char>> {
    if valid_utf8(bytes) {
        Some(decode_utf8(bytes))
    } else {
        None
    }
}

/// The text of a key file. Without a byte-order mark the bytes are UTF-8 as
/// they stand; a UTF-8 or UTF-16 mark is taken off and the rest decoded in
/// that encoding; every other mark is refused.
pub open spec fn decoded_text(bytes: Seq<u8>) -> Option<Seq<char>> {
    match bom_of(bytes) {
        BomKind::Null => utf8_text(bytes),
        BomKind::Utf8 => utf8_text(bytes.skip(3)),
        BomKind::Utf16Be => utf16_decode(units_of(bytes, true).skip(1)),
        BomKind::Utf16Le => utf16_decode(units_of(bytes, false).skip(1)),
        _ => None,
    }
}

/// The items of `v` from the place `n` on.
pub fn skip_items<T: Copy>(v: &Vec<T>, n: usize) -> (rest: Vec<T>)
    requires
        n <= v@.len(),
    ensures
        rest@ == v@.skip(n as int),
{
    let mut rest: Vec<T> = Vec::new();
    let mut i: usize = n;
    while i < v.len()
        invariant
            n <= i <= v.len(),
            rest@ == v@.subrange(n as int, i as int),
        decreases v.len() - i,
    {
        rest.push(v[i]);
        proof {
            assert(rest@ =~= v@.subrange(n as int, i + 1));
        }
        i += 1;
    }
    proof {
        assert(rest@ =~= v@.skip(n as int));
    }
    rest
}

/// Decodes the bytes of a key file to text.
pub fn vecu8_to_str(v: Vec<u8>) -> (text: Option<String>)
    ensures
        match text {
            Some(t) => decoded_text(v@) == Some(t@),
            None => decoded_text(v@) is None,
        },
{
    match detect_bom(v.as_slice()) {
        BomKind::Null => string_from_utf8(v),
        BomKind::Utf8 => {
            let rest = skip_items(&v, 3);
            string_from_utf8(rest)
        },
        BomKind::Utf16Be => {
            let units = vecu8_to_vecu16(v, true);
            let rest = skip_items(&units, 1);
            utf16_buf_to_str(rest)
        },
        BomKind::Utf16Le => {
            let units = vecu8_to_vecu16(v, false);
            let rest = skip_items(&units, 1);
            utf16_buf_to_str(rest)
        },
        _ => None,
    }
}

} // verus!
