//! Unsigned decimal numbers in text.

use vstd::prelude::*;
use crate::chars::to_chars;

verus! {

/// The value of a decimal digit.
pub open spec fn digit_value(c: char) -> Option<nat> {
    if '0' <= c && c <= '9' {
        Some((c as u32 - '0' as u32) as nat)
    } else {
        None
    }
}

/// The number that a string of decimal digits writes, leading zeros allowed;
/// the empty string writes zero.
pub open spec fn digits_value(s: Seq<char>) -> Option<nat>
    decreases s.len(),
{
    if s.len() == 0 {
        Some(0)
    } else {
        match (digits_value(s.drop_last()), digit_value(s.last())) {
            (Some(high), Some(low)) => Some(10 * high + low),
            _ => None,
        }
    }
}

/// The number that `s` writes: one decimal digit or more and nothing else,
/// no sign and no blank, with a value that fits in 32 bits.
pub open spec fn parse_u32_spec(s: Seq<char>) -> Option<u32> {
    if s.len() == 0 {
        None
    } else {
        match digits_value(s) {
            Some(v) => if v <= u32::MAX {
                Some(v as u32)
            } else {
                None
            },
            None => None,
        }
    }
}

/// The number that the characters of `text` from `from` up to `to` write.
pub fn parse_u32_range(text: &Vec<char>, from: usize, to: usize) -> (value: Option<u32>)
    requires
        from <= to <= text@.len(),
    ensures
        value == parse_u32_spec(text@.subrange(from as int, to as int)),
{
    let mut i: usize = from;
    let start = from;
    let ghost body = text@.subrange(start as int, to as int);
    if start == to {
        return None;
    }
    let mut acc: u64 = 0;
    let mut fits = true;
    while i < to
        invariant
            start <= i <= to <= text@.len(),
            body == text@.subrange(start as int, to as int),
            start == from,
            fits ==> digits_value(body.take(i - start)) == Some(acc as nat) && acc <= u32::MAX,
            !fits ==> match digits_value(body.take(i - start)) {
                Some(v) => v > u32::MAX,
                None => true,
            },
        decreases to - i,
    {
        let c = text[i];
        proof {
            let next = body.take(i - start + 1);
            assert(next.drop_last() =~= body.take(i - start));
            assert(next.last() == c);
        }
        if '0' <= c && c <= '9' {
            let d: u64 = (c as u32 - '0' as u32) as u64;
            if fits {
                acc = acc * 10 + d;
                if acc > 0xffff_ffff {
                    fits = false;
                }
            }
        } else {
            proof {
                let next = body.take(i - start + 1);
                assert(digits_value(next) is None);
                lemma_digits_none_extends(body, i - start + 1);
                assert(digits_value(body.take(body.len() as int)) is None);
                assert(body.take(body.len() as int) =~= body);
            }
            return None;
        }
        i += 1;
    }
    proof {
        assert(body.take(to - start) =~= body);
    }
    if fits {
        Some(acc as u32)
    } else {
        None
    }
}

/// Once a prefix of `s` writes no number, no longer prefix does.
pub proof fn lemma_digits_none_extends(s: Seq<char>, n: int)
    requires
        0 <= n <= s.len(),
        digits_value(s.take(n)) is None,
    ensures
        forall|m: int| n <= m <= s.len() ==> digits_value(#[trigger] s.take(m)) is None,
{
    assert forall|m: int| n <= m <= s.len() implies digits_value(#[trigger] s.take(m)) is None by {
        lemma_digits_none_step(s, n, m);
    }
}

proof fn lemma_digits_none_step(s: Seq<char>, n: int, m: int)
    requires
        0 <= n <= m <= s.len(),
        digits_value(s.take(n)) is None,
    ensures
        digits_value(s.take(m)) is None,
    decreases m - n,
{
    if m > n {
        lemma_digits_none_step(s, n, m - 1);
        assert(s.take(m).drop_last() =~= s.take(m - 1));
    }
}

/// The number that `number` writes, if it writes one that fits in 32 bits.
/// `id` names the avatar whose key holds the number and does not change the result.
pub fn decode_number(number: &str, id: &str) -> (value: Option<u32>)
    ensures
        value == parse_u32_spec(number@),
{
    let chars = to_chars(number);
    proof {
        assert(chars@.subrange(0, chars@.len() as int) =~= number@);
    }
    parse_u32_range(&chars, 0, chars.len())
}

} // verus!
