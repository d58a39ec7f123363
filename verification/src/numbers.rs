//! Decimal integer parsing, the primitive behind attribute coercion.

use vstd::prelude::*;

verus! {

/// Whether `c` is an ASCII decimal digit.
pub open spec fn is_digit(c: char) -> bool {
    48 <= c as u32 && c as u32 <= 57
}

/// Whether every character of `s` is an ASCII decimal digit.
pub open spec fn all_digits(s: Seq<char>) -> bool {
    forall|i: int| 0 <= i < s.len() ==> is_digit(s[i])
}

/// The value of a run of decimal digits, most significant first.
pub open spec fn digits_value(s: Seq<char>) -> int
    decreases s.len(),
{
    if s.len() == 0 {
        0
    } else {
        digits_value(s.drop_last()) * 10 + (s.last() as u32 - 48)
    }
}

/// The integer denoted by `s`: an optional `+` or `-` sign followed by one or
/// more decimal digits, with a value in the signed 32-bit range. Any other
/// string denotes nothing.
pub open spec fn i32_of_str(s: Seq<char>) -> Option<int> {
    let signed = s.len() > 0 && (s[0] == '+' || s[0] == '-');
    let mag = if signed { s.subrange(1, s.len() as int) } else { s };
    if mag.len() == 0 || !all_digits(mag) {
        None
    } else {
        let v = if signed && s[0] == '-' { -digits_value(mag) } else { digits_value(mag) };
        if -0x8000_0000 <= v <= 0x7fff_ffff { Some(v) } else { None }
    }
}

proof fn lemma_digits_value_nonneg(s: Seq<char>)
    requires
        all_digits(s),
    ensures
        digits_value(s) >= 0,
    decreases s.len(),
{
    if s.len() > 0 {
        assert(all_digits(s.drop_last()));
        lemma_digits_value_nonneg(s.drop_last());
    }
}

/// Reading further digits never shrinks the value already accumulated.
proof fn lemma_digits_value_mono(s: Seq<char>, i: int)
    requires
        all_digits(s),
        0 <= i <= s.len(),
    ensures
        digits_value(s.subrange(0, i)) <= digits_value(s),
    decreases s.len() - i,
{
    if i == s.len() {
        assert(s.subrange(0, i) =~= s);
    } else {
        let p = s.subrange(0, i);
        let q = s.subrange(0, i + 1);
        assert(q.drop_last() =~= p);
        assert(all_digits(p));
        lemma_digits_value_nonneg(p);
        assert(digits_value(q) == digits_value(p) * 10 + (q.last() as u32 - 48));
        lemma_digits_value_mono(s, i + 1);
    }
}

/// Parses `s` as a signed 32-bit decimal integer, accepting exactly the
/// strings that `i32_of_str` gives a value: an optional sign, then one or
/// more digits, within the 32-bit signed range.
pub fn parse_i32(s: &str) -> (r: Option<i32>)
    ensures
        match r {
            Some(v) => i32_of_str(s@) == Some(v as int),
            None => i32_of_str(s@) is None,
        },
{
    let n = s.unicode_len();
    let signed = n > 0 && (s.get_char(0) == '+' || s.get_char(0) == '-');
    let neg = signed && s.get_char(0) == '-';
    let start: usize = if signed { 1 } else { 0 };
    let ghost mag = if signed { s@.subrange(1, n as int) } else { s@ };
    if start >= n {
        assert(mag.len() == 0);
        return None;
    }
    let mut acc: u64 = 0;
    let mut i: usize = start;
    while i < n
        invariant
            n == s@.len(),
            start <= i <= n,
            start == if signed { 1int } else { 0int },
            signed == (s@.len() > 0 && (s@[0] == '+' || s@[0] == '-')),
            neg == (signed && s@[0] == '-'),
            mag == if signed { s@.subrange(1, n as int) } else { s@ },
            mag.len() == n - start,
            forall|j: int| 0 <= j < mag.len() ==> mag[j] == s@[j + start],
            all_digits(mag.subrange(0, i - start)),
            acc == digits_value(mag.subrange(0, i - start)),
            acc <= 0x8000_0000,
        decreases n - i,
    {
        let c = s.get_char(i);
        let d = c as u32;
        let ghost pre = mag.subrange(0, i - start);
        let ghost cur = mag.subrange(0, i + 1 - start);
        assert(cur.drop_last() =~= pre);
        assert(cur.last() == s@[i as int]);
        if d < 48 || d > 57 {
            assert(!is_digit(mag[i - start]));
            return None;
        }
        acc = acc * 10 + (d - 48) as u64;
        assert(acc == digits_value(cur));
        if acc > 0x8000_0000 {
            proof {
                if all_digits(mag) {
                    lemma_digits_value_mono(mag, i + 1 - start);
                }
            }
            return None;
        }
        i += 1;
    }
    assert(mag.subrange(0, i - start) =~= mag);
    if neg {
        if acc == 0x8000_0000 {
            Some(-0x7fff_ffffi32 - 1)
        } else {
            Some(-(acc as i32))
        }
    } else {
        if acc <= 0x7fff_ffff {
            Some(acc as i32)
        } else {
            None
        }
    }
}

} // verus!
