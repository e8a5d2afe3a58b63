//! Parsing a signed decimal integer, as the `exit` built-in needs it: an
//! optional sign, then at least one digit, rejecting anything else or any
//! value outside the 32-bit signed range.

use vstd::prelude::*;
use vstd::string::*;

verus! {

pub open spec fn is_ascii_digit_char(c: char) -> bool {
    '0' <= c && c <= '9'
}

pub open spec fn digit_val(c: char) -> int {
    c as u32 - 48
}

pub open spec fn all_digits(s: Seq<char>) -> bool {
    forall|i: int| 0 <= i < s.len() ==> is_ascii_digit_char(#[trigger] s[i])
}

/// The value of a sequence of decimal digits, most significant first.
pub open spec fn digits_val(s: Seq<char>) -> int
    decreases s.len(),
{
    if s.len() == 0 {
        0
    } else {
        10 * digits_val(s.drop_last()) + digit_val(s.last())
    }
}

/// `s` without its optional single leading sign.
pub open spec fn unsigned_part(s: Seq<char>) -> Seq<char> {
    if s.len() > 0 && (s[0] == '+' || s[0] == '-') {
        s.drop_first()
    } else {
        s
    }
}

pub open spec fn sign_of(s: Seq<char>) -> int {
    if s.len() > 0 && s[0] == '-' {
        -1
    } else {
        1
    }
}

/// What parsing `s` as an `i32` yields: `None` on an empty or malformed
/// number and on 32-bit overflow, the signed value otherwise.
pub open spec fn parse_i32_spec(s: Seq<char>) -> Option<int> {
    let body = unsigned_part(s);
    if body.len() > 0 && all_digits(body) {
        let v = sign_of(s) * digits_val(body);
        if i32::MIN as int <= v && v <= i32::MAX as int {
            Some(v)
        } else {
            None
        }
    } else {
        None
    }
}

/// The exit code a trimmed `exit` argument yields: its numeric value, or
/// `0` where it is missing or does not parse.
pub open spec fn exit_code_of(args: Seq<char>) -> int {
    match parse_i32_spec(args) {
        Some(v) => v,
        None => 0,
    }
}

pub proof fn lemma_digits_val_nonneg(s: Seq<char>)
    requires
        all_digits(s),
    ensures
        digits_val(s) >= 0,
    decreases s.len(),
{
    if s.len() > 0 {
        assert(is_ascii_digit_char(s[s.len() - 1]));
        assert forall|i: int| 0 <= i < s.drop_last().len() implies is_ascii_digit_char(
            #[trigger] s.drop_last()[i],
        ) by {
            assert(s.drop_last()[i] == s[i]);
        }
        lemma_digits_val_nonneg(s.drop_last());
    }
}

/// Appending one digit multiplies the value by ten and adds the digit.
pub proof fn lemma_digits_val_push(s: Seq<char>, c: char)
    ensures
        digits_val(s.push(c)) == 10 * digits_val(s) + digit_val(c),
{
    assert(s.push(c).drop_last() =~= s);
    assert(s.push(c).last() == c);
}

/// A prefix of a digit string never exceeds the whole string's value.
pub proof fn lemma_digits_val_prefix_le(s: Seq<char>, m: int)
    requires
        all_digits(s),
        0 <= m <= s.len(),
    ensures
        digits_val(s.subrange(0, m)) <= digits_val(s),
    decreases s.len() - m,
{
    if m == s.len() {
        assert(s.subrange(0, m) =~= s);
    } else {
        let p = s.subrange(0, m);
        let q = s.subrange(0, m + 1);
        assert(q =~= p.push(s[m]));
        lemma_digits_val_push(p, s[m]);
        assert forall|i: int| 0 <= i < p.len() implies is_ascii_digit_char(#[trigger] p[i]) by {
            assert(p[i] == s[i]);
        }
        lemma_digits_val_nonneg(p);
        assert(is_ascii_digit_char(s[m]));
        lemma_digits_val_prefix_le(s, m + 1);
    }
}

/// Parse `s` as a signed 32-bit integer; `None` exactly where
/// [`parse_i32_spec`] is `None`.
pub fn parse_i32(s: &str) -> (r: Option<i32>)
    ensures
        (r is Some) == (parse_i32_spec(s@) is Some),
        r matches Some(v) ==> parse_i32_spec(s@) == Some(v as int),
{
    let len: usize = s.unicode_len();
    let mut start: usize = 0;
    let mut neg = false;
    if len > 0 {
        let c0 = s.get_char(0);
        if c0 == '+' {
            start = 1;
        } else if c0 == '-' {
            neg = true;
            start = 1;
        }
    }
    proof {
        if start == 0 {
            assert(unsigned_part(s@) =~= s@.subrange(0, s@.len() as int));
        } else {
            assert(unsigned_part(s@) =~= s@.subrange(1, s@.len() as int));
        }
        assert(neg == (sign_of(s@) == -1));
    }
    let ghost body = unsigned_part(s@);
    if start == len {
        // No digits at all: an empty body never parses.
        return None;
    }
    let mut acc: u64 = 0;
    let mut j: usize = start;
    while j < len
        invariant
            start <= j <= len,
            len == s@.len(),
            start < len,
            body == s@.subrange(start as int, len as int),
            body == unsigned_part(s@),
            neg == (sign_of(s@) == -1),
            forall|k: int| start <= k < j ==> is_ascii_digit_char(#[trigger] s@[k]),
            acc == digits_val(s@.subrange(start as int, j as int)),
            acc <= 0x8000_0000u64,
        decreases len - j,
    {
        let c = s.get_char(j);
        if !('0' <= c && c <= '9') {
            // A non-digit inside the body: the body is not all digits.
            proof {
                assert(body[j - start] == s@[j as int]);
                assert(!all_digits(body));
            }
            return None;
        }
        let d: u64 = (c as u32 - 48) as u64;
        acc = acc * 10 + d;
        proof {
            let p = s@.subrange(start as int, j as int);
            assert(s@.subrange(start as int, j + 1) =~= p.push(s@[j as int]));
            lemma_digits_val_push(p, s@[j as int]);
        }
        j = j + 1;
        if acc > 0x8000_0000u64 {
            // Too many digits already: whatever follows, the magnitude can
            // only grow, so the value is outside the 32-bit range.
            proof {
                if all_digits(body) {
                    assert(body.subrange(0, j - start) =~= s@.subrange(start as int, j as int));
                    lemma_digits_val_prefix_le(body, j - start);
                }
            }
            return None;
        }
    }
    proof {
        assert(s@.subrange(start as int, j as int) =~= body);
        assert forall|k: int| 0 <= k < body.len() implies is_ascii_digit_char(
            #[trigger] body[k],
        ) by {
            assert(body[k] == s@[k + start]);
        }
    }
    if neg {
        let v: i64 = -(acc as i64);
        if v < i32::MIN as i64 {
            return None;
        }
        Some(v as i32)
    } else {
        if acc > i32::MAX as u64 {
            return None;
        }
        Some(acc as i32)
    }
}

/// Parse `s` as an `i32`, defaulting to `0` where it does not parse: the
/// lenient policy of the `exit` built-in.
pub fn parse_i32_or_zero(s: &str) -> (r: i32)
    ensures
        parse_i32_spec(s@) matches Some(v) ==> r as int == v,
        parse_i32_spec(s@) is None ==> r == 0,
{
    match parse_i32(s) {
        Some(v) => v,
        None => 0,
    }
}

} // verus!
