//! Character-level text helpers shared by the parser and the dispatcher:
//! the shell's notion of whitespace, trimming, and string equality.

use vstd::prelude::*;
use vstd::string::*;

verus! {

/// Whitespace as this shell treats it: blank, tab, newline, carriage return.
pub open spec fn is_shell_ws(c: char) -> bool {
    c == ' ' || c == '\t' || c == '\n' || c == '\r'
}

/// Executable test for [`is_shell_ws`].
pub fn is_ws_char(c: char) -> (r: bool)
    ensures
        r == is_shell_ws(c),
{
    c == ' ' || c == '\t' || c == '\n' || c == '\r'
}

/// Index of the first whitespace character of `s`, or `s.len()` if none.
pub open spec fn first_ws(s: Seq<char>) -> int
    decreases s.len(),
{
    if s.len() == 0 {
        0
    } else if is_shell_ws(s[0]) {
        0
    } else {
        1 + first_ws(s.drop_first())
    }
}

pub proof fn lemma_first_ws_bounds(s: Seq<char>)
    ensures
        0 <= first_ws(s) <= s.len(),
        forall|k: int| 0 <= k < first_ws(s) ==> !is_shell_ws(s[k]),
        first_ws(s) < s.len() ==> is_shell_ws(s[first_ws(s)]),
    decreases s.len(),
{
    if s.len() > 0 && !is_shell_ws(s[0]) {
        lemma_first_ws_bounds(s.drop_first());
        assert forall|k: int| 0 <= k < first_ws(s) implies !is_shell_ws(s[k]) by {
            if k > 0 {
                assert(s.drop_first()[k - 1] == s[k]);
            }
        }
        if first_ws(s) < s.len() {
            assert(s.drop_first()[first_ws(s) - 1] == s[first_ws(s)]);
        }
    }
}

/// A position that is whitespace-free up to `j`, and whitespace (or the end)
/// at `j`, is exactly `first_ws`.
pub proof fn lemma_first_ws_at(s: Seq<char>, j: int)
    requires
        0 <= j <= s.len(),
        forall|k: int| 0 <= k < j ==> !is_shell_ws(s[k]),
        j < s.len() ==> is_shell_ws(s[j]),
    ensures
        first_ws(s) == j,
    decreases s.len(),
{
    if s.len() > 0 && !is_shell_ws(s[0]) {
        assert forall|k: int| 0 <= k < j - 1 implies !is_shell_ws(s.drop_first()[k]) by {
            assert(s.drop_first()[k] == s[k + 1]);
        }
        if j - 1 < s.drop_first().len() {
            assert(s.drop_first()[j - 1] == s[j]);
        }
        lemma_first_ws_at(s.drop_first(), j - 1);
    }
}

/// `s` without its leading whitespace.
pub open spec fn drop_leading_ws(s: Seq<char>) -> Seq<char>
    decreases s.len(),
{
    if s.len() > 0 && is_shell_ws(s[0]) {
        drop_leading_ws(s.drop_first())
    } else {
        s
    }
}

/// `s` without its trailing whitespace.
pub open spec fn drop_trailing_ws(s: Seq<char>) -> Seq<char>
    decreases s.len(),
{
    if s.len() > 0 && is_shell_ws(s.last()) {
        drop_trailing_ws(s.drop_last())
    } else {
        s
    }
}

/// `s` without leading and trailing whitespace: what `trim` returns.
pub open spec fn trim_spec(s: Seq<char>) -> Seq<char> {
    drop_trailing_ws(drop_leading_ws(s))
}

/// If everything before `a` is whitespace and `a` is the end or a
/// non-whitespace character, the leading whitespace ends exactly at `a`.
pub proof fn lemma_drop_leading_ws_at(s: Seq<char>, a: int)
    requires
        0 <= a <= s.len(),
        forall|k: int| 0 <= k < a ==> is_shell_ws(s[k]),
        a < s.len() ==> !is_shell_ws(s[a]),
    ensures
        drop_leading_ws(s) == s.subrange(a, s.len() as int),
    decreases s.len(),
{
    if a == 0 {
        assert(s.subrange(0, s.len() as int) =~= s);
    } else {
        assert(is_shell_ws(s[0]));
        assert forall|k: int| 0 <= k < a - 1 implies is_shell_ws(s.drop_first()[k]) by {
            assert(s.drop_first()[k] == s[k + 1]);
        }
        if a - 1 < s.drop_first().len() {
            assert(s.drop_first()[a - 1] == s[a]);
        }
        lemma_drop_leading_ws_at(s.drop_first(), a - 1);
        assert(s.drop_first().subrange(a - 1, s.drop_first().len() as int) =~= s.subrange(
            a,
            s.len() as int,
        ));
    }
}

/// If everything from `b` on is whitespace and `b` is the start or preceded
/// by a non-whitespace character, the trailing whitespace starts exactly at `b`.
pub proof fn lemma_drop_trailing_ws_at(s: Seq<char>, b: int)
    requires
        0 <= b <= s.len(),
        forall|k: int| b <= k < s.len() ==> is_shell_ws(s[k]),
        b > 0 ==> !is_shell_ws(s[b - 1]),
    ensures
        drop_trailing_ws(s) == s.subrange(0, b),
    decreases s.len(),
{
    if b == s.len() {
        if s.len() > 0 {
            assert(!is_shell_ws(s.last()));
        }
        assert(s.subrange(0, s.len() as int) =~= s);
    } else {
        assert(is_shell_ws(s.last()));
        assert forall|k: int| b <= k < s.drop_last().len() implies is_shell_ws(
            s.drop_last()[k],
        ) by {
            assert(s.drop_last()[k] == s[k]);
        }
        lemma_drop_trailing_ws_at(s.drop_last(), b);
        assert(s.drop_last().subrange(0, b) =~= s.subrange(0, b));
    }
}

/// Trim leading and trailing whitespace from `s`.
pub fn trim_str(s: &str) -> (r: &str)
    ensures
        r@ == trim_spec(s@),
{
    let len: usize = s.unicode_len();
    let mut a: usize = 0;
    while a < len && is_ws_char(s.get_char(a))
        invariant
            0 <= a <= len,
            len == s@.len(),
            forall|k: int| 0 <= k < a ==> is_shell_ws(s@[k]),
        decreases len - a,
    {
        a = a + 1;
    }
    proof {
        lemma_drop_leading_ws_at(s@, a as int);
    }
    if a == len {
        proof {
            reveal_strlit("");
            assert(s@.subrange(a as int, s@.len() as int) =~= ""@);
        }
        ""
    } else {
        let mut b: usize = len;
        while b > a + 1 && is_ws_char(s.get_char(b - 1))
            invariant
                a < b <= len,
                len == s@.len(),
                forall|k: int| b <= k < len ==> is_shell_ws(s@[k]),
            decreases b,
        {
            b = b - 1;
        }
        // Here either `b == a + 1` (a single leading non-whitespace char) or
        // `s[b-1]` is not whitespace; both pin the trailing run at `b`.
        let r = s.substring_char(a, b);
        proof {
            let t = s@.subrange(a as int, s@.len() as int);
            assert forall|k: int| (b - a) <= k < t.len() implies is_shell_ws(t[k]) by {
                assert(t[k] == s@[k + a]);
            }
            if b > a + 1 {
                assert(t[b - a - 1] == s@[b - 1]);
            } else {
                assert(t[0] == s@[a as int]);
            }
            lemma_drop_trailing_ws_at(t, b - a);
            assert(t.subrange(0, b - a) =~= s@.subrange(a as int, b as int));
        }
        r
    }
}

/// Whether a line is blank, i.e. trims to nothing; blank lines are filtered
/// out before the parser ever runs.
pub fn is_blank(s: &str) -> (r: bool)
    ensures
        r == (trim_spec(s@).len() == 0),
{
    trim_str(s).is_empty()
}

/// Character-for-character string equality, decided against the views.
pub fn str_eq(a: &str, b: &str) -> (r: bool)
    ensures
        r == (a@ == b@),
{
    let la: usize = a.unicode_len();
    let lb: usize = b.unicode_len();
    if la != lb {
        return false;
    }
    let mut i: usize = 0;
    while i < la
        invariant
            0 <= i <= la,
            la == a@.len(),
            la == b@.len(),
            forall|k: int| 0 <= k < i ==> a@[k] == b@[k],
        decreases la - i,
    {
        if a.get_char(i) != b.get_char(i) {
            return false;
        }
        i = i + 1;
    }
    proof {
        assert(a@ =~= b@);
    }
    true
}

} // verus!
