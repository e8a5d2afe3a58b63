//! Resolving an external command name against the search path: splitting
//! the colon-separated path variable into directories, and picking the
//! first directory that holds the command — earlier directories shadow
//! later ones.
//!
//! Whether a candidate file actually exists is a file-system question the
//! surrounding program answers; it hands the per-directory answers in as a
//! vector of booleans, and the first-match choice is made here.

use vstd::prelude::*;
use vstd::string::*;

verus! {

/// Index of the first `:` of `s`, or `s.len()` if none.
pub open spec fn first_colon(s: Seq<char>) -> int
    decreases s.len(),
{
    if s.len() == 0 {
        0
    } else if s[0] == ':' {
        0
    } else {
        1 + first_colon(s.drop_first())
    }
}

pub proof fn lemma_first_colon_bounds(s: Seq<char>)
    ensures
        0 <= first_colon(s) <= s.len(),
        forall|k: int| 0 <= k < first_colon(s) ==> s[k] != ':',
        first_colon(s) < s.len() ==> s[first_colon(s)] == ':',
    decreases s.len(),
{
    if s.len() > 0 && s[0] != ':' {
        lemma_first_colon_bounds(s.drop_first());
        assert forall|k: int| 0 <= k < first_colon(s) implies s[k] != ':' by {
            if k > 0 {
                assert(s.drop_first()[k - 1] == s[k]);
            }
        }
        if first_colon(s) < s.len() {
            assert(s.drop_first()[first_colon(s) - 1] == s[first_colon(s)]);
        }
    }
}

pub proof fn lemma_first_colon_at(s: Seq<char>, j: int)
    requires
        0 <= j <= s.len(),
        forall|k: int| 0 <= k < j ==> s[k] != ':',
        j < s.len() ==> s[j] == ':',
    ensures
        first_colon(s) == j,
    decreases s.len(),
{
    if s.len() > 0 && s[0] != ':' {
        assert forall|k: int| 0 <= k < j - 1 implies s.drop_first()[k] != ':' by {
            assert(s.drop_first()[k] == s[k + 1]);
        }
        if j - 1 < s.drop_first().len() {
            assert(s.drop_first()[j - 1] == s[j]);
        }
        lemma_first_colon_at(s.drop_first(), j - 1);
    }
}

/// The colon-separated segments of a search-path string. Every string has
/// at least one segment; empty segments are kept as they stand.
pub open spec fn split_path_spec(s: Seq<char>) -> Seq<Seq<char>>
    decreases s.len(),
    via split_path_spec_decreases
{
    if first_colon(s) < s.len() {
        seq![s.subrange(0, first_colon(s))] + split_path_spec(
            s.subrange(first_colon(s) + 1, s.len() as int),
        )
    } else {
        seq![s]
    }
}

#[via_fn]
proof fn split_path_spec_decreases(s: Seq<char>) {
    lemma_first_colon_bounds(s);
}

/// Split a search-path string on `:` into its directory entries, in order.
pub fn split_search_path(path: &str) -> (r: Vec<String>)
    ensures
        r.deep_view() == split_path_spec(path@),
{
    let len: usize = path.unicode_len();
    let mut out: Vec<String> = Vec::new();
    let mut start: usize = 0;
    let mut i: usize = 0;
    proof {
        assert(out.deep_view() =~= Seq::<Seq<char>>::empty());
        assert(path@.subrange(0, len as int) =~= path@);
        assert(out.deep_view() + split_path_spec(path@) =~= split_path_spec(path@));
    }
    while i < len
        invariant
            0 <= start <= i <= len,
            len == path@.len(),
            forall|k: int| start <= k < i ==> path@[k] != ':',
            split_path_spec(path@) == out.deep_view() + split_path_spec(
                path@.subrange(start as int, len as int),
            ),
        decreases len - i,
    {
        if path.get_char(i) == ':' {
            let seg = path.substring_char(start, i);
            let ghost old_out = out.deep_view();
            out.push(String::from_str(seg));
            proof {
                let t = path@.subrange(start as int, len as int);
                assert forall|k: int| 0 <= k < i - start implies t[k] != ':' by {
                    assert(t[k] == path@[k + start]);
                }
                assert(t[i - start] == path@[i as int]);
                lemma_first_colon_at(t, i - start);
                assert(t.subrange(0, i - start) =~= seg@);
                assert(t.subrange(i - start + 1, t.len() as int) =~= path@.subrange(
                    i + 1,
                    len as int,
                ));
                assert(out.deep_view() =~= old_out.push(seg@));
                assert(out.deep_view() + split_path_spec(path@.subrange(i + 1, len as int))
                    =~= old_out + split_path_spec(t));
            }
            i = i + 1;
            start = i;
        } else {
            i = i + 1;
        }
    }
    let seg = path.substring_char(start, len);
    let ghost old_out = out.deep_view();
    out.push(String::from_str(seg));
    proof {
        let t = path@.subrange(start as int, len as int);
        assert forall|k: int| 0 <= k < t.len() implies t[k] != ':' by {
            assert(t[k] == path@[k + start]);
        }
        lemma_first_colon_at(t, t.len() as int);
        assert(out.deep_view() =~= old_out.push(seg@));
        assert(out.deep_view() =~= old_out + split_path_spec(t));
    }
    out
}

/// Index of the first `true` of `s`, or `s.len()` if none.
pub open spec fn first_true(s: Seq<bool>) -> int
    decreases s.len(),
{
    if s.len() == 0 {
        0
    } else if s[0] {
        0
    } else {
        1 + first_true(s.drop_first())
    }
}

pub proof fn lemma_first_true_at(s: Seq<bool>, j: int)
    requires
        0 <= j <= s.len(),
        forall|k: int| 0 <= k < j ==> !s[k],
        j < s.len() ==> s[j],
    ensures
        first_true(s) == j,
    decreases s.len(),
{
    if s.len() > 0 && !s[0] {
        assert forall|k: int| 0 <= k < j - 1 implies !s.drop_first()[k] by {
            assert(s.drop_first()[k] == s[k + 1]);
        }
        if j - 1 < s.drop_first().len() {
            assert(s.drop_first()[j - 1] == s[j]);
        }
        lemma_first_true_at(s.drop_first(), j - 1);
    }
}

/// Pick the first directory that holds the command: `present[k]` says
/// whether the directory at index `k` of the search path holds it, and the
/// result is the earliest such index — first match wins.
pub fn first_match(present: &Vec<bool>) -> (r: Option<usize>)
    ensures
        (r is Some) == (exists|k: int| 0 <= k < present@.len() && present@[k]),
        r matches Some(i) ==> i as int == first_true(present@) && i < present@.len()
            && present@[i as int] && forall|k: int| 0 <= k < i ==> !present@[k],
{
    let n: usize = present.len();
    let mut i: usize = 0;
    while i < n
        invariant
            0 <= i <= n,
            n == present@.len(),
            forall|k: int| 0 <= k < i ==> !present@[k],
        decreases n - i,
    {
        if present[i] {
            proof {
                lemma_first_true_at(present@, i as int);
            }
            return Some(i);
        }
        i = i + 1;
    }
    None
}

/// The file-system path of the command `name` inside the directory `dir`.
pub fn candidate_path(dir: &str, name: &str) -> (r: String)
    ensures
        r@ == dir@ + "/"@ + name@,
{
    let mut p = String::from_str(dir);
    p.append("/");
    p.append(name);
    p
}

} // verus!
