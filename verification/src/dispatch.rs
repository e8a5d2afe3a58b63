//! Dispatcher decisions that do not touch the outside world: where a `cd`
//! goes. The surrounding program performs the directory change itself and
//! reports failure with the exact message of
//! [`crate::message::cd_error_message`].

use crate::text::{first_ws, is_shell_ws, is_ws_char, lemma_first_ws_at, lemma_first_ws_bounds,
    str_eq};
use vstd::prelude::*;
use vstd::string::*;

verus! {

/// The whitespace-split argument tokens of a raw argument string: the
/// maximal runs of non-whitespace characters, in order. No quoting: an
/// argument can never contain whitespace.
pub open spec fn split_ws_spec(s: Seq<char>) -> Seq<Seq<char>>
    decreases s.len(),
    via split_ws_spec_decreases
{
    if s.len() == 0 {
        Seq::empty()
    } else if is_shell_ws(s[0]) {
        split_ws_spec(s.drop_first())
    } else {
        seq![s.subrange(0, first_ws(s))] + split_ws_spec(s.subrange(first_ws(s), s.len() as int))
    }
}

#[via_fn]
proof fn split_ws_spec_decreases(s: Seq<char>) {
    if s.len() > 0 && !is_shell_ws(s[0]) {
        lemma_first_ws_bounds(s.drop_first());
    }
}

/// Split a raw argument string on whitespace into the argument vector an
/// external command is spawned with.
pub fn split_args(s: &str) -> (r: Vec<String>)
    ensures
        r.deep_view() == split_ws_spec(s@),
{
    let len: usize = s.unicode_len();
    let mut out: Vec<String> = Vec::new();
    let mut i: usize = 0;
    proof {
        assert(out.deep_view() =~= Seq::<Seq<char>>::empty());
        assert(s@.subrange(0, len as int) =~= s@);
        assert(out.deep_view() + split_ws_spec(s@) =~= split_ws_spec(s@));
    }
    while i < len
        invariant
            0 <= i <= len,
            len == s@.len(),
            split_ws_spec(s@) == out.deep_view() + split_ws_spec(
                s@.subrange(i as int, len as int),
            ),
        decreases len - i,
    {
        if is_ws_char(s.get_char(i)) {
            proof {
                let t = s@.subrange(i as int, len as int);
                assert(t[0] == s@[i as int]);
                assert(t.drop_first() =~= s@.subrange(i + 1, len as int));
            }
            i = i + 1;
        } else {
            let start: usize = i;
            i = i + 1;
            while i < len && !is_ws_char(s.get_char(i))
                invariant
                    start < i <= len,
                    len == s@.len(),
                    forall|k: int| start <= k < i ==> !is_shell_ws(s@[k]),
                decreases len - i,
            {
                i = i + 1;
            }
            let seg = s.substring_char(start, i);
            let ghost old_out = out.deep_view();
            out.push(String::from_str(seg));
            proof {
                let t = s@.subrange(start as int, len as int);
                assert forall|k: int| 0 <= k < i - start implies !is_shell_ws(t[k]) by {
                    assert(t[k] == s@[k + start]);
                }
                if i < len {
                    assert(t[i - start] == s@[i as int]);
                }
                lemma_first_ws_at(t, i - start);
                assert(t.subrange(0, i - start) =~= seg@);
                assert(t.subrange(i - start, t.len() as int) =~= s@.subrange(
                    i as int,
                    len as int,
                ));
                assert(out.deep_view() =~= old_out.push(seg@));
                assert(out.deep_view() + split_ws_spec(s@.subrange(i as int, len as int))
                    =~= old_out + split_ws_spec(t));
            }
        }
    }
    proof {
        assert(s@.subrange(len as int, len as int) =~= Seq::<char>::empty());
        assert(out.deep_view() + split_ws_spec(Seq::<char>::empty()) =~= out.deep_view());
    }
    out
}

/// Where a `cd` argument leads: a bare `~` goes to the home directory, and
/// anything else is taken literally. A bare `~` with no home directory
/// known resolves nowhere and is reported as a user error, never a crash.
pub open spec fn cd_destination_spec(path: Seq<char>, home: Option<Seq<char>>) -> Option<
    Seq<char>,
> {
    if path == "~"@ {
        home
    } else {
        Some(path)
    }
}

/// Resolve the target directory of `cd path`, given the home directory if
/// the environment knows one.
pub fn cd_destination(path: &str, home: Option<&str>) -> (r: Option<String>)
    ensures
        (r is Some) == (cd_destination_spec(path@, home.deep_view()) is Some),
        r matches Some(d) ==> cd_destination_spec(path@, home.deep_view()) == Some(d@),
{
    if str_eq(path, "~") {
        match home {
            Some(h) => Some(String::from_str(h)),
            None => None,
        }
    } else {
        Some(String::from_str(path))
    }
}

} // verus!
