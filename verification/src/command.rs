//! The structured command a raw input line parses to, and the parser itself.
//!
//! Parsing is total: every line yields exactly one command. The line is split
//! at its first whitespace character into the command name and the argument
//! string; the argument string is trimmed. An unknown name becomes an
//! external program invocation, never a parse error.

use crate::number::{exit_code_of, parse_i32_or_zero, parse_i32_spec};
use crate::text::{first_ws, is_shell_ws, is_ws_char, lemma_first_ws_at, str_eq, trim_spec,
    trim_str};
use vstd::prelude::*;
use vstd::string::*;

verus! {

/// One parsed input line: a built-in with its argument, or an external
/// program with its raw (trimmed) argument string.
#[derive(Debug, Clone)]
pub enum ShellCommand {
    Exit(i32),
    Echo(String),
    Type(String),
    Program(String, String),
    Pwd,
    Cd(String),
}

/// The mathematical value of a [`ShellCommand`]: the same shape over
/// character sequences and unbounded integers.
pub enum ShellCommandView {
    Exit(int),
    Echo(Seq<char>),
    Type(Seq<char>),
    Program(Seq<char>, Seq<char>),
    Pwd,
    Cd(Seq<char>),
}

impl View for ShellCommand {
    type V = ShellCommandView;

    open spec fn view(&self) -> ShellCommandView {
        match self {
            ShellCommand::Exit(n) => ShellCommandView::Exit(*n as int),
            ShellCommand::Echo(t) => ShellCommandView::Echo(t@),
            ShellCommand::Type(t) => ShellCommandView::Type(t@),
            ShellCommand::Program(n, a) => ShellCommandView::Program(n@, a@),
            ShellCommand::Pwd => ShellCommandView::Pwd,
            ShellCommand::Cd(t) => ShellCommandView::Cd(t@),
        }
    }
}

/// The command name of a line: everything before the first whitespace
/// character, or the whole line if it has none.
pub open spec fn head_of(line: Seq<char>) -> Seq<char> {
    line.subrange(0, first_ws(line))
}

/// The raw argument string of a line: everything after the first whitespace
/// character, or empty if the line has none.
pub open spec fn tail_of(line: Seq<char>) -> Seq<char> {
    if first_ws(line) < line.len() {
        line.subrange(first_ws(line) + 1, line.len() as int)
    } else {
        Seq::empty()
    }
}

/// What a line parses to. The name dispatches case-sensitively among the
/// five built-ins; anything else is an external program. The `exit`
/// argument falls back to `0` where it is missing or not a number.
pub open spec fn parse_spec(line: Seq<char>) -> ShellCommandView {
    let name = head_of(line);
    let args = trim_spec(tail_of(line));
    if name == "exit"@ {
        ShellCommandView::Exit(exit_code_of(args))
    } else if name == "echo"@ {
        ShellCommandView::Echo(args)
    } else if name == "type"@ {
        ShellCommandView::Type(args)
    } else if name == "pwd"@ {
        ShellCommandView::Pwd
    } else if name == "cd"@ {
        ShellCommandView::Cd(args)
    } else {
        ShellCommandView::Program(name, args)
    }
}

/// Parse one raw input line into a command.
///
/// Parsing never fails: the result is `Some` for every input, and the
/// command is exactly [`parse_spec`] of the line.
pub fn parse_command(input: &str) -> (r: Option<ShellCommand>)
    ensures
        r matches Some(c) && c@ == parse_spec(input@),
{
    let len: usize = input.unicode_len();
    let mut i: usize = 0;
    while i < len && !is_ws_char(input.get_char(i))
        invariant
            0 <= i <= len,
            len == input@.len(),
            forall|k: int| 0 <= k < i ==> !is_shell_ws(input@[k]),
        decreases len - i,
    {
        i = i + 1;
    }
    proof {
        lemma_first_ws_at(input@, i as int);
    }
    let head = input.substring_char(0, i);
    let tail = if i < len {
        input.substring_char(i + 1, len)
    } else {
        proof {
            reveal_strlit("");
            assert(""@ =~= Seq::<char>::empty());
        }
        ""
    };
    proof {
        assert(head@ == head_of(input@));
        assert(tail@ == tail_of(input@));
    }
    let args_str = trim_str(tail);
    let args = String::from_str(args_str);
    if str_eq(head, "exit") {
        Some(ShellCommand::Exit(parse_i32_or_zero(args_str)))
    } else if str_eq(head, "echo") {
        Some(ShellCommand::Echo(args))
    } else if str_eq(head, "type") {
        Some(ShellCommand::Type(args))
    } else if str_eq(head, "pwd") {
        Some(ShellCommand::Pwd)
    } else if str_eq(head, "cd") {
        Some(ShellCommand::Cd(args))
    } else {
        Some(ShellCommand::Program(String::from_str(head), args))
    }
}

/// The `exit` argument policy: a numeric argument is the exit code, and a
/// missing or non-numeric one defaults to code `0`.
pub proof fn lemma_exit_argument_policy(line: Seq<char>)
    requires
        head_of(line) == "exit"@,
    ensures
        parse_i32_spec(trim_spec(tail_of(line))) matches Some(v) ==> parse_spec(line)
            == ShellCommandView::Exit(v),
        parse_i32_spec(trim_spec(tail_of(line))) is None ==> parse_spec(line)
            == ShellCommandView::Exit(0),
{
}

/// The `echo` argument policy: everything after the first whitespace
/// character is passed through exactly as it stands, up to the leading and
/// trailing trim — internal spacing is never collapsed.
pub proof fn lemma_echo_argument_policy(line: Seq<char>)
    requires
        head_of(line) == "echo"@,
    ensures
        parse_spec(line) == ShellCommandView::Echo(trim_spec(tail_of(line))),
{
    reveal_strlit("exit");
    reveal_strlit("echo");
    assert(("exit"@)[1] != ("echo"@)[1]);
}

} // verus!
