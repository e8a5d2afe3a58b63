//! The `type` built-in: classifying a command name as a shell built-in, as
//! an executable found on the search path, or as unrecognized, and building
//! the one line of output that classification yields.

use crate::message::{builtin_message, executable_message, not_found_message};
use crate::resolve::{first_match, first_true};
use crate::text::str_eq;
use vstd::prelude::*;
use vstd::string::*;

verus! {

/// How the `type` built-in classifies a command name.
#[derive(Debug, Clone)]
pub enum CommandType {
    BuiltIn,
    Executable(String, String),
    Unrecognized(String),
}

/// The mathematical value of a [`CommandType`]: for an executable, the
/// command name and the directory it was found in; for an unrecognized
/// name, the message reported for it.
pub enum CommandTypeView {
    BuiltIn,
    Executable(Seq<char>, Seq<char>),
    Unrecognized(Seq<char>),
}

impl View for CommandType {
    type V = CommandTypeView;

    open spec fn view(&self) -> CommandTypeView {
        match self {
            CommandType::BuiltIn => CommandTypeView::BuiltIn,
            CommandType::Executable(n, d) => CommandTypeView::Executable(n@, d@),
            CommandType::Unrecognized(m) => CommandTypeView::Unrecognized(m@),
        }
    }
}

/// The fixed set of built-in command names.
pub open spec fn is_builtin_name(name: Seq<char>) -> bool {
    name == "exit"@ || name == "echo"@ || name == "type"@ || name == "pwd"@ || name == "cd"@
}

/// Executable membership test for [`is_builtin_name`].
pub fn is_builtin(name: &str) -> (r: bool)
    ensures
        r == is_builtin_name(name@),
{
    str_eq(name, "exit") || str_eq(name, "echo") || str_eq(name, "type") || str_eq(name, "pwd")
        || str_eq(name, "cd")
}

/// What the `type` built-in decides for `name`: built-ins win over the
/// search path, and among the directories that hold the name the earliest
/// wins.
pub open spec fn classify_spec(
    name: Seq<char>,
    dirs: Seq<Seq<char>>,
    present: Seq<bool>,
) -> CommandTypeView {
    if is_builtin_name(name) {
        CommandTypeView::BuiltIn
    } else if exists|k: int| 0 <= k < present.len() && present[k] {
        CommandTypeView::Executable(name, dirs[first_true(present)])
    } else {
        CommandTypeView::Unrecognized(name + ": not found"@)
    }
}

/// Classify `name` against the built-in set and the search path.
/// `present[k]` says whether the directory `dirs[k]` holds a file named
/// `name`.
pub fn classify_command(name: &str, dirs: &Vec<String>, present: &Vec<bool>) -> (r: CommandType)
    requires
        dirs@.len() == present@.len(),
    ensures
        r@ == classify_spec(name@, dirs.deep_view(), present@),
{
    if is_builtin(name) {
        CommandType::BuiltIn
    } else {
        match first_match(present) {
            Some(i) => {
                proof {
                    assert(dirs.deep_view()[i as int] == dirs@[i as int]@);
                }
                CommandType::Executable(String::from_str(name), dirs[i].clone())
            },
            None => CommandType::Unrecognized(not_found_message(name)),
        }
    }
}

/// The one line of output the `type` built-in prints for `name`.
pub open spec fn type_output_spec(name: Seq<char>, dirs: Seq<Seq<char>>, present: Seq<bool>)
    -> Seq<char> {
    if is_builtin_name(name) {
        name + " is a shell builtin"@
    } else if exists|k: int| 0 <= k < present.len() && present[k] {
        name + " is "@ + dirs[first_true(present)] + "/"@ + name
    } else {
        name + ": not found"@
    }
}

/// Classify `name` and build the one line the `type` built-in prints.
pub fn get_command_type(name: &str, dirs: &Vec<String>, present: &Vec<bool>) -> (r: String)
    requires
        dirs@.len() == present@.len(),
    ensures
        r@ == type_output_spec(name@, dirs.deep_view(), present@),
{
    let t = classify_command(name, dirs, present);
    match t {
        CommandType::BuiltIn => builtin_message(name),
        CommandType::Executable(n, d) => executable_message(n.as_str(), d.as_str()),
        CommandType::Unrecognized(m) => m,
    }
}

} // verus!
