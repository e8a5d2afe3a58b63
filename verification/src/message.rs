//! The exact output lines the shell prints for the `type` and `cd`
//! built-ins and for an unresolvable external command. Each builder states
//! the full line, character for character, over the views.

use vstd::prelude::*;
use vstd::string::*;

verus! {

/// The `type` answer for a shell built-in.
pub fn builtin_message(name: &str) -> (r: String)
    ensures
        r@ == name@ + " is a shell builtin"@,
{
    let mut m = String::from_str(name);
    m.append(" is a shell builtin");
    m
}

/// The `type` answer for a command resolved to a directory of the search
/// path.
pub fn executable_message(name: &str, dir: &str) -> (r: String)
    ensures
        r@ == name@ + " is "@ + dir@ + "/"@ + name@,
{
    let mut m = String::from_str(name);
    m.append(" is ");
    m.append(dir);
    m.append("/");
    m.append(name);
    m
}

/// The `type` answer for a name that is neither a built-in nor found on the
/// search path.
pub fn not_found_message(name: &str) -> (r: String)
    ensures
        r@ == name@ + ": not found"@,
{
    let mut m = String::from_str(name);
    m.append(": not found");
    m
}

/// The report for an external command that resolved nowhere.
pub fn command_not_found_message(name: &str) -> (r: String)
    ensures
        r@ == name@ + ": command not found"@,
{
    let mut m = String::from_str(name);
    m.append(": command not found");
    m
}

/// The report for a `cd` whose target cannot be entered.
pub fn cd_error_message(path: &str) -> (r: String)
    ensures
        r@ == "cd: "@ + path@ + ": No such file or directory"@,
{
    let mut m = String::from_str("cd: ");
    m.append(path);
    m.append(": No such file or directory");
    m
}

} // verus!
