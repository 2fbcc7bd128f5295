//! The closed set of commands that the interpreter carries out itself.

use vstd::prelude::*;
use crate::text::str_eq;

verus! {

/// A command implemented by the interpreter rather than by a program on disk.
#[derive(Clone, Copy, Debug, PartialEq, Eq, Structural)]
pub enum Builtin {
    Pwd,
    Echo,
    Cd,
    Type,
    Exit,
}

/// The builtin that a word names, if any. The match is exact and
/// case-sensitive; no other spelling names a builtin.
pub open spec fn builtin_named(word: Seq<char>) -> Option<Builtin> {
    if word == "echo"@ {
        Some(Builtin::Echo)
    } else if word == "type"@ {
        Some(Builtin::Type)
    } else if word == "cd"@ {
        Some(Builtin::Cd)
    } else if word == "pwd"@ {
        Some(Builtin::Pwd)
    } else if word == "exit"@ {
        Some(Builtin::Exit)
    } else {
        None
    }
}

/// Classifies a command name as a builtin, or as none.
pub fn parse(command: &str) -> (kind: Option<Builtin>)
    ensures
        kind == builtin_named(command@),
{
    if str_eq(command, "echo") {
        Some(Builtin::Echo)
    } else if str_eq(command, "type") {
        Some(Builtin::Type)
    } else if str_eq(command, "cd") {
        Some(Builtin::Cd)
    } else if str_eq(command, "pwd") {
        Some(Builtin::Pwd)
    } else if str_eq(command, "exit") {
        Some(Builtin::Exit)
    } else {
        None
    }
}

} // verus!
