//! The commands that the interpreter performs itself.
//!
//! `exit`, `version` and `cd` are never spawned as processes. Every other
//! program name, whatever it is, is left to the operating system to find.

use vstd::prelude::*;
use vstd::string::*;

verus! {

/// What the first token of a segment asks for.
#[derive(Clone, Copy, Debug, PartialEq, Eq, Structural)]
pub enum Kind {
    /// There is no first token: the segment is empty.
    Empty,
    /// `exit`: end the interpreter.
    Exit,
    /// `version`: print the configured version.
    Version,
    /// `cd`: change the interpreter's working directory.
    ChangeDir,
    /// Anything else: a program to spawn.
    External,
}

/// The kind of command that `program` names.
pub open spec fn spec_classify(program: Seq<char>) -> Kind {
    if program.len() == 0 {
        Kind::Empty
    } else if program == "exit"@ {
        Kind::Exit
    } else if program == "version"@ {
        Kind::Version
    } else if program == "cd"@ {
        Kind::ChangeDir
    } else {
        Kind::External
    }
}

/// The directory that `cd` changes to: its first argument if it has one,
/// else the home directory if one is known, else the root of the file system.
pub open spec fn spec_cd_target(arguments: Seq<Seq<char>>, home: Option<Seq<char>>) -> Seq<char> {
    if arguments.len() > 0 {
        arguments[0]
    } else {
        match home {
            Some(directory) => directory,
            None => "/"@,
        }
    }
}

/// Tells the built-in commands from the programs to spawn.
pub fn classify(program: &String) -> (kind: Kind)
    ensures
        kind == spec_classify(program@),
{
    if program.as_str().is_empty() {
        Kind::Empty
    } else if *program == String::from_str("exit") {
        Kind::Exit
    } else if *program == String::from_str("version") {
        Kind::Version
    } else if *program == String::from_str("cd") {
        Kind::ChangeDir
    } else {
        Kind::External
    }
}

/// Picks the directory for `cd`.
pub fn cd_target(arguments: &Vec<String>, home: &Option<String>) -> (path: String)
    ensures
        path@ == spec_cd_target(arguments.deep_view(), home.deep_view()),
{
    if arguments.len() > 0 {
        arguments[0].clone()
    } else {
        match home {
            Some(directory) => directory.clone(),
            None => String::from_str("/"),
        }
    }
}

} // verus!
