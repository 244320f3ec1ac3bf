//! Command lines for child processes, and the operating systems that they differ on.
use std::path::PathBuf;

use vstd::prelude::*;

use crate::text::texts;

verus! {

/// Windows process creation flag: the child process gets no console window.
pub const CREATE_NO_WINDOW: u32 = 0x0800_0000;

/// The operating system that the program runs on, as far as its behaviour differs.
#[derive(Debug, Clone, Copy, PartialEq, Eq, Structural)]
pub enum Platform {
    Windows,
    Other,
}

/// `std::path::PathBuf`. Nothing is known of what is inside; a path is only handed through.
#[verifier::external_type_specification]
#[verifier::external_body]
pub struct ExPathBuf(PathBuf);

/// A child process to start: the program, its arguments in order, the directory that it is started
/// in where that is not the one of this process, and the Windows creation flags, if any.
#[derive(Debug)]
pub struct CommandLine<'a> {
    pub program: String,
    pub args: Vec<String>,
    pub directory: Option<&'a PathBuf>,
    pub creation_flags: Option<u32>,
}

/// A `CommandLine` with its strings as plain text.
pub ghost struct CommandLineView {
    pub program: Seq<char>,
    pub args: Seq<Seq<char>>,
    pub directory: Option<PathBuf>,
    pub creation_flags: Option<u32>,
}

impl<'a> View for CommandLine<'a> {
    type V = CommandLineView;

    open spec fn view(&self) -> CommandLineView {
        CommandLineView {
            program: self.program@,
            args: texts(self.args@),
            directory: match self.directory {
                Some(path) => Some(*path),
                None => None,
            },
            creation_flags: self.creation_flags,
        }
    }
}

} // verus!
