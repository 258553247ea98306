//! The command verbs and their typed, argument-checked command objects.
//!
//! Each verb validates its arguments in `build`, which is pure, and acts on
//! the tree in `execute`; an execution failure is reported in the result
//! and never aborts the session.

use vstd::prelude::*;

use crate::parser::{args_view, path_view, Argument, ArgV, SegV, SyntaxError};

mod cd_command;
mod ls_command;
mod mkdir_command;
mod rm_command;
mod rmdir_command;
mod touch_command;

pub use cd_command::CdCmd;
pub use ls_command::{LsCmd, LsEntry};
pub use mkdir_command::MkdirCmd;
pub use rm_command::RmCmd;
pub use rmdir_command::RmdirCmd;
pub use touch_command::TouchCmd;

verus! {

/// The verbs the interpreter understands.
#[derive(Debug, PartialEq, Eq, Structural, Clone, Copy)]
pub enum CommandType {
    Cd,
    Ls,
    Touch,
    Mkdir,
    Rm,
    Rmdir,
}

/// The mathematical shape of a built command: the verb with its compiled,
/// validated arguments.
#[verifier::ext_equal]
pub enum CmdV {
    Cd { path: Seq<SegV> },
    Ls { path: Seq<SegV> },
    Touch { path: Seq<SegV>, file_name: Seq<char>, size: usize },
    Mkdir { path: Seq<SegV>, dir_name: Seq<char> },
    Rm { path: Seq<SegV>, name: Seq<char> },
    Rmdir { path: Seq<SegV>, name: Seq<char> },
}

/// A failure reported by a command's execution; never fatal to the session.
#[derive(Debug, PartialEq, Eq, Structural, Clone, Copy)]
pub enum ExecError {
    /// The path did not resolve to a node.
    PathNotFound,
    /// The root cannot be the current directory.
    RootTarget,
    /// The resolved node is a file where a folder was needed.
    NotAFolder,
    /// No child with the given name was found on removal.
    NotFound,
    /// A file name cannot contain spaces.
    NameHasSpace,
    /// A name cannot be over twelve characters.
    NameTooLong,
    /// A file size must stay under four gigabytes.
    SizeTooLarge,
    /// A file cannot have size zero.
    SizeZero,
    /// A file extension must be exactly three characters.
    BadExtension,
    /// The folder's cached size cannot take this file's size.
    SizeOverflow,
    /// A folder less deep than the current directory cannot be removed.
    DepthOrder,
}

/// Validation of a `cd` line: exactly one argument, a path whose last step
/// is neither a file nor the bare root.
pub open spec fn spec_cd_build(args: Seq<ArgV>) -> Result<CmdV, SyntaxError> {
    if args.len() != 1 {
        Err(SyntaxError::InvalidArguments)
    } else {
        match args[0] {
            ArgV::Path(p) => {
                if p.len() == 0 {
                    Err(SyntaxError::InvalidType)
                } else if p.last() is File || p.last() is Root {
                    Err(SyntaxError::InvalidType)
                } else {
                    Ok(CmdV::Cd { path: p })
                }
            },
            _ => Err(SyntaxError::InvalidType),
        }
    }
}

/// Validation of an `ls` line: no argument lists the current directory; one
/// argument must be a path whose last step is neither a file nor the root.
pub open spec fn spec_ls_build(args: Seq<ArgV>) -> Result<CmdV, SyntaxError> {
    if args.len() != 1 && args.len() != 0 {
        Err(SyntaxError::InvalidArguments)
    } else if args.len() == 1 {
        match args[0] {
            ArgV::Path(p) => {
                if p.len() == 0 {
                    Err(SyntaxError::InvalidType)
                } else if p.last() is File || p.last() is Root {
                    Err(SyntaxError::InvalidType)
                } else {
                    Ok(CmdV::Ls { path: p })
                }
            },
            _ => Err(SyntaxError::InvalidType),
        }
    } else {
        Ok(CmdV::Ls { path: Seq::empty() })
    }
}

/// Validation of a `touch` line: a path whose last step is a file target,
/// and an optional size number (one kilobyte when absent). The command
/// keeps the path to the parent and the file name apart.
pub open spec fn spec_touch_build(args: Seq<ArgV>) -> Result<CmdV, SyntaxError> {
    if args.len() != 2 && args.len() != 1 {
        Err(SyntaxError::InvalidArguments)
    } else {
        match args[0] {
            ArgV::Path(p) => {
                if p.len() == 0 {
                    Err(SyntaxError::InvalidType)
                } else {
                    match p.last() {
                        SegV::File(file_name) => {
                            if args.len() == 2 {
                                match args[1] {
                                    ArgV::Number(n) => Ok(
                                        CmdV::Touch {
                                            path: p.drop_last(),
                                            file_name: file_name,
                                            size: n,
                                        },
                                    ),
                                    _ => Err(SyntaxError::InvalidType),
                                }
                            } else {
                                Ok(
                                    CmdV::Touch {
                                        path: p.drop_last(),
                                        file_name: file_name,
                                        size: 1,
                                    },
                                )
                            }
                        },
                        _ => Err(SyntaxError::InvalidType),
                    }
                }
            },
            _ => Err(SyntaxError::InvalidType),
        }
    }
}

/// Validation of a `mkdir` line: one path whose last step is a directory.
pub open spec fn spec_mkdir_build(args: Seq<ArgV>) -> Result<CmdV, SyntaxError> {
    if args.len() != 1 {
        Err(SyntaxError::InvalidArguments)
    } else {
        match args[0] {
            ArgV::Path(p) => {
                if p.len() == 0 {
                    Err(SyntaxError::InvalidType)
                } else {
                    match p.last() {
                        SegV::Dir(dir_name) => Ok(
                            CmdV::Mkdir { path: p.drop_last(), dir_name: dir_name },
                        ),
                        _ => Err(SyntaxError::InvalidType),
                    }
                }
            },
            _ => Err(SyntaxError::InvalidType),
        }
    }
}

/// Validation of an `rm` line: one path whose last step is a file target.
pub open spec fn spec_rm_build(args: Seq<ArgV>) -> Result<CmdV, SyntaxError> {
    if args.len() != 1 {
        Err(SyntaxError::InvalidArguments)
    } else {
        match args[0] {
            ArgV::Path(p) => {
                if p.len() == 0 {
                    Err(SyntaxError::InvalidType)
                } else {
                    match p.last() {
                        SegV::File(name) => Ok(CmdV::Rm { path: p.drop_last(), name: name }),
                        _ => Err(SyntaxError::InvalidType),
                    }
                }
            },
            _ => Err(SyntaxError::InvalidType),
        }
    }
}

/// Validation of an `rmdir` line: one path whose last step is a directory.
pub open spec fn spec_rmdir_build(args: Seq<ArgV>) -> Result<CmdV, SyntaxError> {
    if args.len() != 1 {
        Err(SyntaxError::InvalidArguments)
    } else {
        match args[0] {
            ArgV::Path(p) => {
                if p.len() == 0 {
                    Err(SyntaxError::InvalidType)
                } else {
                    match p.last() {
                        SegV::Dir(name) => Ok(CmdV::Rmdir { path: p.drop_last(), name: name }),
                        _ => Err(SyntaxError::InvalidType),
                    }
                }
            },
            _ => Err(SyntaxError::InvalidType),
        }
    }
}

/// Validation of a whole line's worth of arguments for the given verb.
pub open spec fn spec_build(ct: CommandType, args: Seq<ArgV>) -> Result<CmdV, SyntaxError> {
    match ct {
        CommandType::Cd => spec_cd_build(args),
        CommandType::Ls => spec_ls_build(args),
        CommandType::Touch => spec_touch_build(args),
        CommandType::Mkdir => spec_mkdir_build(args),
        CommandType::Rm => spec_rm_build(args),
        CommandType::Rmdir => spec_rmdir_build(args),
    }
}

/// Every verb's arity, as validation checks it: wrong argument counts are
/// refused before anything else is looked at.
pub open spec fn arity_ok(ct: CommandType, n: nat) -> bool {
    match ct {
        CommandType::Cd => n == 1,
        CommandType::Ls => n == 0 || n == 1,
        CommandType::Touch => n == 1 || n == 2,
        CommandType::Mkdir => n == 1,
        CommandType::Rm => n == 1,
        CommandType::Rmdir => n == 1,
    }
}

/// Building a command with the wrong number of arguments fails with the
/// arity error, whatever the arguments hold.
pub proof fn lemma_wrong_arity_fails(ct: CommandType, args: Seq<ArgV>)
    requires
        !arity_ok(ct, args.len()),
    ensures
        spec_build(ct, args) == Err::<CmdV, SyntaxError>(SyntaxError::InvalidArguments),
{
}

/// A built, executable command.
#[derive(Debug)]
pub enum Command {
    Cd(CdCmd),
    Ls(LsCmd),
    Touch(TouchCmd),
    Mkdir(MkdirCmd),
    Rm(RmCmd),
    Rmdir(RmdirCmd),
}

impl View for Command {
    type V = CmdV;

    open spec fn view(&self) -> CmdV {
        match self {
            Command::Cd(c) => CmdV::Cd { path: path_view(c.path@) },
            Command::Ls(c) => CmdV::Ls { path: path_view(c.path@) },
            Command::Touch(c) => CmdV::Touch {
                path: path_view(c.path@),
                file_name: c.file_name@,
                size: c.size,
            },
            Command::Mkdir(c) => CmdV::Mkdir {
                path: path_view(c.path@),
                dir_name: c.dir_name@,
            },
            Command::Rm(c) => CmdV::Rm { path: path_view(c.path@), name: c.name@ },
            Command::Rmdir(c) => CmdV::Rmdir { path: path_view(c.path@), name: c.name@ },
        }
    }
}

/// Builds one command: the verb, and the arguments collected for it.
pub struct CommandBuilder {
    /// The verb of the command to build.
    pub command_type: CommandType,
    /// The arguments supplied to the command.
    pub arguments: Vec<Argument>,
}

impl CommandBuilder {
    /// Start building a command of the given verb.
    pub fn new(command_type: CommandType) -> (r: Self)
        ensures
            r.command_type == command_type,
            r.arguments@ == Seq::<Argument>::empty(),
    {
        let r = CommandBuilder { command_type, arguments: Vec::new() };
        proof {
            assert(r.arguments@ =~= Seq::<Argument>::empty());
        }
        r
    }

    /// Add one argument to the command.
    pub fn add_argument(&mut self, arg: Argument)
        ensures
            final(self).command_type == old(self).command_type,
            final(self).arguments@ == old(self).arguments@.push(arg),
    {
        self.arguments.push(arg);
    }

    /// Validate the collected arguments and build the command.
    pub fn build(&self) -> (r: Result<Command, SyntaxError>)
        ensures
            ({
                let res = spec_build(self.command_type, args_view(self.arguments@));
                match r {
                    Ok(c) => res == Ok::<CmdV, SyntaxError>(c@),
                    Err(e) => res == Err::<CmdV, SyntaxError>(e),
                }
            }),
    {
        match self.command_type {
            CommandType::Cd => match CdCmd::build(self.arguments.as_slice()) {
                Ok(c) => Ok(Command::Cd(c)),
                Err(e) => Err(e),
            },
            CommandType::Ls => match LsCmd::build(self.arguments.as_slice()) {
                Ok(c) => Ok(Command::Ls(c)),
                Err(e) => Err(e),
            },
            CommandType::Touch => match TouchCmd::build(self.arguments.as_slice()) {
                Ok(c) => Ok(Command::Touch(c)),
                Err(e) => Err(e),
            },
            CommandType::Mkdir => match MkdirCmd::build(self.arguments.as_slice()) {
                Ok(c) => Ok(Command::Mkdir(c)),
                Err(e) => Err(e),
            },
            CommandType::Rm => match RmCmd::build(self.arguments.as_slice()) {
                Ok(c) => Ok(Command::Rm(c)),
                Err(e) => Err(e),
            },
            CommandType::Rmdir => match RmdirCmd::build(self.arguments.as_slice()) {
                Ok(c) => Ok(Command::Rmdir(c)),
                Err(e) => Err(e),
            },
        }
    }
}

} // verus!
