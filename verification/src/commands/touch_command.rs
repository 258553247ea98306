//! The `touch` command: create a new file of a given size.

use vstd::prelude::*;

use crate::commands::{spec_touch_build, CmdV, ExecError};
use crate::parser::{args_view, clone_path_prefix, path_view, Argument, NodePath, NodePathSegment,
    SyntaxError};
use crate::tree::{size_of, spec_add, spec_resolve, Context, Node, NodeV};

verus! {

/// The index of the last `.` strictly before position `i` of `name`; -1
/// when there is none.
pub open spec fn last_dot_before(name: Seq<char>, i: int) -> int
    decreases i,
{
    if i <= 0 {
        -1
    } else if name[i - 1] == '.' {
        i - 1
    } else {
        last_dot_before(name, i - 1)
    }
}

/// The length of the file name's extension: what follows the last dot, or
/// the whole name when it has no dot.
pub open spec fn spec_ext_len(name: Seq<char>) -> int {
    name.len() - 1 - last_dot_before(name, name.len() as int)
}

/// The policy checks a `touch` runs, in order, before it touches the tree:
/// no spaces in the name, the name at most twelve characters, the size
/// under four gigabytes and not zero, and an extension of exactly three
/// characters.
pub open spec fn spec_touch_check(name: Seq<char>, size: usize) -> Option<ExecError> {
    if name.contains(' ') {
        Some(ExecError::NameHasSpace)
    } else if name.len() > 12 {
        Some(ExecError::NameTooLong)
    } else if size >= 4194304 {
        Some(ExecError::SizeTooLarge)
    } else if size == 0 {
        Some(ExecError::SizeZero)
    } else if spec_ext_len(name) != 3 {
        Some(ExecError::BadExtension)
    } else {
        None
    }
}

/// Creates a new file under a resolved parent path, after the policy
/// checks of [`spec_touch_check`].
#[derive(Debug)]
pub struct TouchCmd {
    pub path: NodePath,
    pub file_name: String,
    pub size: usize,
}

impl TouchCmd {
    /// Validate `arguments` and build the command (see [`spec_touch_build`]).
    pub fn build(arguments: &[Argument]) -> (r: Result<Self, SyntaxError>)
        ensures
            ({
                let res = spec_touch_build(args_view(arguments@));
                match r {
                    Ok(c) => res == Ok::<CmdV, SyntaxError>(
                        CmdV::Touch {
                            path: path_view(c.path@),
                            file_name: c.file_name@,
                            size: c.size,
                        },
                    ),
                    Err(e) => res == Err::<CmdV, SyntaxError>(e),
                }
            }),
    {
        if arguments.len() != 2 && arguments.len() != 1 {
            return Err(SyntaxError::InvalidArguments);
        }
        let node_path = match &arguments[0] {
            Argument::Path(path) => path,
            _ => {
                return Err(SyntaxError::InvalidType);
            },
        };
        if node_path.len() == 0 {
            return Err(SyntaxError::InvalidType);
        }
        let file_name = match &node_path[node_path.len() - 1] {
            NodePathSegment::File(name) => name.clone(),
            _ => {
                return Err(SyntaxError::InvalidType);
            },
        };
        // the optional second argument is the size; one kilobyte otherwise
        let size: usize = if arguments.len() == 2 {
            match &arguments[1] {
                Argument::Number(n) => *n,
                _ => {
                    return Err(SyntaxError::InvalidType);
                },
            }
        } else {
            1
        };
        let path = clone_path_prefix(node_path, node_path.len() - 1);
        proof {
            assert(path_view(node_path@).drop_last() =~= path_view(node_path@).subrange(
                0,
                node_path@.len() - 1,
            ));
        }
        Ok(TouchCmd { path, file_name, size })
    }

    /// Run the policy checks, resolve the parent path, and create the file
    /// there. A file cannot take it, and a folder whose cached size cannot
    /// hold the sum is left untouched.
    pub fn execute(&self, ctx: &mut Context) -> (r: Result<(), ExecError>)
        requires
            old(ctx).wf(),
        ensures
            final(ctx).wf(),
            final(ctx).current_dir == old(ctx).current_dir,
            ({
                let a = old(ctx).arena();
                let res = spec_resolve(a, old(ctx).current_dir as int, path_view(self.path@));
                let check = spec_touch_check(self.file_name@, self.size);
                let fresh = NodeV::File {
                    name: self.file_name@,
                    size: self.size,
                    parent: 0,
                    depth: 0,
                };
                match r {
                    Ok(_) => check is None && (res matches Ok(t) && !(a[t] is File) && (a[
                        t
                    ] is Folder ==> size_of(a[t]) + self.size <= usize::MAX) && final(ctx).arena()
                        == spec_add(a, t, fresh)),
                    Err(e) => *final(ctx) == *old(ctx) && ((check == Some(e)) || (check is None && ((
                    e == ExecError::PathNotFound && res is Err) || (e == ExecError::NotAFolder && (
                    res matches Ok(t) && a[t] is File)) || (e == ExecError::SizeOverflow && (
                    res matches Ok(t) && a[t] is Folder && size_of(a[t]) + self.size
                        > usize::MAX))))),
                }
            }),
    {
        let name = self.file_name.as_str();
        let name_len = name.unicode_len();
        // no spaces in the name
        let mut j: usize = 0;
        while j < name_len
            invariant
                *ctx == *old(ctx),
                old(ctx).wf(),
                name_len == name@.len(),
                name@ == self.file_name@,
                j <= name_len,
                forall|i: int| 0 <= i < j ==> name@[i] != ' ',
            decreases name_len - j,
        {
            if name.get_char(j) == ' ' {
                proof {
                    assert(self.file_name@[j as int] == ' ');
                    assert(self.file_name@.contains(' '));
                }
                return Err(ExecError::NameHasSpace);
            }
            proof {
                let i = j as int;
                assert(name@[i] != ' ');
            }
            j += 1;
        }
        proof {
            assert(!self.file_name@.contains(' '));
        }
        if name_len > 12 {
            return Err(ExecError::NameTooLong);
        }
        if self.size >= 4194304 {
            return Err(ExecError::SizeTooLarge);
        }
        if self.size == 0 {
            return Err(ExecError::SizeZero);
        }
        // the extension runs from the last dot; without one, the whole name
        let mut i: usize = name_len;
        let mut last_dot: usize = 0;
        let mut found_dot = false;
        while i > 0
            invariant_except_break
                !found_dot,
                last_dot_before(name@, name_len as int) == last_dot_before(name@, i as int),
            invariant
                *ctx == *old(ctx),
                old(ctx).wf(),
                name_len == name@.len(),
                name@ == self.file_name@,
                i <= name_len,
            ensures
                *ctx == *old(ctx),
                name_len == name@.len(),
                name@ == self.file_name@,
                last_dot_before(name@, name_len as int) == (if found_dot {
                    last_dot as int
                } else {
                    -1
                }),
                found_dot ==> last_dot < name_len,
            decreases i,
        {
            if name.get_char(i - 1) == '.' {
                last_dot = i - 1;
                found_dot = true;
                proof {
                    assert(last_dot_before(name@, i as int) == i - 1);
                }
                break ;
            }
            i -= 1;
        }
        let ext_len = if found_dot {
            name_len - 1 - last_dot
        } else {
            name_len
        };
        proof {
            if !found_dot {
                assert(last_dot_before(name@, 0) == -1);
            }
            assert(ext_len == spec_ext_len(self.file_name@));
        }
        if ext_len != 3 {
            return Err(ExecError::BadExtension);
        }
        // create the new file under the resolved parent
        let target = match ctx.node_from_path(&self.path) {
            Ok(t) => t,
            Err(_) => {
                return Err(ExecError::PathNotFound);
            },
        };
        let (is_file, target_size) = match ctx.node(target) {
            Some(Node::File { .. }) => (true, 0),
            Some(Node::Folder { size, .. }) => (false, *size),
            _ => (false, 0),
        };
        if is_file {
            return Err(ExecError::NotAFolder);
        }
        if target_size > usize::MAX - self.size {
            return Err(ExecError::SizeOverflow);
        }
        let new_file = Node::new_file(self.file_name.as_str(), self.size);
        match ctx.add(target, new_file) {
            Ok(_) => Ok(()),
            Err(_) => Err(ExecError::NotAFolder),
        }
    }
}

} // verus!
