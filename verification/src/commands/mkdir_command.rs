//! The `mkdir` command: create a new, empty folder.

use vstd::prelude::*;

use crate::commands::{spec_mkdir_build, CmdV, ExecError};
use crate::parser::{args_view, clone_path_prefix, path_view, Argument, NodePath, NodePathSegment,
    SyntaxError};
use crate::tree::{spec_add, spec_resolve, Context, Node, NodeV};

verus! {

/// Creates a new empty folder under a resolved parent path; names over
/// twelve characters are refused.
#[derive(Debug)]
pub struct MkdirCmd {
    pub path: NodePath,
    pub dir_name: String,
}

impl MkdirCmd {
    /// Validate `arguments` and build the command (see [`spec_mkdir_build`]).
    pub fn build(arguments: &[Argument]) -> (r: Result<Self, SyntaxError>)
        ensures
            ({
                let res = spec_mkdir_build(args_view(arguments@));
                match r {
                    Ok(c) => res == Ok::<CmdV, SyntaxError>(
                        CmdV::Mkdir { path: path_view(c.path@), dir_name: c.dir_name@ },
                    ),
                    Err(e) => res == Err::<CmdV, SyntaxError>(e),
                }
            }),
    {
        if arguments.len() != 1 {
            return Err(SyntaxError::InvalidArguments);
        }
        let node_path = match &arguments[0] {
            Argument::Path(node_path) => node_path,
            _ => {
                return Err(SyntaxError::InvalidType);
            },
        };
        if node_path.len() == 0 {
            return Err(SyntaxError::InvalidType);
        }
        let dir_name = match &node_path[node_path.len() - 1] {
            NodePathSegment::Dir(name) => name.clone(),
            _ => {
                return Err(SyntaxError::InvalidType);
            },
        };
        let path = clone_path_prefix(node_path, node_path.len() - 1);
        proof {
            assert(path_view(node_path@).drop_last() =~= path_view(node_path@).subrange(
                0,
                node_path@.len() - 1,
            ));
        }
        Ok(MkdirCmd { path, dir_name })
    }

    /// Resolve the parent path and create the folder there. The name must
    /// fit in twelve characters; an unresolved path changes nothing, and a
    /// file cannot take the folder.
    pub fn execute(&self, ctx: &mut Context) -> (r: Result<(), ExecError>)
        requires
            old(ctx).wf(),
        ensures
            final(ctx).wf(),
            final(ctx).current_dir == old(ctx).current_dir,
            ({
                let a = old(ctx).arena();
                let res = spec_resolve(a, old(ctx).current_dir as int, path_view(self.path@));
                let fresh = NodeV::Folder {
                    name: self.dir_name@,
                    size: 0,
                    parent: 0,
                    children: Seq::<usize>::empty(),
                    depth: 0,
                };
                match r {
                    Ok(_) => self.dir_name@.len() <= 12 && (res matches Ok(t) && !(a[t] is File)
                        && final(ctx).arena() == spec_add(a, t, fresh)),
                    Err(e) => *final(ctx) == *old(ctx) && ((e == ExecError::NameTooLong
                        && self.dir_name@.len() > 12) || (self.dir_name@.len() <= 12 && ((e
                        == ExecError::PathNotFound && res is Err) || (e == ExecError::NotAFolder
                        && (res matches Ok(t) && a[t] is File))))),
                }
            }),
    {
        if self.dir_name.as_str().unicode_len() > 12 {
            return Err(ExecError::NameTooLong);
        }
        let target = match ctx.node_from_path(&self.path) {
            Ok(t) => t,
            Err(_) => {
                return Err(ExecError::PathNotFound);
            },
        };
        let new_dir = Node::new_folder(self.dir_name.as_str());
        match ctx.add(target, new_dir) {
            Ok(_) => Ok(()),
            Err(_) => Err(ExecError::NotAFolder),
        }
    }
}

} // verus!
