//! The `rm` command: remove a file by name from a resolved parent.

use vstd::prelude::*;

use crate::commands::{spec_rm_build, CmdV, ExecError};
use crate::parser::{args_view, clone_path_prefix, path_view, Argument, NodePath, NodePathSegment,
    SyntaxError};
use crate::tree::{children_of, first_child_named_from, spec_remove_child_at, spec_resolve,
    Context};

verus! {

/// Removes the first child with the built name from the resolved parent.
#[derive(Debug)]
pub struct RmCmd {
    pub path: NodePath,
    pub name: String,
}

impl RmCmd {
    /// Validate `arguments` and build the command (see [`spec_rm_build`]).
    pub fn build(arguments: &[Argument]) -> (r: Result<Self, SyntaxError>)
        ensures
            ({
                let res = spec_rm_build(args_view(arguments@));
                match r {
                    Ok(c) => res == Ok::<CmdV, SyntaxError>(
                        CmdV::Rm { path: path_view(c.path@), name: c.name@ },
                    ),
                    Err(e) => res == Err::<CmdV, SyntaxError>(e),
                }
            }),
    {
        if arguments.len() != 1 {
            return Err(SyntaxError::InvalidArguments);
        }
        let node_path = match &arguments[0] {
            Argument::Path(node_path) => node_path,
            _ => {
                return Err(SyntaxError::InvalidType);
            },
        };
        if node_path.len() == 0 {
            return Err(SyntaxError::InvalidType);
        }
        let name = match &node_path[node_path.len() - 1] {
            NodePathSegment::File(name) => name.clone(),
            _ => {
                return Err(SyntaxError::InvalidType);
            },
        };
        let path = clone_path_prefix(node_path, node_path.len() - 1);
        proof {
            assert(path_view(node_path@).drop_last() =~= path_view(node_path@).subrange(
                0,
                node_path@.len() - 1,
            ));
        }
        Ok(RmCmd { path, name })
    }

    /// Resolve the parent path and detach the first child carrying the
    /// name; an unresolved path or an absent name changes nothing.
    pub fn execute(&self, ctx: &mut Context) -> (r: Result<(), ExecError>)
        requires
            old(ctx).wf(),
        ensures
            final(ctx).wf(),
            final(ctx).current_dir == old(ctx).current_dir,
            ({
                let a = old(ctx).arena();
                let res = spec_resolve(a, old(ctx).current_dir as int, path_view(self.path@));
                match r {
                    Ok(_) => res matches Ok(t) && ({
                        let k = first_child_named_from(a, children_of(a[t]), self.name@, 0);
                        &&& k < children_of(a[t]).len()
                        &&& final(ctx).arena() == spec_remove_child_at(a, t, k)
                    }),
                    Err(e) => *final(ctx) == *old(ctx) && ((e == ExecError::PathNotFound
                        && res is Err) || (e == ExecError::NotFound && (res matches Ok(t)
                        && first_child_named_from(a, children_of(a[t]), self.name@, 0)
                        == children_of(a[t]).len()))),
                }
            }),
    {
        let target = match ctx.node_from_path(&self.path) {
            Ok(t) => t,
            Err(_) => {
                return Err(ExecError::PathNotFound);
            },
        };
        match ctx.remove(target, self.name.as_str()) {
            Ok(_) => Ok(()),
            Err(_) => Err(ExecError::NotFound),
        }
    }
}

} // verus!
