//! The `rmdir` command: remove a folder by name from a resolved parent.

use vstd::prelude::*;

use crate::commands::{spec_rmdir_build, CmdV, ExecError};
use crate::parser::{args_view, clone_path_prefix, path_view, Argument, NodePath, NodePathSegment,
    SyntaxError};
use crate::tree::{children_of, depth_of, first_child_named_from, spec_remove_child_at,
    spec_resolve, Context};

verus! {

/// Removes the first child with the built name from the resolved parent,
/// but refuses when that parent is less deep than the current directory.
#[derive(Debug)]
pub struct RmdirCmd {
    pub path: NodePath,
    pub name: String,
}

impl RmdirCmd {
    /// Validate `arguments` and build the command (see [`spec_rmdir_build`]).
    pub fn build(arguments: &[Argument]) -> (r: Result<Self, SyntaxError>)
        ensures
            ({
                let res = spec_rmdir_build(args_view(arguments@));
                match r {
                    Ok(c) => res == Ok::<CmdV, SyntaxError>(
                        CmdV::Rmdir { path: path_view(c.path@), name: c.name@ },
                    ),
                    Err(e) => res == Err::<CmdV, SyntaxError>(e),
                }
            }),
    {
        if arguments.len() != 1 {
            return Err(SyntaxError::InvalidArguments);
        }
        let node_path = match &arguments[0] {
            Argument::Path(node_path) => node_path,
            _ => {
                return Err(SyntaxError::InvalidType);
            },
        };
        if node_path.len() == 0 {
            return Err(SyntaxError::InvalidType);
        }
        let name = match &node_path[node_path.len() - 1] {
            NodePathSegment::Dir(name) => name.clone(),
            _ => {
                return Err(SyntaxError::InvalidType);
            },
        };
        let path = clone_path_prefix(node_path, node_path.len() - 1);
        proof {
            assert(path_view(node_path@).drop_last() =~= path_view(node_path@).subrange(
                0,
                node_path@.len() - 1,
            ));
        }
        Ok(RmdirCmd { path, name })
    }

    /// Resolve the parent path and detach the first child carrying the
    /// name. A parent less deep than the current directory is refused
    /// before anything is touched; an unresolved path or an absent name
    /// changes nothing either.
    pub fn execute(&self, ctx: &mut Context) -> (r: Result<(), ExecError>)
        requires
            old(ctx).wf(),
        ensures
            final(ctx).wf(),
            final(ctx).current_dir == old(ctx).current_dir,
            ({
                let a = old(ctx).arena();
                let cur = old(ctx).current_dir as int;
                let res = spec_resolve(a, cur, path_view(self.path@));
                match r {
                    Ok(_) => res matches Ok(t) && depth_of(a[t]) >= depth_of(a[cur]) && ({
                        let k = first_child_named_from(a, children_of(a[t]), self.name@, 0);
                        &&& k < children_of(a[t]).len()
                        &&& final(ctx).arena() == spec_remove_child_at(a, t, k)
                    }),
                    Err(e) => *final(ctx) == *old(ctx) && ((e == ExecError::PathNotFound
                        && res is Err) || (e == ExecError::DepthOrder && (res matches Ok(t)
                        && depth_of(a[t]) < depth_of(a[cur]))) || (e == ExecError::NotFound && (
                    res matches Ok(t) && depth_of(a[t]) >= depth_of(a[cur])
                        && first_child_named_from(a, children_of(a[t]), self.name@, 0)
                        == children_of(a[t]).len()))),
                }
            }),
    {
        let target = match ctx.node_from_path(&self.path) {
            Ok(t) => t,
            Err(_) => {
                return Err(ExecError::PathNotFound);
            },
        };
        // the target may not sit above the current directory
        let target_depth = match ctx.node(target) {
            Some(n) => n.depth(),
            None => 0,
        };
        let current = ctx.current_dir();
        let current_depth = match ctx.node(current) {
            Some(n) => n.depth(),
            None => 0,
        };
        if target_depth < current_depth {
            return Err(ExecError::DepthOrder);
        }
        match ctx.remove(target, self.name.as_str()) {
            Ok(_) => Ok(()),
            Err(_) => Err(ExecError::NotFound),
        }
    }
}

} // verus!
