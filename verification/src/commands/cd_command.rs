//! The `cd` command: change the current directory.

use vstd::prelude::*;

use crate::commands::{spec_cd_build, CmdV, ExecError};
use crate::parser::{args_view, clone_path_prefix, path_view, Argument, NodePath, NodePathSegment,
    SyntaxError};
use crate::tree::{spec_resolve, Context};

verus! {

/// Changes the current directory to a resolved folder; the root is refused.
#[derive(Debug)]
pub struct CdCmd {
    pub path: NodePath,
}

impl CdCmd {
    /// Validate `arguments` and build the command (see [`spec_cd_build`]).
    pub fn build(arguments: &[Argument]) -> (r: Result<Self, SyntaxError>)
        ensures
            ({
                let res = spec_cd_build(args_view(arguments@));
                match r {
                    Ok(c) => res == Ok::<CmdV, SyntaxError>(
                        CmdV::Cd { path: path_view(c.path@) },
                    ),
                    Err(e) => res == Err::<CmdV, SyntaxError>(e),
                }
            }),
    {
        if arguments.len() != 1 {
            return Err(SyntaxError::InvalidArguments);
        }
        if let Argument::Path(node_path) = &arguments[0] {
            if node_path.len() == 0 {
                return Err(SyntaxError::InvalidType);
            }
            // the target must be a folder: not a file, and not the bare root
            match &node_path[node_path.len() - 1] {
                NodePathSegment::File(_) => Err(SyntaxError::InvalidType),
                NodePathSegment::Root => Err(SyntaxError::InvalidType),
                _ => {
                    let path = clone_path_prefix(node_path, node_path.len());
                    proof {
                        assert(path_view(path@) =~= path_view(node_path@));
                    }
                    Ok(CdCmd { path })
                },
            }
        } else {
            Err(SyntaxError::InvalidType)
        }
    }

    /// Resolve the path and make it the current directory; moving onto the
    /// root is refused, and an unresolved path changes nothing.
    pub fn execute(&self, ctx: &mut Context) -> (r: Result<(), ExecError>)
        requires
            old(ctx).wf(),
        ensures
            final(ctx).wf(),
            final(ctx).nodes == old(ctx).nodes,
            ({
                let res = spec_resolve(
                    old(ctx).arena(),
                    old(ctx).current_dir as int,
                    path_view(self.path@),
                );
                match r {
                    Ok(_) => res matches Ok(t) && t != 0 && final(ctx).current_dir == t,
                    Err(e) => *final(ctx) == *old(ctx) && ((e == ExecError::PathNotFound
                        && res is Err) || (e == ExecError::RootTarget && res == Ok::<
                        int,
                        crate::tree::InvalidFolder,
                    >(0))),
                }
            }),
    {
        match ctx.node_from_path(&self.path) {
            Ok(target) => {
                if target == 0 {
                    Err(ExecError::RootTarget)
                } else {
                    ctx.set_current_dir(target);
                    Ok(())
                }
            },
            Err(_) => Err(ExecError::PathNotFound),
        }
    }
}

} // verus!
