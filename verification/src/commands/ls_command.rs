//! The `ls` command: list the children of a folder.

use vstd::prelude::*;

use crate::commands::{spec_ls_build, CmdV, ExecError};
use crate::parser::{args_view, clone_path_prefix, path_view, Argument, NodePath, NodePathSegment,
    SegV, SyntaxError};
use crate::tree::{children_of, name_of, size_of, spec_resolve, Context, Node};

verus! {

/// One line of a listing: a child's name, whether it is a folder, and its
/// size in kilobytes.
#[derive(Debug)]
pub struct LsEntry {
    pub name: String,
    pub is_folder: bool,
    pub size: usize,
}

/// Lists the children of a resolved folder (default: the current
/// directory), with each child's name, kind and size.
#[derive(Debug)]
pub struct LsCmd {
    pub path: NodePath,
}

impl LsCmd {
    /// Validate `arguments` and build the command (see [`spec_ls_build`]).
    pub fn build(arguments: &[Argument]) -> (r: Result<Self, SyntaxError>)
        ensures
            ({
                let res = spec_ls_build(args_view(arguments@));
                match r {
                    Ok(c) => res == Ok::<CmdV, SyntaxError>(
                        CmdV::Ls { path: path_view(c.path@) },
                    ),
                    Err(e) => res == Err::<CmdV, SyntaxError>(e),
                }
            }),
    {
        if arguments.len() != 1 && arguments.len() != 0 {
            return Err(SyntaxError::InvalidArguments);
        }
        if arguments.len() == 1 {
            if let Argument::Path(node_path) = &arguments[0] {
                if node_path.len() == 0 {
                    return Err(SyntaxError::InvalidType);
                }
                // the listed target must be a folder
                match &node_path[node_path.len() - 1] {
                    NodePathSegment::File(_) => Err(SyntaxError::InvalidType),
                    NodePathSegment::Root => Err(SyntaxError::InvalidType),
                    _ => {
                        let path = clone_path_prefix(node_path, node_path.len());
                        proof {
                            assert(path_view(path@) =~= path_view(node_path@));
                        }
                        Ok(LsCmd { path })
                    },
                }
            } else {
                Err(SyntaxError::InvalidType)
            }
        } else {
            let path: NodePath = Vec::new();
            proof {
                assert(path_view(path@) =~= Seq::<SegV>::empty());
            }
            Ok(LsCmd { path })
        }
    }

    /// Resolve the path (the empty path names the current directory) and
    /// return one entry per immediate child, in child-list order.
    pub fn execute(&self, ctx: &Context) -> (r: Result<Vec<LsEntry>, ExecError>)
        requires
            ctx.wf(),
        ensures
            ({
                let a = ctx.arena();
                let res = spec_resolve(a, ctx.current_dir as int, path_view(self.path@));
                match r {
                    Ok(entries) => res matches Ok(t) && !(a[t] is File) && ({
                        let cs = children_of(a[t]);
                        &&& entries@.len() == cs.len()
                        &&& forall|k: int|
                            0 <= k < cs.len() ==> {
                                let c = a[#[trigger] cs[k] as int];
                                &&& entries@[k].name@ == name_of(c)
                                &&& entries@[k].is_folder == (c is Folder)
                                &&& entries@[k].size == size_of(c)
                            }
                    }),
                    Err(e) => (e == ExecError::PathNotFound && res is Err) || (
                    e == ExecError::NotAFolder && (res matches Ok(t) && a[t] is File)),
                }
            }),
    {
        let ghost a = ctx.arena();
        let target = match ctx.node_from_path(&self.path) {
            Ok(t) => t,
            Err(_) => {
                return Err(ExecError::PathNotFound);
            },
        };
        let children: &Vec<usize> = match ctx.node(target) {
            Some(Node::Root { children }) => children,
            Some(Node::Folder { children, .. }) => children,
            _ => {
                return Err(ExecError::NotAFolder);
            },
        };
        let ghost cs = children_of(a[target as int]);
        let mut entries: Vec<LsEntry> = Vec::new();
        let mut k: usize = 0;
        while k < children.len()
            invariant
                ctx.wf(),
                a == ctx.arena(),
                target < ctx.nodes@.len(),
                children@ == cs,
                cs == children_of(a[target as int]),
                k <= cs.len(),
                entries@.len() == k,
                forall|j: int|
                    0 <= j < k ==> {
                        let c = a[#[trigger] cs[j] as int];
                        &&& entries@[j].name@ == name_of(c)
                        &&& entries@[j].is_folder == (c is Folder)
                        &&& entries@[j].size == size_of(c)
                    },
            decreases children.len() - k,
        {
            let child = children[k];
            proof {
                assert(children_of(a[target as int])[k as int] == child);
            }
            let entry = match ctx.node(child) {
                Some(Node::Folder { name, size, .. }) => LsEntry {
                    name: name.clone(),
                    is_folder: true,
                    size: *size,
                },
                Some(Node::File { name, size, .. }) => LsEntry {
                    name: name.clone(),
                    is_folder: false,
                    size: *size,
                },
                _ => LsEntry { name: String::new(), is_folder: false, size: 0 },
            };
            entries.push(entry);
            k += 1;
        }
        Ok(entries)
    }
}

} // verus!
