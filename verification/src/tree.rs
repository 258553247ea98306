//! The node store: an arena-backed hierarchy of root, folders and files,
//! with parent back-references as indices, cached aggregate sizes, depth
//! tracking, and path resolution.
//!
//! The arena ([`Context::nodes`]) exclusively owns all storage. Removing a
//! node detaches it from its parent's child list; its slot (and those of its
//! descendants) stay behind, unreachable, so indices of live nodes are
//! stable for the life of the session.

use vstd::prelude::*;

use crate::parser::{path_view, NodePath, NodePathSegment, SegV};

verus! {

/// Returned when a path does not resolve to a node.
#[derive(Debug, PartialEq, Eq, Structural, Clone, Copy)]
pub struct InvalidFolder;

/// Returned when a node of the wrong kind is asked to take a child.
#[derive(Debug, PartialEq, Eq, Structural, Clone, Copy)]
pub struct NodeTypeError;

/// Returned when no child carries the name given to a removal.
#[derive(Debug, PartialEq, Eq, Structural, Clone, Copy)]
pub struct NotFound;

/// A node of the file hierarchy: the root, a folder, or a file. Parents and
/// children are arena indices.
#[derive(Debug)]
pub enum Node {
    /// The root is not addressable by the user; it only holds children.
    Root {
        children: Vec<usize>,
    },
    /// A folder, with a cached aggregate size (the sum of the sizes its
    /// immediate children had when they were inserted).
    Folder {
        name: String,
        /// Size in kilobytes: the sizes of the immediate children, summed
        /// on insertion only.
        size: usize,
        parent: usize,
        children: Vec<usize>,
        /// Steps from the root: the root has depth 0.
        depth: usize,
    },
    /// A file has no children; its size is intrinsic.
    File {
        name: String,
        size: usize,
        parent: usize,
        depth: usize,
    },
}

/// The mathematical shape of a [`Node`].
#[verifier::ext_equal]
pub enum NodeV {
    Root { children: Seq<usize> },
    Folder { name: Seq<char>, size: usize, parent: usize, children: Seq<usize>, depth: usize },
    File { name: Seq<char>, size: usize, parent: usize, depth: usize },
}

impl View for Node {
    type V = NodeV;

    open spec fn view(&self) -> NodeV {
        match self {
            Node::Root { children } => NodeV::Root { children: children@ },
            Node::Folder { name, size, parent, children, depth } => NodeV::Folder {
                name: name@,
                size: *size,
                parent: *parent,
                children: children@,
                depth: *depth,
            },
            Node::File { name, size, parent, depth } => NodeV::File {
                name: name@,
                size: *size,
                parent: *parent,
                depth: *depth,
            },
        }
    }
}

/// The child list of a node; files have none.
pub open spec fn children_of(n: NodeV) -> Seq<usize> {
    match n {
        NodeV::Root { children } => children,
        NodeV::Folder { children, .. } => children,
        NodeV::File { .. } => Seq::empty(),
    }
}

/// The size of a node; the root tracks none.
pub open spec fn size_of(n: NodeV) -> usize {
    match n {
        NodeV::Root { .. } => 0,
        NodeV::Folder { size, .. } => size,
        NodeV::File { size, .. } => size,
    }
}

/// The parent index of a node; the root has none and yields 0.
pub open spec fn parent_of(n: NodeV) -> usize {
    match n {
        NodeV::Root { .. } => 0,
        NodeV::Folder { parent, .. } => parent,
        NodeV::File { parent, .. } => parent,
    }
}

/// The depth of a node; the root has depth 0.
pub open spec fn depth_of(n: NodeV) -> usize {
    match n {
        NodeV::Root { .. } => 0,
        NodeV::Folder { depth, .. } => depth,
        NodeV::File { depth, .. } => depth,
    }
}

/// The name of a node; the root has none and yields the empty name.
pub open spec fn name_of(n: NodeV) -> Seq<char> {
    match n {
        NodeV::Root { .. } => Seq::empty(),
        NodeV::Folder { name, .. } => name,
        NodeV::File { name, .. } => name,
    }
}

/// Whether the node is a folder or file carrying exactly this name; the
/// root carries no name at all.
pub open spec fn node_named(n: NodeV, name: Seq<char>) -> bool {
    match n {
        NodeV::Root { .. } => false,
        NodeV::Folder { name: w, .. } => w == name,
        NodeV::File { name: w, .. } => w == name,
    }
}

impl Node {
    /// Create a new root node.
    pub fn new_root() -> (r: Self)
        ensures
            r@ == (NodeV::Root { children: Seq::<usize>::empty() }),
    {
        let r = Node::Root { children: Vec::new() };
        proof {
            assert(children_of(r@) =~= Seq::<usize>::empty());
        }
        r
    }

    /// Create a new, empty folder named `name`, not yet linked anywhere.
    pub fn new_folder(name: &str) -> (r: Self)
        ensures
            r@ == (NodeV::Folder {
                name: name@,
                size: 0,
                parent: 0,
                children: Seq::<usize>::empty(),
                depth: 0,
            }),
    {
        let r = Node::Folder {
            name: name.to_owned(),
            size: 0,
            parent: 0,
            children: Vec::new(),
            depth: 0,
        };
        proof {
            assert(children_of(r@) =~= Seq::<usize>::empty());
        }
        r
    }

    /// Create a new file of size `size` named `name`, not yet linked
    /// anywhere.
    pub fn new_file(name: &str, size: usize) -> (r: Self)
        ensures
            r@ == (NodeV::File { name: name@, size: size, parent: 0, depth: 0 }),
    {
        Node::File { name: name.to_owned(), size, parent: 0, depth: 0 }
    }

    /// The node's parent index, if it has a parent.
    pub fn parent(&self) -> (r: Option<usize>)
        ensures
            r == (if self@ is Root {
                Option::<usize>::None
            } else {
                Option::Some(parent_of(self@))
            }),
    {
        match self {
            Node::Folder { parent, .. } => Some(*parent),
            Node::File { parent, .. } => Some(*parent),
            Node::Root { .. } => None,
        }
    }

    /// The node's child list, if it can have children.
    pub fn children(&self) -> (r: Option<&Vec<usize>>)
        ensures
            match r {
                Some(cs) => !(self@ is File) && cs@ == children_of(self@),
                None => self@ is File,
            },
    {
        match self {
            Node::Folder { children, .. } => Some(children),
            Node::Root { children, .. } => Some(children),
            Node::File { .. } => None,
        }
    }

    /// The node's size; the root has none.
    pub fn size(&self) -> (r: Option<usize>)
        ensures
            r == (if self@ is Root {
                Option::<usize>::None
            } else {
                Option::Some(size_of(self@))
            }),
    {
        match self {
            Node::Folder { size, .. } => Some(*size),
            Node::File { size, .. } => Some(*size),
            Node::Root { .. } => None,
        }
    }

    /// The node's name; the root has none.
    pub fn name(&self) -> (r: Option<String>)
        ensures
            match r {
                Some(s) => node_named(self@, s@),
                None => self@ is Root,
            },
    {
        match self {
            Node::Folder { name, .. } => Some(name.clone()),
            Node::File { name, .. } => Some(name.clone()),
            Node::Root { .. } => None,
        }
    }

    /// The node's depth; the root is at depth 0.
    pub fn depth(&self) -> (r: usize)
        ensures
            r == depth_of(self@),
    {
        match self {
            Node::Folder { depth, .. } => *depth,
            Node::File { depth, .. } => *depth,
            Node::Root { .. } => 0,
        }
    }

    /// A reference to the node's depth field, if it has one.
    pub fn depth_ref(&self) -> (r: Option<&usize>)
        ensures
            match r {
                Some(d) => !(self@ is Root) && *d == depth_of(self@),
                None => self@ is Root,
            },
    {
        match self {
            Node::Folder { depth, .. } => Some(depth),
            Node::File { depth, .. } => Some(depth),
            Node::Root { .. } => None,
        }
    }
}

/// Compare two string slices character by character.
pub fn str_eq(a: &str, b: &str) -> (r: bool)
    ensures
        r == (a@ == b@),
{
    let la = a.unicode_len();
    let lb = b.unicode_len();
    if la != lb {
        return false;
    }
    let mut j: usize = 0;
    while j < la
        invariant
            la == a@.len(),
            la == b@.len(),
            j <= la,
            forall|k: int| 0 <= k < j ==> a@[k] == b@[k],
        decreases la - j,
    {
        if a.get_char(j) != b.get_char(j) {
            return false;
        }
        proof {
            let k = j as int;
            assert(a@[k] == b@[k]);
        }
        j += 1;
    }
    proof {
        assert(a@ =~= b@);
    }
    true
}

/// Whether the node is a folder or file carrying exactly the name `name`.
fn node_has_name(n: &Node, name: &str) -> (b: bool)
    ensures
        b == node_named(n@, name@),
{
    match n {
        Node::Folder { name: w, .. } => str_eq(w.as_str(), name),
        Node::File { name: w, .. } => str_eq(w.as_str(), name),
        Node::Root { .. } => false,
    }
}

/// A well-formed arena: one root at index 0; every other node is a folder
/// or file whose parent stands earlier in the arena and whose depth is
/// bounded by its index; all child indices point past their parent and into
/// the arena.
pub open spec fn arena_wf(a: Seq<NodeV>) -> bool {
    &&& 1 <= a.len()
    &&& a[0] is Root
    &&& forall|i: int| 1 <= i < a.len() ==> !((#[trigger] a[i]) is Root)
    &&& forall|i: int| 1 <= i < a.len() ==> parent_of(#[trigger] a[i]) < i
    &&& forall|i: int| 1 <= i < a.len() ==> depth_of(#[trigger] a[i]) <= i
    &&& forall|i: int, k: int|
        0 <= i < a.len() && 0 <= k < children_of(a[i]).len() ==> i < #[trigger] children_of(
            a[i],
        )[k] < a.len()
}

/// Position of the first child in `cs` (searched from position `k` on)
/// whose node carries the name `name`; `cs.len()` when there is none.
pub open spec fn first_child_named_from(
    a: Seq<NodeV>,
    cs: Seq<usize>,
    name: Seq<char>,
    k: int,
) -> int
    decreases cs.len() - k,
{
    if k < 0 || k >= cs.len() {
        cs.len() as int
    } else if node_named(a[cs[k] as int], name) {
        k
    } else {
        first_child_named_from(a, cs, name, k + 1)
    }
}

/// A child search that starts at position `k` ends between `k` and the end
/// of the child list.
pub proof fn lemma_first_child_named_bounds(a: Seq<NodeV>, cs: Seq<usize>, name: Seq<char>, k: int)
    requires
        0 <= k <= cs.len(),
    ensures
        k <= first_child_named_from(a, cs, name, k) <= cs.len(),
    decreases cs.len() - k,
{
    if k < cs.len() && !node_named(a[cs[k] as int], name) {
        lemma_first_child_named_bounds(a, cs, name, k + 1);
    }
}

/// One traversal step: `Root` jumps to the root, `Dir` steps to the first
/// child with a matching name, `Parent` steps to the parent (failing at the
/// root, which has none), and a `File` segment cannot be traversed.
pub open spec fn resolve_seg(a: Seq<NodeV>, cur: int, seg: SegV) -> Result<int, InvalidFolder> {
    match seg {
        SegV::Root => Ok(0),
        SegV::Dir(name) => {
            if a[cur] is File {
                Err(InvalidFolder)
            } else {
                let cs = children_of(a[cur]);
                let k = first_child_named_from(a, cs, name, 0);
                if k == cs.len() {
                    Err(InvalidFolder)
                } else {
                    Ok(cs[k] as int)
                }
            }
        },
        SegV::Parent => {
            if cur == 0 {
                Err(InvalidFolder)
            } else {
                Ok(parent_of(a[cur]) as int)
            }
        },
        SegV::File(_) => Err(InvalidFolder),
    }
}

/// Resolution of the segments `segs[i..]` starting from node `cur`,
/// short-circuiting on the first failing step.
pub open spec fn spec_resolve_from(a: Seq<NodeV>, cur: int, segs: Seq<SegV>, i: int) -> Result<
    int,
    InvalidFolder,
>
    decreases segs.len() - i,
{
    if i < 0 || i >= segs.len() {
        Ok(cur)
    } else {
        match resolve_seg(a, cur, segs[i]) {
            Ok(c) => spec_resolve_from(a, c, segs, i + 1),
            Err(e) => Err(e),
        }
    }
}

/// Resolution of a whole path from node `cur`: a pure function of the
/// arena, the starting node and the path.
pub open spec fn spec_resolve(a: Seq<NodeV>, cur: int, segs: Seq<SegV>) -> Result<
    int,
    InvalidFolder,
> {
    spec_resolve_from(a, cur, segs, 0)
}

/// The node `c`, relinked to sit under `parent` at depth `depth`.
pub open spec fn linked(c: NodeV, parent: usize, depth: usize) -> NodeV {
    match c {
        NodeV::Root { .. } => c,
        NodeV::Folder { name, size, children, .. } => NodeV::Folder {
            name,
            size,
            parent,
            children,
            depth,
        },
        NodeV::File { name, size, .. } => NodeV::File { name, size, parent, depth },
    }
}

/// The node `n` with child index `idx` appended; a folder also adds the
/// child's size to its own, the root tracks no size.
pub open spec fn with_child(n: NodeV, idx: usize, child_size: usize) -> NodeV {
    match n {
        NodeV::Root { children } => NodeV::Root { children: children.push(idx) },
        NodeV::Folder { name, size, parent, children, depth } => NodeV::Folder {
            name,
            size: (size + child_size) as usize,
            parent,
            children: children.push(idx),
            depth,
        },
        NodeV::File { .. } => n,
    }
}

/// The node `n` with its child list replaced by `cs`.
pub open spec fn with_children(n: NodeV, cs: Seq<usize>) -> NodeV {
    match n {
        NodeV::Root { .. } => NodeV::Root { children: cs },
        NodeV::Folder { name, size, parent, depth, .. } => NodeV::Folder {
            name,
            size,
            parent,
            children: cs,
            depth,
        },
        NodeV::File { .. } => n,
    }
}

/// The arena after adding `c` under node `p`: `c` enters at the end,
/// relinked, and `p` gains the new index (and, as a folder, the size).
pub open spec fn spec_add(a: Seq<NodeV>, p: int, c: NodeV) -> Seq<NodeV> {
    let idx = a.len() as usize;
    a.update(p, with_child(a[p], idx, size_of(c))).push(
        linked(c, p as usize, (depth_of(a[p]) + 1) as usize),
    )
}

/// The arena after detaching the child at position `k` of node `p`'s child
/// list (the last child takes its place). The detached node's slot stays,
/// unreachable; no size is adjusted.
pub open spec fn spec_remove_child_at(a: Seq<NodeV>, p: int, k: int) -> Seq<NodeV> {
    let cs = children_of(a[p]);
    a.update(p, with_children(a[p], cs.update(k, cs.last()).drop_last()))
}

/// The arena of the session skeleton built at start, exactly as the adds in
/// [`build_tree`] leave it: `home/<username>` with its stock folders. The
/// stock folders were filled before they were linked under the user folder,
/// so their files keep the depth they got then, and only the sizes known at
/// each insertion were aggregated.
pub open spec fn initial_arena(username: Seq<char>) -> Seq<NodeV> {
    seq![
        NodeV::Root { children: seq![1usize] },
        NodeV::Folder { name: "home"@, size: 0, parent: 0, children: seq![2usize], depth: 1 },
        NodeV::Folder {
            name: username,
            size: 12,
            parent: 1,
            children: seq![3usize, 6usize, 7usize, 18usize],
            depth: 2,
        },
        NodeV::Folder {
            name: "documents"@,
            size: 2,
            parent: 2,
            children: seq![4usize, 5usize],
            depth: 3,
        },
        NodeV::File { name: "cv.pdf"@, size: 1, parent: 3, depth: 1 },
        NodeV::File { name: "data.dat"@, size: 1, parent: 3, depth: 1 },
        NodeV::Folder {
            name: "downloads"@,
            size: 0,
            parent: 2,
            children: Seq::<usize>::empty(),
            depth: 3,
        },
        NodeV::Folder {
            name: "music"@,
            size: 10,
            parent: 2,
            children: seq![
                8usize,
                9usize,
                10usize,
                11usize,
                12usize,
                13usize,
                14usize,
                15usize,
                16usize,
                17usize,
            ],
            depth: 3,
        },
        NodeV::File { name: "1.mp3"@, size: 1, parent: 7, depth: 1 },
        NodeV::File { name: "2.mp3"@, size: 1, parent: 7, depth: 1 },
        NodeV::File { name: "3.mp3"@, size: 1, parent: 7, depth: 1 },
        NodeV::File { name: "4.mp3"@, size: 1, parent: 7, depth: 1 },
        NodeV::File { name: "5.mp3"@, size: 1, parent: 7, depth: 1 },
        NodeV::File { name: "6.mp3"@, size: 1, parent: 7, depth: 1 },
        NodeV::File { name: "7.mp3"@, size: 1, parent: 7, depth: 1 },
        NodeV::File { name: "8.mp3"@, size: 1, parent: 7, depth: 1 },
        NodeV::File { name: "9.mp3"@, size: 1, parent: 7, depth: 1 },
        NodeV::File { name: "10.mp3"@, size: 1, parent: 7, depth: 1 },
        NodeV::Folder { name: "photos"@, size: 0, parent: 2, children: seq![19usize], depth: 3 },
        NodeV::Folder {
            name: "japan2026"@,
            size: 0,
            parent: 18,
            children: Seq::<usize>::empty(),
            depth: 4,
        },
    ]
}

/// The live session state: the arena that owns every node, and the index of
/// the current directory.
#[derive(Debug)]
pub struct Context {
    /// The arena; index 0 is the root.
    pub nodes: Vec<Node>,
    /// The current directory, replaced on every successful `cd`.
    pub current_dir: usize,
}

impl Context {
    /// The arena, seen mathematically.
    pub open spec fn arena(&self) -> Seq<NodeV> {
        self.nodes@.map_values(|n: Node| n@)
    }

    /// Well-formedness: the arena is well-formed and the current directory
    /// points into it.
    pub open spec fn wf(&self) -> bool {
        &&& arena_wf(self.arena())
        &&& self.current_dir < self.arena().len()
    }

    /// Create a new context holding only the root, which is also the
    /// current directory.
    pub fn new() -> (r: Self)
        ensures
            r.arena() =~= seq![NodeV::Root { children: Seq::<usize>::empty() }],
            r.current_dir == 0,
            r.wf(),
    {
        let mut nodes: Vec<Node> = Vec::new();
        nodes.push(Node::new_root());
        let r = Context { nodes, current_dir: 0 };
        proof {
            assert(r.arena() =~= seq![NodeV::Root { children: Seq::<usize>::empty() }]);
        }
        r
    }

    /// The number of slots in the arena.
    pub fn node_count(&self) -> (r: usize)
        ensures
            r == self.nodes@.len(),
    {
        self.nodes.len()
    }

    /// The node in slot `i`, if the slot exists.
    pub fn node(&self, i: usize) -> (r: Option<&Node>)
        ensures
            match r {
                Some(n) => i < self.nodes@.len() && *n == self.nodes@[i as int],
                None => i >= self.nodes@.len(),
            },
    {
        if i < self.nodes.len() {
            Some(&self.nodes[i])
        } else {
            None
        }
    }

    /// The current directory index.
    pub fn current_dir(&self) -> (r: usize)
        ensures
            r == self.current_dir,
    {
        self.current_dir
    }

    /// Set the current directory to `new_dir`.
    pub fn set_current_dir(&mut self, new_dir: usize)
        requires
            new_dir < old(self).nodes@.len(),
        ensures
            final(self).nodes == old(self).nodes,
            final(self).current_dir == new_dir,
    {
        self.current_dir = new_dir;
    }

    /// Position of the first child of `parent` named `name`, if any.
    fn find_child_index(&self, parent: usize, name: &str) -> (r: Option<usize>)
        requires
            self.wf(),
            parent < self.nodes@.len(),
        ensures
            ({
                let a = self.arena();
                let cs = children_of(a[parent as int]);
                let k = first_child_named_from(a, cs, name@, 0);
                match r {
                    Some(kx) => kx as int == k && k < cs.len(),
                    None => k == cs.len(),
                }
            }),
    {
        let ghost a = self.arena();
        let ghost cs = children_of(a[parent as int]);
        let children: &Vec<usize> = match &self.nodes[parent] {
            Node::Root { children } => children,
            Node::Folder { children, .. } => children,
            Node::File { .. } => {
                return None;
            },
        };
        let mut k: usize = 0;
        while k < children.len()
            invariant
                self.wf(),
                parent < self.nodes@.len(),
                a == self.arena(),
                cs == children_of(a[parent as int]),
                children@ == cs,
                k <= cs.len(),
                first_child_named_from(a, cs, name@, 0) == first_child_named_from(
                    a,
                    cs,
                    name@,
                    k as int,
                ),
            decreases children.len() - k,
        {
            let child = children[k];
            proof {
                assert(children_of(a[parent as int])[k as int] == child);
            }
            if node_has_name(&self.nodes[child], name) {
                return Some(k);
            }
            k += 1;
        }
        None
    }

    /// Step from `dir` to its first child named `dir_name`; fails when
    /// there is none (a file has no children at all).
    fn dir_to_child(&self, dir: usize, dir_name: &str) -> (r: Result<usize, InvalidFolder>)
        requires
            self.wf(),
            dir < self.nodes@.len(),
        ensures
            ({
                let res = resolve_seg(self.arena(), dir as int, SegV::Dir(dir_name@));
                match r {
                    Ok(i) => res == Ok::<int, InvalidFolder>(i as int) && i < self.nodes@.len(),
                    Err(e) => res == Err::<int, InvalidFolder>(InvalidFolder),
                }
            }),
    {
        proof {
            lemma_first_child_named_bounds(
                self.arena(),
                children_of(self.arena()[dir as int]),
                dir_name@,
                0,
            );
        }
        match self.find_child_index(dir, dir_name) {
            None => Err(InvalidFolder),
            Some(k) => {
                let children: &Vec<usize> = match &self.nodes[dir] {
                    Node::Root { children } => children,
                    Node::Folder { children, .. } => children,
                    Node::File { .. } => {
                        return Err(InvalidFolder);
                    },
                };
                proof {
                    let a = self.arena();
                    assert(children_of(a[dir as int])[k as int] < a.len());
                }
                Ok(children[k])
            },
        }
    }

    /// Step from `dir` to its parent; the root has none.
    fn dir_to_parent(&self, dir: usize) -> (r: Result<usize, InvalidFolder>)
        requires
            self.wf(),
            dir < self.nodes@.len(),
        ensures
            ({
                let res = resolve_seg(self.arena(), dir as int, SegV::Parent);
                match r {
                    Ok(i) => res == Ok::<int, InvalidFolder>(i as int) && i < self.nodes@.len(),
                    Err(e) => res == Err::<int, InvalidFolder>(InvalidFolder),
                }
            }),
    {
        if dir == 0 {
            return Err(InvalidFolder);
        }
        match &self.nodes[dir] {
            Node::Folder { parent, .. } => Ok(*parent),
            Node::File { parent, .. } => Ok(*parent),
            Node::Root { .. } => Err(InvalidFolder),
        }
    }

    /// Add `child` to the arena under node `parent`. Fails when the parent
    /// is a file (files take no children) or the child is a second root.
    /// On success the child enters the arena at the returned index, with
    /// its parent link and depth set; only the immediate parent's size is
    /// updated, and only when it is a folder.
    pub fn add(&mut self, parent: usize, child: Node) -> (r: Result<usize, NodeTypeError>)
        requires
            old(self).wf(),
            parent < old(self).nodes@.len(),
            children_of(child@) == Seq::<usize>::empty(),
            old(self).arena()[parent as int] is Folder && !(child@ is Root) ==> size_of(
                old(self).arena()[parent as int],
            ) + size_of(child@) <= usize::MAX,
        ensures
            final(self).current_dir == old(self).current_dir,
            match r {
                Ok(idx) => {
                    &&& !(old(self).arena()[parent as int] is File)
                    &&& !(child@ is Root)
                    &&& idx == old(self).nodes@.len()
                    &&& final(self).arena() == spec_add(
                        old(self).arena(),
                        parent as int,
                        child@,
                    )
                    &&& final(self).wf()
                },
                Err(_) => {
                    &&& (old(self).arena()[parent as int] is File) || (child@ is Root)
                    &&& *final(self) == *old(self)
                },
            },
    {
        let ghost a0 = self.arena();
        let csize = match &child {
            Node::Root { .. } => {
                return Err(NodeTypeError);
            },
            Node::Folder { size, .. } => *size,
            Node::File { size, .. } => *size,
        };
        let pdepth = match &self.nodes[parent] {
            Node::File { .. } => {
                return Err(NodeTypeError);
            },
            Node::Root { .. } => 0,
            Node::Folder { depth, .. } => *depth,
        };
        let idx = self.nodes.len();
        let new_child = match child {
            Node::Folder { name, size, children, .. } => Node::Folder {
                name,
                size,
                parent,
                children,
                depth: pdepth + 1,
            },
            Node::File { name, size, .. } => Node::File {
                name,
                size,
                parent,
                depth: pdepth + 1,
            },
            Node::Root { .. } => {
                return Err(NodeTypeError);
            },
        };
        self.nodes.push(new_child);
        match &mut self.nodes[parent] {
            Node::Root { children } => {
                children.push(idx);
            },
            Node::Folder { children, size, .. } => {
                children.push(idx);
                *size = *size + csize;
            },
            Node::File { .. } => {},
        }
        proof {
            let a1 = self.arena();
            let a2 = spec_add(a0, parent as int, child@);
            assert(a1 =~= a2);
            assert forall|i: int| 1 <= i < a1.len() implies !((#[trigger] a1[i]) is Root)
                && parent_of(a1[i]) < i && depth_of(a1[i]) <= i by {
                if i < a0.len() {
                    assert(!(a0[i] is Root) && parent_of(a0[i]) < i && depth_of(a0[i]) <= i);
                }
            }
            assert forall|i: int, k: int|
                0 <= i < a1.len() && 0 <= k < children_of(a1[i]).len() implies i
                < #[trigger] children_of(a1[i])[k] < a1.len() by {
                if i < a0.len() {
                    if i == parent as int {
                        if k < children_of(a0[i]).len() {
                            assert(children_of(a0[i])[k] == children_of(a1[i])[k]);
                            assert(i < children_of(a0[i])[k] < a0.len());
                        }
                    } else {
                        assert(children_of(a1[i]) == children_of(a0[i]));
                        assert(i < children_of(a0[i])[k] < a0.len());
                    }
                }
            }
        }
        Ok(idx)
    }

    /// Detach the first child of `parent` named `node_name`, together with
    /// everything it owns; the order among the remaining siblings is not
    /// preserved, and no size is adjusted.
    pub fn remove(&mut self, parent: usize, node_name: &str) -> (r: Result<(), NotFound>)
        requires
            old(self).wf(),
            parent < old(self).nodes@.len(),
        ensures
            final(self).current_dir == old(self).current_dir,
            ({
                let a = old(self).arena();
                let cs = children_of(a[parent as int]);
                let k = first_child_named_from(a, cs, node_name@, 0);
                match r {
                    Ok(_) => {
                        &&& k < cs.len()
                        &&& final(self).arena() == spec_remove_child_at(a, parent as int, k)
                        &&& final(self).wf()
                    },
                    Err(_) => k == cs.len() && *final(self) == *old(self),
                }
            }),
    {
        let ghost a0 = self.arena();
        let k = match self.find_child_index(parent, node_name) {
            None => {
                return Err(NotFound);
            },
            Some(k) => k,
        };
        match &mut self.nodes[parent] {
            Node::Root { children } => {
                children.swap_remove(k);
            },
            Node::Folder { children, .. } => {
                children.swap_remove(k);
            },
            Node::File { .. } => {},
        }
        proof {
            let a1 = self.arena();
            let a2 = spec_remove_child_at(a0, parent as int, k as int);
            assert(a1 =~= a2);
            assert forall|i: int| 1 <= i < a1.len() implies !((#[trigger] a1[i]) is Root)
                && parent_of(a1[i]) < i && depth_of(a1[i]) <= i by {
                assert(!(a0[i] is Root) && parent_of(a0[i]) < i && depth_of(a0[i]) <= i);
            }
            assert forall|i: int, k2: int|
                0 <= i < a1.len() && 0 <= k2 < children_of(a1[i]).len() implies i
                < #[trigger] children_of(a1[i])[k2] < a1.len() by {
                let cs0 = children_of(a0[i]);
                if i == parent as int {
                    assert(children_of(a1[i])[k2] == cs0.update(
                        k as int,
                        cs0.last(),
                    ).drop_last()[k2]);
                    if k2 == k as int {
                        assert(i < cs0[cs0.len() - 1] < a0.len());
                    } else {
                        assert(i < cs0[k2] < a0.len());
                    }
                } else {
                    assert(children_of(a1[i]) == cs0);
                    assert(i < cs0[k2] < a0.len());
                }
            }
        }
        Ok(())
    }

    /// The names along the path from the root down to the current
    /// directory, for prompt rendering.
    pub fn current_path_names(&self) -> (r: Vec<String>)
        requires
            self.wf(),
        ensures
            r@.map_values(|s: String| s@) == chain_names(self.arena(), self.current_dir as int),
    {
        let ghost a = self.arena();
        let mut names: Vec<String> = Vec::new();
        let mut i = self.current_dir;
        while i != 0
            invariant
                self.wf(),
                a == self.arena(),
                i < self.nodes@.len(),
                chain_names(a, self.current_dir as int) == chain_names(a, i as int)
                    + names@.map_values(|s: String| s@),
            decreases i,
        {
            let nm = match &self.nodes[i] {
                Node::Folder { name, .. } => name.clone(),
                Node::File { name, .. } => name.clone(),
                Node::Root { .. } => String::new(),
            };
            proof {
                assert(nm@ == name_of(a[i as int]));
                assert(chain_names(a, i as int) == chain_names(
                    a,
                    parent_of(a[i as int]) as int,
                ).push(name_of(a[i as int])));
                assert(chain_names(a, parent_of(a[i as int]) as int).push(nm@) + names@.map_values(
                    |s: String| s@,
                ) =~= chain_names(a, parent_of(a[i as int]) as int) + names@.insert(
                    0,
                    nm,
                ).map_values(|s: String| s@));
            }
            names.insert(0, nm);
            i = match &self.nodes[i] {
                Node::Folder { parent, .. } => *parent,
                Node::File { parent, .. } => *parent,
                Node::Root { .. } => 0,
            };
        }
        proof {
            assert(chain_names(a, i as int) + names@.map_values(|s: String| s@) =~= names@.map_values(
                |s: String| s@,
            ));
        }
        names
    }

    /// Resolve a path starting at the current directory; a pure function of
    /// the arena, the current directory and the path (see [`spec_resolve`]).
    pub fn node_from_path(&self, dir: &NodePath) -> (r: Result<usize, InvalidFolder>)
        requires
            self.wf(),
        ensures
            ({
                let res = spec_resolve(self.arena(), self.current_dir as int, path_view(dir@));
                match r {
                    Ok(i) => res == Ok::<int, InvalidFolder>(i as int) && i < self.nodes@.len(),
                    Err(e) => res == Err::<int, InvalidFolder>(InvalidFolder),
                }
            }),
    {
        let ghost a = self.arena();
        let ghost segs = path_view(dir@);
        let mut buffer_dir: usize = self.current_dir;
        let mut i: usize = 0;
        while i < dir.len()
            invariant
                self.wf(),
                a == self.arena(),
                segs == path_view(dir@),
                i <= dir@.len(),
                buffer_dir < self.nodes@.len(),
                spec_resolve_from(a, self.current_dir as int, segs, 0) == spec_resolve_from(
                    a,
                    buffer_dir as int,
                    segs,
                    i as int,
                ),
            decreases dir@.len() - i,
        {
            proof {
                assert(segs[i as int] == dir@[i as int]@);
            }
            match &dir[i] {
                NodePathSegment::Root => {
                    buffer_dir = 0;
                },
                NodePathSegment::Dir(folder_name) => {
                    match self.dir_to_child(buffer_dir, folder_name.as_str()) {
                        Ok(child) => {
                            buffer_dir = child;
                        },
                        Err(e) => {
                            return Err(e);
                        },
                    }
                },
                NodePathSegment::Parent => {
                    match self.dir_to_parent(buffer_dir) {
                        Ok(p) => {
                            buffer_dir = p;
                        },
                        Err(e) => {
                            return Err(e);
                        },
                    }
                },
                NodePathSegment::File(_) => {
                    return Err(InvalidFolder);
                },
            }
            i += 1;
        }
        Ok(buffer_dir)
    }
}

/// A successful child search lands on a child that carries the name.
pub proof fn lemma_first_child_named_found(a: Seq<NodeV>, cs: Seq<usize>, name: Seq<char>, k: int)
    requires
        0 <= k <= cs.len(),
    ensures
        first_child_named_from(a, cs, name, k) < cs.len() ==> node_named(
            a[cs[first_child_named_from(a, cs, name, k)] as int],
            name,
        ),
    decreases cs.len() - k,
{
    if k < cs.len() && !node_named(a[cs[k] as int], name) {
        lemma_first_child_named_found(a, cs, name, k + 1);
    }
}

/// Resolution is a pure function of the arena, the starting directory and
/// the path: the same inputs resolve to the same node.
pub proof fn lemma_resolve_pure(
    a1: Seq<NodeV>,
    cur1: int,
    p1: Seq<SegV>,
    a2: Seq<NodeV>,
    cur2: int,
    p2: Seq<SegV>,
)
    requires
        a1 == a2,
        cur1 == cur2,
        p1 == p2,
    ensures
        spec_resolve(a1, cur1, p1) == spec_resolve(a2, cur2, p2),
{
}

/// Detaching position `k` by the last-element swap leaves the same elements
/// behind, less one occurrence of the detached one.
pub proof fn lemma_swap_remove_multiset<A>(s: Seq<A>, k: int)
    requires
        0 <= k < s.len(),
    ensures
        s.update(k, s.last()).drop_last().to_multiset() == s.to_multiset().remove(s[k]),
{
    broadcast use vstd::seq_lib::group_to_multiset_ensures;

    let n = s.len() as int;
    if k == n - 1 {
        assert(s.update(k, s.last()) =~= s);
        assert(s.drop_last() =~= s.remove(n - 1));
        assert(s.remove(n - 1).to_multiset() =~= s.to_multiset().remove(s[k]));
    } else {
        let u = s.drop_last();
        let t = s.update(k, s.last()).drop_last();
        assert(t =~= u.update(k, s.last()));
        assert(u.push(s.last()) =~= s);
        assert(s.to_multiset() == u.to_multiset().insert(s.last()));
        let t2 = t.remove(k);
        assert(t2 =~= u.remove(k));
        assert(t.to_multiset() == t.to_multiset().remove(t[k]).insert(t[k])) by {
            assert(t.remove(k).to_multiset() =~= t.to_multiset().remove(t[k]));
            assert(t.to_multiset().count(t[k]) > 0) by {
                assert(t.contains(t[k]));
            }
            assert(t.to_multiset().remove(t[k]).insert(t[k]) =~= t.to_multiset());
        }
        assert(t2.to_multiset() =~= u.to_multiset().remove(u[k]));
        assert(t[k] == s.last());
        assert(u[k] == s[k]);
        assert(t.to_multiset() == u.to_multiset().remove(s[k]).insert(s.last()));
        assert(u.to_multiset().count(s[k]) > 0) by {
            assert(u[k] == s[k]);
            assert(u.contains(s[k]));
        }
        assert(u.to_multiset().remove(s[k]).insert(s.last()) =~= u.to_multiset().insert(
            s.last(),
        ).remove(s[k]));
    }
}

/// The names of the immediate children of node `p`, in child-list order.
pub open spec fn child_names(a: Seq<NodeV>, p: int) -> Seq<Seq<char>> {
    children_of(a[p]).map_values(|c: usize| name_of(a[c as int]))
}

/// Making a folder under a node and then removing that name from the same
/// node restores the node's child collection, by name (as a multiset, and
/// so as a set); and the node's cached size is untouched on the way back:
/// the insertion added the fresh folder's size of zero, and the removal
/// adjusts no size at all.
pub proof fn lemma_mkdir_then_rmdir_restores_names(a: Seq<NodeV>, p: int, dir: NodeV)
    requires
        arena_wf(a),
        a.len() <= usize::MAX,
        0 <= p < a.len(),
        !(a[p] is File),
        dir is Folder,
        children_of(dir) == Seq::<usize>::empty(),
    ensures
        ({
            let a1 = spec_add(a, p, dir);
            let cs1 = children_of(a1[p]);
            let k = first_child_named_from(a1, cs1, name_of(dir), 0);
            let a2 = spec_remove_child_at(a1, p, k);
            &&& k < cs1.len()
            &&& child_names(a2, p).to_multiset() == child_names(a, p).to_multiset()
            &&& child_names(a2, p).to_set() == child_names(a, p).to_set()
            &&& size_of(a2[p]) == size_of(a1[p])
            &&& size_of(dir) == 0 ==> size_of(a2[p]) == size_of(a[p])
        }),
{
    broadcast use vstd::seq_lib::group_to_multiset_ensures;

    let name = name_of(dir);
    let a1 = spec_add(a, p, dir);
    let idx = a.len() as int;
    let cs = children_of(a[p]);
    let cs1 = children_of(a1[p]);
    let names0 = child_names(a, p);
    let names1 = child_names(a1, p);
    assert(cs1 == cs.push(idx as usize));
    // the appended folder is the relinked `dir`, which keeps its name
    assert(a1[idx] == linked(dir, p as usize, (depth_of(a[p]) + 1) as usize));
    assert(name_of(a1[idx]) == name);
    // sibling nodes are untouched by the insertion
    assert(forall|j: int|
        0 <= j < cs.len() ==> p < #[trigger] cs[j] < a.len() && a1[cs[j] as int] == a[cs[j] as int]);
    assert(names1 =~= names0.push(name)) by {
        assert forall|j: int| 0 <= j < names1.len() implies names1[j] == names0.push(name)[j] by {
            if j < cs.len() {
                assert(cs1[j] == cs[j]);
                assert(p < cs[j] < a.len());
                assert(names1[j] == name_of(a1[cs1[j] as int]));
                assert(names0[j] == name_of(a[cs[j] as int]));
            } else {
                assert(cs1[j] == idx as usize);
                assert(names1[j] == name_of(a1[idx]));
            }
        }
    }
    assert(names1.to_multiset() == names0.to_multiset().insert(name));
    // the search succeeds: the new child carries the name, so some child does
    let k = first_child_named_from(a1, cs1, name, 0);
    lemma_first_child_named_bounds(a1, cs1, name, 0);
    lemma_first_child_named_found(a1, cs1, name, 0);
    assert(node_named(a1[idx], name));
    assert(cs1[cs1.len() - 1] == idx as usize);
    lemma_first_child_named_is_first(a1, cs1, name, 0, cs1.len() - 1);
    assert(k < cs1.len());
    assert(node_named(a1[cs1[k] as int], name));
    assert(names1[k] == name);
    // the removal detaches position k by the last-element swap
    let a2 = spec_remove_child_at(a1, p, k);
    let cs2 = children_of(a2[p]);
    let names2 = child_names(a2, p);
    assert(cs2 == cs1.update(k, cs1.last()).drop_last());
    assert(forall|j: int|
        0 <= j < cs1.len() ==> #[trigger] cs1[j] != p && a2[cs1[j] as int] == a1[cs1[j] as int]);
    assert(names2 =~= names1.update(k, names1.last()).drop_last());
    lemma_swap_remove_multiset(names1, k);
    assert(names2.to_multiset() == names1.to_multiset().remove(name));
    assert(names2.to_multiset() =~= names0.to_multiset());
    // equal multisets carry equal element sets
    assert(names2.to_set() =~= names0.to_set()) by {
        assert(forall|x: Seq<char>| #[trigger]
            names2.contains(x) <==> names2.to_multiset().count(x) > 0);
        assert(forall|x: Seq<char>| #[trigger]
            names0.contains(x) <==> names0.to_multiset().count(x) > 0);
    }
}

/// The names along the parent chain of node `i`, root first; the root
/// itself contributes none.
pub open spec fn chain_names(a: Seq<NodeV>, i: int) -> Seq<Seq<char>>
    decreases i,
    when 0 <= i < a.len() && arena_wf(a)
{
    if i == 0 {
        Seq::empty()
    } else {
        chain_names(a, parent_of(a[i]) as int).push(name_of(a[i]))
    }
}

/// A child search never lands past a position that carries the name.
pub proof fn lemma_first_child_named_is_first(
    a: Seq<NodeV>,
    cs: Seq<usize>,
    name: Seq<char>,
    k: int,
    m: int,
)
    requires
        0 <= k <= m < cs.len(),
        node_named(a[cs[m] as int], name),
    ensures
        first_child_named_from(a, cs, name, k) <= m,
    decreases cs.len() - k,
{
    if k < m && !node_named(a[cs[k] as int], name) {
        lemma_first_child_named_is_first(a, cs, name, k + 1, m);
    }
}

/// Build the hardcoded session skeleton for `username`: `home/<username>`
/// holding `documents` (with two files), `downloads`, `music` (with ten
/// files) and `photos/japan2026`. The user folder is the current directory.
pub fn build_tree(username: &str) -> (ctx: Context)
    ensures
        ctx.wf(),
        ctx.current_dir == 2,
        ctx.arena() == initial_arena(username@),
        ctx.nodes@.len() == 20,
{
    let mut root_children: Vec<usize> = Vec::new();
    root_children.push(1);
    let mut home_children: Vec<usize> = Vec::new();
    home_children.push(2);
    let mut user_children: Vec<usize> = Vec::new();
    user_children.push(3);
    user_children.push(6);
    user_children.push(7);
    user_children.push(18);
    let mut documents_children: Vec<usize> = Vec::new();
    documents_children.push(4);
    documents_children.push(5);
    let mut music_children: Vec<usize> = Vec::new();
    let mut m: usize = 8;
    while m < 18
        invariant
            8 <= m <= 18,
            music_children@.len() == m - 8,
            forall|i: int| 0 <= i < music_children@.len() ==> music_children@[i] == 8 + i,
        decreases 18 - m,
    {
        music_children.push(m);
        m += 1;
    }
    let mut photos_children: Vec<usize> = Vec::new();
    photos_children.push(19);
    let mut nodes: Vec<Node> = Vec::new();
    nodes.push(Node::Root { children: root_children });
    nodes.push(
        Node::Folder {
            name: "home".to_owned(),
            size: 0,
            parent: 0,
            children: home_children,
            depth: 1,
        },
    );
    nodes.push(
        Node::Folder {
            name: username.to_owned(),
            size: 12,
            parent: 1,
            children: user_children,
            depth: 2,
        },
    );
    nodes.push(
        Node::Folder {
            name: "documents".to_owned(),
            size: 2,
            parent: 2,
            children: documents_children,
            depth: 3,
        },
    );
    nodes.push(Node::File { name: "cv.pdf".to_owned(), size: 1, parent: 3, depth: 1 });
    nodes.push(Node::File { name: "data.dat".to_owned(), size: 1, parent: 3, depth: 1 });
    nodes.push(
        Node::Folder {
            name: "downloads".to_owned(),
            size: 0,
            parent: 2,
            children: Vec::new(),
            depth: 3,
        },
    );
    nodes.push(
        Node::Folder {
            name: "music".to_owned(),
            size: 10,
            parent: 2,
            children: music_children,
            depth: 3,
        },
    );
    nodes.push(Node::File { name: "1.mp3".to_owned(), size: 1, parent: 7, depth: 1 });
    nodes.push(Node::File { name: "2.mp3".to_owned(), size: 1, parent: 7, depth: 1 });
    nodes.push(Node::File { name: "3.mp3".to_owned(), size: 1, parent: 7, depth: 1 });
    nodes.push(Node::File { name: "4.mp3".to_owned(), size: 1, parent: 7, depth: 1 });
    nodes.push(Node::File { name: "5.mp3".to_owned(), size: 1, parent: 7, depth: 1 });
    nodes.push(Node::File { name: "6.mp3".to_owned(), size: 1, parent: 7, depth: 1 });
    nodes.push(Node::File { name: "7.mp3".to_owned(), size: 1, parent: 7, depth: 1 });
    nodes.push(Node::File { name: "8.mp3".to_owned(), size: 1, parent: 7, depth: 1 });
    nodes.push(Node::File { name: "9.mp3".to_owned(), size: 1, parent: 7, depth: 1 });
    nodes.push(Node::File { name: "10.mp3".to_owned(), size: 1, parent: 7, depth: 1 });
    nodes.push(
        Node::Folder {
            name: "photos".to_owned(),
            size: 0,
            parent: 2,
            children: photos_children,
            depth: 3,
        },
    );
    nodes.push(
        Node::Folder {
            name: "japan2026".to_owned(),
            size: 0,
            parent: 18,
            children: Vec::new(),
            depth: 4,
        },
    );
    let ctx = Context { nodes, current_dir: 2 };
    proof {
        assert(ctx.arena() =~~= initial_arena(username@));
        assert(ctx.wf());
    }
    ctx
}

} // verus!
