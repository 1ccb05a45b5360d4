use vstd::prelude::*;
use crate::models::{KeyJson, PBOJson, PBOJsonV};
use crate::paths::{PathV, path_view, path_ok, base_name, path_eq, clone_strings};

verus! {

/// What a plain file holds, as far as the pipeline reads it: most files are
/// opaque payloads; ignore manifests are line lists; build manifests and key
/// descriptors are parsed records.
pub enum LeafContent {
    Opaque,
    Lines(Vec<String>),
    Manifest(PBOJson),
    Descriptor(KeyJson),
}

/// A node inside a packed archive: a directory or a plain file.
pub enum ArchNode {
    Dir,
    File(LeafContent),
}

/// One entry of a packed archive, at a path relative to the archived unit.
pub struct ArchEntry {
    pub path: Vec<String>,
    pub node: ArchNode,
}

/// What a file in the tree holds: a plain payload, or — for a packed
/// archive — the entries inside it.
pub enum FileContent {
    Leaf(LeafContent),
    Archive(Vec<ArchEntry>),
}

/// A node of the tree: a directory or a file.
pub enum NodeData {
    Dir,
    File(FileContent),
}

/// One entry of a tree, at a path relative to the tree's root.
pub struct FsEntry {
    pub path: Vec<String>,
    pub node: NodeData,
}

/// A modelled directory tree: the entries beneath one root, in the order a
/// traversal yields them.
pub struct Tree {
    pub entries: Vec<FsEntry>,
}

pub ghost enum LeafV {
    Opaque,
    Lines(Seq<Seq<char>>),
    Manifest(PBOJsonV),
    Descriptor(Seq<char>),
}

pub ghost enum ArchNodeV {
    Dir,
    File(LeafV),
}

pub ghost struct ArchEntryV {
    pub path: PathV,
    pub node: ArchNodeV,
}

pub ghost enum ContentV {
    Leaf(LeafV),
    Archive(Seq<ArchEntryV>),
}

pub ghost enum NodeV {
    Dir,
    File(ContentV),
}

pub ghost struct EntryV {
    pub path: PathV,
    pub node: NodeV,
}

/// The view of a tree: the sequence of its entries' views.
pub type TreeV = Seq<EntryV>;

impl View for LeafContent {
    type V = LeafV;

    open spec fn view(&self) -> LeafV {
        match self {
            LeafContent::Opaque => LeafV::Opaque,
            LeafContent::Lines(v) => LeafV::Lines(v@.map_values(|s: String| s@)),
            LeafContent::Manifest(m) => LeafV::Manifest(m@),
            LeafContent::Descriptor(k) => LeafV::Descriptor(k@),
        }
    }
}

impl View for ArchNode {
    type V = ArchNodeV;

    open spec fn view(&self) -> ArchNodeV {
        match self {
            ArchNode::Dir => ArchNodeV::Dir,
            ArchNode::File(c) => ArchNodeV::File(c@),
        }
    }
}

impl View for ArchEntry {
    type V = ArchEntryV;

    open spec fn view(&self) -> ArchEntryV {
        ArchEntryV { path: path_view(self.path), node: self.node@ }
    }
}

impl View for FileContent {
    type V = ContentV;

    open spec fn view(&self) -> ContentV {
        match self {
            FileContent::Leaf(c) => ContentV::Leaf(c@),
            FileContent::Archive(es) => ContentV::Archive(es@.map_values(|e: ArchEntry| e@)),
        }
    }
}

impl View for NodeData {
    type V = NodeV;

    open spec fn view(&self) -> NodeV {
        match self {
            NodeData::Dir => NodeV::Dir,
            NodeData::File(c) => NodeV::File(c@),
        }
    }
}

impl View for FsEntry {
    type V = EntryV;

    open spec fn view(&self) -> EntryV {
        EntryV { path: path_view(self.path), node: self.node@ }
    }
}

impl View for Tree {
    type V = TreeV;

    open spec fn view(&self) -> TreeV {
        self.entries@.map_values(|e: FsEntry| e@)
    }
}

impl LeafContent {
    /// Copies the content, keeping its view.
    pub fn duplicate(&self) -> (r: LeafContent)
        ensures r@ == self@,
    {
        match self {
            LeafContent::Opaque => LeafContent::Opaque,
            LeafContent::Lines(v) => LeafContent::Lines(clone_strings(v)),
            LeafContent::Manifest(m) => LeafContent::Manifest(m.duplicate()),
            LeafContent::Descriptor(k) => LeafContent::Descriptor(k.duplicate()),
        }
    }
}

impl ArchNode {
    /// Copies the node, keeping its view.
    pub fn duplicate(&self) -> (r: ArchNode)
        ensures r@ == self@,
    {
        match self {
            ArchNode::Dir => ArchNode::Dir,
            ArchNode::File(c) => ArchNode::File(c.duplicate()),
        }
    }
}

impl ArchEntry {
    /// Copies the entry, keeping its view.
    pub fn duplicate(&self) -> (r: ArchEntry)
        ensures r@ == self@,
    {
        ArchEntry { path: clone_strings(&self.path), node: self.node.duplicate() }
    }
}

impl FileContent {
    /// Copies the content, keeping its view.
    pub fn duplicate(&self) -> (r: FileContent)
        ensures r@ == self@,
    {
        match self {
            FileContent::Leaf(c) => FileContent::Leaf(c.duplicate()),
            FileContent::Archive(es) => {
                let mut out: Vec<ArchEntry> = Vec::new();
                let mut i: usize = 0;
                while i < es.len()
                    invariant
                        i <= es@.len(),
                        out@.len() == i,
                        forall|j: int| 0 <= j < i ==> out@[j]@ == es@[j]@,
                    decreases es@.len() - i,
                {
                    out.push(es[i].duplicate());
                    i += 1;
                }
                let r = FileContent::Archive(out);
                proof {
                    assert(out@.map_values(|e: ArchEntry| e@) =~= es@.map_values(|e: ArchEntry| e@));
                }
                r
            },
        }
    }
}

impl NodeData {
    /// Copies the node, keeping its view.
    pub fn duplicate(&self) -> (r: NodeData)
        ensures r@ == self@,
    {
        match self {
            NodeData::Dir => NodeData::Dir,
            NodeData::File(c) => NodeData::File(c.duplicate()),
        }
    }
}

impl FsEntry {
    /// Copies the entry, keeping its view.
    pub fn duplicate(&self) -> (r: FsEntry)
        ensures r@ == self@,
    {
        FsEntry { path: clone_strings(&self.path), node: self.node.duplicate() }
    }
}

/// The node recorded at `p`, taking the first entry with that path.
pub open spec fn node_at(t: TreeV, p: PathV) -> Option<NodeV>
    decreases t.len(),
{
    if t.len() == 0 {
        None
    } else if t.first().path == p {
        Some(t.first().node)
    } else {
        node_at(t.drop_first(), p)
    }
}

/// Whether a plain (non-archive) file stands at `p`, with content `c`.
pub open spec fn leaf_at(t: TreeV, p: PathV) -> Option<LeafV> {
    match node_at(t, p) {
        Some(NodeV::File(ContentV::Leaf(c))) => Some(c),
        _ => None,
    }
}

/// The naming rules that tie a parsed content kind to a file name: ignore
/// manifests hold line lists, build manifests and key descriptors hold their
/// parsed records.
pub open spec fn leaf_coherent(name: Seq<char>, c: LeafV) -> bool {
    &&& (name == ".modignore"@ || name == ".convertignore"@) ==> c is Lines
    &&& name == "pbo.json"@ ==> c is Manifest
    &&& name == "key.json"@ ==> c is Descriptor
}

pub open spec fn arch_entry_wf(e: ArchEntryV) -> bool {
    &&& path_ok(e.path)
    &&& match e.node {
        ArchNodeV::Dir => true,
        ArchNodeV::File(c) => leaf_coherent(base_name(e.path), c),
    }
}

pub open spec fn entry_wf(e: EntryV) -> bool {
    &&& path_ok(e.path)
    &&& match e.node {
        NodeV::Dir => true,
        NodeV::File(ContentV::Leaf(c)) => leaf_coherent(base_name(e.path), c),
        NodeV::File(ContentV::Archive(es)) => {
            &&& forall|i: int| 0 <= i < es.len() ==> arch_entry_wf(#[trigger] es[i])
            &&& forall|i: int, j: int|
                0 <= i < j < es.len() ==> (#[trigger] es[i]).path != (#[trigger] es[j]).path
        },
    }
}

/// A well-formed tree: acceptable paths, contents that match their file
/// names, and no two entries at one path.
pub open spec fn tree_wf(t: TreeV) -> bool {
    &&& forall|i: int| 0 <= i < t.len() ==> entry_wf(#[trigger] t[i])
    &&& forall|i: int, j: int|
        0 <= i < j < t.len() ==> (#[trigger] t[i]).path != (#[trigger] t[j]).path
}

impl Tree {
    /// The empty tree.
    pub fn new() -> (r: Tree)
        ensures r@ == Seq::<EntryV>::empty(),
    {
        let r = Tree { entries: Vec::new() };
        proof { assert(r@ =~= Seq::<EntryV>::empty()); }
        r
    }

    /// Finds the first entry at `p`, if any.
    pub fn find(&self, p: &Vec<String>) -> (r: Option<usize>)
        ensures
            match r {
                Some(i) => {
                    &&& i < self.entries@.len()
                    &&& self@[i as int].path == path_view(*p)
                    &&& node_at(self@, path_view(*p)) == Some(self@[i as int].node)
                },
                None => node_at(self@, path_view(*p)) is None,
            },
    {
        let ghost pv = path_view(*p);
        proof { assert(self@.skip(0) =~= self@); }
        let mut i: usize = 0;
        while i < self.entries.len()
            invariant
                i <= self.entries@.len(),
                pv == path_view(*p),
                node_at(self@, pv) == node_at(self@.skip(i as int), pv),
            decreases self.entries@.len() - i,
        {
            if path_eq(&self.entries[i].path, p) {
                proof {
                    assert(self@.skip(i as int).first() == self@[i as int]);
                }
                return Some(i);
            }
            proof {
                assert(self@.skip(i as int).drop_first() =~= self@.skip(i + 1));
            }
            i += 1;
        }
        proof {
            assert(self@.skip(i as int).len() == 0);
        }
        None
    }
}

} // verus!
