//! A single tree entry of the archive namespace: metadata, a lazy
//! materialization state, and the decoded children while parsed.
//!
//! A node starts `Unparsed`, holding only its name, payload kind and the raw
//! location of its bytes inside the archive. Parsing populates its children
//! from decoded entries and moves it to `Parsed`; unparsing discards the
//! children wholesale and moves it back. Both transitions are total: no
//! reachable tree ever shows a half-populated child list.

use vstd::prelude::*;

verus! {

/// Classifies the payload kind of an archive entry.
#[derive(Clone, Copy, PartialEq, Eq, Structural, Debug)]
pub enum ObjectType {
    /// A directory-like container of further entries.
    Directory,
    /// An image payload.
    Image,
    /// A sub-property nested below an image.
    SubProperty,
    /// A primitive leaf value.
    Primitive,
}

/// The two materialization states of a node.
#[derive(Clone, Copy, PartialEq, Eq, Structural, Debug)]
pub enum ParseState {
    /// Metadata only; the children are not in memory.
    Unparsed,
    /// The children are decoded and held in memory.
    Parsed,
}

impl ObjectType {
    /// The wire tag of this payload kind.
    pub open spec fn spec_tag(self) -> Seq<char> {
        match self {
            ObjectType::Directory => "Directory"@,
            ObjectType::Image => "Image"@,
            ObjectType::SubProperty => "SubProperty"@,
            ObjectType::Primitive => "Primitive"@,
        }
    }

    /// Serializes this payload kind as its wire tag.
    pub fn tag(&self) -> (r: String)
        ensures
            r@ == self.spec_tag(),
    {
        match self {
            ObjectType::Directory => "Directory".to_owned(),
            ObjectType::Image => "Image".to_owned(),
            ObjectType::SubProperty => "SubProperty".to_owned(),
            ObjectType::Primitive => "Primitive".to_owned(),
        }
    }
}

/// One decoded entry of a parsed payload: the metadata a freshly discovered
/// child node is built from.
pub struct ChildEntry {
    /// Name of the child, unique among its siblings in a well-formed payload.
    pub name: String,
    /// Payload kind of the child.
    pub object_type: ObjectType,
    /// Byte offset of the child's raw payload inside the archive.
    pub offset: u64,
    /// Byte length of the child's raw payload inside the archive.
    pub length: u64,
}

/// Mathematical image of a `ChildEntry`.
pub ghost struct EntryView {
    pub name: Seq<char>,
    pub object_type: ObjectType,
    pub offset: u64,
    pub length: u64,
}

impl View for ChildEntry {
    type V = EntryView;

    open spec fn view(&self) -> EntryView {
        EntryView {
            name: self.name@,
            object_type: self.object_type,
            offset: self.offset,
            length: self.length,
        }
    }
}

impl DeepView for ChildEntry {
    type V = EntryView;

    open spec fn deep_view(&self) -> EntryView {
        self.view()
    }
}

/// One entry of the archive namespace.
pub struct Node {
    /// Name of the entry, unique among its siblings.
    pub name: String,
    /// Payload kind of the entry.
    pub object_type: ObjectType,
    /// Materialization state.
    pub state: ParseState,
    /// Decoded children; non-empty only while `Parsed`.
    pub children: Vec<Node>,
    /// Byte offset of the raw payload inside the archive; meaningful only
    /// while `Unparsed`.
    pub offset: u64,
    /// Byte length of the raw payload inside the archive; meaningful only
    /// while `Unparsed`.
    pub length: u64,
}

/// Mathematical image of a `Node`: the whole subtree as a ghost datatype.
#[verifier::ext_equal]
pub ghost struct NodeView {
    pub name: Seq<char>,
    pub object_type: ObjectType,
    pub state: ParseState,
    pub children: Seq<NodeView>,
    pub offset: u64,
    pub length: u64,
}

impl Node {
    /// Mathematical image of this node's whole subtree.
    pub open spec fn deep(self) -> NodeView
        decreases self,
    {
        NodeView {
            name: self.name@,
            object_type: self.object_type,
            state: self.state,
            children: Seq::new(
                self.children@.len(),
                |i: int|
                    if 0 <= i < self.children@.len() {
                        self.children[i].deep()
                    } else {
                        arbitrary()
                    },
            ),
            offset: self.offset,
            length: self.length,
        }
    }
}

impl View for Node {
    type V = NodeView;

    open spec fn view(&self) -> NodeView {
        self.deep()
    }
}

impl NodeView {
    /// Well-formedness of a subtree: an unparsed node holds no children, and
    /// sibling names are pairwise distinct, recursively.
    pub open spec fn wf(self) -> bool
        decreases self,
    {
        &&& (self.state is Unparsed ==> self.children.len() == 0)
        &&& (forall|i: int, j: int|
            0 <= i < j < self.children.len()
                ==> self.children[i].name != self.children[j].name)
        &&& (forall|i: int|
            0 <= i < self.children.len() ==> (#[trigger] self.children[i]).wf())
    }

    /// Whether some child carries this exact name.
    pub open spec fn has_child_named(self, name: Seq<char>) -> bool {
        exists|i: int| 0 <= i < self.children.len() && self.children[i].name == name
    }

    /// The child carrying this exact name; meaningful only when
    /// `has_child_named` holds (under `wf` it is unique).
    pub open spec fn child_named(self, name: Seq<char>) -> NodeView {
        self.children[self.child_index(name)]
    }

    /// Index of the child carrying this exact name.
    pub open spec fn child_index(self, name: Seq<char>) -> int {
        choose|i: int| 0 <= i < self.children.len() && self.children[i].name == name
    }

    /// This node with its children discarded: the image of `unparse`.
    pub open spec fn cleared(self) -> NodeView {
        NodeView { state: ParseState::Unparsed, children: Seq::empty(), ..self }
    }

    /// A freshly discovered, unparsed node built from one decoded entry.
    pub open spec fn fresh(e: EntryView) -> NodeView {
        NodeView {
            name: e.name,
            object_type: e.object_type,
            state: ParseState::Unparsed,
            children: Seq::empty(),
            offset: e.offset,
            length: e.length,
        }
    }

    /// This node with children decoded from `entries`: the image of `parse`
    /// on an unparsed node.
    pub open spec fn populated(self, entries: Seq<EntryView>) -> NodeView {
        NodeView {
            state: ParseState::Parsed,
            children: entries.map_values(|e: EntryView| NodeView::fresh(e)),
            ..self
        }
    }
}

/// Pairwise-distinct names over a sequence of decoded entries.
pub open spec fn entry_names_distinct(entries: Seq<EntryView>) -> bool {
    forall|i: int, j: int|
        0 <= i < j < entries.len() ==> entries[i].name != entries[j].name
}

/// Resolution of a segment sequence from a node: descend left to right,
/// matching each segment against the current node's children by exact name;
/// the first unmatched segment yields `None`. The empty sequence denotes the
/// node itself.
pub open spec fn resolve_from(v: NodeView, segs: Seq<Seq<char>>) -> Option<NodeView>
    decreases segs.len(),
{
    if segs.len() == 0 {
        Some(v)
    } else if v.has_child_named(segs[0]) {
        resolve_from(v.child_named(segs[0]), segs.skip(1))
    } else {
        None
    }
}

/// The tree `v` with the subtree at `segs` replaced by `m`; meaningful only
/// when `resolve_from(v, segs)` is `Some`.
pub open spec fn updated_at(v: NodeView, segs: Seq<Seq<char>>, m: NodeView) -> NodeView
    decreases segs.len(),
{
    if segs.len() == 0 {
        m
    } else {
        let i = v.child_index(segs[0]);
        NodeView {
            children: v.children.update(i, updated_at(v.children[i], segs.skip(1), m)),
            ..v
        }
    }
}

impl Node {
    /// Builds a freshly discovered, unparsed node from one decoded entry.
    pub fn from_entry(e: ChildEntry) -> (r: Node)
        ensures
            r@ == NodeView::fresh(e@),
    {
        let r = Node {
            name: e.name,
            object_type: e.object_type,
            state: ParseState::Unparsed,
            children: Vec::new(),
            offset: e.offset,
            length: e.length,
        };
        proof {
            assert(r@.children =~= Seq::<NodeView>::empty());
        }
        r
    }

    /// Whether any children are currently materialized. While `Unparsed`
    /// this reports false even if the underlying archive entry has children:
    /// metadata alone cannot know them.
    pub fn has_children(&self) -> (r: bool)
        ensures
            r == (self@.children.len() > 0),
    {
        self.children.len() > 0
    }
}

} // verus!
