//! The archive store: owns the current root, governs (re)initialization,
//! and exposes the path-addressed operation surface.
//!
//! Opening and decoding the on-disk archive is an outside capability: the
//! caller opens the archive and decodes raw payloads, and hands the plain
//! results in. Every decision — idempotent re-initialization, resolution,
//! the parse/unparse transitions, status — is made and verified here.

use vstd::prelude::*;
use crate::node::ChildEntry;
use crate::node::Node;
use crate::node::NodeView;
use crate::node::ObjectType;
use crate::node::ParseState;
use crate::node::entry_names_distinct;
use crate::node::resolve_from;
use crate::node::updated_at;
use crate::mutate::ParseOutcome;
use crate::mutate::parse_at;
use crate::mutate::unparse_at;
use crate::lemmas::lemma_cleared_wf;
use crate::lemmas::lemma_populated_wf;
use crate::lemmas::lemma_updated_at_wf;
use crate::path::spec_split;
use crate::path::split_path;
use crate::resolve::lemma_child_index_unique;

verus! {

/// The archive version variants a caller may hint at.
#[derive(Clone, Copy, PartialEq, Eq, Structural, Debug)]
pub enum Version {
    Gms,
    Ems,
    Bms,
    Unknown,
}

impl Version {
    /// The variant a textual tag denotes; anything unrecognized is `Unknown`.
    pub open spec fn spec_from_tag(tag: Seq<char>) -> Version {
        if tag == "GMS"@ {
            Version::Gms
        } else if tag == "EMS"@ {
            Version::Ems
        } else if tag == "BMS"@ {
            Version::Bms
        } else {
            Version::Unknown
        }
    }

    /// Maps a textual version tag to its variant.
    pub fn from_tag(tag: &String) -> (v: Version)
        ensures
            v == Version::spec_from_tag(tag@),
    {
        if *tag == "GMS".to_owned() {
            Version::Gms
        } else if *tag == "EMS".to_owned() {
            Version::Ems
        } else if *tag == "BMS".to_owned() {
            Version::Bms
        } else {
            Version::Unknown
        }
    }
}

/// The typed failures of this layer.
#[derive(Clone, Copy, PartialEq, Eq, Structural, Debug)]
pub enum WzError {
    /// The archive could not be opened or validated.
    InitFailed,
    /// The path did not resolve to a node.
    NodeNotFound,
    /// The addressed payload could not be decoded.
    ParseFailed,
}

/// What opening and validating an archive yields: root metadata only. The
/// fresh root starts `Unparsed`; its children become known when it is
/// explicitly parsed.
pub struct OpenedArchive {
    /// Name the root node carries.
    pub root_name: String,
    /// Detected version variant.
    pub version: Version,
    /// Revision marker embedded in the archive.
    pub patch_version: i32,
    /// Byte offset of the root's raw payload.
    pub offset: u64,
    /// Byte length of the root's raw payload.
    pub length: u64,
}

/// Mathematical image of an `OpenedArchive`.
pub ghost struct OpenedView {
    pub root_name: Seq<char>,
    pub version: Version,
    pub patch_version: i32,
    pub offset: u64,
    pub length: u64,
}

impl View for OpenedArchive {
    type V = OpenedView;

    open spec fn view(&self) -> OpenedView {
        OpenedView {
            root_name: self.root_name@,
            version: self.version,
            patch_version: self.patch_version,
            offset: self.offset,
            length: self.length,
        }
    }
}

/// Wire-ready description of one node: name, serialized payload-kind tag,
/// and whether children are currently materialized.
#[derive(Clone, Debug)]
pub struct NodeInfo {
    pub name: String,
    pub node_type: String,
    pub has_child: bool,
}

/// Mathematical image of a `NodeInfo`.
pub ghost struct InfoView {
    pub name: Seq<char>,
    pub node_type: Seq<char>,
    pub has_child: bool,
}

impl View for NodeInfo {
    type V = InfoView;

    open spec fn view(&self) -> InfoView {
        InfoView { name: self.name@, node_type: self.node_type@, has_child: self.has_child }
    }
}

impl DeepView for NodeInfo {
    type V = InfoView;

    open spec fn deep_view(&self) -> InfoView {
        self.view()
    }
}

/// The description a resolved node is reported as.
pub open spec fn info_of(t: NodeView) -> InfoView {
    InfoView {
        name: t.name,
        node_type: t.object_type.spec_tag(),
        has_child: t.children.len() > 0,
    }
}

/// Read-only store status.
#[derive(Clone, Copy, Debug)]
pub struct Status {
    /// Whether an archive is currently loaded.
    pub is_initialized: bool,
    /// Whether the well-known "Item" subtree has materialized children.
    pub is_load_items: bool,
    /// Revision marker of the loaded archive, if any.
    pub patch_version: Option<i32>,
}

/// The current archive root with its archive-level metadata.
pub struct ArchiveRoot {
    root: Node,
    source_path: String,
    version: Version,
    patch_version: i32,
}

/// Mathematical image of an `ArchiveRoot`.
#[verifier::ext_equal]
pub ghost struct RootView {
    pub root: NodeView,
    pub source_path: Seq<char>,
    pub version: Version,
    pub patch_version: i32,
}

/// The store: at most one live archive root.
pub struct NodeStore {
    root: Option<ArchiveRoot>,
}

impl View for NodeStore {
    type V = Option<RootView>;

    closed spec fn view(&self) -> Option<RootView> {
        match self.root {
            Some(ar) => Some(
                RootView {
                    root: ar.root.deep(),
                    source_path: ar.source_path@,
                    version: ar.version,
                    patch_version: ar.patch_version,
                },
            ),
            None => None,
        }
    }
}

/// Well-formedness of a store state: whatever root is loaded is a
/// well-formed tree.
pub open spec fn store_wf(s: Option<RootView>) -> bool {
    s is Some ==> s.unwrap().root.wf()
}

/// The root a freshly opened archive installs: unparsed, childless, carrying
/// the archive's raw-location metadata.
pub open spec fn fresh_root(a: OpenedView) -> NodeView {
    NodeView {
        name: a.root_name,
        object_type: ObjectType::Directory,
        state: ParseState::Unparsed,
        children: Seq::empty(),
        offset: a.offset,
        length: a.length,
    }
}

/// The initialization transition: a store already targeting `path` is left
/// untouched and reports its existing patch version; otherwise a
/// successfully opened archive atomically replaces the whole root, and a
/// failed open changes nothing and fails.
pub open spec fn init_transition(
    s0: Option<RootView>,
    path: Seq<char>,
    opened: Option<OpenedView>,
) -> (Option<RootView>, Result<i32, WzError>) {
    if s0 is Some && s0.unwrap().source_path == path {
        (s0, Ok(s0.unwrap().patch_version))
    } else {
        match opened {
            None => (s0, Err(WzError::InitFailed)),
            Some(a) => (
                Some(
                    RootView {
                        root: fresh_root(a),
                        source_path: path,
                        version: a.version,
                        patch_version: a.patch_version,
                    },
                ),
                Ok(a.patch_version),
            ),
        }
    }
}

/// Whether the well-known "Item" subtree has at least one materialized
/// child. Absent or still-unparsed subtrees report false; nothing is parsed
/// on behalf of a status query.
pub open spec fn items_loaded(s: Option<RootView>) -> bool {
    &&& s is Some
    &&& s.unwrap().root.has_child_named("Item"@)
    &&& s.unwrap().root.child_named("Item"@).children.len() > 0
}

impl NodeStore {
    /// A store with no archive loaded.
    pub fn new() -> (s: NodeStore)
        ensures
            s@ is None,
    {
        NodeStore { root: None }
    }

    /// Whether the loaded archive already targets this source path; the
    /// caller need not open the archive again when it does.
    pub fn targets(&self, source_path: &str) -> (r: bool)
        ensures
            r == (self@ is Some && self@.unwrap().source_path == source_path@),
    {
        match &self.root {
            Some(ar) => ar.source_path == source_path.to_owned(),
            None => false,
        }
    }

    /// Loads an archive: `opened` is what the caller's attempt to open and
    /// validate `source_path` yielded, `None` when that failed. If the
    /// current root already targets `source_path`, the existing patch
    /// version is returned and nothing changes, whatever `opened` holds;
    /// otherwise a fresh root replaces the old tree wholesale, or
    /// `InitFailed` is reported with the store untouched.
    pub fn initialize(&mut self, source_path: &str, opened: Option<OpenedArchive>) -> (r: Result<
        i32,
        WzError,
    >)
        requires
            store_wf(old(self)@),
        ensures
            store_wf(final(self)@),
            ({
                let (s1, res) = init_transition(
                    old(self)@,
                    source_path@,
                    match opened {
                        Some(a) => Some(a@),
                        None => None,
                    },
                );
                final(self)@ == s1 && r == res
            }),
    {
        if self.targets(source_path) {
            let pv = match &self.root {
                Some(ar) => ar.patch_version,
                None => 0,
            };
            return Ok(pv);
        }
        match opened {
            None => Err(WzError::InitFailed),
            Some(a) => {
                let pv = a.patch_version;
                let root = Node {
                    name: a.root_name,
                    object_type: ObjectType::Directory,
                    state: ParseState::Unparsed,
                    children: Vec::new(),
                    offset: a.offset,
                    length: a.length,
                };
                proof {
                    assert(root@.children =~= Seq::<NodeView>::empty());
                }
                self.root = Some(
                    ArchiveRoot {
                        root,
                        source_path: source_path.to_owned(),
                        version: a.version,
                        patch_version: pv,
                    },
                );
                proof {
                    assert(self@.unwrap() =~~= init_transition(
                        old(self)@,
                        source_path@,
                        Some(a@),
                    ).0.unwrap());
                }
                Ok(pv)
            },
        }
    }

    /// Read-only status of the store. Never parses anything: an absent or
    /// unparsed "Item" subtree reports `is_load_items == false` rather than
    /// an error.
    pub fn status(&self) -> (st: Status)
        requires
            store_wf(self@),
        ensures
            st.is_initialized == (self@ is Some),
            st.is_load_items == items_loaded(self@),
            st.patch_version == (match self@ {
                Some(r) => Some(r.patch_version),
                None => None::<i32>,
            }),
    {
        match &self.root {
            None => Status { is_initialized: false, is_load_items: false, patch_version: None },
            Some(ar) => {
                let item = String::from_str("Item");
                let loaded = match ar.root.find_child(&item) {
                    Some(i) => {
                        proof {
                            lemma_child_index_unique(ar.root.deep(), "Item"@, i as int);
                        }
                        ar.root.children[i].has_children()
                    },
                    None => false,
                };
                Status {
                    is_initialized: true,
                    is_load_items: loaded,
                    patch_version: Some(ar.patch_version),
                }
            },
        }
    }

    /// The raw location the caller must decode to parse the node at `path`:
    /// `Ok(None)` when the node is already parsed (nothing to decode),
    /// `Ok(Some((offset, length)))` while it is unparsed.
    pub fn raw_location(&self, path: &str) -> (r: Result<Option<(u64, u64)>, WzError>)
        requires
            store_wf(self@),
        ensures
            match self@ {
                None => r == Err::<Option<(u64, u64)>, WzError>(WzError::NodeNotFound),
                Some(ar) => match resolve_from(ar.root, spec_split(path@)) {
                    None => r == Err::<Option<(u64, u64)>, WzError>(WzError::NodeNotFound),
                    Some(t) => if t.state is Parsed {
                        r == Ok::<Option<(u64, u64)>, WzError>(None)
                    } else {
                        r == Ok::<Option<(u64, u64)>, WzError>(Some((t.offset, t.length)))
                    },
                },
            },
    {
        match &self.root {
            None => Err(WzError::NodeNotFound),
            Some(ar) => {
                let segs = split_path(path);
                proof {
                    assert(segs.deep_view().skip(0) =~~= segs.deep_view());
                }
                match ar.root.resolve(&segs, 0) {
                    None => Err(WzError::NodeNotFound),
                    Some(n) => {
                        match n.state {
                            ParseState::Parsed => Ok(None),
                            ParseState::Unparsed => Ok(Some((n.offset, n.length))),
                        }
                    },
                }
            },
        }
    }

    /// Parses the node at `path`: `decoded` is what the caller's decode of
    /// that node's raw bytes yielded, `None` when decoding failed. An
    /// already-parsed node is a successful no-op. On success the node's
    /// children are exactly the decoded entries; on any failure nothing
    /// changes.
    pub fn parse_node(&mut self, path: &str, decoded: Option<Vec<ChildEntry>>) -> (r: Result<
        (),
        WzError,
    >)
        requires
            store_wf(old(self)@),
        ensures
            store_wf(final(self)@),
            ({
                let segs = spec_split(path@);
                match old(self)@ {
                    None => r == Err::<(), WzError>(WzError::NodeNotFound) && final(self)@
                        == old(self)@,
                    Some(ar) => match resolve_from(ar.root, segs) {
                        None => r == Err::<(), WzError>(WzError::NodeNotFound) && final(self)@
                            == old(self)@,
                        Some(t) => if t.state is Parsed {
                            r == Ok::<(), WzError>(()) && final(self)@ == old(self)@
                        } else {
                            match decoded {
                                None => r == Err::<(), WzError>(WzError::ParseFailed)
                                    && final(self)@ == old(self)@,
                                Some(es) => if entry_names_distinct(es.deep_view()) {
                                    r == Ok::<(), WzError>(()) && final(self)@ == Some(
                                        RootView {
                                            root: updated_at(
                                                ar.root,
                                                segs,
                                                t.populated(es.deep_view()),
                                            ),
                                            ..ar
                                        },
                                    )
                                } else {
                                    r == Err::<(), WzError>(WzError::ParseFailed) && final(self)@
                                        == old(self)@
                                },
                            }
                        },
                    },
                }
            }),
    {
        match &mut self.root {
            None => Err(WzError::NodeNotFound),
            Some(ar) => {
                let segs = split_path(path);
                proof {
                    assert(segs.deep_view().skip(0) =~~= segs.deep_view());
                }
                let ghost v0 = ar.root.deep();
                let ghost dv = match decoded {
                    Some(ref es) => Some(es.deep_view()),
                    None => None::<Seq<crate::node::EntryView>>,
                };
                let outcome = parse_at(&mut ar.root, &segs, 0, decoded);
                proof {
                    let target = resolve_from(v0, spec_split(path@));
                    if target is Some && !(target.unwrap().state is Parsed) && dv is Some
                        && entry_names_distinct(dv.unwrap()) {
                        lemma_populated_wf(target.unwrap(), dv.unwrap());
                        lemma_updated_at_wf(
                            v0,
                            spec_split(path@),
                            target.unwrap().populated(dv.unwrap()),
                        );
                    }
                }
                match outcome {
                    ParseOutcome::Missing => Err(WzError::NodeNotFound),
                    ParseOutcome::BadPayload => Err(WzError::ParseFailed),
                    ParseOutcome::AlreadyParsed => Ok(()),
                    ParseOutcome::Populated => Ok(()),
                }
            },
        }
    }

    /// Unparses the node at `path`: discards its children wholesale and
    /// resets it to `Unparsed`, releasing the associated memory. An
    /// already-unparsed node is a successful no-op.
    pub fn unparse_node(&mut self, path: &str) -> (r: Result<(), WzError>)
        requires
            store_wf(old(self)@),
        ensures
            store_wf(final(self)@),
            ({
                let segs = spec_split(path@);
                match old(self)@ {
                    None => r == Err::<(), WzError>(WzError::NodeNotFound) && final(self)@
                        == old(self)@,
                    Some(ar) => match resolve_from(ar.root, segs) {
                        None => r == Err::<(), WzError>(WzError::NodeNotFound) && final(self)@
                            == old(self)@,
                        Some(t) => r == Ok::<(), WzError>(()) && final(self)@ == Some(
                            RootView { root: updated_at(ar.root, segs, t.cleared()), ..ar },
                        ),
                    },
                }
            }),
    {
        match &mut self.root {
            None => Err(WzError::NodeNotFound),
            Some(ar) => {
                let segs = split_path(path);
                proof {
                    assert(segs.deep_view().skip(0) =~~= segs.deep_view());
                }
                let ghost v0 = ar.root.deep();
                let found = unparse_at(&mut ar.root, &segs, 0);
                proof {
                    let target = resolve_from(v0, spec_split(path@));
                    if target is Some {
                        lemma_cleared_wf(target.unwrap());
                        lemma_updated_at_wf(v0, spec_split(path@), target.unwrap().cleared());
                    }
                }
                if found {
                    Ok(())
                } else {
                    Err(WzError::NodeNotFound)
                }
            },
        }
    }

    /// Describes the node at `path`: its name, serialized payload-kind tag,
    /// and whether children are currently materialized. The empty path
    /// describes the root.
    pub fn get_node_info(&self, path: &str) -> (r: Result<NodeInfo, WzError>)
        requires
            store_wf(self@),
        ensures
            match self@ {
                None => r is Err && r.unwrap_err() == WzError::NodeNotFound,
                Some(ar) => match resolve_from(ar.root, spec_split(path@)) {
                    None => r is Err && r.unwrap_err() == WzError::NodeNotFound,
                    Some(t) => r is Ok && r.unwrap()@ == info_of(t),
                },
            },
    {
        match &self.root {
            None => Err(WzError::NodeNotFound),
            Some(ar) => {
                let segs = split_path(path);
                proof {
                    assert(segs.deep_view().skip(0) =~~= segs.deep_view());
                }
                match ar.root.resolve(&segs, 0) {
                    None => Err(WzError::NodeNotFound),
                    Some(n) => Ok(
                        NodeInfo {
                            name: n.name.clone(),
                            node_type: n.object_type.tag(),
                            has_child: n.has_children(),
                        },
                    ),
                }
            },
        }
    }

    /// Describes the children of the node at `path`, in their stored order.
    /// An unparsed node — the freshly initialized root included — has no
    /// materialized children and yields the empty sequence, not an error.
    pub fn get_children_info(&self, path: &str) -> (r: Result<Vec<NodeInfo>, WzError>)
        requires
            store_wf(self@),
        ensures
            match self@ {
                None => r is Err && r.unwrap_err() == WzError::NodeNotFound,
                Some(ar) => match resolve_from(ar.root, spec_split(path@)) {
                    None => r is Err && r.unwrap_err() == WzError::NodeNotFound,
                    Some(t) => r is Ok && r.unwrap().deep_view() == t.children.map_values(
                        |c: NodeView| info_of(c),
                    ),
                },
            },
    {
        match &self.root {
            None => Err(WzError::NodeNotFound),
            Some(ar) => {
                let segs = split_path(path);
                proof {
                    assert(segs.deep_view().skip(0) =~~= segs.deep_view());
                }
                match ar.root.resolve(&segs, 0) {
                    None => Err(WzError::NodeNotFound),
                    Some(n) => {
                        let ghost t = n.deep();
                        let mut infos: Vec<NodeInfo> = Vec::new();
                        let mut i: usize = 0;
                        while i < n.children.len()
                            invariant
                                0 <= i <= n.children@.len(),
                                t == n.deep(),
                                t.children.len() == n.children@.len(),
                                infos@.len() == i,
                                forall|k: int|
                                    0 <= k < i ==> (#[trigger] infos@[k])@ == info_of(
                                        t.children[k],
                                    ),
                            decreases n.children@.len() - i,
                        {
                            proof {
                                assert(t.children[i as int] == n.children@[i as int]@);
                            }
                            let child = &n.children[i];
                            let info = NodeInfo {
                                name: child.name.clone(),
                                node_type: child.object_type.tag(),
                                has_child: child.has_children(),
                            };
                            proof {
                                assert(info@ == info_of(t.children[i as int]));
                            }
                            infos.push(info);
                            i += 1;
                        }
                        proof {
                            let m = t.children.map_values(|c: NodeView| info_of(c));
                            assert(forall|k: int|
                                0 <= k < t.children.len() ==> #[trigger] m[k] == info_of(
                                    t.children[k],
                                ));
                            assert(infos.deep_view() =~~= m);
                        }
                        Ok(infos)
                    },
                }
            },
        }
    }
}

} // verus!
