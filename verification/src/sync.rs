//! The synchronization layer: reader/writer mutual exclusion around the
//! store.
//!
//! Any number of concurrent readers, or exactly one exclusive writer, never
//! both. The lock carries the store's well-formedness as its invariant:
//! every release of the exclusive slot must prove the tree well-formed
//! again, so no reader ever observes a half-populated or half-cleared child
//! list, and no failed mutation can leave a corrupt tree behind for later
//! callers. Structural mutators (initialization, parse, unparse) take the
//! exclusive slot for the whole transition; queries share the read slot.
//!
//! Concurrent writers may run between any two operations, so no contract
//! here can name "the" store state. Instead each operation returns, beside
//! its result, a `Ghost` of the state its acquisition pinned — the view the
//! critical section read, or the before/after pair it rewrote — and its
//! `ensures` ties the result to that pinned state exactly as the
//! corresponding [`NodeStore`] contract does.

use vstd::prelude::*;
use vstd::rwlock::RwLock;
use vstd::rwlock::RwLockPredicate;
use crate::node::ChildEntry;
use crate::node::resolve_from;
use crate::node::entry_names_distinct;
use crate::node::updated_at;
use crate::path::spec_split;
use crate::store::NodeStore;
use crate::store::OpenedArchive;
use crate::store::NodeInfo;
use crate::store::RootView;
use crate::store::Status;
use crate::store::WzError;
use crate::store::info_of;
use crate::store::init_transition;
use crate::store::items_loaded;
use crate::store::store_wf;

verus! {

/// The lock invariant: whatever state the lock protects is well-formed.
pub struct StoreInv;

impl RwLockPredicate<NodeStore> for StoreInv {
    open spec fn inv(self, s: NodeStore) -> bool {
        store_wf(s@)
    }
}

/// A store shared between concurrent operations. Each operation holds the
/// appropriate slot for exactly its own critical section.
pub struct SharedStore {
    lock: RwLock<NodeStore, StoreInv>,
}

impl SharedStore {
    #[verifier::type_invariant]
    spec fn lock_configured(self) -> bool {
        self.lock.pred() == StoreInv
    }

    /// A shared store with no archive loaded: the ghost result is the view
    /// of the store the lock is created over.
    pub fn new() -> (r: (SharedStore, Ghost<Option<RootView>>))
        ensures
            r.1@ is None,
            store_wf(r.1@),
    {
        let store = NodeStore::new();
        let ghost s0 = store@;
        let shared = SharedStore { lock: RwLock::new(store, Ghost(StoreInv)) };
        (shared, Ghost(s0))
    }

    /// Whether the pinned store state already targets this source path; the
    /// caller need not open the archive again when it does.
    pub fn targets(&self, source_path: &str) -> (r: (bool, Ghost<Option<RootView>>))
        ensures
            store_wf(r.1@),
            r.0 == (r.1@ is Some && r.1@.unwrap().source_path == source_path@),
    {
        proof {
            use_type_invariant(self);
        }
        let handle = self.lock.acquire_read();
        let store = handle.borrow();
        let ghost s = store@;
        let res = store.targets(source_path);
        handle.release_read();
        (res, Ghost(s))
    }

    /// Loads an archive under the exclusive slot: the whole root swap is one
    /// critical section, so no reader sees a partial old/new mixture. The
    /// ghost result is the pinned (before, after) pair of store views; the
    /// result and the after-state are exactly the initialization transition
    /// of the before-state.
    pub fn initialize(&self, source_path: &str, opened: Option<OpenedArchive>) -> (r: (
        Result<i32, WzError>,
        Ghost<(Option<RootView>, Option<RootView>)>,
    ))
        ensures
            store_wf(r.1@.0),
            store_wf(r.1@.1),
            init_transition(
                r.1@.0,
                source_path@,
                match opened {
                    Some(a) => Some(a@),
                    None => None,
                },
            ) == (r.1@.1, r.0),
    {
        proof {
            use_type_invariant(self);
        }
        let (mut store, handle) = self.lock.acquire_write();
        let ghost s0 = store@;
        let res = store.initialize(source_path, opened);
        let ghost s1 = store@;
        handle.release_write(store);
        (res, Ghost((s0, s1)))
    }

    /// Reads the store status under the shared slot. The ghost result is
    /// the pinned store view the status describes.
    pub fn status(&self) -> (r: (Status, Ghost<Option<RootView>>))
        ensures
            store_wf(r.1@),
            r.0.is_initialized == (r.1@ is Some),
            r.0.is_load_items == items_loaded(r.1@),
            r.0.patch_version == (match r.1@ {
                Some(v) => Some(v.patch_version),
                None => None::<i32>,
            }),
    {
        proof {
            use_type_invariant(self);
        }
        let handle = self.lock.acquire_read();
        let store = handle.borrow();
        let ghost s = store@;
        let st = store.status();
        handle.release_read();
        (st, Ghost(s))
    }

    /// Reads, under the shared slot, the raw location to decode for `path`:
    /// `Ok(None)` when the node the pinned state resolves is already parsed,
    /// `Ok(Some((offset, length)))` while it is unparsed.
    pub fn raw_location(&self, path: &str) -> (r: (
        Result<Option<(u64, u64)>, WzError>,
        Ghost<Option<RootView>>,
    ))
        ensures
            store_wf(r.1@),
            match r.1@ {
                None => r.0 == Err::<Option<(u64, u64)>, WzError>(WzError::NodeNotFound),
                Some(ar) => match resolve_from(ar.root, spec_split(path@)) {
                    None => r.0 == Err::<Option<(u64, u64)>, WzError>(WzError::NodeNotFound),
                    Some(t) => if t.state is Parsed {
                        r.0 == Ok::<Option<(u64, u64)>, WzError>(None)
                    } else {
                        r.0 == Ok::<Option<(u64, u64)>, WzError>(Some((t.offset, t.length)))
                    },
                },
            },
    {
        proof {
            use_type_invariant(self);
        }
        let handle = self.lock.acquire_read();
        let store = handle.borrow();
        let ghost s = store@;
        let res = store.raw_location(path);
        handle.release_read();
        (res, Ghost(s))
    }

    /// Parses the node at `path` under the exclusive slot: the decoded
    /// child list is installed wholesale within one critical section. The
    /// ghost result is the pinned (before, after) pair; success, each error,
    /// and the after-state follow the before-state exactly as in
    /// [`NodeStore::parse_node`].
    pub fn parse_node(&self, path: &str, decoded: Option<Vec<ChildEntry>>) -> (r: (
        Result<(), WzError>,
        Ghost<(Option<RootView>, Option<RootView>)>,
    ))
        ensures
            store_wf(r.1@.0),
            store_wf(r.1@.1),
            ({
                let segs = spec_split(path@);
                match r.1@.0 {
                    None => r.0 == Err::<(), WzError>(WzError::NodeNotFound) && r.1@.1 == r.1@.0,
                    Some(ar) => match resolve_from(ar.root, segs) {
                        None => r.0 == Err::<(), WzError>(WzError::NodeNotFound) && r.1@.1
                            == r.1@.0,
                        Some(t) => if t.state is Parsed {
                            r.0 == Ok::<(), WzError>(()) && r.1@.1 == r.1@.0
                        } else {
                            match decoded {
                                None => r.0 == Err::<(), WzError>(WzError::ParseFailed) && r.1@.1
                                    == r.1@.0,
                                Some(es) => if entry_names_distinct(es.deep_view()) {
                                    r.0 == Ok::<(), WzError>(()) && r.1@.1 == Some(
                                        RootView {
                                            root: updated_at(
                                                ar.root,
                                                segs,
                                                t.populated(es.deep_view()),
                                            ),
                                            ..ar
                                        },
                                    )
                                } else {
                                    r.0 == Err::<(), WzError>(WzError::ParseFailed) && r.1@.1
                                        == r.1@.0
                                },
                            }
                        },
                    },
                }
            }),
    {
        proof {
            use_type_invariant(self);
        }
        let (mut store, handle) = self.lock.acquire_write();
        let ghost s0 = store@;
        let res = store.parse_node(path, decoded);
        let ghost s1 = store@;
        handle.release_write(store);
        (res, Ghost((s0, s1)))
    }

    /// Unparses the node at `path` under the exclusive slot: the child list
    /// is discarded wholesale within one critical section. The ghost result
    /// is the pinned (before, after) pair, related as in
    /// [`NodeStore::unparse_node`].
    pub fn unparse_node(&self, path: &str) -> (r: (
        Result<(), WzError>,
        Ghost<(Option<RootView>, Option<RootView>)>,
    ))
        ensures
            store_wf(r.1@.0),
            store_wf(r.1@.1),
            ({
                let segs = spec_split(path@);
                match r.1@.0 {
                    None => r.0 == Err::<(), WzError>(WzError::NodeNotFound) && r.1@.1 == r.1@.0,
                    Some(ar) => match resolve_from(ar.root, segs) {
                        None => r.0 == Err::<(), WzError>(WzError::NodeNotFound) && r.1@.1
                            == r.1@.0,
                        Some(t) => r.0 == Ok::<(), WzError>(()) && r.1@.1 == Some(
                            RootView { root: updated_at(ar.root, segs, t.cleared()), ..ar },
                        ),
                    },
                }
            }),
    {
        proof {
            use_type_invariant(self);
        }
        let (mut store, handle) = self.lock.acquire_write();
        let ghost s0 = store@;
        let res = store.unparse_node(path);
        let ghost s1 = store@;
        handle.release_write(store);
        (res, Ghost((s0, s1)))
    }

    /// Describes the node at `path` under the shared slot, against the
    /// pinned store view.
    pub fn get_node_info(&self, path: &str) -> (r: (
        Result<NodeInfo, WzError>,
        Ghost<Option<RootView>>,
    ))
        ensures
            store_wf(r.1@),
            match r.1@ {
                None => r.0 is Err && r.0.unwrap_err() == WzError::NodeNotFound,
                Some(ar) => match resolve_from(ar.root, spec_split(path@)) {
                    None => r.0 is Err && r.0.unwrap_err() == WzError::NodeNotFound,
                    Some(t) => r.0 is Ok && r.0.unwrap()@ == info_of(t),
                },
            },
    {
        proof {
            use_type_invariant(self);
        }
        let handle = self.lock.acquire_read();
        let store = handle.borrow();
        let ghost s = store@;
        let res = store.get_node_info(path);
        handle.release_read();
        (res, Ghost(s))
    }

    /// Describes the children of the node at `path` under the shared slot,
    /// in their stored order, against the pinned store view.
    pub fn get_children_info(&self, path: &str) -> (r: (
        Result<Vec<NodeInfo>, WzError>,
        Ghost<Option<RootView>>,
    ))
        ensures
            store_wf(r.1@),
            match r.1@ {
                None => r.0 is Err && r.0.unwrap_err() == WzError::NodeNotFound,
                Some(ar) => match resolve_from(ar.root, spec_split(path@)) {
                    None => r.0 is Err && r.0.unwrap_err() == WzError::NodeNotFound,
                    Some(t) => r.0 is Ok && r.0.unwrap().deep_view() == t.children.map_values(
                        |c: crate::node::NodeView| info_of(c),
                    ),
                },
            },
    {
        proof {
            use_type_invariant(self);
        }
        let handle = self.lock.acquire_read();
        let store = handle.borrow();
        let ghost s = store@;
        let res = store.get_children_info(path);
        handle.release_read();
        (res, Ghost(s))
    }
}

} // verus!
