//! The library's laws: facts that relate several operations, stated over the
//! same views and spec functions the operations' own contracts use.

use vstd::prelude::*;
use crate::node::EntryView;
use crate::node::NodeView;
use crate::node::entry_names_distinct;
use crate::node::resolve_from;
use crate::node::updated_at;
use crate::lemmas::lemma_cleared_wf;
use crate::lemmas::lemma_populated_wf;
use crate::lemmas::lemma_resolve_after_update;
use crate::lemmas::lemma_resolve_append;
use crate::lemmas::lemma_updated_at_wf;
use crate::resolve::lemma_wf_child;
use crate::store::OpenedView;
use crate::store::RootView;
use crate::store::init_transition;
use crate::store::items_loaded;

verus! {

/// Resolution is a pure function of the root and the path: while the root is
/// unchanged, repeated resolution of a valid path reaches the identical
/// node.
pub proof fn lemma_resolve_identity(
    v: NodeView,
    segs: Seq<Seq<char>>,
    t1: NodeView,
    t2: NodeView,
)
    requires
        resolve_from(v, segs) == Some(t1),
        resolve_from(v, segs) == Some(t2),
    ensures
        t1 == t2,
{
}

/// The node a valid path resolves to under a well-formed root is itself
/// well-formed.
pub proof fn lemma_resolve_wf(v: NodeView, segs: Seq<Seq<char>>)
    requires
        v.wf(),
        resolve_from(v, segs) is Some,
    ensures
        resolve_from(v, segs).unwrap().wf(),
    decreases segs.len(),
{
    if segs.len() == 0 {
    } else {
        let i = v.child_index(segs[0]);
        assert(0 <= i < v.children.len() && v.children[i].name == segs[0]);
        lemma_wf_child(v, i);
        lemma_resolve_wf(v.children[i], segs.skip(1));
    }
}

/// Initializing twice toward the same source path succeeds the second time
/// with the same patch version and leaves the whole state — every node any
/// earlier path resolution reached — untouched.
pub proof fn lemma_initialize_idempotent(
    s0: Option<RootView>,
    path: Seq<char>,
    opened1: Option<OpenedView>,
    opened2: Option<OpenedView>,
)
    ensures
        ({
            let (s1, r1) = init_transition(s0, path, opened1);
            let (s2, r2) = init_transition(s1, path, opened2);
            r1 is Ok ==> s2 == s1 && r2 == r1
        }),
{
}

/// Right after an archive replaces the root, the "Item" subtree reports
/// unloaded: the fresh root is unparsed and childless, so no status query
/// can see materialized items until they are explicitly parsed again.
pub proof fn lemma_items_unloaded_after_initialize(
    s0: Option<RootView>,
    path: Seq<char>,
    a: OpenedView,
)
    requires
        !(s0 is Some && s0.unwrap().source_path == path),
    ensures
        !items_loaded(init_transition(s0, path, Some(a)).0),
{
    let s1 = init_transition(s0, path, Some(a)).0;
    assert(s1.unwrap().root.children.len() == 0);
    assert(!s1.unwrap().root.has_child_named("Item"@));
}

/// Explicitly parsing the "Item" subtree with at least one decoded entry is
/// exactly what makes the status report items loaded.
pub proof fn lemma_items_loaded_after_item_parse(s: RootView, es: Seq<EntryView>)
    requires
        s.root.wf(),
        resolve_from(s.root, seq!["Item"@]) is Some,
        resolve_from(s.root, seq!["Item"@]).unwrap().state is Unparsed,
        entry_names_distinct(es),
        es.len() > 0,
    ensures
        ({
            let t = resolve_from(s.root, seq!["Item"@]).unwrap();
            let s1 = RootView { root: updated_at(s.root, seq!["Item"@], t.populated(es)), ..s };
            items_loaded(Some(s1))
        }),
{
    let segs = seq!["Item"@];
    let t = resolve_from(s.root, segs).unwrap();
    lemma_populated_wf(t, es);
    lemma_updated_at_wf(s.root, segs, t.populated(es));
    lemma_resolve_after_update(s.root, segs, t.populated(es));
    let u = updated_at(s.root, segs, t.populated(es));
    assert(segs.skip(1) =~= Seq::<Seq<char>>::empty());
    assert(segs[0] == "Item"@);
    assert(u.has_child_named("Item"@));
    assert(resolve_from(u.child_named("Item"@), Seq::<Seq<char>>::empty())
        == Some(u.child_named("Item"@)));
    assert(resolve_from(u, segs) == Some(u.child_named("Item"@)));
    assert(u.child_named("Item"@).children.len() == es.len());
}

/// Unparsing and then parsing the same node discards the prior children
/// wholesale before the fresh ones are installed: afterwards the node holds
/// exactly one fresh, childless node per decoded entry, and nothing of the
/// earlier child list survives.
pub proof fn lemma_unparse_then_parse_is_fresh(
    v: NodeView,
    segs: Seq<Seq<char>>,
    es: Seq<EntryView>,
)
    requires
        v.wf(),
        resolve_from(v, segs) is Some,
        entry_names_distinct(es),
    ensures
        ({
            let t = resolve_from(v, segs).unwrap();
            let v1 = updated_at(v, segs, t.cleared());
            let v2 = updated_at(v1, segs, t.cleared().populated(es));
            &&& resolve_from(v1, segs) == Some(t.cleared())
            &&& resolve_from(v2, segs) == Some(t.cleared().populated(es))
            &&& resolve_from(v2, segs).unwrap().children.len() == es.len()
            &&& forall|k: int|
                0 <= k < es.len() ==> resolve_from(v2, segs).unwrap().children[k]
                    == NodeView::fresh(es[k])
        }),
{
    let t = resolve_from(v, segs).unwrap();
    lemma_cleared_wf(t);
    lemma_updated_at_wf(v, segs, t.cleared());
    lemma_resolve_after_update(v, segs, t.cleared());
    let v1 = updated_at(v, segs, t.cleared());
    lemma_populated_wf(t.cleared(), es);
    lemma_updated_at_wf(v1, segs, t.cleared().populated(es));
    lemma_resolve_after_update(v1, segs, t.cleared().populated(es));
}

/// A path one segment beyond an existing but unparsed node resolves to
/// nothing: grandchildren are unknown until their parent is parsed.
pub proof fn lemma_unparsed_frontier(v: NodeView, segs: Seq<Seq<char>>, s: Seq<char>)
    requires
        v.wf(),
        resolve_from(v, segs) is Some,
        resolve_from(v, segs).unwrap().state is Unparsed,
    ensures
        resolve_from(v, segs.push(s)) is None,
{
    lemma_resolve_wf(v, segs);
    let t = resolve_from(v, segs).unwrap();
    assert(t.children.len() == 0);
    assert(!t.has_child_named(s));
    lemma_resolve_append(v, segs, s);
}

/// Per-node transitions are atomic with respect to what any later
/// observation can see: a parse installs the whole decoded child list, an
/// unparse discards the whole child list, and a well-formed tree shows an
/// unparsed node only without children — never a child list partially
/// populated and partially cleared.
pub proof fn lemma_transition_atomic(v: NodeView, segs: Seq<Seq<char>>, es: Seq<EntryView>)
    requires
        v.wf(),
        resolve_from(v, segs) is Some,
        resolve_from(v, segs).unwrap().state is Unparsed,
        entry_names_distinct(es),
    ensures
        ({
            let t = resolve_from(v, segs).unwrap();
            &&& t.children.len() == 0
            &&& resolve_from(updated_at(v, segs, t.populated(es)), segs)
                == Some(t.populated(es))
            &&& resolve_from(updated_at(v, segs, t.populated(es)), segs).unwrap().children
                == es.map_values(|e: EntryView| NodeView::fresh(e))
            &&& resolve_from(updated_at(v, segs, t.cleared()), segs) == Some(t.cleared())
            &&& resolve_from(updated_at(v, segs, t.cleared()), segs).unwrap().children
                =~= Seq::<NodeView>::empty()
        }),
{
    lemma_resolve_wf(v, segs);
    let t = resolve_from(v, segs).unwrap();
    lemma_populated_wf(t, es);
    lemma_updated_at_wf(v, segs, t.populated(es));
    lemma_resolve_after_update(v, segs, t.populated(es));
    lemma_cleared_wf(t);
    lemma_updated_at_wf(v, segs, t.cleared());
    lemma_resolve_after_update(v, segs, t.cleared());
}

} // verus!
