//! Structural facts about resolution and subtree replacement: transitions
//! preserve well-formedness, and a replaced subtree is exactly what a later
//! resolution of the same path sees.

use vstd::prelude::*;
use crate::node::EntryView;
use crate::node::NodeView;
use crate::node::entry_names_distinct;
use crate::node::resolve_from;
use crate::node::updated_at;
use crate::resolve::lemma_child_index_unique;
use crate::resolve::lemma_wf_child;

verus! {

/// Clearing a node yields a well-formed unparsed node with the same name.
pub proof fn lemma_cleared_wf(t: NodeView)
    ensures
        t.cleared().wf(),
        t.cleared().name == t.name,
        t.cleared().children.len() == 0,
{
}

/// Populating a node from entries with distinct names yields a well-formed
/// parsed node with the same name, one fresh child per entry.
pub proof fn lemma_populated_wf(t: NodeView, es: Seq<EntryView>)
    requires
        entry_names_distinct(es),
    ensures
        t.populated(es).wf(),
        t.populated(es).name == t.name,
        t.populated(es).children.len() == es.len(),
        forall|k: int|
            0 <= k < es.len() ==> t.populated(es).children[k] == NodeView::fresh(es[k]),
{
    let u = t.populated(es);
    assert(forall|k: int|
        0 <= k < es.len() ==> #[trigger] u.children[k] == NodeView::fresh(es[k]));
    assert(forall|k: int| 0 <= k < es.len() ==> (#[trigger] u.children[k]).wf()) by {
        assert(forall|k: int|
            0 <= k < es.len() ==> #[trigger] u.children[k] == NodeView::fresh(es[k]));
    }
}

/// Replacing the subtree a path resolves to, by a well-formed subtree of the
/// same name, keeps the whole tree well-formed and its root name unchanged.
pub proof fn lemma_updated_at_wf(v: NodeView, segs: Seq<Seq<char>>, m: NodeView)
    requires
        v.wf(),
        resolve_from(v, segs) is Some,
        m.wf(),
        m.name == resolve_from(v, segs).unwrap().name,
    ensures
        updated_at(v, segs, m).wf(),
        updated_at(v, segs, m).name == v.name,
        updated_at(v, segs, m).state == if segs.len() == 0 {
            m.state
        } else {
            v.state
        },
    decreases segs.len(),
{
    if segs.len() == 0 {
    } else {
        let i = v.child_index(segs[0]);
        assert(v.has_child_named(segs[0]));
        assert(0 <= i < v.children.len() && v.children[i].name == segs[0]);
        lemma_wf_child(v, i);
        lemma_updated_at_wf(v.children[i], segs.skip(1), m);
        let u = updated_at(v, segs, m);
        let w = updated_at(v.children[i], segs.skip(1), m);
        assert(u.children == v.children.update(i, w));
        assert(w.name == v.children[i].name);
        assert(forall|k: int|
            0 <= k < u.children.len() ==> (#[trigger] u.children[k]).name
                == v.children[k].name);
        assert(forall|k: int| 0 <= k < u.children.len() ==> (#[trigger] u.children[k]).wf());
        assert(u.wf());
    }
}

/// After replacing the subtree at a path, resolving the same path under the
/// same root yields exactly the replacement.
pub proof fn lemma_resolve_after_update(v: NodeView, segs: Seq<Seq<char>>, m: NodeView)
    requires
        v.wf(),
        resolve_from(v, segs) is Some,
        m.wf(),
        m.name == resolve_from(v, segs).unwrap().name,
    ensures
        resolve_from(updated_at(v, segs, m), segs) == Some(m),
    decreases segs.len(),
{
    if segs.len() == 0 {
    } else {
        let i = v.child_index(segs[0]);
        assert(v.has_child_named(segs[0]));
        assert(0 <= i < v.children.len() && v.children[i].name == segs[0]);
        lemma_wf_child(v, i);
        lemma_updated_at_wf(v.children[i], segs.skip(1), m);
        lemma_updated_at_wf(v, segs, m);
        let u = updated_at(v, segs, m);
        let w = updated_at(v.children[i], segs.skip(1), m);
        assert(u.children[i] == w);
        assert(w.name == segs[0]);
        lemma_child_index_unique(u, segs[0], i);
        lemma_resolve_after_update(v.children[i], segs.skip(1), m);
    }
}

/// Resolution one segment further descends from the resolved node: absent
/// paths stay absent, and a resolved node without a child of that name ends
/// the longer resolution with "absent".
pub proof fn lemma_resolve_append(v: NodeView, segs: Seq<Seq<char>>, s: Seq<char>)
    ensures
        resolve_from(v, segs.push(s)) == (match resolve_from(v, segs) {
            Some(t) => if t.has_child_named(s) {
                Some(t.child_named(s))
            } else {
                None
            },
            None => None,
        }),
    decreases segs.len(),
{
    if segs.len() == 0 {
        assert(segs.push(s)[0] == s);
        assert(segs.push(s).skip(1) =~= Seq::<Seq<char>>::empty());
        if v.has_child_named(s) {
            assert(resolve_from(v.child_named(s), Seq::<Seq<char>>::empty())
                == Some(v.child_named(s)));
        }
    } else {
        assert(segs.push(s)[0] == segs[0]);
        assert(segs.push(s).skip(1) =~= segs.skip(1).push(s));
        if v.has_child_named(segs[0]) {
            lemma_resolve_append(v.child_named(segs[0]), segs.skip(1), s);
        }
    }
}

} // verus!
