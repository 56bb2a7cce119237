//! Sequential descent from a node along path segments.
//!
//! Each step matches one segment against the current node's children by
//! exact name; the first unmatched segment terminates resolution with
//! "absent". Resolution never parses and never mutates.

use vstd::prelude::*;
use crate::node::Node;
use crate::node::NodeView;
use crate::node::resolve_from;

verus! {

/// In a well-formed node, a child's index is determined by its name.
pub proof fn lemma_child_index_unique(v: NodeView, name: Seq<char>, i: int)
    requires
        v.wf(),
        0 <= i < v.children.len(),
        v.children[i].name == name,
    ensures
        v.has_child_named(name),
        v.child_index(name) == i,
        v.child_named(name) == v.children[i],
{
    assert(v.has_child_named(name));
    let j = v.child_index(name);
    assert(0 <= j < v.children.len() && v.children[j].name == name);
    if i != j {
        if i < j {
            assert(v.children[i].name != v.children[j].name);
        } else {
            assert(v.children[j].name != v.children[i].name);
        }
    }
}

/// Every child of a well-formed node is itself well-formed.
pub proof fn lemma_wf_child(v: NodeView, i: int)
    requires
        v.wf(),
        0 <= i < v.children.len(),
    ensures
        v.children[i].wf(),
{
}

impl Node {
    /// Finds the index of the child carrying exactly this name, if any.
    pub fn find_child(&self, name: &String) -> (r: Option<usize>)
        ensures
            match r {
                Some(i) => 0 <= i < self@.children.len()
                    && self@.children[i as int].name == name@
                    && self@.has_child_named(name@),
                None => !self@.has_child_named(name@),
            },
    {
        let mut i: usize = 0;
        while i < self.children.len()
            invariant
                0 <= i <= self@.children.len(),
                self@.children.len() == self.children@.len(),
                forall|k: int| 0 <= k < i ==> self@.children[k].name != name@,
            decreases self.children@.len() - i,
        {
            proof {
                assert(self@.children[i as int] == self.children@[i as int]@);
            }
            if self.children[i].name == *name {
                return Some(i);
            }
            i += 1;
        }
        None
    }

    /// Resolves the segments `segs[from..]` from this node, descending left
    /// to right by exact child name. Returns the reached node, or `None` at
    /// the first unmatched segment.
    pub fn resolve<'a>(&'a self, segs: &Vec<String>, from: usize) -> (r: Option<&'a Node>)
        requires
            self@.wf(),
            from <= segs@.len(),
        ensures
            match resolve_from(self@, segs.deep_view().skip(from as int)) {
                Some(t) => r is Some && r.unwrap()@ == t && t.wf(),
                None => r is None,
            },
        decreases segs@.len() - from,
    {
        proof {
            assert(segs.deep_view().len() == segs@.len());
        }
        if from == segs.len() {
            proof {
                assert(segs.deep_view().skip(from as int).len() == 0);
            }
            return Some(self);
        }
        proof {
            assert(segs.deep_view().skip(from as int)[0] == segs@[from as int]@);
        }
        match self.find_child(&segs[from]) {
            Some(i) => {
                proof {
                    lemma_child_index_unique(self@, segs@[from as int]@, i as int);
                    lemma_wf_child(self@, i as int);
                    assert(self@.children[i as int] == self.children@[i as int]@);
                    assert(segs.deep_view().skip(from as int).skip(1) =~~=
                        segs.deep_view().skip(from as int + 1));
                }
                self.children[i].resolve(segs, from + 1)
            },
            None => None,
        }
    }
}

} // verus!
