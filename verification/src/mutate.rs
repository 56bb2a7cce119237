//! The lazy parse/unparse state machine, applied at the end of a path.
//!
//! Both transitions descend to the addressed node and rewrite its subtree in
//! one step: parsing installs the whole decoded child list, unparsing
//! discards the whole child list. The contracts give the entire resulting
//! tree, so no caller can observe a half-populated or half-cleared node.

use vstd::prelude::*;
use crate::node::ChildEntry;
use crate::node::Node;
use crate::node::NodeView;
use crate::node::ParseState;
use crate::node::entry_names_distinct;
use crate::node::resolve_from;
use crate::node::updated_at;
use crate::resolve::lemma_child_index_unique;
use crate::resolve::lemma_wf_child;

verus! {

/// How an attempt to parse the node at a path ended.
#[derive(Clone, Copy, PartialEq, Eq, Structural, Debug)]
pub enum ParseOutcome {
    /// The path did not resolve to a node.
    Missing,
    /// The node was already parsed; nothing changed.
    AlreadyParsed,
    /// The node's children were installed from the decoded entries.
    Populated,
    /// No decoded payload was available, or its entry names collided;
    /// nothing changed.
    BadPayload,
}

/// Whether the decoded entries carry pairwise-distinct names.
pub fn names_distinct(entries: &Vec<ChildEntry>) -> (r: bool)
    ensures
        r == entry_names_distinct(entries.deep_view()),
{
    let ghost es = entries.deep_view();
    let mut i: usize = 0;
    while i < entries.len()
        invariant
            es == entries.deep_view(),
            es.len() == entries@.len(),
            0 <= i <= es.len(),
            forall|a: int, b: int| 0 <= a < b < es.len() && a < i ==> es[a].name != es[b].name,
        decreases es.len() - i,
    {
        let mut j: usize = i + 1;
        while j < entries.len()
            invariant
                es == entries.deep_view(),
                es.len() == entries@.len(),
                0 <= i < es.len(),
                i < j <= es.len(),
                forall|b: int| i < b < j ==> es[i as int].name != es[b].name,
            decreases es.len() - j,
        {
            if entries[i].name == entries[j].name {
                proof {
                    assert(es[i as int].name == es[j as int].name);
                }
                return false;
            }
            j += 1;
        }
        i += 1;
    }
    true
}

/// Builds the fresh, unparsed child nodes of a decoded payload.
pub fn build_children(entries: Vec<ChildEntry>) -> (cs: Vec<Node>)
    ensures
        cs@.len() == entries@.len(),
        forall|k: int|
            0 <= k < cs@.len() ==> (#[trigger] cs@[k])@ == NodeView::fresh(
                entries.deep_view()[k],
            ),
{
    let ghost es = entries.deep_view();
    let mut cs: Vec<Node> = Vec::new();
    let mut i: usize = 0;
    let n = entries.len();
    let mut rest = entries;
    // Consume the entries front to back, turning each into a fresh node.
    let mut taken: usize = 0;
    while taken < n
        invariant
            es.len() == n,
            rest@.len() + taken == n,
            cs@.len() == taken,
            forall|k: int| 0 <= k < rest@.len() ==> (#[trigger] rest@[k])@ == es[k + taken],
            forall|k: int| 0 <= k < taken ==> (#[trigger] cs@[k])@ == NodeView::fresh(es[k]),
        decreases n - taken,
    {
        let e = rest.remove(0);
        cs.push(Node::from_entry(e));
        taken += 1;
    }
    cs
}

/// Discards the children of the node that `segs[from..]` addresses and
/// resets it to `Unparsed`, in place; reports whether the path resolved.
/// Already-unparsed nodes are cleared to themselves: a safe no-op.
pub fn unparse_at(n: &mut Node, segs: &Vec<String>, from: usize) -> (found: bool)
    requires
        old(n)@.wf(),
        from <= segs@.len(),
    ensures
        match resolve_from(old(n)@, segs.deep_view().skip(from as int)) {
            Some(t) => found && final(n)@ == updated_at(
                old(n)@,
                segs.deep_view().skip(from as int),
                t.cleared(),
            ),
            None => !found && final(n)@ == old(n)@,
        },
    decreases segs@.len() - from,
{
    proof {
        assert(segs.deep_view().len() == segs@.len());
    }
    let ghost tail = segs.deep_view().skip(from as int);
    if from == segs.len() {
        n.state = ParseState::Unparsed;
        n.children = Vec::new();
        proof {
            assert(tail.len() == 0);
            assert(n@.children =~= Seq::<NodeView>::empty());
            assert(n@ =~~= old(n)@.cleared());
        }
        return true;
    }
    proof {
        assert(tail[0] == segs@[from as int]@);
    }
    match n.find_child(&segs[from]) {
        None => {
            false
        },
        Some(i) => {
            let ghost v0 = n@;
            proof {
                lemma_child_index_unique(v0, segs@[from as int]@, i as int);
                lemma_wf_child(v0, i as int);
                assert(v0.children[i as int] == n.children@[i as int]@);
                assert(tail.skip(1) =~~= segs.deep_view().skip(from as int + 1));
            }
            let child = &mut n.children[i];
            let found = unparse_at(child, segs, from + 1);
            proof {
                let sub = resolve_from(v0.children[i as int], tail.skip(1));
                assert(resolve_from(v0, tail) == sub);
                assert(n@.children =~~= v0.children.update(i as int, n.children@[i as int]@));
                if sub is Some {
                    assert(n@ =~~= updated_at(v0, tail, sub.unwrap().cleared()));
                } else {
                    assert(n.children@[i as int]@ == v0.children[i as int]);
                    assert(v0.children.update(i as int, v0.children[i as int]) =~=
                        v0.children);
                    assert(n@ =~~= v0);
                }
            }
            found
        },
    }
}

/// Parses the node that `segs[from..]` addresses, in place: installs
/// children decoded from the payload and marks the node `Parsed`. An
/// already-parsed node is left untouched, whatever `decoded` holds: a safe
/// no-op. A missing payload or colliding entry names change nothing.
pub fn parse_at(
    n: &mut Node,
    segs: &Vec<String>,
    from: usize,
    decoded: Option<Vec<ChildEntry>>,
) -> (r: ParseOutcome)
    requires
        old(n)@.wf(),
        from <= segs@.len(),
    ensures
        ({
            let tail = segs.deep_view().skip(from as int);
            match resolve_from(old(n)@, tail) {
                None => r == ParseOutcome::Missing && final(n)@ == old(n)@,
                Some(t) => {
                    if t.state is Parsed {
                        r == ParseOutcome::AlreadyParsed && final(n)@ == old(n)@
                    } else {
                        match decoded {
                            None => r == ParseOutcome::BadPayload && final(n)@ == old(n)@,
                            Some(es) => if entry_names_distinct(es.deep_view()) {
                                r == ParseOutcome::Populated && final(n)@ == updated_at(
                                    old(n)@,
                                    tail,
                                    t.populated(es.deep_view()),
                                )
                            } else {
                                r == ParseOutcome::BadPayload && final(n)@ == old(n)@
                            },
                        }
                    }
                },
            }
        }),
    decreases segs@.len() - from,
{
    proof {
        assert(segs.deep_view().len() == segs@.len());
    }
    let ghost tail = segs.deep_view().skip(from as int);
    if from == segs.len() {
        proof {
            assert(tail.len() == 0);
        }
        match n.state {
            ParseState::Parsed => ParseOutcome::AlreadyParsed,
            ParseState::Unparsed => {
                match decoded {
                    None => ParseOutcome::BadPayload,
                    Some(entries) => {
                        if !names_distinct(&entries) {
                            ParseOutcome::BadPayload
                        } else {
                            let ghost es = entries.deep_view();
                            n.children = build_children(entries);
                            n.state = ParseState::Parsed;
                            proof {
                                assert(n@.children =~~= es.map_values(
                                    |e: crate::node::EntryView| NodeView::fresh(e),
                                ));
                                assert(n@ =~~= old(n)@.populated(es));
                            }
                            ParseOutcome::Populated
                        }
                    },
                }
            },
        }
    } else {
        proof {
            assert(tail[0] == segs@[from as int]@);
        }
        match n.find_child(&segs[from]) {
            None => {
                ParseOutcome::Missing
            },
            Some(i) => {
                let ghost v0 = n@;
                proof {
                    lemma_child_index_unique(v0, segs@[from as int]@, i as int);
                    lemma_wf_child(v0, i as int);
                    assert(v0.children[i as int] == n.children@[i as int]@);
                    assert(tail.skip(1) =~~= segs.deep_view().skip(from as int + 1));
                }
                let ghost dv = match decoded {
                    Some(ref es) => Some(es.deep_view()),
                    None => None::<Seq<crate::node::EntryView>>,
                };
                let child = &mut n.children[i];
                let r = parse_at(child, segs, from + 1, decoded);
                proof {
                    let sub = resolve_from(v0.children[i as int], tail.skip(1));
                    assert(resolve_from(v0, tail) == sub);
                    assert(n@.children =~~= v0.children.update(i as int, n.children@[i as int]@));
                    if sub is Some && !(sub.unwrap().state is Parsed) && dv is Some
                        && entry_names_distinct(dv.unwrap()) {
                        assert(n@ =~~= updated_at(v0, tail, sub.unwrap().populated(dv.unwrap())));
                    } else {
                        assert(n.children@[i as int]@ == v0.children[i as int]);
                        assert(v0.children.update(i as int, v0.children[i as int]) =~=
                            v0.children);
                        assert(n@ =~~= v0);
                    }
                }
                r
            },
        }
    }
}

} // verus!
