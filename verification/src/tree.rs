//! Link structure shared by the arena-backed trees of this crate.
//!
//! A tree is stored as a sequence of nodes. Every node carries the indices of
//! its parent, first and last child, and previous and next sibling. Nodes are
//! only ever appended as the last child of an existing node, so a parent sits
//! at a smaller index than its children and a sibling at a smaller index than
//! the siblings that follow it.

use vstd::prelude::*;

verus! {

/// The five links of one node; `None` where there is no such neighbour.
#[derive(Debug, Clone, Copy, PartialEq, Eq, Structural)]
pub struct Links {
    pub parent: Option<usize>,
    pub first_child: Option<usize>,
    pub last_child: Option<usize>,
    pub previous_sibling: Option<usize>,
    pub next_sibling: Option<usize>,
}

/// Links of a node that has no neighbours at all.
pub open spec fn detached() -> Links {
    Links {
        parent: None,
        first_child: None,
        last_child: None,
        previous_sibling: None,
        next_sibling: None,
    }
}

/// Node `i` agrees with every node that it points to.
pub open spec fn node_ok(ls: Seq<Links>, i: int) -> bool {
    let l = ls[i];
    &&& (l.parent is None <==> i == 0)
    &&& (l.parent matches Some(p) ==> p < i)
    &&& (l.parent is None ==> l.previous_sibling is None && l.next_sibling is None)
    &&& (l.first_child is None <==> l.last_child is None)
    &&& (l.first_child matches Some(c) ==> i < c < ls.len() && ls[c as int].parent == Some(
        i as usize,
    ) && ls[c as int].previous_sibling is None)
    &&& (l.last_child matches Some(c) ==> i < c < ls.len() && ls[c as int].parent == Some(
        i as usize,
    ) && ls[c as int].next_sibling is None)
    &&& (l.next_sibling matches Some(s) ==> i < s < ls.len() && ls[s as int].previous_sibling
        == Some(i as usize) && ls[s as int].parent == l.parent)
    &&& (l.previous_sibling matches Some(q) ==> q < i && ls[q as int].next_sibling == Some(
        i as usize,
    ) && ls[q as int].parent == l.parent)
    &&& (l.parent matches Some(p) ==> {
        &&& l.previous_sibling is None ==> ls[p as int].first_child == Some(i as usize)
        &&& l.next_sibling is None ==> ls[p as int].last_child == Some(i as usize)
    })
}

/// The links describe one tree rooted at index 0: every pair of opposite links
/// agrees, and every link points forward from parent to child and from a
/// sibling to the next, so that no chain of links can return to its start.
pub open spec fn links_wf(ls: Seq<Links>) -> bool {
    &&& ls.len() <= usize::MAX
    &&& forall|i: int| 0 <= i < ls.len() ==> #[trigger] node_ok(ls, i)
}

/// The links after a new node has been appended as the last child of `p`.
pub open spec fn append_links(ls: Seq<Links>, p: int) -> Seq<Links> {
    let n = ls.len() as usize;
    let old_last = ls[p].last_child;
    Seq::new(
        ls.len() + 1,
        |i: int|
            if i == ls.len() {
                Links {
                    parent: Some(p as usize),
                    first_child: None,
                    last_child: None,
                    previous_sibling: old_last,
                    next_sibling: None,
                }
            } else if i == p {
                Links {
                    first_child: if ls[p].first_child is None {
                        Some(n)
                    } else {
                        ls[p].first_child
                    },
                    last_child: Some(n),
                    ..ls[i]
                }
            } else if old_last == Some(i as usize) {
                Links { next_sibling: Some(n), ..ls[i] }
            } else {
                ls[i]
            },
    )
}

/// Appending a last child keeps the tree well formed.
pub proof fn lemma_append_links(ls: Seq<Links>, p: int)
    requires
        links_wf(ls),
        0 <= p < ls.len(),
        ls.len() < usize::MAX,
    ensures
        links_wf(append_links(ls, p)),
{
    let out = append_links(ls, p);
    assert forall|i: int| 0 <= i < out.len() implies #[trigger] node_ok(out, i) by {
        assert(node_ok(ls, p));
        if i < ls.len() {
            assert(node_ok(ls, i));
        }
        if let Some(q) = ls[p].last_child {
            assert(node_ok(ls, q as int));
        }
        if i < ls.len() {
            if let Some(c) = ls[i].first_child {
                assert(node_ok(ls, c as int));
            }
            if let Some(c) = ls[i].last_child {
                assert(node_ok(ls, c as int));
            }
            if let Some(c) = ls[i].next_sibling {
                assert(node_ok(ls, c as int));
            }
            if let Some(c) = ls[i].previous_sibling {
                assert(node_ok(ls, c as int));
            }
            if let Some(c) = ls[i].parent {
                assert(node_ok(ls, c as int));
            }
        }
    }
}

/// A single root is a well-formed tree.
pub proof fn lemma_root_links()
    ensures
        links_wf(seq![detached()]),
{
    assert(node_ok(seq![detached()], 0));
}

/// Following `next_sibling` from `from` arrives at `target`.
pub open spec fn reaches(ls: Seq<Links>, from: int, target: int) -> bool
    decreases ls.len() - from,
{
    if from == target {
        true
    } else if 0 <= from < ls.len() {
        match ls[from].next_sibling {
            Some(s) => if from < s < ls.len() {
                reaches(ls, s as int, target)
            } else {
                false
            },
            None => false,
        }
    } else {
        false
    }
}

proof fn lemma_reaches_step(ls: Seq<Links>, from: int, q: int, n: int)
    requires
        links_wf(ls),
        0 <= from < ls.len(),
        0 <= q < ls.len(),
        reaches(ls, from, q),
        ls[q].next_sibling == Some(n as usize),
        0 <= n <= usize::MAX,
    ensures
        reaches(ls, from, n),
    decreases ls.len() - from,
{
    assert(node_ok(ls, q));
    if from == q {
        assert(reaches(ls, n, n));
    } else {
        assert(node_ok(ls, from));
        let s = ls[from].next_sibling->0;
        lemma_reaches_step(ls, s as int, q, n);
    }
}

/// Tree integrity: the sibling chain that starts at a parent's first child
/// arrives at each of that parent's children, and a node never is its own
/// ancestor, since a parent always precedes its child.
pub proof fn lemma_child_on_chain(ls: Seq<Links>, n: int)
    requires
        links_wf(ls),
        0 < n < ls.len(),
    ensures
        ls[n].parent is Some,
        ls[n].parent->0 < n,
        ls[ls[n].parent->0 as int].first_child is Some,
        reaches(ls, ls[ls[n].parent->0 as int].first_child->0 as int, n),
    decreases n,
{
    assert(node_ok(ls, n));
    let p = ls[n].parent->0 as int;
    assert(node_ok(ls, p));
    match ls[n].previous_sibling {
        None => {
            assert(reaches(ls, n, n));
        },
        Some(q) => {
            assert(node_ok(ls, q as int));
            lemma_child_on_chain(ls, q as int);
            let f = ls[p].first_child->0 as int;
            lemma_reaches_step(ls, f, q as int, n);
        },
    }
}

} // verus!
