//! Searches over the document tree.

use crate::renderer::dom::node::dom_links;
use crate::renderer::dom::node::element_kind_of;
use crate::renderer::dom::node::forward;
use crate::renderer::dom::node::nodes_left;
use crate::renderer::dom::node::ElementKind;
use crate::renderer::dom::node::NodeId;
use crate::renderer::dom::node::NodeKind;
use crate::renderer::dom::node::NodeKindView;
use crate::renderer::dom::node::NodeView;
use crate::renderer::dom::node::Window;
use crate::tree::node_ok;
use vstd::prelude::*;

verus! {

/// The first element of kind `kind` among the nodes from `c` on in document
/// order: `c` itself, then what lies below it, then the siblings after it
/// and what lies below them.
pub open spec fn element_from(dom: Seq<NodeView>, c: Option<usize>, kind: ElementKind) -> Option<
    int,
>
    decreases nodes_left(dom, c),
{
    match c {
        Some(n) => if n < dom.len() {
            if element_kind_of(dom[n as int].kind) == Some(kind) {
                Some(n as int)
            } else {
                match element_from(
                    dom,
                    forward(dom, dom[n as int].links.first_child, n as int),
                    kind,
                ) {
                    Some(found) => Some(found),
                    None => element_from(
                        dom,
                        forward(dom, dom[n as int].links.next_sibling, n as int),
                        kind,
                    ),
                }
            }
        } else {
            None
        },
        None => None,
    }
}

/// The first element of kind `kind` in the document.
pub open spec fn target_element(dom: Seq<NodeView>, kind: ElementKind) -> Option<int> {
    element_from(dom, Some(0usize), kind)
}

/// What `element_from` finds is a node of the document and an element of
/// the kind asked for.
pub proof fn lemma_element_from(dom: Seq<NodeView>, c: Option<usize>, kind: ElementKind)
    ensures
        element_from(dom, c, kind) matches Some(i) ==> 0 <= i < dom.len() && element_kind_of(
            dom[i].kind,
        ) == Some(kind),
    decreases nodes_left(dom, c),
{
    if let Some(n) = c {
        if n < dom.len() && element_kind_of(dom[n as int].kind) != Some(kind) {
            lemma_element_from(dom, forward(dom, dom[n as int].links.first_child, n as int), kind);
            lemma_element_from(dom, forward(dom, dom[n as int].links.next_sibling, n as int), kind);
        }
    }
}

/// The text of the first child of the first `style` element; empty where
/// there is no such element, or it has no child, or that child is no text.
pub open spec fn style_content(dom: Seq<NodeView>) -> Seq<char> {
    match target_element(dom, ElementKind::Style) {
        Some(s) => match dom[s].links.first_child {
            Some(c) => if c < dom.len() {
                match dom[c as int].kind {
                    NodeKindView::Text(t) => t,
                    _ => Seq::<char>::empty(),
                }
            } else {
                Seq::<char>::empty()
            },
            None => Seq::<char>::empty(),
        },
        None => Seq::<char>::empty(),
    }
}

/// Finds the first element of kind `element_kind` in the document, in
/// document order.
pub fn get_target_element_node(dom: &Window, element_kind: ElementKind) -> (r: Option<NodeId>)
    requires
        dom.wf(),
    ensures
        match r {
            Some(i) => target_element(dom@, element_kind) == Some(i as int) && i < dom@.len(),
            None => target_element(dom@, element_kind) is None,
        },
{
    proof {
        lemma_element_from(dom@, Some(0usize), element_kind);
    }
    find_element(dom, Some(0), element_kind)
}

fn find_element(dom: &Window, node: Option<usize>, element_kind: ElementKind) -> (r: Option<
    NodeId,
>)
    requires
        dom.wf(),
    ensures
        match r {
            Some(i) => element_from(dom@, node, element_kind) == Some(i as int),
            None => element_from(dom@, node, element_kind) is None,
        },
    decreases nodes_left(dom@, node),
{
    match node {
        Some(n) => {
            if n >= dom.len() {
                return None;
            }
            proof {
                assert(node_ok(dom_links(dom@), n as int));
            }
            if dom.node(n).element_kind() == Some(element_kind) {
                return Some(n);
            }
            let below = find_element(dom, dom.node(n).first_child(), element_kind);
            if below.is_some() {
                return below;
            }
            find_element(dom, dom.node(n).next_sibling(), element_kind)
        },
        None => None,
    }
}

/// The text of the document's first style element.
pub fn get_style_content(dom: &Window) -> (s: String)
    requires
        dom.wf(),
    ensures
        s@ == style_content(dom@),
{
    let style = match get_target_element_node(dom, ElementKind::Style) {
        Some(id) => id,
        None => {
            return String::new();
        },
    };
    let child = match dom.node(style).first_child() {
        Some(id) => id,
        None => {
            return String::new();
        },
    };
    if child >= dom.len() {
        return String::new();
    }
    match dom.node(child).kind() {
        NodeKind::Text(s) => s.clone(),
        _ => String::new(),
    }
}

} // verus!
