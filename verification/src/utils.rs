//! A readable dump of the document tree.

use crate::renderer::dom::node::dom_links;
use crate::renderer::dom::node::forward;
use crate::renderer::dom::node::nodes_left;
use crate::renderer::dom::node::NodeKind;
use crate::renderer::dom::node::NodeKindView;
use crate::renderer::dom::node::NodeView;
use crate::renderer::dom::node::Window;
use crate::renderer::html::attribute::attrs_view;
use crate::renderer::html::attribute::Attribute;
use crate::renderer::html::attribute::AttributeView;
use crate::tree::node_ok;
use vstd::prelude::*;
use vstd::string::StringExecFns;

verus! {

/// The attributes from `i` on, each as a blank, the name, `=` and the value.
pub open spec fn describe_attributes(attributes: Seq<AttributeView>, i: int) -> Seq<char>
    decreases attributes.len() - i,
{
    if 0 <= i < attributes.len() {
        seq![' '] + attributes[i].name + seq!['='] + attributes[i].value + describe_attributes(
            attributes,
            i + 1,
        )
    } else {
        Seq::<char>::empty()
    }
}

/// One node in words: `Document`, `Element(tag name=value ...)` or
/// `Text(content)`.
pub open spec fn describe(kind: NodeKindView) -> Seq<char> {
    match kind {
        NodeKindView::Document => "Document"@,
        NodeKindView::Element(e) => "Element("@ + e.tag + describe_attributes(e.attributes, 0)
            + seq![')'],
        NodeKindView::Text(t) => "Text("@ + t + seq![')'],
    }
}

/// `depth` blanks.
pub open spec fn indent(depth: nat) -> Seq<char> {
    Seq::new(depth, |i: int| ' ')
}

/// The dump of the nodes from `c` on in pre-order: one line for `c`,
/// indented by `depth` blanks; then everything below it, one blank deeper;
/// then the siblings after it.
pub open spec fn dump_from(dom: Seq<NodeView>, c: Option<usize>, depth: nat) -> Seq<char>
    decreases nodes_left(dom, c),
{
    match c {
        Some(n) => if n < dom.len() {
            indent(depth) + describe(dom[n as int].kind) + seq!['\n'] + dump_from(
                dom,
                forward(dom, dom[n as int].links.first_child, n as int),
                depth + 1,
            ) + dump_from(dom, forward(dom, dom[n as int].links.next_sibling, n as int), depth)
        } else {
            Seq::<char>::empty()
        },
        None => Seq::<char>::empty(),
    }
}

/// The dump of a whole document: an empty line, then one line per node.
pub open spec fn dom_to_string(dom: Seq<NodeView>) -> Seq<char> {
    seq!['\n'] + dump_from(dom, Some(0usize), 0)
}

fn push_attributes(attributes: &Vec<Attribute>, result: &mut String)
    ensures
        final(result)@ == old(result)@ + describe_attributes(
            attrs_view(attributes@),
            0,
        ),
{
    let ghost views = attrs_view(attributes@);
    let ghost start = result@;
    let mut i: usize = 0;
    while i < attributes.len()
        invariant
            i <= attributes.len(),
            views == attrs_view(attributes@),
            start == old(result)@,
            result@ + describe_attributes(views, i as int) == start + describe_attributes(views, 0),
        decreases attributes.len() - i,
    {
        let ghost before = result@;
        result.push(' ');
        result.append(attributes[i].name.as_str());
        result.push('=');
        result.append(attributes[i].value.as_str());
        proof {
            assert(views[i as int] == attributes@[i as int]@);
            let rest = describe_attributes(views, i + 1);
            assert(result@ + rest =~= before + (seq![' '] + views[i as int].name + seq!['=']
                + views[i as int].value + rest));
        }
        i += 1;
    }
    assert(result@ + Seq::<char>::empty() =~= result@);
}

fn push_description(kind: &NodeKind, result: &mut String)
    ensures
        final(result)@ == old(result)@ + describe(kind@),
{
    let ghost start = result@;
    match kind {
        NodeKind::Document => {
            result.append("Document");
        },
        NodeKind::Element(e) => {
            result.append("Element(");
            result.append(e.tag.as_str());
            push_attributes(&e.attributes, result);
            result.push(')');
            assert(result@ =~= start + describe(kind@));
        },
        NodeKind::Text(t) => {
            result.append("Text(");
            result.append(t.as_str());
            result.push(')');
            assert(result@ =~= start + describe(kind@));
        },
    }
}

fn push_indent(depth: usize, result: &mut String)
    ensures
        final(result)@ == old(result)@ + indent(depth as nat),
{
    let ghost start = result@;
    let mut i: usize = 0;
    while i < depth
        invariant
            i <= depth,
            result@ == start + indent(i as nat),
        decreases depth - i,
    {
        result.push(' ');
        i += 1;
        assert(result@ =~= start + indent(i as nat));
    }
    assert(start + indent(0) =~= start) by {
        assert(indent(0) =~= Seq::<char>::empty());
    }
}

/// The document tree as text, for debugging: a pre-order walk with one line
/// per node, each indented by its depth.
pub fn convert_dom_to_string(dom: &Window) -> (s: String)
    requires
        dom.wf(),
    ensures
        s@ == dom_to_string(dom@),
{
    let mut result = String::new();
    result.push('\n');
    assert(result@ =~= seq!['\n']);
    convert_dom_to_string_internal(dom, Some(0), 0, &mut result);
    result
}

fn convert_dom_to_string_internal(
    dom: &Window,
    node: Option<usize>,
    depth: usize,
    result: &mut String,
)
    requires
        dom.wf(),
        node matches Some(n) ==> depth <= n,
    ensures
        final(result)@ == old(result)@ + dump_from(dom@, node, depth as nat),
    decreases nodes_left(dom@, node),
{
    let ghost start = result@;
    match node {
        Some(n) => {
            if n >= dom.len() {
                assert(start + Seq::<char>::empty() =~= start);
                return ;
            }
            proof {
                assert(node_ok(dom_links(dom@), n as int));
            }
            push_indent(depth, result);
            push_description(dom.node(n).kind(), result);
            result.push('\n');
            let ghost line = indent(depth as nat) + describe(dom@[n as int].kind) + seq!['\n'];
            assert(result@ =~= start + line);
            convert_dom_to_string_internal(dom, dom.node(n).first_child(), depth + 1, result);
            convert_dom_to_string_internal(dom, dom.node(n).next_sibling(), depth, result);
            proof {
                let below = dump_from(
                    dom@,
                    forward(dom@, dom@[n as int].links.first_child, n as int),
                    (depth + 1) as nat,
                );
                let after = dump_from(
                    dom@,
                    forward(dom@, dom@[n as int].links.next_sibling, n as int),
                    depth as nat,
                );
                assert(((start + line) + below) + after =~= start + (line + below + after));
            }
        },
        None => {
            assert(start + Seq::<char>::empty() =~= start);
        },
    }
}

} // verus!
