//! The layout tree: which nodes get a box, how large each box is, where it
//! sits, and in which order the boxes are painted.
//!
//! The tree is an arena of layout objects in the order of their nodes.
//! Object 0 is the box of the `body` element; every other object was
//! appended as the last child of the box of its node's parent.

use crate::constants::CONTENT_AREA_WIDTH;
use crate::display_item::items_view;
use crate::display_item::DisplayItem;
use crate::display_item::DisplayItemView;
use crate::renderer::css::cssom::RuleView;
use crate::renderer::css::cssom::StyleSheet;
use crate::renderer::dom::api::get_target_element_node;
use crate::renderer::dom::api::lemma_element_from;
use crate::renderer::dom::api::target_element;
use crate::renderer::dom::node::dom_links;
use crate::renderer::dom::node::ElementKind;
use crate::renderer::dom::node::NodeId;
use crate::renderer::dom::node::NodeView;
use crate::renderer::dom::node::Window;
use crate::renderer::layout::cascade::cascade_sheet;
use crate::renderer::layout::cascade::resolved_style;
use crate::renderer::layout::computed_style::blank_style;
use crate::renderer::layout::computed_style::is_complete;
use crate::renderer::layout::computed_style::lemma_defaulted_complete;
use crate::renderer::layout::computed_style::ComputedStyle;
use crate::renderer::layout::computed_style::DisplayType;
use crate::renderer::layout::layout_object::create_layout_object;
use crate::renderer::layout::layout_object::items_of;
use crate::renderer::layout::layout_object::kind_for;
use crate::renderer::layout::layout_object::no_size;
use crate::renderer::layout::layout_object::object_size;
use crate::renderer::layout::layout_object::origin;
use crate::renderer::layout::layout_object::position;
use crate::renderer::layout::layout_object::LayoutObject;
use crate::renderer::layout::layout_object::LayoutObjectKind;
use crate::renderer::layout::layout_object::LayoutObjectView;
use crate::renderer::layout::metrics::add_sat;
use crate::renderer::layout::metrics::larger;
use crate::renderer::layout::metrics::max_of;
use crate::renderer::layout::metrics::plus;
use crate::renderer::layout::metrics::LayoutPoint;
use crate::renderer::layout::metrics::LayoutSize;
use crate::tree::append_links;
use crate::tree::detached;
use crate::tree::lemma_append_links;
use crate::tree::lemma_root_links;
use crate::tree::links_wf;
use crate::tree::node_ok;
use crate::tree::Links;
use vstd::prelude::*;

verus! {

/// A sequence of layout objects seen as a sequence of views.
pub open spec fn objects_view(v: Seq<LayoutObject>) -> Seq<LayoutObjectView> {
    Seq::new(v.len(), |i: int| v[i]@)
}

/// The links of every object, in index order.
pub open spec fn object_links(objs: Seq<LayoutObjectView>) -> Seq<Links> {
    Seq::new(objs.len(), |i: int| objs[i].links)
}

/// The style of node `n` when the layout starts at node `body`: what the
/// sheet declares for it, completed from the style of its parent. The node
/// `body` itself has no parent to take anything from.
pub open spec fn node_style(dom: Seq<NodeView>, sheet: Seq<RuleView>, body: int, n: int)
    -> ComputedStyle
    decreases n,
{
    if n == body {
        resolved_style(dom[n].kind, sheet, None)
    } else {
        match dom[n].links.parent {
            Some(p) => if 0 <= p < n {
                resolved_style(dom[n].kind, sheet, Some(node_style(dom, sheet, body, p as int)))
            } else {
                resolved_style(dom[n].kind, sheet, None)
            },
            None => resolved_style(dom[n].kind, sheet, None),
        }
    }
}

/// Whether node `n` is displayed.
pub open spec fn displayed(dom: Seq<NodeView>, sheet: Seq<RuleView>, body: int, n: int) -> bool {
    node_style(dom, sheet, body, n).display != Some(DisplayType::DisplayNone)
}

/// Whether node `n` gets a box: it is displayed, and it is `body` or the
/// child of a node that gets a box.
pub open spec fn shown(dom: Seq<NodeView>, sheet: Seq<RuleView>, body: int, n: int) -> bool
    decreases n,
{
    &&& 0 <= n < dom.len()
    &&& displayed(dom, sheet, body, n)
    &&& (n == body || match dom[n].links.parent {
        Some(p) => 0 <= p < n && shown(dom, sheet, body, p as int),
        None => false,
    })
}

/// Only `body` and nodes behind it get a box.
pub proof fn lemma_shown_behind_body(dom: Seq<NodeView>, sheet: Seq<RuleView>, body: int, n: int)
    requires
        shown(dom, sheet, body, n),
    ensures
        body <= n,
    decreases n,
{
    if n != body {
        lemma_shown_behind_body(dom, sheet, body, dom[n].links.parent->0 as int);
    }
}

/// Every style that the layout computes is complete.
pub proof fn lemma_node_style_complete(
    dom: Seq<NodeView>,
    sheet: Seq<RuleView>,
    body: int,
    n: int,
)
    ensures
        is_complete(node_style(dom, sheet, body, n)),
{
    let kind = dom[n].kind;
    let declared = cascade_sheet(blank_style(), sheet, kind);
    lemma_defaulted_complete(declared, kind, None);
    if n != body {
        if let Some(p) = dom[n].links.parent {
            if 0 <= p < n {
                lemma_defaulted_complete(
                    declared,
                    kind,
                    Some(node_style(dom, sheet, body, p as int)),
                );
            }
        }
    }
}

/// Object `k` is the box of a node that gets one: it carries that node's
/// kind and style, and its parent is the box of the node's parent.
pub open spec fn object_ok(
    objs: Seq<LayoutObjectView>,
    dom: Seq<NodeView>,
    sheet: Seq<RuleView>,
    body: int,
    k: int,
) -> bool {
    let o = objs[k];
    &&& o.node < dom.len()
    &&& shown(dom, sheet, body, o.node as int)
    &&& o.node_kind == dom[o.node as int].kind
    &&& o.style == node_style(dom, sheet, body, o.node as int)
    &&& o.kind == kind_for(o.node_kind, o.style.display)
    &&& match o.links.parent {
        None => o.node == body,
        Some(p) => p < k && o.node != body && dom[o.node as int].links.parent == Some(
            objs[p as int].node,
        ),
    }
}

/// The objects stand in the order of the indices of their nodes.
pub open spec fn in_node_order(objs: Seq<LayoutObjectView>) -> bool {
    forall|i: int, j: int| 0 <= i < j < objs.len() ==> objs[i].node < objs[j].node
}

/// Node `n` has a box among the objects.
pub open spec fn has_box(objs: Seq<LayoutObjectView>, n: int) -> bool {
    exists|k: int| 0 <= k < objs.len() && #[trigger] objs[k].node == n
}

/// The objects are the layout tree of the document under the sheet: the
/// boxes of exactly the nodes that are shown, in the order of their nodes,
/// linked as their nodes are, each with its node's kind and resolved style.
///
/// A node that is not displayed has no box, and neither has anything below
/// it. Without a `body` element there is no box at all.
pub open spec fn laid_out(objs: Seq<LayoutObjectView>, dom: Seq<NodeView>, sheet: Seq<RuleView>)
    -> bool {
    &&& links_wf(object_links(objs))
    &&& in_node_order(objs)
    &&& match target_element(dom, ElementKind::Body) {
        None => objs.len() == 0,
        Some(body) => {
            &&& forall|k: int| 0 <= k < objs.len() ==> #[trigger] object_ok(objs, dom, sheet, body, k)
            &&& forall|n: int|
                0 <= n < dom.len() && #[trigger] shown(dom, sheet, body, n) ==> has_box(objs, n)
        },
    }
}

/// The objects after `o` has been appended as the last child of `parent`,
/// or as the root where there is no parent.
pub open spec fn objects_append(
    objs: Seq<LayoutObjectView>,
    o: LayoutObjectView,
    parent: Option<usize>,
) -> Seq<LayoutObjectView> {
    match parent {
        Some(p) => {
            let ls = append_links(object_links(objs), p as int);
            Seq::new(
                objs.len() + 1,
                |i: int|
                    if i < objs.len() {
                        LayoutObjectView { links: ls[i], ..objs[i] }
                    } else {
                        LayoutObjectView { links: ls[i], ..o }
                    },
            )
        },
        None => objs.push(LayoutObjectView { links: detached(), ..o }),
    }
}

/// Appends `o` to the arena as the last child of `parent`.
fn append_object(objects: &mut Vec<LayoutObject>, o: LayoutObject, parent: Option<usize>) -> (id:
    usize)
    requires
        links_wf(object_links(objects_view(old(objects)@))),
        match parent {
            Some(p) => p < old(objects)@.len(),
            None => old(objects)@.len() == 0,
        },
    ensures
        id == old(objects)@.len(),
        objects_view(final(objects)@) == objects_append(objects_view(old(objects)@), o@, parent),
        links_wf(object_links(objects_view(final(objects)@))),
{
    let id = objects.len();
    let ghost before = objects_view(objects@);
    let mut o = o;
    match parent {
        Some(p) => {
            let old_last = objects[p].links.last_child;
            proof {
                assert(node_ok(object_links(before), p as int));
            }
            o.links = Links {
                parent: Some(p),
                first_child: None,
                last_child: None,
                previous_sibling: old_last,
                next_sibling: None,
            };
            objects.push(o);
            if objects[p].links.first_child.is_none() {
                objects[p].links.first_child = Some(id);
            }
            objects[p].links.last_child = Some(id);
            match old_last {
                Some(q) => {
                    objects[q].links.next_sibling = Some(id);
                },
                None => {},
            }
            proof {
                let after = objects_view(objects@);
                assert(before.len() + 1 == objects.len() <= usize::MAX);
                assert(after =~= objects_append(before, o@, parent));
                lemma_append_links(object_links(before), p as int);
                assert(object_links(after) =~= append_links(object_links(before), p as int));
            }
        },
        None => {
            o.links = Links {
                parent: None,
                first_child: None,
                last_child: None,
                previous_sibling: None,
                next_sibling: None,
            };
            objects.push(o);
            proof {
                let after = objects_view(objects@);
                assert(after =~= objects_append(before, o@, parent));
                lemma_root_links();
                assert(object_links(after) =~= seq![detached()]);
            }
        },
    }
    id
}

/// What the builder knows after the nodes before `n` have been looked at:
/// `boxes[m]` is the box of node `m` where it has one, and every box so far
/// is the box of such a node.
#[verifier::opaque]
pub open spec fn built(
    objs: Seq<LayoutObjectView>,
    boxes: Seq<Option<usize>>,
    dom: Seq<NodeView>,
    sheet: Seq<RuleView>,
    body: int,
    n: int,
) -> bool {
    &&& boxes.len() == n
    &&& links_wf(object_links(objs))
    &&& in_node_order(objs)
    &&& forall|k: int| 0 <= k < objs.len() ==> #[trigger] object_ok(objs, dom, sheet, body, k)
    &&& forall|k: int|
        0 <= k < objs.len() ==> (#[trigger] objs[k]).node < n && boxes[objs[k].node as int]
            == Some(k as usize)
    &&& forall|m: int|
        0 <= m < n ==> match #[trigger] boxes[m] {
            Some(k) => k < objs.len() && objs[k as int].node == m,
            None => !shown(dom, sheet, body, m),
        }
}

proof fn lemma_built_start(
    boxes: Seq<Option<usize>>,
    dom: Seq<NodeView>,
    sheet: Seq<RuleView>,
    body: int,
)
    requires
        boxes.len() == body,
        forall|m: int| 0 <= m < body ==> (#[trigger] boxes[m]) is None,
    ensures
        built(Seq::<LayoutObjectView>::empty(), boxes, dom, sheet, body, body),
{
    reveal(built);
    let objs = Seq::<LayoutObjectView>::empty();
    assert(object_links(objs) =~= Seq::<Links>::empty());
    assert forall|m: int| 0 <= m < body implies !shown(dom, sheet, body, m) by {
        if shown(dom, sheet, body, m) {
            lemma_shown_behind_body(dom, sheet, body, m);
        }
    }
}

/// What `built` says of one node that has been looked at.
proof fn lemma_built_lookup(
    objs: Seq<LayoutObjectView>,
    boxes: Seq<Option<usize>>,
    dom: Seq<NodeView>,
    sheet: Seq<RuleView>,
    body: int,
    n: int,
    m: int,
)
    requires
        built(objs, boxes, dom, sheet, body, n),
        0 <= m < n,
    ensures
        boxes.len() == n,
        links_wf(object_links(objs)),
        match boxes[m] {
            Some(k) => {
                &&& k < objs.len()
                &&& objs[k as int].node == m
                &&& shown(dom, sheet, body, m)
                &&& objs[k as int].style == node_style(dom, sheet, body, m)
                &&& is_complete(objs[k as int].style)
            },
            None => !shown(dom, sheet, body, m),
        },
{
    reveal(built);
    if let Some(k) = boxes[m] {
        assert(object_ok(objs, dom, sheet, body, k as int));
        lemma_node_style_complete(dom, sheet, body, m);
    }
}

proof fn lemma_built_skip(
    objs: Seq<LayoutObjectView>,
    boxes: Seq<Option<usize>>,
    dom: Seq<NodeView>,
    sheet: Seq<RuleView>,
    body: int,
    n: int,
)
    requires
        built(objs, boxes, dom, sheet, body, n),
        0 <= n,
        !shown(dom, sheet, body, n),
    ensures
        built(objs, boxes.push(None), dom, sheet, body, n + 1),
{
    reveal(built);
    let after = boxes.push(None);
    assert forall|m: int| 0 <= m < n + 1 implies match #[trigger] after[m] {
        Some(k) => k < objs.len() && objs[k as int].node == m,
        None => !shown(dom, sheet, body, m),
    } by {
        if m < n {
            assert(after[m] == boxes[m]);
        }
    }
    assert forall|k: int| 0 <= k < objs.len() implies (#[trigger] objs[k]).node < n + 1
        && after[objs[k].node as int] == Some(k as usize) by {
        assert(objs[k].node < n);
        assert(after[objs[k].node as int] == boxes[objs[k].node as int]);
    }
}

proof fn lemma_built_add(
    objs: Seq<LayoutObjectView>,
    boxes: Seq<Option<usize>>,
    dom: Seq<NodeView>,
    sheet: Seq<RuleView>,
    body: int,
    n: int,
    o: LayoutObjectView,
    parent: Option<usize>,
)
    requires
        built(objs, boxes, dom, sheet, body, n),
        0 <= n < dom.len(),
        n <= usize::MAX,
        objs.len() < usize::MAX,
        shown(dom, sheet, body, n),
        o.node == n,
        o.node_kind == dom[n].kind,
        o.style == node_style(dom, sheet, body, n),
        o.kind == kind_for(o.node_kind, o.style.display),
        match parent {
            None => n == body && objs.len() == 0,
            Some(p) => p < objs.len() && n != body && dom[n].links.parent == Some(
                objs[p as int].node,
            ),
        },
    ensures
        built(
            objects_append(objs, o, parent),
            boxes.push(Some(objs.len() as usize)),
            dom,
            sheet,
            body,
            n + 1,
        ),
{
    reveal(built);
    let after = objects_append(objs, o, parent);
    let after_boxes = boxes.push(Some(objs.len() as usize));
    match parent {
        Some(p) => {
            lemma_append_links(object_links(objs), p as int);
            assert(object_links(after) =~= append_links(object_links(objs), p as int));
        },
        None => {
            lemma_root_links();
            assert(object_links(after) =~= seq![detached()]);
        },
    }
    assert forall|k: int| 0 <= k < after.len() implies #[trigger] object_ok(
        after,
        dom,
        sheet,
        body,
        k,
    ) by {
        if k < objs.len() {
            assert(object_ok(objs, dom, sheet, body, k));
        }
    }
    assert forall|k: int| 0 <= k < after.len() implies (#[trigger] after[k]).node < n + 1
        && after_boxes[after[k].node as int] == Some(k as usize) by {
        if k < objs.len() {
            assert(objs[k].node < n);
        }
    }
    assert forall|i: int, j: int| 0 <= i < j < after.len() implies after[i].node
        < after[j].node by {
        assert(objs[i].node < n);
    }
    assert forall|m: int| 0 <= m < n + 1 implies match #[trigger] after_boxes[m] {
        Some(k) => k < after.len() && after[k as int].node == m,
        None => !shown(dom, sheet, body, m),
    } by {
        if m < n {
            assert(after_boxes[m] == boxes[m]);
        }
    }
}

proof fn lemma_built_end(
    objs: Seq<LayoutObjectView>,
    boxes: Seq<Option<usize>>,
    dom: Seq<NodeView>,
    sheet: Seq<RuleView>,
    body: int,
)
    requires
        built(objs, boxes, dom, sheet, body, dom.len() as int),
        target_element(dom, ElementKind::Body) == Some(body),
    ensures
        laid_out(objs, dom, sheet),
        forall|k: int| 0 <= k < objs.len() ==> is_complete(#[trigger] objs[k].style),
{
    reveal(built);
    assert forall|m: int| 0 <= m < dom.len() && #[trigger] shown(dom, sheet, body, m) implies has_box(
        objs,
        m,
    ) by {
        let k = boxes[m]->0;
        assert(objs[k as int].node == m);
    }
    assert forall|k: int| 0 <= k < objs.len() implies is_complete(#[trigger] objs[k].style) by {
        assert(object_ok(objs, dom, sheet, body, k));
        lemma_node_style_complete(dom, sheet, body, objs[k].node as int);
    }
}

/// Builds the layout tree of the document below `body`.
pub fn build_layout_tree(dom: &Window, body: Option<NodeId>, cssom: &StyleSheet) -> (objects: Vec<
    LayoutObject,
>)
    requires
        dom.wf(),
        match body {
            Some(b) => target_element(dom@, ElementKind::Body) == Some(b as int),
            None => target_element(dom@, ElementKind::Body) is None,
        },
    ensures
        laid_out(objects_view(objects@), dom@, cssom@),
        forall|k: int|
            0 <= k < objects@.len() ==> is_complete(#[trigger] objects_view(objects@)[k].style),
{
    let mut objects: Vec<LayoutObject> = Vec::new();
    let b = match body {
        Some(b) => b,
        None => {
            assert(objects_view(objects@) =~= Seq::<LayoutObjectView>::empty());
            assert(object_links(objects_view(objects@)) =~= Seq::<Links>::empty());
            return objects;
        },
    };
    proof {
        lemma_element_from(dom@, Some(0usize), ElementKind::Body);
    }
    let mut boxes: Vec<Option<usize>> = Vec::new();
    let mut n: usize = 0;
    while n < b
        invariant
            n <= b < dom@.len(),
            boxes@.len() == n,
            objects@.len() == 0,
            forall|m: int| 0 <= m < n ==> (#[trigger] boxes@[m]) is None,
        decreases b - n,
    {
        boxes.push(None);
        n += 1;
    }
    proof {
        assert(objects_view(objects@) =~= Seq::<LayoutObjectView>::empty());
        lemma_built_start(boxes@, dom@, cssom@, b as int);
    }
    while n < dom.len()
        invariant
            dom.wf(),
            b <= n <= dom@.len(),
            b < dom@.len(),
            n == b ==> objects@.len() == 0,
            built(objects_view(objects@), boxes@, dom@, cssom@, b as int, n as int),
        decreases dom@.len() - n,
    {
        let ghost objs = objects_view(objects@);
        let node = dom.node(n);
        let mut candidate = false;
        let mut parent_obj: Option<usize> = None;
        let mut parent_style: Option<ComputedStyle> = None;
        proof {
            assert(node_ok(dom_links(dom@), n as int));
        }
        if n == b {
            candidate = true;
        } else {
            match node.parent() {
                Some(p) => {
                    proof {
                        lemma_built_lookup(objs, boxes@, dom@, cssom@, b as int, n as int, p as int);
                    }
                    match boxes[p] {
                        Some(po) => {
                            candidate = true;
                            parent_obj = Some(po);
                            parent_style = Some(objects[po].style);
                            proof {
                                assert(objs[po as int] == objects@[po as int]@);
                            }
                        },
                        None => {},
                    }
                },
                None => {},
            }
        }
        let mut created: Option<LayoutObject> = None;
        if candidate {
            created = create_layout_object(node.kind(), n, parent_obj, parent_style, cssom);
        }
        match created {
            Some(o) => {
                let ghost ov = o@;
                let ghost old_boxes = boxes@;
                let id = append_object(&mut objects, o, parent_obj);
                proof {
                    assert(objs.len() + 1 == objects.len() <= usize::MAX);
                    lemma_built_add(objs, old_boxes, dom@, cssom@, b as int, n as int, ov, parent_obj);
                }
                boxes.push(Some(id));
            },
            None => {
                proof {
                    lemma_built_skip(objs, boxes@, dom@, cssom@, b as int, n as int);
                }
                boxes.push(None);
            },
        }
        n += 1;
    }
    proof {
        lemma_built_end(objects_view(objects@), boxes@, dom@, cssom@, b as int);
    }
    objects
}

/// The objects with every size and point taken out: what sizing starts from.
pub open spec fn shape(objs: Seq<LayoutObjectView>) -> Seq<LayoutObjectView> {
    Seq::new(objs.len(), |i: int| LayoutObjectView { point: origin(), size: no_size(), ..objs[i] })
}

/// The objects with every point taken out: what positioning starts from.
pub open spec fn unplaced(objs: Seq<LayoutObjectView>) -> Seq<LayoutObjectView> {
    Seq::new(objs.len(), |i: int| LayoutObjectView { point: origin(), ..objs[i] })
}

/// The first child of object `k`, where the link points forward.
pub open spec fn child_of(objs: Seq<LayoutObjectView>, k: int) -> Option<usize> {
    match objs[k].links.first_child {
        Some(c) => if k < c < objs.len() {
            Some(c)
        } else {
            None
        },
        None => None,
    }
}

/// The sibling after object `k`, where the link points forward.
pub open spec fn next_of(objs: Seq<LayoutObjectView>, k: int) -> Option<usize> {
    match objs[k].links.next_sibling {
        Some(c) => if k < c < objs.len() {
            Some(c)
        } else {
            None
        },
        None => None,
    }
}

/// How many objects lie at or behind `c`.
pub open spec fn rest(objs: Seq<LayoutObjectView>, c: Option<usize>) -> int {
    match c {
        Some(c) => if c < objs.len() {
            objs.len() - c
        } else {
            0
        },
        None => 0,
    }
}

/// The size of object `k` in a content area of width `w`.
///
/// Every block is as wide as the content area, and a text is broken into
/// lines at that width. The content of an inline box is its children side by
/// side; the content of a block is its children in rows.
pub open spec fn size_of(objs: Seq<LayoutObjectView>, k: int, w: i64) -> LayoutSize
    decreases objs.len() - k, 0int,
{
    if 0 <= k < objs.len() {
        let content = match objs[k].kind {
            LayoutObjectKind::Block => LayoutSize {
                width: 0,
                height: block_flow(objs, child_of(objs, k), w, 0, 0, 0),
            },
            LayoutObjectKind::Inline => inline_flow(objs, child_of(objs, k), w, no_size()),
            LayoutObjectKind::Text => no_size(),
        };
        object_size(objs[k], LayoutSize { width: w, height: 0 }, content)
    } else {
        no_size()
    }
}

/// The extent of the siblings from `c` on, side by side, added to `acc`:
/// the sum of their widths and the largest of their heights.
pub open spec fn inline_flow(objs: Seq<LayoutObjectView>, c: Option<usize>, w: i64, acc: LayoutSize)
    -> LayoutSize
    decreases rest(objs, c), 1int,
{
    match c {
        Some(ci) => if ci < objs.len() {
            let s = size_of(objs, ci as int, w);
            inline_flow(
                objs,
                next_of(objs, ci as int),
                w,
                LayoutSize {
                    width: add_sat(acc.width, s.width),
                    height: max_of(acc.height, s.height),
                },
            )
        } else {
            acc
        },
        None => acc,
    }
}

/// The height of the siblings from `c` on, laid out in rows of width `w`,
/// after rows of height `done` and an open row of width `row_w` and height
/// `row_h`.
///
/// A block is a row of its own. Inline boxes and texts that follow one
/// another share a row, which is as high as the highest of them; one that
/// would make a row that is not empty wider than `w` starts a new row.
pub open spec fn block_flow(
    objs: Seq<LayoutObjectView>,
    c: Option<usize>,
    w: i64,
    done: i64,
    row_w: i64,
    row_h: i64,
) -> i64
    decreases rest(objs, c), 1int,
{
    match c {
        Some(ci) => if ci < objs.len() {
            let s = size_of(objs, ci as int, w);
            let next = next_of(objs, ci as int);
            if objs[ci as int].kind is Block {
                block_flow(objs, next, w, add_sat(add_sat(done, row_h), s.height), 0, 0)
            } else if row_w > 0 && row_w + s.width > w {
                block_flow(objs, next, w, add_sat(done, row_h), s.width, s.height)
            } else {
                block_flow(
                    objs,
                    next,
                    w,
                    done,
                    add_sat(row_w, s.width),
                    max_of(row_h, s.height),
                )
            }
        } else {
            add_sat(done, row_h)
        },
        None => add_sat(done, row_h),
    }
}

/// Every object from `from` on has the size that `size_of` gives it.
pub open spec fn sized_from(objs: Seq<LayoutObjectView>, w: i64, from: int) -> bool {
    forall|k: int| from <= k < objs.len() ==> (#[trigger] objs[k]).size == size_of(shape(objs), k, w)
}

/// Every object has the size that `size_of` gives it.
pub open spec fn sized(objs: Seq<LayoutObjectView>, w: i64) -> bool {
    sized_from(objs, w, 0)
}

/// The point of object `k`: see `position`. The root sits at the origin.
pub open spec fn point_of(objs: Seq<LayoutObjectView>, k: int) -> LayoutPoint
    decreases k,
{
    if 0 <= k < objs.len() {
        let parent_point = match objs[k].links.parent {
            Some(p) => if p < k {
                point_of(objs, p as int)
            } else {
                origin()
            },
            None => origin(),
        };
        match objs[k].links.previous_sibling {
            Some(q) => if q < k {
                position(
                    objs[k].kind,
                    parent_point,
                    objs[q as int].kind,
                    Some(point_of(objs, q as int)),
                    Some(objs[q as int].size),
                )
            } else {
                parent_point
            },
            None => parent_point,
        }
    } else {
        origin()
    }
}

/// Every object before `to` sits where `point_of` puts it.
pub open spec fn placed_to(objs: Seq<LayoutObjectView>, to: int) -> bool {
    forall|k: int| 0 <= k < to && k < objs.len() ==> (#[trigger] objs[k]).point == point_of(
        unplaced(objs),
        k,
    )
}

/// Every object sits where `point_of` puts it.
pub open spec fn placed(objs: Seq<LayoutObjectView>) -> bool {
    placed_to(objs, objs.len() as int)
}

/// The display items of the objects from `c` on in pre-order: the items of
/// `c`, then those of everything below it, then those of the siblings after
/// it and of everything below them.
pub open spec fn paint_from(objs: Seq<LayoutObjectView>, c: Option<usize>, w: i64) -> Seq<
    DisplayItemView,
>
    decreases rest(objs, c),
{
    match c {
        Some(k) => if k < objs.len() {
            items_of(objs[k as int], w) + paint_from(objs, child_of(objs, k as int), w)
                + paint_from(objs, next_of(objs, k as int), w)
        } else {
            Seq::<DisplayItemView>::empty()
        },
        None => Seq::<DisplayItemView>::empty(),
    }
}

/// Whether the objects are the layout tree of the document depends on
/// neither sizes nor points.
pub proof fn lemma_laid_out_frame(
    a: Seq<LayoutObjectView>,
    b: Seq<LayoutObjectView>,
    dom: Seq<NodeView>,
    sheet: Seq<RuleView>,
)
    requires
        laid_out(a, dom, sheet),
        shape(a) == shape(b),
    ensures
        laid_out(b, dom, sheet),
{
    assert(a.len() == shape(a).len() == b.len());
    assert forall|i: int| 0 <= i < a.len() implies (#[trigger] b[i]).links == a[i].links && b[i].node
        == a[i].node && b[i].node_kind == a[i].node_kind && b[i].style == a[i].style && b[i].kind
        == a[i].kind by {
        assert(shape(a)[i] == shape(b)[i]);
        assert(shape(a)[i].links == a[i].links);
        assert(shape(b)[i].links == b[i].links);
        assert(shape(a)[i].node_kind == a[i].node_kind);
        assert(shape(b)[i].node_kind == b[i].node_kind);
    }
    assert(object_links(a) =~= object_links(b));
    if let Some(body) = target_element(dom, ElementKind::Body) {
        assert forall|k: int| 0 <= k < b.len() implies #[trigger] object_ok(
            b,
            dom,
            sheet,
            body,
            k,
        ) by {
            assert(object_ok(a, dom, sheet, body, k));
            if let Some(p) = a[k].links.parent {
                assert(b[p as int].node == a[p as int].node);
            }
        }
        assert forall|n: int|
            0 <= n < dom.len() && #[trigger] shown(dom, sheet, body, n) implies has_box(b, n) by {
            assert(has_box(a, n));
            let k = choose|k: int| 0 <= k < a.len() && #[trigger] a[k].node == n;
            assert(b[k].node == n);
        }
    }
    assert forall|i: int, j: int| 0 <= i < j < b.len() implies b[i].node < b[j].node by {
        assert(a[i].node < a[j].node);
    }
}

/// The layout tree of one document.
#[derive(Debug, Clone, PartialEq, Eq)]
pub struct LayoutView {
    pub root: Option<usize>,
    pub objects: Vec<LayoutObject>,
    pub width: i64,
}

impl View for LayoutView {
    type V = Seq<LayoutObjectView>;

    open spec fn view(&self) -> Seq<LayoutObjectView> {
        objects_view(self.objects@)
    }
}

impl LayoutView {
    /// The links form one tree, and the root is object 0 where there is one.
    pub open spec fn wf(&self) -> bool {
        &&& links_wf(object_links(self@))
        &&& self.root == if self@.len() > 0 {
            Some(0usize)
        } else {
            None
        }
    }

    /// Lays out the document under the sheet, in a content area of the
    /// standard width.
    pub fn new(dom: &Window, cssom: &StyleSheet) -> (view: Self)
        requires
            dom.wf(),
        ensures
            view.wf(),
            view.width == CONTENT_AREA_WIDTH,
            laid_out(view@, dom@, cssom@),
            forall|k: int| 0 <= k < view@.len() ==> is_complete(#[trigger] view@[k].style),
            sized(view@, CONTENT_AREA_WIDTH),
            placed(view@),
    {
        Self::with_width(dom, cssom, CONTENT_AREA_WIDTH)
    }

    /// Lays out the document under the sheet, in a content area of width
    /// `width`: builds the tree of boxes, sizes them, places them.
    pub fn with_width(dom: &Window, cssom: &StyleSheet, width: i64) -> (view: Self)
        requires
            dom.wf(),
        ensures
            view.wf(),
            view.width == width,
            laid_out(view@, dom@, cssom@),
            forall|k: int| 0 <= k < view@.len() ==> is_complete(#[trigger] view@[k].style),
            sized(view@, width),
            placed(view@),
    {
        let body_root = get_target_element_node(dom, ElementKind::Body);
        let objects = build_layout_tree(dom, body_root, cssom);
        let root = if objects.len() > 0 {
            Some(0)
        } else {
            None
        };
        let mut tree = Self { root, objects, width };
        let ghost built = tree@;
        tree.update_layout();
        proof {
            lemma_laid_out_frame(built, tree@, dom@, cssom@);
            assert forall|k: int| 0 <= k < tree@.len() implies is_complete(
                #[trigger] tree@[k].style,
            ) by {
                assert(shape(built)[k] == shape(tree@)[k]);
                assert(is_complete(built[k].style));
            }
        }
        tree
    }

    /// Sizes and places every object anew.
    pub fn update_layout(&mut self)
        requires
            old(self).wf(),
        ensures
            final(self).wf(),
            final(self).width == old(self).width,
            shape(final(self)@) == shape(old(self)@),
            sized(final(self)@, final(self).width),
            placed(final(self)@),
    {
        self.calculate_node_size(LayoutSize::new(self.width, 0));
        let ghost sized_objects = self@;
        self.calculate_node_position();
        proof {
            assert(self@.len() == unplaced(self@).len() == sized_objects.len());
            assert forall|i: int| 0 <= i < self@.len() implies shape(self@)[i] == shape(
                sized_objects,
            )[i] by {
                assert(unplaced(self@)[i] == unplaced(sized_objects)[i]);
                assert(unplaced(self@)[i].links == self@[i].links);
                assert(unplaced(sized_objects)[i].links == sized_objects[i].links);
            }
            assert(shape(self@) =~= shape(sized_objects));
            assert forall|k: int| 0 <= k < self@.len() implies (#[trigger] self@[k]).size
                == size_of(shape(self@), k, self.width) by {
                assert(unplaced(self@)[k] == unplaced(sized_objects)[k]);
                assert(sized_objects[k].size == size_of(shape(sized_objects), k, self.width));
            }
        }
    }

    pub fn root(&self) -> (r: Option<usize>)
        ensures
            r == self.root,
    {
        self.root
    }

    /// Number of objects in the tree.
    pub fn len(&self) -> (n: usize)
        ensures
            n == self@.len(),
    {
        self.objects.len()
    }

    /// The object at `id`.
    pub fn object(&self, id: usize) -> (o: &LayoutObject)
        requires
            id < self@.len(),
        ensures
            o@ == self@[id as int],
    {
        &self.objects[id]
    }

    /// What the children of the inline box `k` take up.
    fn inline_content(&self, k: usize, w: i64) -> (content: LayoutSize)
        requires
            self.wf(),
            k < self@.len(),
            sized_from(self@, w, k + 1),
        ensures
            content == inline_flow(shape(self@), child_of(shape(self@), k as int), w, no_size()),
    {
        let ghost sh = shape(self@);
        let mut acc = LayoutSize::new(0, 0);
        let mut c = self.objects[k].links.first_child;
        proof {
            assert(node_ok(object_links(self@), k as int));
        }
        loop
            invariant
                self.wf(),
                k < self@.len(),
                sh == shape(self@),
                sized_from(self@, w, k + 1),
                c matches Some(ci) ==> k < ci < self@.len(),
                inline_flow(sh, c, w, acc) == inline_flow(sh, child_of(sh, k as int), w, no_size()),
            decreases rest(self@, c),
        {
            match c {
                None => {
                    return acc;
                },
                Some(ci) => {
                    proof {
                        assert(node_ok(object_links(self@), ci as int));
                        assert(self@[ci as int].size == size_of(sh, ci as int, w));
                    }
                    let s = self.objects[ci].size;
                    acc = LayoutSize::new(plus(acc.width, s.width), larger(acc.height, s.height));
                    c = self.objects[ci].links.next_sibling;
                },
            }
        }
    }

    /// How high the children of the block `k` are together.
    fn block_content(&self, k: usize, w: i64) -> (height: i64)
        requires
            self.wf(),
            k < self@.len(),
            sized_from(self@, w, k + 1),
        ensures
            height == block_flow(shape(self@), child_of(shape(self@), k as int), w, 0, 0, 0),
    {
        let ghost sh = shape(self@);
        let mut done: i64 = 0;
        let mut row_w: i64 = 0;
        let mut row_h: i64 = 0;
        let mut c = self.objects[k].links.first_child;
        proof {
            assert(node_ok(object_links(self@), k as int));
        }
        loop
            invariant
                self.wf(),
                k < self@.len(),
                sh == shape(self@),
                sized_from(self@, w, k + 1),
                c matches Some(ci) ==> k < ci < self@.len(),
                block_flow(sh, c, w, done, row_w, row_h) == block_flow(
                    sh,
                    child_of(sh, k as int),
                    w,
                    0,
                    0,
                    0,
                ),
            decreases rest(self@, c),
        {
            match c {
                None => {
                    return plus(done, row_h);
                },
                Some(ci) => {
                    proof {
                        assert(node_ok(object_links(self@), ci as int));
                        assert(self@[ci as int].size == size_of(sh, ci as int, w));
                    }
                    let s = self.objects[ci].size;
                    let is_block = match self.objects[ci].kind {
                        LayoutObjectKind::Block => true,
                        _ => false,
                    };
                    if is_block {
                        done = plus(plus(done, row_h), s.height);
                        row_w = 0;
                        row_h = 0;
                    } else if row_w > 0 && row_w as i128 + s.width as i128 > w as i128 {
                        done = plus(done, row_h);
                        row_w = s.width;
                        row_h = s.height;
                    } else {
                        row_w = plus(row_w, s.width);
                        row_h = larger(row_h, s.height);
                    }
                    c = self.objects[ci].links.next_sibling;
                },
            }
        }
    }

    /// Sizes every object, children before parents.
    pub fn calculate_node_size(&mut self, parent_size: LayoutSize)
        requires
            old(self).wf(),
        ensures
            final(self).wf(),
            final(self).width == old(self).width,
            shape(final(self)@) == shape(old(self)@),
            sized(final(self)@, parent_size.width),
    {
        let w = parent_size.width;
        let ghost sh = shape(self@);
        let mut k = self.objects.len();
        while k > 0
            invariant
                self.wf(),
                self.width == old(self).width,
                k <= self@.len(),
                sh == shape(old(self)@),
                shape(self@) == sh,
                w == parent_size.width,
                sized_from(self@, w, k as int),
            decreases k,
        {
            k = k - 1;
            let ghost before = self@;
            let content = match self.objects[k].kind {
                LayoutObjectKind::Block => LayoutSize::new(0, self.block_content(k, w)),
                LayoutObjectKind::Inline => self.inline_content(k, w),
                LayoutObjectKind::Text => LayoutSize::new(0, 0),
            };
            self.objects[k].compute_size(LayoutSize::new(w, 0), content);
            proof {
                assert(shape(self@) =~= sh);
                assert(object_links(self@) =~= object_links(before));
                assert(object_size(before[k as int], LayoutSize { width: w, height: 0 }, content)
                    == object_size(sh[k as int], LayoutSize { width: w, height: 0 }, content));
                assert forall|j: int| k <= j < self@.len() implies (#[trigger] self@[j]).size
                    == size_of(sh, j, w) by {
                    if j > k {
                        assert(self@[j] == before[j]);
                    }
                }
            }
        }
    }

    /// Places every object, parents and earlier siblings first. The root
    /// goes to the origin.
    pub fn calculate_node_position(&mut self)
        requires
            old(self).wf(),
        ensures
            final(self).wf(),
            final(self).width == old(self).width,
            unplaced(final(self)@) == unplaced(old(self)@),
            placed(final(self)@),
    {
        let ghost un = unplaced(self@);
        let mut k: usize = 0;
        while k < self.objects.len()
            invariant
                self.wf(),
                self.width == old(self).width,
                k <= self@.len(),
                un == unplaced(old(self)@),
                unplaced(self@) == un,
                placed_to(self@, k as int),
            decreases self@.len() - k,
        {
            let ghost before = self@;
            proof {
                assert(node_ok(object_links(before), k as int));
            }
            let links = self.objects[k].links;
            let parent_point = match links.parent {
                Some(p) => self.objects[p].point,
                None => LayoutPoint::new(0, 0),
            };
            let (previous_kind, previous_point, previous_size) = match links.previous_sibling {
                Some(q) => (
                    self.objects[q].kind,
                    Some(self.objects[q].point),
                    Some(self.objects[q].size),
                ),
                None => (LayoutObjectKind::Block, None, None),
            };
            self.objects[k].compute_position(
                parent_point,
                previous_kind,
                previous_point,
                previous_size,
            );
            proof {
                assert(unplaced(self@) =~= un);
                assert(object_links(self@) =~= object_links(before));
                if let Some(p) = links.parent {
                    assert(before[p as int].point == point_of(un, p as int));
                }
                if let Some(q) = links.previous_sibling {
                    assert(before[q as int].point == point_of(un, q as int));
                    assert(un[q as int].size == before[q as int].size);
                    assert(un[q as int].kind == before[q as int].kind);
                }
                assert(un[k as int].kind == before[k as int].kind);
                assert(un[k as int].links == before[k as int].links);
                assert(self@[k as int].point == point_of(un, k as int));
                assert forall|j: int| 0 <= j < k + 1 && j < self@.len() implies (
                #[trigger] self@[j]).point == point_of(un, j) by {
                    if j < k {
                        assert(self@[j] == before[j]);
                    }
                }
            }
            k += 1;
        }
    }

    fn paint_node(&self, node: Option<usize>, display_items: &mut Vec<DisplayItem>)
        requires
            self.wf(),
        ensures
            items_view(final(display_items)@) == items_view(old(display_items)@) + paint_from(
                self@,
                node,
                self.width,
            ),
        decreases rest(self@, node),
    {
        match node {
            Some(n) => {
                if n >= self.objects.len() {
                    assert(items_view(display_items@) + Seq::<DisplayItemView>::empty()
                        =~= items_view(display_items@));
                    return ;
                }
                proof {
                    assert(node_ok(object_links(self@), n as int));
                }
                let ghost start = items_view(display_items@);
                let mut own = self.objects[n].paint(self.width);
                let ghost own_view = items_view(own@);
                display_items.append(&mut own);
                assert(items_view(display_items@) =~= start + own_view);
                let first_child = self.objects[n].first_child();
                self.paint_node(first_child, display_items);
                let next_sibling = self.objects[n].next_sibling();
                self.paint_node(next_sibling, display_items);
                proof {
                    let below = paint_from(self@, child_of(self@, n as int), self.width);
                    let after = paint_from(self@, next_of(self@, n as int), self.width);
                    assert(((start + own_view) + below) + after =~= start + ((own_view + below)
                        + after));
                }
            },
            None => {
                assert(items_view(display_items@) + Seq::<DisplayItemView>::empty() =~= items_view(
                    display_items@,
                ));
            },
        }
    }

    /// The display list: the items of every object, in pre-order of the
    /// layout tree.
    pub fn paint(&self) -> (display_items: Vec<DisplayItem>)
        requires
            self.wf(),
        ensures
            items_view(display_items@) == paint_from(self@, self.root, self.width),
    {
        let mut display_items: Vec<DisplayItem> = Vec::new();
        assert(items_view(display_items@) =~= Seq::<DisplayItemView>::empty());
        self.paint_node(self.root, &mut display_items);
        assert(Seq::<DisplayItemView>::empty() + paint_from(self@, self.root, self.width)
            =~= paint_from(self@, self.root, self.width));
        display_items
    }
}

} // verus!
