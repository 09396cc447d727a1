//! What holds of every layout tree.

use crate::renderer::css::cssom::RuleView;
use crate::renderer::dom::api::target_element;
use crate::renderer::dom::node::ElementKind;
use crate::renderer::dom::node::NodeView;
use crate::renderer::layout::layout_object::LayoutObjectView;
use crate::renderer::layout::layout_view::block_flow;
use crate::renderer::layout::layout_view::child_of;
use crate::renderer::layout::layout_view::displayed;
use crate::renderer::layout::layout_view::inline_flow;
use crate::renderer::layout::layout_view::laid_out;
use crate::renderer::layout::layout_view::next_of;
use crate::renderer::layout::layout_view::object_links;
use crate::renderer::layout::layout_view::object_ok;
use crate::renderer::layout::layout_view::placed;
use crate::renderer::layout::layout_view::point_of;
use crate::renderer::layout::layout_view::rest;
use crate::renderer::layout::layout_view::shape;
use crate::renderer::layout::layout_view::shown;
use crate::renderer::layout::layout_view::size_of;
use crate::renderer::layout::layout_view::sized;
use crate::renderer::layout::layout_view::unplaced;
use crate::renderer::layout::metrics::add_sat;
use crate::renderer::layout::metrics::max_of;
use crate::renderer::layout::metrics::LayoutSize;
use crate::tree::links_wf;
use crate::tree::node_ok;
use crate::tree::reaches;
use vstd::prelude::*;

verus! {

/// Node `a` is node `n` or lies on the way from `n` up to the document.
pub open spec fn is_ancestor_or_self(dom: Seq<NodeView>, a: int, n: int) -> bool
    decreases n,
{
    a == n || match dom[n].links.parent {
        Some(p) => 0 <= p < n && is_ancestor_or_self(dom, a, p as int),
        None => false,
    }
}

proof fn lemma_ancestor_precedes(dom: Seq<NodeView>, a: int, n: int)
    requires
        is_ancestor_or_self(dom, a, n),
    ensures
        a <= n,
    decreases n,
{
    if a != n {
        lemma_ancestor_precedes(dom, a, dom[n].links.parent->0 as int);
    }
}

proof fn lemma_shown_ancestors(
    dom: Seq<NodeView>,
    sheet: Seq<RuleView>,
    body: int,
    n: int,
    a: int,
)
    requires
        shown(dom, sheet, body, n),
        is_ancestor_or_self(dom, a, n),
        body <= a,
    ensures
        shown(dom, sheet, body, a),
    decreases n,
{
    if a != n {
        lemma_ancestor_precedes(dom, a, dom[n].links.parent->0 as int);
        lemma_shown_ancestors(dom, sheet, body, dom[n].links.parent->0 as int, a);
    }
}

/// Display-none elision: no layout object stands for a node that lies in or
/// below a node whose display is `none`. Whatever node `a` one meets on the
/// way from the node of an object up to `body`, it is displayed.
pub proof fn lemma_no_hidden_ancestor(
    objs: Seq<LayoutObjectView>,
    dom: Seq<NodeView>,
    sheet: Seq<RuleView>,
    k: int,
    a: int,
)
    requires
        laid_out(objs, dom, sheet),
        0 <= k < objs.len(),
        is_ancestor_or_self(dom, a, objs[k].node as int),
        target_element(dom, ElementKind::Body)->0 <= a,
    ensures
        displayed(dom, sheet, target_element(dom, ElementKind::Body)->0, a),
{
    let body = target_element(dom, ElementKind::Body)->0;
    assert(object_ok(objs, dom, sheet, body, k));
    lemma_shown_ancestors(dom, sheet, body, objs[k].node as int, a);
}

/// No object has a negative height.
pub proof fn lemma_height_not_negative(objs: Seq<LayoutObjectView>, k: int, w: i64)
    ensures
        size_of(objs, k, w).height >= 0,
    decreases objs.len() - k, 0int,
{
    if 0 <= k < objs.len() {
        lemma_inline_flow_not_negative(objs, child_of(objs, k), w, LayoutSize { width: 0, height: 0 });
        lemma_block_flow_not_negative(objs, child_of(objs, k), w, 0, 0, 0);
    }
}

proof fn lemma_inline_flow_not_negative(
    objs: Seq<LayoutObjectView>,
    c: Option<usize>,
    w: i64,
    acc: LayoutSize,
)
    requires
        acc.height >= 0,
    ensures
        inline_flow(objs, c, w, acc).height >= 0,
    decreases rest(objs, c), 1int,
{
    if let Some(ci) = c {
        if ci < objs.len() {
            let s = size_of(objs, ci as int, w);
            lemma_inline_flow_not_negative(
                objs,
                next_of(objs, ci as int),
                w,
                LayoutSize {
                    width: add_sat(acc.width, s.width),
                    height: max_of(acc.height, s.height),
                },
            );
        }
    }
}

proof fn lemma_block_flow_not_negative(
    objs: Seq<LayoutObjectView>,
    c: Option<usize>,
    w: i64,
    done: i64,
    row_w: i64,
    row_h: i64,
)
    requires
        done >= 0,
        row_h >= 0,
    ensures
        block_flow(objs, c, w, done, row_w, row_h) >= 0,
    decreases rest(objs, c), 1int,
{
    if let Some(ci) = c {
        if ci < objs.len() {
            lemma_height_not_negative(objs, ci as int, w);
            let s = size_of(objs, ci as int, w);
            let next = next_of(objs, ci as int);
            if objs[ci as int].kind is Block {
                lemma_block_flow_not_negative(
                    objs,
                    next,
                    w,
                    add_sat(add_sat(done, row_h), s.height),
                    0,
                    0,
                );
            } else if row_w > 0 && row_w + s.width > w {
                lemma_block_flow_not_negative(
                    objs,
                    next,
                    w,
                    add_sat(done, row_h),
                    s.width,
                    s.height,
                );
            } else {
                lemma_block_flow_not_negative(
                    objs,
                    next,
                    w,
                    done,
                    add_sat(row_w, s.width),
                    max_of(row_h, s.height),
                );
            }
        }
    }
}

/// Along a chain of siblings nothing sits higher than what comes before it,
/// and what follows a block sits at or below the lower edge of that block.
proof fn lemma_siblings_descend(objs: Seq<LayoutObjectView>, w: i64, a: int, b: int)
    requires
        links_wf(object_links(objs)),
        sized(objs, w),
        placed(objs),
        0 <= a < objs.len(),
        0 <= b < objs.len(),
        reaches(object_links(objs), a, b),
    ensures
        objs[a].point.y <= objs[b].point.y,
        a != b && objs[a].kind is Block ==> objs[b].point.y >= add_sat(
            objs[a].point.y,
            objs[a].size.height,
        ),
    decreases objs.len() - a,
{
    if a != b {
        let ls = object_links(objs);
        assert(node_ok(ls, a));
        let s = ls[a].next_sibling->0 as int;
        assert(objs[a].links.next_sibling == Some(s as usize));
        assert(node_ok(ls, s));
        lemma_siblings_descend(objs, w, s, b);
        let un = unplaced(objs);
        assert(objs[s].point == point_of(un, s));
        assert(objs[a].point == point_of(un, a));
        assert(un[s].links == objs[s].links);
        assert(un[a].size == objs[a].size);
        assert(un[a].kind == objs[a].kind);
        assert(un[s].kind == objs[s].kind);
        lemma_height_not_negative(shape(objs), a, w);
        assert(objs[a].size == size_of(shape(objs), a, w));
    }
}

/// Position monotonicity: of two blocks with the same parent, the later one
/// starts at or below the lower edge of the earlier one. This is stated for
/// an earlier block whose lower edge lies within the range of `i64`; beyond
/// that range coordinates stay at `i64::MAX`.
pub proof fn lemma_blocks_stack(objs: Seq<LayoutObjectView>, w: i64, a: int, b: int)
    requires
        links_wf(object_links(objs)),
        sized(objs, w),
        placed(objs),
        0 <= a < objs.len(),
        0 <= b < objs.len(),
        a != b,
        reaches(object_links(objs), a, b),
        objs[a].kind is Block,
        objs[b].kind is Block,
        objs[a].point.y + objs[a].size.height <= i64::MAX,
    ensures
        objs[b].point.y >= objs[a].point.y + objs[a].size.height,
{
    lemma_siblings_descend(objs, w, a, b);
    lemma_height_not_negative(shape(objs), a, w);
    assert(objs[a].size == size_of(shape(objs), a, w));
}

/// Idempotence: sizes and points are determined by the tree, its styles
/// and the width alone. Laying out again what has been laid out changes
/// nothing, and so the display list stays the same.
pub proof fn lemma_layout_determined(
    a: Seq<LayoutObjectView>,
    b: Seq<LayoutObjectView>,
    w: i64,
)
    requires
        shape(a) == shape(b),
        sized(a, w),
        sized(b, w),
        placed(a),
        placed(b),
    ensures
        a == b,
{
    assert(a.len() == shape(a).len() == b.len());
    assert forall|k: int| 0 <= k < a.len() implies unplaced(a)[k] == unplaced(b)[k] by {
        assert(shape(a)[k] == shape(b)[k]);
        assert(shape(a)[k].links == a[k].links);
        assert(shape(b)[k].links == b[k].links);
        assert(shape(a)[k].node_kind == a[k].node_kind);
        assert(shape(b)[k].node_kind == b[k].node_kind);
        assert(a[k].size == size_of(shape(a), k, w));
        assert(b[k].size == size_of(shape(b), k, w));
    }
    assert(unplaced(a) =~= unplaced(b));
    assert forall|k: int| 0 <= k < a.len() implies a[k] == b[k] by {
        assert(unplaced(a)[k] == unplaced(b)[k]);
        assert(unplaced(a)[k].links == a[k].links);
        assert(unplaced(b)[k].links == b[k].links);
        assert(unplaced(a)[k].node_kind == a[k].node_kind);
        assert(unplaced(b)[k].node_kind == b[k].node_kind);
        assert(a[k].point == point_of(unplaced(a), k));
        assert(b[k].point == point_of(unplaced(b), k));
    }
    assert(a =~= b);
}

} // verus!
