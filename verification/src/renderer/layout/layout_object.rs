//! Layout objects: the boxes of the layout tree.

use crate::display_item::items_view;
use crate::display_item::DisplayItem;
use crate::display_item::DisplayItemView;
use crate::renderer::css::cssom::declarations_view;
use crate::renderer::css::cssom::Declaration;
use crate::renderer::css::cssom::Selector;
use crate::renderer::css::cssom::StyleSheet;
use crate::renderer::dom::node::NodeId;
use crate::renderer::dom::node::NodeKind;
use crate::renderer::dom::node::NodeKindView;
use crate::renderer::layout::cascade::cascade;
use crate::renderer::layout::cascade::cascading_style;
use crate::renderer::layout::cascade::declared_style;
use crate::renderer::layout::cascade::is_selected;
use crate::renderer::layout::cascade::resolved_style;
use crate::renderer::layout::cascade::selects;
use crate::renderer::layout::computed_style::blank_style;
use crate::renderer::layout::computed_style::defaulted;
use crate::renderer::layout::computed_style::is_complete;
use crate::renderer::layout::computed_style::white;
use crate::renderer::layout::computed_style::Color;
use crate::renderer::layout::computed_style::ComputedStyle;
use crate::renderer::layout::computed_style::DisplayType;
use crate::renderer::layout::computed_style::FontSize;
use crate::renderer::layout::metrics::add_sat;
use crate::renderer::layout::metrics::chars_per_line;
use crate::renderer::layout::metrics::chars_per_line_of;
use crate::renderer::layout::metrics::clamp;
use crate::renderer::layout::metrics::fits;
use crate::renderer::layout::metrics::fits_in;
use crate::renderer::layout::metrics::line_count;
use crate::renderer::layout::metrics::line_count_of;
use crate::renderer::layout::metrics::line_height;
use crate::renderer::layout::metrics::line_height_of;
use crate::renderer::layout::metrics::plus;
use crate::renderer::layout::metrics::text_size;
use crate::renderer::layout::metrics::text_size_of;
use crate::renderer::layout::metrics::LayoutPoint;
use crate::renderer::layout::metrics::LayoutSize;
use crate::text::from_chars;
use crate::text::to_chars;
use crate::tree::detached;
use crate::tree::Links;
use vstd::prelude::*;
use vstd::string::StrSliceExecFns;

verus! {

/// How a layout object takes part in the flow.
#[derive(Debug, Clone, Copy, PartialEq, Eq, Structural)]
pub enum LayoutObjectKind {
    Block,
    Inline,
    Text,
}

/// One box of the layout tree. It refers to the other boxes of its tree,
/// and to its node in the document, by index.
#[derive(Debug, Clone, PartialEq, Eq)]
pub struct LayoutObject {
    pub kind: LayoutObjectKind,
    pub node: NodeId,
    pub node_kind: NodeKind,
    pub links: Links,
    pub style: ComputedStyle,
    pub point: LayoutPoint,
    pub size: LayoutSize,
}

/// What a layout object holds.
pub struct LayoutObjectView {
    pub kind: LayoutObjectKind,
    pub node: NodeId,
    pub node_kind: NodeKindView,
    pub links: Links,
    pub style: ComputedStyle,
    pub point: LayoutPoint,
    pub size: LayoutSize,
}

impl View for LayoutObject {
    type V = LayoutObjectView;

    open spec fn view(&self) -> LayoutObjectView {
        LayoutObjectView {
            kind: self.kind,
            node: self.node,
            node_kind: self.node_kind@,
            links: self.links,
            style: self.style,
            point: self.point,
            size: self.size,
        }
    }
}

/// The upper left corner of the page.
pub open spec fn origin() -> LayoutPoint {
    LayoutPoint { x: 0, y: 0 }
}

/// The size of what takes no room.
pub open spec fn no_size() -> LayoutSize {
    LayoutSize { width: 0, height: 0 }
}

/// The kind of the layout object of a node: text for a text node, else
/// what the display property says.
pub open spec fn kind_for(node_kind: NodeKindView, display: Option<DisplayType>)
    -> LayoutObjectKind {
    match node_kind {
        NodeKindView::Text(_) => LayoutObjectKind::Text,
        _ => if display == Some(DisplayType::Inline) {
            LayoutObjectKind::Inline
        } else {
            LayoutObjectKind::Block
        },
    }
}

/// The font size of a style; medium while none is set.
pub open spec fn font_of(style: ComputedStyle) -> FontSize {
    match style.font_size {
        Some(f) => f,
        None => FontSize::Medium,
    }
}

/// The number of characters of a text node; 0 for any other node.
pub open spec fn text_len(node_kind: NodeKindView) -> nat {
    match node_kind {
        NodeKindView::Text(t) => t.len(),
        _ => 0,
    }
}

/// The size of an object whose parent leaves it `parent_size` and whose
/// children take up `content`. A block is as wide as its parent lets it be
/// and as high as its content; an inline box is as large as its content; a
/// text is as large as its characters, broken into lines where they do not
/// fit the width.
pub open spec fn object_size(o: LayoutObjectView, parent_size: LayoutSize, content: LayoutSize)
    -> LayoutSize {
    match o.kind {
        LayoutObjectKind::Block => LayoutSize {
            width: parent_size.width,
            height: content.height,
        },
        LayoutObjectKind::Inline => content,
        LayoutObjectKind::Text => text_size(
            text_len(o.node_kind),
            font_of(o.style),
            parent_size.width,
        ),
    }
}

/// The place of an object of kind `kind`, given the point of its parent and
/// the kind, point and size of the sibling before it, if there is one.
///
/// The first child sits at its parent's point. A block, and whatever
/// follows a block, goes below the sibling before it, at the parent's left
/// edge. An inline box or a text that follows an inline box or a text goes
/// to the right of it.
pub open spec fn position(
    kind: LayoutObjectKind,
    parent_point: LayoutPoint,
    previous_sibling_kind: LayoutObjectKind,
    previous_sibling_point: Option<LayoutPoint>,
    previous_sibling_size: Option<LayoutSize>,
) -> LayoutPoint {
    match (previous_sibling_point, previous_sibling_size) {
        (Some(pos), Some(size)) => if kind is Block || previous_sibling_kind is Block {
            LayoutPoint { x: parent_point.x, y: add_sat(pos.y, size.height) }
        } else {
            LayoutPoint { x: add_sat(pos.x, size.width), y: pos.y }
        },
        _ => parent_point,
    }
}

/// A box is painted only where its style asks for something to be seen: a
/// background other than white, or a declared width or height.
pub open spec fn paints_box(style: ComputedStyle) -> bool {
    style.background_color != Some(white()) || style.width != Some(0i64) || style.height != Some(
        0i64,
    )
}

/// The characters of line `i` of a text laid out in width `w`.
pub open spec fn line_text(t: Seq<char>, f: FontSize, w: i64, i: int) -> Seq<char> {
    if fits(t.len(), f, w) {
        t
    } else {
        let from = i * chars_per_line(f, w);
        let to = if from + chars_per_line(f, w) < t.len() {
            from + chars_per_line(f, w)
        } else {
            t.len() as int
        };
        t.subrange(from, to)
    }
}

/// The items of a text: one per line, each one line height below the one
/// before.
pub open spec fn text_items(t: Seq<char>, style: ComputedStyle, point: LayoutPoint, w: i64) -> Seq<
    DisplayItemView,
> {
    let f = font_of(style);
    Seq::new(
        line_count(t.len(), f, w) as nat,
        |i: int|
            DisplayItemView::Text {
                text: line_text(t, f, w, i),
                style,
                layout_point: LayoutPoint {
                    x: point.x,
                    y: add_sat(point.y, clamp(i * line_height(f))),
                },
            },
    )
}

/// The display items of one object, laid out in width `w`.
pub open spec fn items_of(o: LayoutObjectView, w: i64) -> Seq<DisplayItemView> {
    if o.style.display == Some(DisplayType::DisplayNone) {
        Seq::<DisplayItemView>::empty()
    } else {
        match o.kind {
            LayoutObjectKind::Block | LayoutObjectKind::Inline => if paints_box(o.style) {
                seq![
                    DisplayItemView::Rect {
                        style: o.style,
                        layout_point: o.point,
                        layout_size: o.size,
                    },
                ]
            } else {
                Seq::<DisplayItemView>::empty()
            },
            LayoutObjectKind::Text => match o.node_kind {
                NodeKindView::Text(t) => text_items(t, o.style, o.point, w),
                _ => Seq::<DisplayItemView>::empty(),
            },
        }
    }
}

/// The object that `create_layout_object` makes for a node.
pub open spec fn fresh_object(
    node_kind: NodeKindView,
    node: NodeId,
    parent_obj: Option<usize>,
    style: ComputedStyle,
) -> LayoutObjectView {
    LayoutObjectView {
        kind: kind_for(node_kind, style.display),
        node,
        node_kind,
        links: Links { parent: parent_obj, ..detached() },
        style,
        point: origin(),
        size: no_size(),
    }
}

proof fn lemma_line_bounds(n: int, cpl: int, i: int)
    requires
        n >= 1,
        cpl >= 1,
        0 <= i <= (n - 1) / cpl,
    ensures
        i * cpl <= n - 1,
        ((n - 1) / cpl + 1) * cpl >= n,
{
    assert(i * cpl <= n - 1 && ((n - 1) / cpl + 1) * cpl >= n) by (nonlinear_arith)
        requires
            n >= 1,
            cpl >= 1,
            0 <= i <= (n - 1) / cpl,
    ;
}

impl LayoutObject {
    /// A block at the origin, without size, style, children or siblings, for
    /// the node `node` of kind `node_kind`, below `parent_obj`.
    pub fn new(node: NodeId, node_kind: NodeKind, parent_obj: Option<usize>) -> (o: Self)
        ensures
            o@ == (LayoutObjectView {
                kind: LayoutObjectKind::Block,
                node,
                node_kind: node_kind@,
                links: Links { parent: parent_obj, ..detached() },
                style: blank_style(),
                point: origin(),
                size: no_size(),
            }),
    {
        Self {
            kind: LayoutObjectKind::Block,
            node,
            node_kind,
            links: Links {
                parent: parent_obj,
                first_child: None,
                last_child: None,
                previous_sibling: None,
                next_sibling: None,
            },
            style: ComputedStyle::new(),
            point: LayoutPoint::new(0, 0),
            size: LayoutSize::new(0, 0),
        }
    }

    pub fn kind(&self) -> (k: LayoutObjectKind)
        ensures
            k == self@.kind,
    {
        self.kind
    }

    /// The index, in the document, of the node that this object lays out.
    pub fn node(&self) -> (n: NodeId)
        ensures
            n == self@.node,
    {
        self.node
    }

    pub fn node_kind(&self) -> (k: NodeKind)
        ensures
            k@ == self@.node_kind,
    {
        self.node_kind.duplicate()
    }

    pub fn set_first_child(&mut self, first_child: Option<usize>)
        ensures
            final(self)@ == (LayoutObjectView {
                links: Links { first_child, ..old(self)@.links },
                ..old(self)@
            }),
    {
        self.links.first_child = first_child;
    }

    pub fn first_child(&self) -> (r: Option<usize>)
        ensures
            r == self@.links.first_child,
    {
        self.links.first_child
    }

    pub fn set_next_sibling(&mut self, next_sibling: Option<usize>)
        ensures
            final(self)@ == (LayoutObjectView {
                links: Links { next_sibling, ..old(self)@.links },
                ..old(self)@
            }),
    {
        self.links.next_sibling = next_sibling;
    }

    pub fn next_sibling(&self) -> (r: Option<usize>)
        ensures
            r == self@.links.next_sibling,
    {
        self.links.next_sibling
    }

    pub fn previous_sibling(&self) -> (r: Option<usize>)
        ensures
            r == self@.links.previous_sibling,
    {
        self.links.previous_sibling
    }

    pub fn parent(&self) -> (r: Option<usize>)
        ensures
            r == self@.links.parent,
    {
        self.links.parent
    }

    pub fn style(&self) -> (s: ComputedStyle)
        ensures
            s == self@.style,
    {
        self.style
    }

    pub fn point(&self) -> (p: LayoutPoint)
        ensures
            p == self@.point,
    {
        self.point
    }

    pub fn size(&self) -> (s: LayoutSize)
        ensures
            s == self@.size,
    {
        self.size
    }

    /// Whether `selector` applies to the node of this object.
    pub fn is_node_selected(&self, selector: &Selector) -> (r: bool)
        ensures
            r == selects(selector@, self@.node_kind),
    {
        is_selected(&self.node_kind, selector)
    }

    /// Applies a block of declarations to the style, in order.
    pub fn cascading_style(&mut self, declarations: &Vec<Declaration>)
        ensures
            final(self)@ == (LayoutObjectView {
                style: cascade(old(self)@.style, declarations_view(declarations@)),
                ..old(self)@
            }),
    {
        cascading_style(&mut self.style, declarations);
    }

    /// Completes the style: see `defaulted`.
    pub fn defaulting_style(&mut self, parent_style: Option<ComputedStyle>)
        requires
            parent_style matches Some(p) ==> is_complete(p),
        ensures
            final(self)@ == (LayoutObjectView {
                style: defaulted(old(self)@.style, old(self)@.node_kind, parent_style),
                ..old(self)@
            }),
            is_complete(final(self)@.style),
    {
        self.style.defaulting(&self.node_kind, parent_style);
    }

    /// Sets the kind from the node and the display property.
    pub fn update_kind(&mut self)
        ensures
            final(self)@ == (LayoutObjectView {
                kind: kind_for(old(self)@.node_kind, old(self)@.style.display),
                ..old(self)@
            }),
    {
        let kind = match &self.node_kind {
            NodeKind::Text(_) => LayoutObjectKind::Text,
            _ => match self.style.display {
                Some(DisplayType::Inline) => LayoutObjectKind::Inline,
                _ => LayoutObjectKind::Block,
            },
        };
        self.kind = kind;
    }

    fn font(&self) -> (f: FontSize)
        ensures
            f == font_of(self@.style),
    {
        match self.style.font_size {
            Some(f) => f,
            None => FontSize::Medium,
        }
    }

    /// Sets the size: see `object_size`.
    pub fn compute_size(&mut self, parent_size: LayoutSize, content: LayoutSize)
        ensures
            final(self)@ == (LayoutObjectView {
                size: object_size(old(self)@, parent_size, content),
                ..old(self)@
            }),
    {
        let size = match self.kind {
            LayoutObjectKind::Block => LayoutSize::new(parent_size.width(), content.height()),
            LayoutObjectKind::Inline => content,
            LayoutObjectKind::Text => {
                let n = match &self.node_kind {
                    NodeKind::Text(t) => t.as_str().unicode_len(),
                    _ => 0,
                };
                text_size_of(n, self.font(), parent_size.width())
            },
        };
        self.size = size;
    }

    /// Sets the point: see `position`.
    pub fn compute_position(
        &mut self,
        parent_point: LayoutPoint,
        previous_sibling_kind: LayoutObjectKind,
        previous_sibling_point: Option<LayoutPoint>,
        previous_sibling_size: Option<LayoutSize>,
    )
        ensures
            final(self)@ == (LayoutObjectView {
                point: position(
                    old(self)@.kind,
                    parent_point,
                    previous_sibling_kind,
                    previous_sibling_point,
                    previous_sibling_size,
                ),
                ..old(self)@
            }),
    {
        let point = match (previous_sibling_point, previous_sibling_size) {
            (Some(pos), Some(size)) => {
                let below = match self.kind {
                    LayoutObjectKind::Block => true,
                    _ => match previous_sibling_kind {
                        LayoutObjectKind::Block => true,
                        _ => false,
                    },
                };
                if below {
                    LayoutPoint::new(parent_point.x(), plus(pos.y(), size.height()))
                } else {
                    LayoutPoint::new(plus(pos.x(), size.width()), pos.y())
                }
            },
            _ => parent_point,
        };
        self.point = point;
    }

    /// The display items of a text, one per line.
    fn paint_text(&self, text: &str, width: i64) -> (items: Vec<DisplayItem>)
        ensures
            items_view(items@) == text_items(text@, self@.style, self@.point, width),
    {
        let f = self.font();
        let chars = to_chars(text);
        let n = chars.len();
        let mut items: Vec<DisplayItem> = Vec::new();
        if fits_in(n, f, width) {
            items.push(
                DisplayItem::Text {
                    text: from_chars(&chars, 0, n),
                    style: self.style,
                    layout_point: LayoutPoint::new(self.point.x(), plus(self.point.y(), 0)),
                },
            );
            proof {
                assert(chars@.subrange(0, n as int) =~= text@);
                assert(items_view(items@) =~= text_items(
                    text@,
                    self@.style,
                    self@.point,
                    width,
                ));
            }
            return items;
        }
        let lines = line_count_of(n, f, width);
        let cpl = chars_per_line_of(f, width);
        let lh = line_height_of(f);
        let ghost want = text_items(text@, self@.style, self@.point, width);
        let mut i: u64 = 0;
        while i < lines
            invariant
                i <= lines,
                n == chars.len(),
                chars@ == text@,
                f == font_of(self@.style),
                !fits(n as nat, f, width),
                lines == line_count(n as nat, f, width),
                cpl == chars_per_line(f, width),
                cpl >= 1,
                lh == line_height(f),
                lh == 16 || lh == 32 || lh == 48,
                want == text_items(text@, self@.style, self@.point, width),
                items@.len() == i,
                forall|k: int| 0 <= k < i ==> (#[trigger] items@[k])@ == want[k],
            decreases lines - i,
        {
            proof {
                lemma_line_bounds(n as int, cpl as int, i as int);
            }
            let from: usize = (i * cpl) as usize;
            let to: usize = if cpl < (n - from) as u64 {
                from + cpl as usize
            } else {
                n
            };
            let down: u128 = if lh == 16 {
                (i as u128) * 16
            } else if lh == 32 {
                (i as u128) * 32
            } else {
                (i as u128) * 48
            };
            let dy: i64 = if down > i64::MAX as u128 {
                i64::MAX
            } else {
                down as i64
            };
            items.push(
                DisplayItem::Text {
                    text: from_chars(&chars, from, to),
                    style: self.style,
                    layout_point: LayoutPoint::new(self.point.x(), plus(self.point.y(), dy)),
                },
            );
            i += 1;
        }
        assert(items_view(items@) =~= want);
        items
    }

    /// The display items of this object, laid out in width `width`.
    pub fn paint(&self, width: i64) -> (items: Vec<DisplayItem>)
        ensures
            items_view(items@) == items_of(self@, width),
    {
        let mut items: Vec<DisplayItem> = Vec::new();
        if self.style.display == Some(DisplayType::DisplayNone) {
            assert(items_view(items@) =~= Seq::<DisplayItemView>::empty());
            return items;
        }
        match self.kind {
            LayoutObjectKind::Block | LayoutObjectKind::Inline => {
                let white = Color::white();
                if self.style.background_color != Some(white) || self.style.width != Some(0)
                    || self.style.height != Some(0) {
                    items.push(
                        DisplayItem::Rect {
                            style: self.style,
                            layout_point: self.point,
                            layout_size: self.size,
                        },
                    );
                    assert(items_view(items@) =~= items_of(self@, width));
                } else {
                    assert(items_view(items@) =~= Seq::<DisplayItemView>::empty());
                }
                items
            },
            LayoutObjectKind::Text => match &self.node_kind {
                NodeKind::Text(t) => self.paint_text(t.as_str(), width),
                _ => {
                    assert(items_view(items@) =~= Seq::<DisplayItemView>::empty());
                    items
                },
            },
        }
    }
}

/// Makes the layout object of a node, or `None` where the node is not
/// displayed. The style is what the sheet declares for the node, completed
/// from the parent's style and the initial values.
pub fn create_layout_object(
    node_kind: &NodeKind,
    node: NodeId,
    parent_obj: Option<usize>,
    parent_style: Option<ComputedStyle>,
    cssom: &StyleSheet,
) -> (r: Option<LayoutObject>)
    requires
        parent_style matches Some(p) ==> is_complete(p),
    ensures
        match r {
            Some(o) => {
                &&& o@ == fresh_object(
                    node_kind@,
                    node,
                    parent_obj,
                    resolved_style(node_kind@, cssom@, parent_style),
                )
                &&& o@.style.display != Some(DisplayType::DisplayNone)
            },
            None => resolved_style(node_kind@, cssom@, parent_style).display == Some(
                DisplayType::DisplayNone,
            ),
        },
{
    let mut layout_object = LayoutObject::new(node, node_kind.duplicate(), parent_obj);
    layout_object.style = declared_style(node_kind, cssom);
    layout_object.defaulting_style(parent_style);
    if layout_object.style.display == Some(DisplayType::DisplayNone) {
        return None;
    }
    layout_object.update_kind();
    Some(layout_object)
}

} // verus!
