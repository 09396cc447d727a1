//! What the layout hands to the painter.

use crate::renderer::layout::computed_style::ComputedStyle;
use crate::renderer::layout::metrics::LayoutPoint;
use crate::renderer::layout::metrics::LayoutSize;
use vstd::prelude::*;

verus! {

/// One drawing command: a filled box, or one line of text.
#[derive(Debug, Clone, PartialEq, Eq)]
pub enum DisplayItem {
    Rect { style: ComputedStyle, layout_point: LayoutPoint, layout_size: LayoutSize },
    Text { text: String, style: ComputedStyle, layout_point: LayoutPoint },
}

/// What a display item holds.
pub enum DisplayItemView {
    Rect { style: ComputedStyle, layout_point: LayoutPoint, layout_size: LayoutSize },
    Text { text: Seq<char>, style: ComputedStyle, layout_point: LayoutPoint },
}

impl View for DisplayItem {
    type V = DisplayItemView;

    open spec fn view(&self) -> DisplayItemView {
        match self {
            DisplayItem::Rect { style, layout_point, layout_size } => DisplayItemView::Rect {
                style: *style,
                layout_point: *layout_point,
                layout_size: *layout_size,
            },
            DisplayItem::Text { text, style, layout_point } => DisplayItemView::Text {
                text: text@,
                style: *style,
                layout_point: *layout_point,
            },
        }
    }
}

/// A display list seen as a sequence of views.
pub open spec fn items_view(v: Seq<DisplayItem>) -> Seq<DisplayItemView> {
    Seq::new(v.len(), |i: int| v[i]@)
}

} // verus!
