//! The whole way from the bytes of a response body to the display list.

use crate::constants::CONTENT_AREA_WIDTH;
use crate::display_item::items_view;
use crate::display_item::DisplayItem;
use crate::error::Error;
use crate::renderer::css::cssom::parse_css;
use crate::renderer::css::cssom::CssParser;
use crate::renderer::css::cssom::StyleSheet;
use crate::renderer::css::token::CssTokenizer;
use crate::renderer::dom::api::get_style_content;
use crate::renderer::dom::api::style_content;
use crate::renderer::dom::node::Window;
use crate::renderer::html::parser::parse;
use crate::renderer::html::parser::HtmlParser;
use crate::renderer::html::token::HtmlTokenizer;
use crate::renderer::layout::computed_style::is_complete;
use crate::renderer::layout::layout_view::laid_out;
use crate::renderer::layout::layout_view::paint_from;
use crate::renderer::layout::layout_view::placed;
use crate::renderer::layout::layout_view::sized;
use crate::renderer::layout::layout_view::LayoutView;
use vstd::prelude::*;
use vstd::utf8::decode_utf8;
use vstd::utf8::valid_utf8;

verus! {

/// Everything that rendering one document produces.
#[derive(Debug, Clone, PartialEq, Eq)]
pub struct Rendering {
    pub dom: Window,
    pub cssom: StyleSheet,
    pub layout: LayoutView,
    pub display_list: Vec<DisplayItem>,
}

/// Taken on trust from the standard library: `String::from_utf8` succeeds
/// exactly on bytes that are valid UTF-8, and the string it gives consists
/// of the characters that those bytes encode.
#[verifier::external_body]
fn decode(bytes: Vec<u8>) -> (r: Option<String>)
    ensures
        match r {
            Some(s) => valid_utf8(bytes@) && s@ == decode_utf8(bytes@),
            None => !valid_utf8(bytes@),
        },
{
    match String::from_utf8(bytes) {
        Ok(s) => Some(s),
        Err(_) => None,
    }
}

/// The document, style sheet, layout tree and display list that a text is
/// rendered into.
pub open spec fn rendering_of(r: Rendering, html: Seq<char>) -> bool {
    &&& r.dom.wf()
    &&& r.dom@ == parse(html)
    &&& r.cssom@ == parse_css(style_content(r.dom@))
    &&& r.layout.wf()
    &&& r.layout.width == CONTENT_AREA_WIDTH
    &&& laid_out(r.layout@, r.dom@, r.cssom@)
    &&& forall|k: int| 0 <= k < r.layout@.len() ==> is_complete(#[trigger] r.layout@[k].style)
    &&& sized(r.layout@, CONTENT_AREA_WIDTH)
    &&& placed(r.layout@)
    &&& items_view(r.display_list@) == paint_from(r.layout@, r.layout.root, CONTENT_AREA_WIDTH)
}

/// Renders a text: parses it into a document, parses the content of its
/// first style element into a style sheet, lays the document out and paints
/// it.
pub fn render_text(html: String) -> (r: Rendering)
    ensures
        rendering_of(r, html@),
{
    let tokenizer = HtmlTokenizer::new(html);
    let dom = HtmlParser::new(tokenizer).construct_tree();
    let style = get_style_content(&dom);
    let css_tokenizer = CssTokenizer::new(style);
    let cssom = CssParser::new(css_tokenizer).parse_stylesheet();
    let layout = LayoutView::new(&dom, &cssom);
    let display_list = layout.paint();
    Rendering { dom, cssom, layout, display_list }
}

/// Renders the body of a response. Fails, with `UnexpectedInput`, exactly
/// when the bytes are not valid UTF-8.
pub fn render(html_bytes: Vec<u8>) -> (r: Result<Rendering, Error>)
    ensures
        match r {
            Ok(rendering) => valid_utf8(html_bytes@) && rendering_of(
                rendering,
                decode_utf8(html_bytes@),
            ),
            Err(e) => !valid_utf8(html_bytes@) && (e matches Error::UnexpectedInput(m) && m@
                == "the document is not UTF-8"@),
        },
{
    match decode(html_bytes) {
        Some(html) => Ok(render_text(html)),
        None => Err(Error::UnexpectedInput("the document is not UTF-8".to_owned())),
    }
}

} // verus!
