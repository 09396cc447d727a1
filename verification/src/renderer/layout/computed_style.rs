//! Computed styles: the resolved value of every supported property.

use crate::error::Error;
use crate::renderer::dom::node::block_by_default;
use crate::renderer::dom::node::ElementKind;
use crate::renderer::dom::node::NodeKind;
use crate::renderer::dom::node::NodeKindView;
use crate::text::str_eq;
use vstd::prelude::*;

verus! {

/// A colour of the palette, held as its `0xRRGGBB` code.
#[derive(Debug, Clone, Copy, PartialEq, Eq, Structural)]
pub struct Color {
    pub code: u32,
}

/// The colour with the given code.
pub open spec fn rgb(code: u32) -> Option<Color> {
    Some(Color { code })
}

/// The palette, by colour name.
pub open spec fn color_by_name(name: Seq<char>) -> Option<Color> {
    if name == "black"@ {
        rgb(0x000000)
    } else if name == "silver"@ {
        rgb(0xC0C0C0)
    } else if name == "gray"@ {
        rgb(0x808080)
    } else if name == "white"@ {
        rgb(0xFFFFFF)
    } else if name == "maroon"@ {
        rgb(0x800000)
    } else if name == "red"@ {
        rgb(0xFF0000)
    } else if name == "purple"@ {
        rgb(0x800080)
    } else if name == "fuchsia"@ {
        rgb(0xFF00FF)
    } else if name == "green"@ {
        rgb(0x008000)
    } else if name == "lime"@ {
        rgb(0x00FF00)
    } else if name == "olive"@ {
        rgb(0x808000)
    } else if name == "yellow"@ {
        rgb(0xFFFF00)
    } else if name == "navy"@ {
        rgb(0x000080)
    } else if name == "blue"@ {
        rgb(0x0000FF)
    } else if name == "teal"@ {
        rgb(0x008080)
    } else if name == "aqua"@ {
        rgb(0x00FFFF)
    } else if name == "orange"@ {
        rgb(0xFFA500)
    } else if name == "lightgray"@ {
        rgb(0xD3D3D3)
    } else {
        None
    }
}

/// The palette, by `#RRGGBB` code as it is written in a style sheet.
pub open spec fn color_by_code(code: Seq<char>) -> Option<Color> {
    if code == "#000000"@ {
        rgb(0x000000)
    } else if code == "#C0C0C0"@ {
        rgb(0xC0C0C0)
    } else if code == "#808080"@ {
        rgb(0x808080)
    } else if code == "#FFFFFF"@ {
        rgb(0xFFFFFF)
    } else if code == "#800000"@ {
        rgb(0x800000)
    } else if code == "#FF0000"@ {
        rgb(0xFF0000)
    } else if code == "#800080"@ {
        rgb(0x800080)
    } else if code == "#FF00FF"@ {
        rgb(0xFF00FF)
    } else if code == "#008000"@ {
        rgb(0x008000)
    } else if code == "#00FF00"@ {
        rgb(0x00FF00)
    } else if code == "#808000"@ {
        rgb(0x808000)
    } else if code == "#FFFF00"@ {
        rgb(0xFFFF00)
    } else if code == "#000080"@ {
        rgb(0x000080)
    } else if code == "#0000FF"@ {
        rgb(0x0000FF)
    } else if code == "#008080"@ {
        rgb(0x008080)
    } else if code == "#00FFFF"@ {
        rgb(0x00FFFF)
    } else if code == "#FFA500"@ {
        rgb(0xFFA500)
    } else if code == "#D3D3D3"@ {
        rgb(0xD3D3D3)
    } else {
        None
    }
}

/// The initial background colour.
pub open spec fn white() -> Color {
    Color { code: 0xFFFFFF }
}

/// The initial text colour.
pub open spec fn black() -> Color {
    Color { code: 0x000000 }
}

impl Color {
    /// The palette colour called `name`; `UnexpectedInput` for any other name.
    pub fn from_name(name: &str) -> (r: Result<Self, Error>)
        ensures
            match color_by_name(name@) {
                Some(c) => r == Ok::<Color, Error>(c),
                None => r matches Err(Error::UnexpectedInput(m)) && m@ == name@,
            },
    {
        let code: u32 = if str_eq(name, "black") {
            0x000000
        } else if str_eq(name, "silver") {
            0xC0C0C0
        } else if str_eq(name, "gray") {
            0x808080
        } else if str_eq(name, "white") {
            0xFFFFFF
        } else if str_eq(name, "maroon") {
            0x800000
        } else if str_eq(name, "red") {
            0xFF0000
        } else if str_eq(name, "purple") {
            0x800080
        } else if str_eq(name, "fuchsia") {
            0xFF00FF
        } else if str_eq(name, "green") {
            0x008000
        } else if str_eq(name, "lime") {
            0x00FF00
        } else if str_eq(name, "olive") {
            0x808000
        } else if str_eq(name, "yellow") {
            0xFFFF00
        } else if str_eq(name, "navy") {
            0x000080
        } else if str_eq(name, "blue") {
            0x0000FF
        } else if str_eq(name, "teal") {
            0x008080
        } else if str_eq(name, "aqua") {
            0x00FFFF
        } else if str_eq(name, "orange") {
            0xFFA500
        } else if str_eq(name, "lightgray") {
            0xD3D3D3
        } else {
            return Err(Error::UnexpectedInput(name.to_owned()));
        };
        Ok(Self { code })
    }

    /// The palette colour written as `#RRGGBB`, upper-case digits;
    /// `UnexpectedInput` for anything else.
    pub fn from_code(code: &str) -> (r: Result<Self, Error>)
        ensures
            match color_by_code(code@) {
                Some(c) => r == Ok::<Color, Error>(c),
                None => r matches Err(Error::UnexpectedInput(m)) && m@ == code@,
            },
    {
        let value: u32 = if str_eq(code, "#000000") {
            0x000000
        } else if str_eq(code, "#C0C0C0") {
            0xC0C0C0
        } else if str_eq(code, "#808080") {
            0x808080
        } else if str_eq(code, "#FFFFFF") {
            0xFFFFFF
        } else if str_eq(code, "#800000") {
            0x800000
        } else if str_eq(code, "#FF0000") {
            0xFF0000
        } else if str_eq(code, "#800080") {
            0x800080
        } else if str_eq(code, "#FF00FF") {
            0xFF00FF
        } else if str_eq(code, "#008000") {
            0x008000
        } else if str_eq(code, "#00FF00") {
            0x00FF00
        } else if str_eq(code, "#808000") {
            0x808000
        } else if str_eq(code, "#FFFF00") {
            0xFFFF00
        } else if str_eq(code, "#000080") {
            0x000080
        } else if str_eq(code, "#0000FF") {
            0x0000FF
        } else if str_eq(code, "#008080") {
            0x008080
        } else if str_eq(code, "#00FFFF") {
            0x00FFFF
        } else if str_eq(code, "#FFA500") {
            0xFFA500
        } else if str_eq(code, "#D3D3D3") {
            0xD3D3D3
        } else {
            return Err(Error::UnexpectedInput(code.to_owned()));
        };
        Ok(Self { code: value })
    }

    pub fn white() -> (c: Self)
        ensures
            c == white(),
    {
        Self { code: 0xFFFFFF }
    }

    pub fn black() -> (c: Self)
        ensures
            c == black(),
    {
        Self { code: 0x000000 }
    }

    /// The colour as `0xRRGGBB`.
    pub fn code_u32(&self) -> (code: u32)
        ensures
            code == self.code,
    {
        self.code
    }
}

/// The font sizes.
#[derive(Debug, Clone, Copy, PartialEq, Eq, Structural)]
pub enum FontSize {
    Medium,
    XLarge,
    XXLarge,
}

/// The font size of a node that no style gives one: headings are large.
pub open spec fn default_font_size(kind: NodeKindView) -> FontSize {
    match kind {
        NodeKindView::Element(e) => match e.kind {
            ElementKind::H1 => FontSize::XXLarge,
            ElementKind::H2 => FontSize::XLarge,
            _ => FontSize::Medium,
        },
        _ => FontSize::Medium,
    }
}

/// The font size that a keyword of `font-size` stands for.
pub open spec fn font_size_by_name(name: Seq<char>) -> Option<FontSize> {
    if name == "medium"@ {
        Some(FontSize::Medium)
    } else if name == "x-large"@ {
        Some(FontSize::XLarge)
    } else if name == "xx-large"@ {
        Some(FontSize::XXLarge)
    } else {
        None
    }
}

impl FontSize {
    pub fn default(kind: &NodeKind) -> (r: Self)
        ensures
            r == default_font_size(kind@),
    {
        match kind {
            NodeKind::Element(element) => match element.kind() {
                ElementKind::H1 => FontSize::XXLarge,
                ElementKind::H2 => FontSize::XLarge,
                _ => FontSize::Medium,
            },
            _ => FontSize::Medium,
        }
    }

    /// Reads `medium`, `x-large` or `xx-large`; `UnexpectedInput` otherwise.
    pub fn from_str(s: &str) -> (r: Result<Self, Error>)
        ensures
            match font_size_by_name(s@) {
                Some(v) => r == Ok::<FontSize, Error>(v),
                None => r matches Err(Error::UnexpectedInput(m)) && m@ == s@,
            },
    {
        if str_eq(s, "medium") {
            Ok(FontSize::Medium)
        } else if str_eq(s, "x-large") {
            Ok(FontSize::XLarge)
        } else if str_eq(s, "xx-large") {
            Ok(FontSize::XXLarge)
        } else {
            Err(Error::UnexpectedInput(s.to_owned()))
        }
    }
}

/// The values of the `display` property.
#[derive(Debug, Clone, Copy, PartialEq, Eq, Structural)]
pub enum DisplayType {
    Block,
    Inline,
    DisplayNone,
}

/// How a node is displayed when no style says so.
pub open spec fn default_display(kind: NodeKindView) -> DisplayType {
    match kind {
        NodeKindView::Document => DisplayType::Block,
        NodeKindView::Element(e) => if block_by_default(e.kind) {
            DisplayType::Block
        } else {
            DisplayType::Inline
        },
        NodeKindView::Text(_) => DisplayType::Inline,
    }
}

/// The display type that a value of `display` stands for.
pub open spec fn display_by_name(name: Seq<char>) -> Option<DisplayType> {
    if name == "block"@ {
        Some(DisplayType::Block)
    } else if name == "inline"@ {
        Some(DisplayType::Inline)
    } else if name == "none"@ {
        Some(DisplayType::DisplayNone)
    } else {
        None
    }
}

impl DisplayType {
    pub fn default(kind: &NodeKind) -> (r: Self)
        ensures
            r == default_display(kind@),
    {
        match kind {
            NodeKind::Document => DisplayType::Block,
            NodeKind::Element(e) => {
                if e.is_block_element() {
                    DisplayType::Block
                } else {
                    DisplayType::Inline
                }
            },
            NodeKind::Text(_) => DisplayType::Inline,
        }
    }

    /// Reads `block`, `inline` or `none`; `UnexpectedInput` otherwise.
    pub fn from_str(s: &str) -> (r: Result<Self, Error>)
        ensures
            match display_by_name(s@) {
                Some(v) => r == Ok::<DisplayType, Error>(v),
                None => r matches Err(Error::UnexpectedInput(m)) && m@ == s@,
            },
    {
        if str_eq(s, "block") {
            Ok(Self::Block)
        } else if str_eq(s, "inline") {
            Ok(Self::Inline)
        } else if str_eq(s, "none") {
            Ok(Self::DisplayNone)
        } else {
            Err(Error::UnexpectedInput(s.to_owned()))
        }
    }
}

/// The values of the `text-decoration` property.
#[derive(Debug, Clone, Copy, PartialEq, Eq, Structural)]
pub enum TextDecoration {
    NoDecoration,
    Underline,
}

/// The decoration of a node that no style gives one: links are underlined.
pub open spec fn default_text_decoration(kind: NodeKindView) -> TextDecoration {
    match kind {
        NodeKindView::Element(e) => match e.kind {
            ElementKind::A => TextDecoration::Underline,
            _ => TextDecoration::NoDecoration,
        },
        _ => TextDecoration::NoDecoration,
    }
}

/// The decoration that a value of `text-decoration` stands for.
pub open spec fn text_decoration_by_name(name: Seq<char>) -> Option<TextDecoration> {
    if name == "none"@ {
        Some(TextDecoration::NoDecoration)
    } else if name == "underline"@ {
        Some(TextDecoration::Underline)
    } else {
        None
    }
}

impl TextDecoration {
    pub fn default(kind: &NodeKind) -> (r: Self)
        ensures
            r == default_text_decoration(kind@),
    {
        match kind {
            NodeKind::Element(element) => match element.kind() {
                ElementKind::A => TextDecoration::Underline,
                _ => TextDecoration::NoDecoration,
            },
            _ => TextDecoration::NoDecoration,
        }
    }

    /// Reads `none` or `underline`; `UnexpectedInput` otherwise.
    pub fn from_str(s: &str) -> (r: Result<Self, Error>)
        ensures
            match text_decoration_by_name(s@) {
                Some(v) => r == Ok::<TextDecoration, Error>(v),
                None => r matches Err(Error::UnexpectedInput(m)) && m@ == s@,
            },
    {
        if str_eq(s, "none") {
            Ok(TextDecoration::NoDecoration)
        } else if str_eq(s, "underline") {
            Ok(TextDecoration::Underline)
        } else {
            Err(Error::UnexpectedInput(s.to_owned()))
        }
    }
}

/// The style of one layout object. A field is `None` until a declaration or
/// the defaulting pass has set it.
#[derive(Debug, Clone, Copy, PartialEq, Eq, Structural)]
pub struct ComputedStyle {
    pub background_color: Option<Color>,
    pub color: Option<Color>,
    pub display: Option<DisplayType>,
    pub font_size: Option<FontSize>,
    pub text_decoration: Option<TextDecoration>,
    pub height: Option<i64>,
    pub width: Option<i64>,
}

/// The style in which nothing is set.
pub open spec fn blank_style() -> ComputedStyle {
    ComputedStyle {
        background_color: None,
        color: None,
        display: None,
        font_size: None,
        text_decoration: None,
        height: None,
        width: None,
    }
}

/// Every field is set.
pub open spec fn is_complete(s: ComputedStyle) -> bool {
    &&& s.background_color is Some
    &&& s.color is Some
    &&& s.display is Some
    &&& s.font_size is Some
    &&& s.text_decoration is Some
    &&& s.height is Some
    &&& s.width is Some
}

/// A value that is inherited unless it is the initial one.
pub open spec fn inherited<T>(parent: Option<T>, initial: T) -> Option<T> {
    match parent {
        Some(v) => if v != initial {
            Some(v)
        } else {
            None
        },
        None => None,
    }
}

/// The first of the three that is set, the last being always there.
pub open spec fn first_of<T>(own: Option<T>, inherited: Option<T>, initial: T) -> Option<T> {
    match own {
        Some(v) => Some(v),
        None => match inherited {
            Some(v) => Some(v),
            None => Some(initial),
        },
    }
}

/// The style after the defaulting pass. A field that is set stays. Colour,
/// background colour, font size and text decoration are taken from the
/// parent where the parent's value is not the initial one. Every field that
/// is still open gets its initial value: white background, black text, the
/// display, font size and decoration that belong to the node, and no width
/// and height.
pub open spec fn defaulted(s: ComputedStyle, kind: NodeKindView, parent: Option<ComputedStyle>)
    -> ComputedStyle {
    ComputedStyle {
        background_color: first_of(
            s.background_color,
            match parent {
                Some(p) => inherited(p.background_color, white()),
                None => None,
            },
            white(),
        ),
        color: first_of(
            s.color,
            match parent {
                Some(p) => inherited(p.color, black()),
                None => None,
            },
            black(),
        ),
        display: first_of(s.display, None, default_display(kind)),
        font_size: first_of(
            s.font_size,
            match parent {
                Some(p) => inherited(p.font_size, FontSize::Medium),
                None => None,
            },
            default_font_size(kind),
        ),
        text_decoration: first_of(
            s.text_decoration,
            match parent {
                Some(p) => inherited(p.text_decoration, TextDecoration::NoDecoration),
                None => None,
            },
            default_text_decoration(kind),
        ),
        height: first_of(s.height, None, 0i64),
        width: first_of(s.width, None, 0i64),
    }
}

/// Display coverage: after the defaulting pass no field is open.
pub proof fn lemma_defaulted_complete(
    s: ComputedStyle,
    kind: NodeKindView,
    parent: Option<ComputedStyle>,
)
    ensures
        is_complete(defaulted(s, kind, parent)),
{
}

impl ComputedStyle {
    pub fn new() -> (s: Self)
        ensures
            s == blank_style(),
    {
        Self {
            background_color: None,
            color: None,
            display: None,
            font_size: None,
            text_decoration: None,
            height: None,
            width: None,
        }
    }

    pub fn set_background_color(&mut self, color: Color)
        ensures
            *final(self) == (ComputedStyle { background_color: Some(color), ..*old(self) }),
    {
        self.background_color = Some(color);
    }

    pub fn background_color(&self) -> (c: Color)
        requires
            self.background_color is Some,
        ensures
            Some(c) == self.background_color,
    {
        match self.background_color {
            Some(c) => c,
            None => Color::white(),
        }
    }

    pub fn set_color(&mut self, color: Color)
        ensures
            *final(self) == (ComputedStyle { color: Some(color), ..*old(self) }),
    {
        self.color = Some(color);
    }

    pub fn color(&self) -> (c: Color)
        requires
            self.color is Some,
        ensures
            Some(c) == self.color,
    {
        match self.color {
            Some(c) => c,
            None => Color::black(),
        }
    }

    pub fn set_display(&mut self, display: DisplayType)
        ensures
            *final(self) == (ComputedStyle { display: Some(display), ..*old(self) }),
    {
        self.display = Some(display);
    }

    pub fn display(&self) -> (d: DisplayType)
        requires
            self.display is Some,
        ensures
            Some(d) == self.display,
    {
        match self.display {
            Some(d) => d,
            None => DisplayType::DisplayNone,
        }
    }

    pub fn set_font_size(&mut self, font_size: FontSize)
        ensures
            *final(self) == (ComputedStyle { font_size: Some(font_size), ..*old(self) }),
    {
        self.font_size = Some(font_size);
    }

    pub fn font_size(&self) -> (f: FontSize)
        requires
            self.font_size is Some,
        ensures
            Some(f) == self.font_size,
    {
        match self.font_size {
            Some(f) => f,
            None => FontSize::Medium,
        }
    }

    pub fn set_text_decoration(&mut self, text_decoration: TextDecoration)
        ensures
            *final(self) == (ComputedStyle {
                text_decoration: Some(text_decoration),
                ..*old(self)
            }),
    {
        self.text_decoration = Some(text_decoration);
    }

    pub fn text_decoration(&self) -> (t: TextDecoration)
        requires
            self.text_decoration is Some,
        ensures
            Some(t) == self.text_decoration,
    {
        match self.text_decoration {
            Some(t) => t,
            None => TextDecoration::NoDecoration,
        }
    }

    pub fn set_height(&mut self, height: i64)
        ensures
            *final(self) == (ComputedStyle { height: Some(height), ..*old(self) }),
    {
        self.height = Some(height);
    }

    pub fn height(&self) -> (h: i64)
        requires
            self.height is Some,
        ensures
            Some(h) == self.height,
    {
        match self.height {
            Some(h) => h,
            None => 0,
        }
    }

    pub fn set_width(&mut self, width: i64)
        ensures
            *final(self) == (ComputedStyle { width: Some(width), ..*old(self) }),
    {
        self.width = Some(width);
    }

    pub fn width(&self) -> (w: i64)
        requires
            self.width is Some,
        ensures
            Some(w) == self.width,
    {
        match self.width {
            Some(w) => w,
            None => 0,
        }
    }

    /// The defaulting pass for a node of kind `kind` whose parent, if it has
    /// one, has the style `parent_style`.
    pub fn defaulting(&mut self, kind: &NodeKind, parent_style: Option<ComputedStyle>)
        requires
            parent_style matches Some(p) ==> is_complete(p),
        ensures
            *final(self) == defaulted(*old(self), kind@, parent_style),
            is_complete(*final(self)),
    {
        if let Some(parent_style) = parent_style {
            if self.background_color.is_none() && parent_style.background_color()
                != Color::white() {
                self.background_color = Some(parent_style.background_color());
            }
            if self.color.is_none() && parent_style.color() != Color::black() {
                self.color = Some(parent_style.color());
            }
            if self.font_size.is_none() && parent_style.font_size() != FontSize::Medium {
                self.font_size = Some(parent_style.font_size());
            }
            if self.text_decoration.is_none() && parent_style.text_decoration()
                != TextDecoration::NoDecoration {
                self.text_decoration = Some(parent_style.text_decoration());
            }
        }
        if self.background_color.is_none() {
            self.background_color = Some(Color::white());
        }
        if self.color.is_none() {
            self.color = Some(Color::black());
        }
        if self.display.is_none() {
            self.display = Some(DisplayType::default(kind));
        }
        if self.font_size.is_none() {
            self.font_size = Some(FontSize::default(kind));
        }
        if self.text_decoration.is_none() {
            self.text_decoration = Some(TextDecoration::default(kind));
        }
        if self.height.is_none() {
            self.height = Some(0);
        }
        if self.width.is_none() {
            self.width = Some(0);
        }
    }
}

} // verus!
