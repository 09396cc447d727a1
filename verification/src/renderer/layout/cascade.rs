//! The style resolver: which rules apply to a node, and what their
//! declarations make of its style.
//!
//! Rules are taken in source order and declarations in the order in which
//! they are written; a later declaration overrides an earlier one. A
//! declaration whose value cannot be read changes nothing.

use crate::renderer::css::cssom::declarations_view;
use crate::renderer::css::cssom::Declaration;
use crate::renderer::css::cssom::DeclarationView;
use crate::renderer::css::cssom::QualifiedRule;
use crate::renderer::css::cssom::RuleView;
use crate::renderer::css::cssom::Selector;
use crate::renderer::css::cssom::SelectorView;
use crate::renderer::css::cssom::StyleSheet;
use crate::renderer::css::token::CssToken;
use crate::renderer::css::token::CssTokenView;
use crate::renderer::dom::node::NodeKind;
use crate::renderer::dom::node::NodeKindView;
use crate::renderer::html::attribute::attrs_view;
use crate::renderer::html::attribute::Attribute;
use crate::renderer::html::attribute::AttributeView;
use crate::renderer::layout::computed_style::blank_style;
use crate::renderer::layout::computed_style::color_by_code;
use crate::renderer::layout::computed_style::color_by_name;
use crate::renderer::layout::computed_style::defaulted;
use crate::renderer::layout::computed_style::display_by_name;
use crate::renderer::layout::computed_style::font_size_by_name;
use crate::renderer::layout::computed_style::text_decoration_by_name;
use crate::renderer::layout::computed_style::Color;
use crate::renderer::layout::computed_style::ComputedStyle;
use crate::renderer::layout::computed_style::DisplayType;
use crate::renderer::layout::computed_style::FontSize;
use crate::renderer::layout::computed_style::TextDecoration;
use crate::renderer::layout::metrics::clamp;
use crate::text::decimal;
use crate::text::is_ascii_digit;
use crate::text::str_eq;
use crate::text::to_chars;
use vstd::prelude::*;

verus! {

/// Characters that separate the names in a `class` attribute.
pub open spec fn is_separator(c: char) -> bool {
    c == ' ' || c == '\n' || c == '\t' || c == '\r'
}

/// `name` stands in `value` at position `i` as a whole word.
pub open spec fn word_at(value: Seq<char>, name: Seq<char>, i: int) -> bool {
    &&& 0 <= i
    &&& i + name.len() <= value.len()
    &&& value.subrange(i, i + name.len()) == name
    &&& (i == 0 || is_separator(value[i - 1]))
    &&& (i + name.len() == value.len() || is_separator(value[i + name.len()]))
}

/// `name` is one of the names of the white-space separated list `value`.
pub open spec fn has_word(value: Seq<char>, name: Seq<char>) -> bool {
    &&& name.len() > 0
    &&& forall|j: int| 0 <= j < name.len() ==> !is_separator(#[trigger] name[j])
    &&& exists|i: int| word_at(value, name, i)
}

/// Some attribute called `class` lists `name`.
pub open spec fn has_class(attributes: Seq<AttributeView>, name: Seq<char>) -> bool {
    exists|i: int|
        0 <= i < attributes.len() && (#[trigger] attributes[i]).name == "class"@ && has_word(
            attributes[i].value,
            name,
        )
}

/// Some attribute called `id` has the value `id`.
pub open spec fn has_id(attributes: Seq<AttributeView>, id: Seq<char>) -> bool {
    exists|i: int|
        0 <= i < attributes.len() && (#[trigger] attributes[i]).name == "id"@ && attributes[i].value
            == id
}

/// Whether a selector applies to a node. Only elements are ever selected:
/// by tag name, by a name in their `class` attribute, or by their `id`.
pub open spec fn selects(selector: SelectorView, kind: NodeKindView) -> bool {
    match kind {
        NodeKindView::Element(e) => match selector {
            SelectorView::TypeSelector(t) => e.tag == t,
            SelectorView::ClassSelector(c) => has_class(e.attributes, c),
            SelectorView::IdSelector(i) => has_id(e.attributes, i),
            SelectorView::UnknownSelector => false,
        },
        _ => false,
    }
}

/// The number of digits that `s` has from position `from` on.
pub open spec fn digits_end(s: Seq<char>, from: int) -> int
    decreases s.len() - from,
{
    if 0 <= from < s.len() && is_ascii_digit(s[from]) {
        digits_end(s, from + 1)
    } else {
        from
    }
}

/// The whole pixels of a numeral: its integer part, at most `i64::MAX`.
pub open spec fn pixels(numeral: Seq<char>) -> i64 {
    clamp(decimal(numeral, digits_end(numeral, 0)) as int)
}

/// What one declaration makes of a style.
pub open spec fn apply_declaration(s: ComputedStyle, d: DeclarationView) -> ComputedStyle {
    if d.property == "background-color"@ {
        match d.value {
            CssTokenView::Ident(v) => match color_by_name(v) {
                Some(c) => ComputedStyle { background_color: Some(c), ..s },
                None => s,
            },
            CssTokenView::HashToken(v) => match color_by_code(v) {
                Some(c) => ComputedStyle { background_color: Some(c), ..s },
                None => s,
            },
            _ => s,
        }
    } else if d.property == "color"@ {
        match d.value {
            CssTokenView::Ident(v) => match color_by_name(v) {
                Some(c) => ComputedStyle { color: Some(c), ..s },
                None => s,
            },
            CssTokenView::HashToken(v) => match color_by_code(v) {
                Some(c) => ComputedStyle { color: Some(c), ..s },
                None => s,
            },
            _ => s,
        }
    } else if d.property == "display"@ {
        match d.value {
            CssTokenView::Ident(v) => match display_by_name(v) {
                Some(x) => ComputedStyle { display: Some(x), ..s },
                None => s,
            },
            _ => s,
        }
    } else if d.property == "font-size"@ {
        match d.value {
            CssTokenView::Ident(v) => match font_size_by_name(v) {
                Some(x) => ComputedStyle { font_size: Some(x), ..s },
                None => s,
            },
            _ => s,
        }
    } else if d.property == "text-decoration"@ {
        match d.value {
            CssTokenView::Ident(v) => match text_decoration_by_name(v) {
                Some(x) => ComputedStyle { text_decoration: Some(x), ..s },
                None => s,
            },
            _ => s,
        }
    } else if d.property == "width"@ {
        match d.value {
            CssTokenView::Number(v) => ComputedStyle { width: Some(pixels(v)), ..s },
            _ => s,
        }
    } else if d.property == "height"@ {
        match d.value {
            CssTokenView::Number(v) => ComputedStyle { height: Some(pixels(v)), ..s },
            _ => s,
        }
    } else {
        s
    }
}

/// What a block of declarations makes of a style, the last one last.
pub open spec fn cascade(s: ComputedStyle, declarations: Seq<DeclarationView>) -> ComputedStyle
    decreases declarations.len(),
{
    if declarations.len() == 0 {
        s
    } else {
        apply_declaration(cascade(s, declarations.drop_last()), declarations.last())
    }
}

/// What the rules of a sheet make of the style of a node, the last rule
/// last; rules that do not select the node are passed over.
pub open spec fn cascade_sheet(s: ComputedStyle, rules: Seq<RuleView>, kind: NodeKindView)
    -> ComputedStyle
    decreases rules.len(),
{
    if rules.len() == 0 {
        s
    } else {
        let before = cascade_sheet(s, rules.drop_last(), kind);
        if selects(rules.last().selector, kind) {
            cascade(before, rules.last().declarations)
        } else {
            before
        }
    }
}

/// The style of a node: what the sheet declares for it, completed by the
/// defaulting pass.
pub open spec fn resolved_style(
    kind: NodeKindView,
    rules: Seq<RuleView>,
    parent: Option<ComputedStyle>,
) -> ComputedStyle {
    defaulted(cascade_sheet(blank_style(), rules, kind), kind, parent)
}

/// The whole pixels of the numeral `s`.
pub fn pixels_of(s: &str) -> (r: i64)
    ensures
        r == pixels(s@),
{
    let chars = to_chars(s);
    let mut acc: i64 = 0;
    let mut i: usize = 0;
    while i < chars.len() && '0' <= chars[i] && chars[i] <= '9'
        invariant
            i <= chars.len(),
            chars@ == s@,
            digits_end(s@, i as int) == digits_end(s@, 0),
            acc == clamp(decimal(s@, i as int) as int),
            acc >= 0,
        decreases chars.len() - i,
    {
        let d = (chars[i] as u32 - '0' as u32) as i64;
        acc = if acc > (i64::MAX - d) / 10 {
            i64::MAX
        } else {
            acc * 10 + d
        };
        i += 1;
    }
    acc
}

fn is_separator_char(c: char) -> (r: bool)
    ensures
        r == is_separator(c),
{
    c == ' ' || c == '\n' || c == '\t' || c == '\r'
}

/// Whether `name` stands in `value` at `i` as a whole word.
fn word_at_index(value: &Vec<char>, name: &Vec<char>, i: usize) -> (r: bool)
    requires
        i + name.len() <= value.len(),
    ensures
        r == word_at(value@, name@, i as int),
{
    let n = name.len();
    if i > 0 && !is_separator_char(value[i - 1]) {
        return false;
    }
    if i + n < value.len() && !is_separator_char(value[i + n]) {
        return false;
    }
    let mut j: usize = 0;
    while j < n
        invariant
            j <= n,
            n == name.len(),
            i + n <= value.len(),
            forall|k: int| 0 <= k < j ==> value@[i + k] == name@[k],
        decreases n - j,
    {
        if value[i + j] != name[j] {
            assert(value@.subrange(i as int, i + n)[j as int] != name@[j as int]);
            return false;
        }
        j += 1;
    }
    assert(value@.subrange(i as int, i + n) =~= name@);
    true
}

/// Whether `name` is one of the names listed in `value`.
pub fn has_word_in(value: &str, name: &str) -> (r: bool)
    ensures
        r == has_word(value@, name@),
{
    let v = to_chars(value);
    let n = to_chars(name);
    if n.len() == 0 {
        return false;
    }
    let mut j: usize = 0;
    while j < n.len()
        invariant
            j <= n.len(),
            n@ == name@,
            forall|k: int| 0 <= k < j ==> !is_separator(#[trigger] n@[k]),
        decreases n.len() - j,
    {
        if is_separator_char(n[j]) {
            return false;
        }
        j += 1;
    }
    if n.len() > v.len() {
        assert forall|i: int| !word_at(value@, name@, i) by {}
        return false;
    }
    let last = v.len() - n.len();
    let mut i: usize = 0;
    while i <= last
        invariant
            i <= last + 1,
            last == v.len() - n.len(),
            0 < n.len() <= v.len(),
            v@ == value@,
            n@ == name@,
            forall|k: int| 0 <= k < n.len() ==> !is_separator(#[trigger] n@[k]),
            forall|k: int| 0 <= k < i ==> !word_at(value@, name@, k),
        decreases last + 1 - i,
    {
        if word_at_index(&v, &n, i) {
            return true;
        }
        i += 1;
    }
    assert forall|k: int| !word_at(value@, name@, k) by {}
    false
}

fn class_listed(attributes: &Vec<Attribute>, name: &str) -> (r: bool)
    ensures
        r == has_class(attrs_view(attributes@), name@),
{
    let mut i: usize = 0;
    while i < attributes.len()
        invariant
            i <= attributes.len(),
            forall|k: int|
                0 <= k < i ==> !((#[trigger] attributes@[k])@.name == "class"@ && has_word(
                    attributes@[k]@.value,
                    name@,
                )),
        decreases attributes.len() - i,
    {
        if str_eq(attributes[i].name.as_str(), "class") && has_word_in(
            attributes[i].value.as_str(),
            name,
        ) {
            assert(attrs_view(attributes@)[i as int]
                == attributes@[i as int]@);
            return true;
        }
        i += 1;
    }
    assert forall|k: int|
        0 <= k < attributes.len() implies !((
        #[trigger] attrs_view(attributes@)[k]).name
            == "class"@ && has_word(
            attrs_view(attributes@)[k].value,
            name@,
        )) by {
        assert(attrs_view(attributes@)[k] == attributes@[k]@);
    }
    false
}

fn id_given(attributes: &Vec<Attribute>, id: &str) -> (r: bool)
    ensures
        r == has_id(attrs_view(attributes@), id@),
{
    let mut i: usize = 0;
    while i < attributes.len()
        invariant
            i <= attributes.len(),
            forall|k: int|
                0 <= k < i ==> !((#[trigger] attributes@[k])@.name == "id"@ && attributes@[k]@.value
                    == id@),
        decreases attributes.len() - i,
    {
        if str_eq(attributes[i].name.as_str(), "id") && str_eq(
            attributes[i].value.as_str(),
            id,
        ) {
            assert(attrs_view(attributes@)[i as int]
                == attributes@[i as int]@);
            return true;
        }
        i += 1;
    }
    assert forall|k: int|
        0 <= k < attributes.len() implies !((
        #[trigger] attrs_view(attributes@)[k]).name == "id"@
            && attrs_view(attributes@)[k].value == id@) by {
        assert(attrs_view(attributes@)[k] == attributes@[k]@);
    }
    false
}

/// Whether `selector` applies to a node of kind `kind`.
pub fn is_selected(kind: &NodeKind, selector: &Selector) -> (r: bool)
    ensures
        r == selects(selector@, kind@),
{
    match kind {
        NodeKind::Element(e) => match selector {
            Selector::TypeSelector(tag_name) => str_eq(e.tag.as_str(), tag_name.as_str()),
            Selector::ClassSelector(class_name) => class_listed(
                &e.attributes,
                class_name.as_str(),
            ),
            Selector::IdSelector(id_name) => id_given(&e.attributes, id_name.as_str()),
            Selector::UnknownSelector => false,
        },
        _ => false,
    }
}

/// Applies one declaration to `style`.
pub fn apply(style: &mut ComputedStyle, declaration: &Declaration)
    ensures
        *final(style) == apply_declaration(*old(style), declaration@),
{
    let property = declaration.property.as_str();
    if str_eq(property, "background-color") {
        match &declaration.value {
            CssToken::Ident(v) => {
                if let Ok(c) = Color::from_name(v.as_str()) {
                    style.set_background_color(c);
                }
            },
            CssToken::HashToken(v) => {
                if let Ok(c) = Color::from_code(v.as_str()) {
                    style.set_background_color(c);
                }
            },
            _ => {},
        }
    } else if str_eq(property, "color") {
        match &declaration.value {
            CssToken::Ident(v) => {
                if let Ok(c) = Color::from_name(v.as_str()) {
                    style.set_color(c);
                }
            },
            CssToken::HashToken(v) => {
                if let Ok(c) = Color::from_code(v.as_str()) {
                    style.set_color(c);
                }
            },
            _ => {},
        }
    } else if str_eq(property, "display") {
        match &declaration.value {
            CssToken::Ident(v) => {
                if let Ok(d) = DisplayType::from_str(v.as_str()) {
                    style.set_display(d);
                }
            },
            _ => {},
        }
    } else if str_eq(property, "font-size") {
        match &declaration.value {
            CssToken::Ident(v) => {
                if let Ok(f) = FontSize::from_str(v.as_str()) {
                    style.set_font_size(f);
                }
            },
            _ => {},
        }
    } else if str_eq(property, "text-decoration") {
        match &declaration.value {
            CssToken::Ident(v) => {
                if let Ok(t) = TextDecoration::from_str(v.as_str()) {
                    style.set_text_decoration(t);
                }
            },
            _ => {},
        }
    } else if str_eq(property, "width") {
        match &declaration.value {
            CssToken::Number(v) => {
                style.set_width(pixels_of(v.as_str()));
            },
            _ => {},
        }
    } else if str_eq(property, "height") {
        match &declaration.value {
            CssToken::Number(v) => {
                style.set_height(pixels_of(v.as_str()));
            },
            _ => {},
        }
    }
}

/// Applies a block of declarations to `style`, in order.
pub fn cascading_style(style: &mut ComputedStyle, declarations: &Vec<Declaration>)
    ensures
        *final(style) == cascade(
            *old(style),
            declarations_view(declarations@),
        ),
{
    let ghost all = declarations_view(declarations@);
    let mut i: usize = 0;
    while i < declarations.len()
        invariant
            i <= declarations.len(),
            all == declarations_view(declarations@),
            *style == cascade(*old(style), all.take(i as int)),
        decreases declarations.len() - i,
    {
        apply(style, &declarations[i]);
        i += 1;
        proof {
            assert(all.take(i as int).drop_last() =~= all.take(i - 1));
            assert(all.take(i as int).last() == declarations@[i - 1]@);
        }
    }
    assert(all.take(i as int) =~= all);
}

/// The style that the rules of `sheet` declare for a node of kind `kind`.
pub fn declared_style(kind: &NodeKind, sheet: &StyleSheet) -> (style: ComputedStyle)
    ensures
        style == cascade_sheet(blank_style(), sheet@, kind@),
{
    let mut style = ComputedStyle::new();
    let mut i: usize = 0;
    while i < sheet.rules.len()
        invariant
            i <= sheet.rules.len(),
            style == cascade_sheet(blank_style(), sheet@.take(i as int), kind@),
        decreases sheet.rules.len() - i,
    {
        let rule: &QualifiedRule = &sheet.rules[i];
        if is_selected(kind, &rule.selector) {
            cascading_style(&mut style, &rule.declarations);
        }
        i += 1;
        proof {
            assert(sheet@.take(i as int).drop_last() =~= sheet@.take(i - 1));
            assert(sheet@.take(i as int).last() == sheet.rules@[i - 1]@);
        }
    }
    assert(sheet@.take(i as int) =~= sheet@);
    style
}

} // verus!
