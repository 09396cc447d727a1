use saba_core::error::Error;
use saba_core::renderer::dom::node::Element;
use saba_core::renderer::dom::node::NodeKind;
use saba_core::renderer::layout::cascade::has_word_in;
use saba_core::renderer::layout::cascade::pixels_of;
use saba_core::renderer::layout::computed_style::Color;
use saba_core::renderer::layout::computed_style::ComputedStyle;
use saba_core::renderer::layout::computed_style::DisplayType;
use saba_core::renderer::layout::computed_style::FontSize;
use saba_core::renderer::layout::computed_style::TextDecoration;
use saba_core::renderer::layout::layout_object::LayoutObject;
use saba_core::renderer::layout::layout_object::LayoutObjectKind;
use saba_core::renderer::layout::metrics::text_size_of;
use saba_core::renderer::layout::metrics::LayoutPoint;
use saba_core::renderer::layout::metrics::LayoutSize;

#[test]
fn palette_by_name_and_by_code() {
    let table = [
        ("black", "#000000", 0x000000),
        ("silver", "#C0C0C0", 0xC0C0C0),
        ("gray", "#808080", 0x808080),
        ("white", "#FFFFFF", 0xFFFFFF),
        ("maroon", "#800000", 0x800000),
        ("red", "#FF0000", 0xFF0000),
        ("purple", "#800080", 0x800080),
        ("fuchsia", "#FF00FF", 0xFF00FF),
        ("green", "#008000", 0x008000),
        ("lime", "#00FF00", 0x00FF00),
        ("olive", "#808000", 0x808000),
        ("yellow", "#FFFF00", 0xFFFF00),
        ("navy", "#000080", 0x000080),
        ("blue", "#0000FF", 0x0000FF),
        ("teal", "#008080", 0x008080),
        ("aqua", "#00FFFF", 0x00FFFF),
        ("orange", "#FFA500", 0xFFA500),
        ("lightgray", "#D3D3D3", 0xD3D3D3),
    ];
    for (name, code, value) in table {
        let by_name = Color::from_name(name).expect("palette name");
        let by_code = Color::from_code(code).expect("palette code");
        assert_eq!(by_name, by_code);
        assert_eq!(by_name.code_u32(), value);
    }
    assert_eq!(Color::white().code_u32(), 0xFFFFFF);
    assert_eq!(Color::black().code_u32(), 0);
}

#[test]
fn colours_outside_the_palette_are_unexpected_input() {
    assert!(matches!(Color::from_name("pink"), Err(Error::UnexpectedInput(_))));
    assert!(matches!(Color::from_code("#123456"), Err(Error::UnexpectedInput(_))));
    assert!(matches!(Color::from_code("FF0000"), Err(Error::UnexpectedInput(_))));
    assert!(matches!(Color::from_code("#ff0000"), Err(Error::UnexpectedInput(_))));
    assert!(matches!(Color::from_code("#FF00"), Err(Error::UnexpectedInput(_))));
}

#[test]
fn display_values() {
    assert_eq!(DisplayType::from_str("block"), Ok(DisplayType::Block));
    assert_eq!(DisplayType::from_str("inline"), Ok(DisplayType::Inline));
    assert_eq!(DisplayType::from_str("none"), Ok(DisplayType::DisplayNone));
    assert!(matches!(DisplayType::from_str("flex"), Err(Error::UnexpectedInput(_))));
    assert_eq!(FontSize::from_str("xx-large"), Ok(FontSize::XXLarge));
    assert!(FontSize::from_str("40").is_err());
    assert_eq!(TextDecoration::from_str("none"), Ok(TextDecoration::NoDecoration));
    assert!(TextDecoration::from_str("blink").is_err());
}

#[test]
fn defaulting_fills_every_field() {
    let p = NodeKind::Element(Element::new("p", Vec::new()));
    let a = NodeKind::Element(Element::new("a", Vec::new()));
    let h2 = NodeKind::Element(Element::new("h2", Vec::new()));

    let mut root = ComputedStyle::new();
    root.defaulting(&p, None);
    assert_eq!(root.background_color(), Color::white());
    assert_eq!(root.color(), Color::black());
    assert_eq!(root.display(), DisplayType::Block);
    assert_eq!(root.font_size(), FontSize::Medium);
    assert_eq!(root.text_decoration(), TextDecoration::NoDecoration);
    assert_eq!(root.width(), 0);
    assert_eq!(root.height(), 0);

    let mut link = ComputedStyle::new();
    link.defaulting(&a, Some(root));
    assert_eq!(link.display(), DisplayType::Inline);
    assert_eq!(link.text_decoration(), TextDecoration::Underline);

    let mut heading = ComputedStyle::new();
    heading.defaulting(&h2, Some(root));
    assert_eq!(heading.font_size(), FontSize::XLarge);

    let mut parent = ComputedStyle::new();
    parent.set_background_color(Color::from_name("red").expect("palette"));
    parent.set_color(Color::from_name("blue").expect("palette"));
    parent.set_width(30);
    parent.defaulting(&h2, None);
    let mut child = ComputedStyle::new();
    child.set_display(DisplayType::Block);
    child.defaulting(&NodeKind::Text("t".to_string()), Some(parent));
    assert_eq!(child.background_color(), Color::from_name("red").expect("palette"));
    assert_eq!(child.color(), Color::from_name("blue").expect("palette"));
    assert_eq!(child.font_size(), FontSize::XLarge);
    assert_eq!(child.display(), DisplayType::Block);
    assert_eq!(child.width(), 0);
}

#[test]
fn text_sizes() {
    assert_eq!(text_size_of(4, FontSize::Medium, 600), LayoutSize::new(32, 16));
    assert_eq!(text_size_of(75, FontSize::Medium, 600), LayoutSize::new(600, 16));
    assert_eq!(text_size_of(76, FontSize::Medium, 600), LayoutSize::new(600, 32));
    assert_eq!(text_size_of(2, FontSize::XLarge, 600), LayoutSize::new(32, 32));
    assert_eq!(text_size_of(26, FontSize::XXLarge, 600), LayoutSize::new(600, 96));
    assert_eq!(text_size_of(0, FontSize::Medium, 600), LayoutSize::new(0, 16));
    assert_eq!(text_size_of(3, FontSize::Medium, 4), LayoutSize::new(4, 48));
}

#[test]
fn positions() {
    let mut o = LayoutObject::new(1, NodeKind::Element(Element::new("p", Vec::new())), Some(0));
    assert_eq!(o.kind(), LayoutObjectKind::Block);
    o.compute_position(LayoutPoint::new(5, 7), LayoutObjectKind::Block, None, None);
    assert_eq!(o.point(), LayoutPoint::new(5, 7));
    o.compute_position(
        LayoutPoint::new(5, 7),
        LayoutObjectKind::Inline,
        Some(LayoutPoint::new(40, 9)),
        Some(LayoutSize::new(10, 16)),
    );
    assert_eq!(o.point(), LayoutPoint::new(5, 25));

    let mut t = LayoutObject::new(2, NodeKind::Text("t".to_string()), Some(0));
    t.update_kind();
    assert_eq!(t.kind(), LayoutObjectKind::Text);
    t.compute_position(
        LayoutPoint::new(5, 7),
        LayoutObjectKind::Inline,
        Some(LayoutPoint::new(40, 9)),
        Some(LayoutSize::new(10, 16)),
    );
    assert_eq!(t.point(), LayoutPoint::new(50, 9));
    t.compute_position(
        LayoutPoint::new(5, 7),
        LayoutObjectKind::Block,
        Some(LayoutPoint::new(40, 9)),
        Some(LayoutSize::new(10, 16)),
    );
    assert_eq!(t.point(), LayoutPoint::new(5, 25));
    t.compute_position(
        LayoutPoint::new(5, 7),
        LayoutObjectKind::Text,
        Some(LayoutPoint::new(i64::MAX - 3, 9)),
        Some(LayoutSize::new(10, 16)),
    );
    assert_eq!(t.point(), LayoutPoint::new(i64::MAX, 9));
}

#[test]
fn class_lists_and_pixels() {
    assert!(has_word_in("a hidden b", "hidden"));
    assert!(has_word_in("hidden", "hidden"));
    assert!(has_word_in("x\thidden", "hidden"));
    assert!(!has_word_in("unhidden hiddenx", "hidden"));
    assert!(!has_word_in("a b", "a b"));
    assert!(!has_word_in("a", ""));
    assert_eq!(pixels_of("40"), 40);
    assert_eq!(pixels_of("12.75"), 12);
    assert_eq!(pixels_of("007"), 7);
    assert_eq!(pixels_of("99999999999999999999"), i64::MAX);
}

#[test]
fn points_and_sizes_can_be_changed() {
    let mut p = LayoutPoint::new(1, 2);
    p.set_x(3);
    p.set_y(4);
    assert_eq!((p.x(), p.y()), (3, 4));
    let mut s = LayoutSize::new(1, 2);
    s.set_width(3);
    s.set_height(4);
    assert_eq!((s.width(), s.height()), (3, 4));
}
