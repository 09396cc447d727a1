use saba_core::constants::CONTENT_AREA_WIDTH;
use saba_core::display_item::DisplayItem;
use saba_core::renderer::css::cssom::CssParser;
use saba_core::renderer::css::token::CssTokenizer;
use saba_core::renderer::dom::api::get_style_content;
use saba_core::renderer::dom::node::Element;
use saba_core::renderer::dom::node::NodeKind;
use saba_core::renderer::html::attribute::Attribute;
use saba_core::renderer::html::parser::HtmlParser;
use saba_core::renderer::html::token::HtmlTokenizer;
use saba_core::renderer::layout::computed_style::Color;
use saba_core::renderer::layout::computed_style::DisplayType;
use saba_core::renderer::layout::computed_style::FontSize;
use saba_core::renderer::layout::computed_style::TextDecoration;
use saba_core::renderer::layout::layout_object::LayoutObjectKind;
use saba_core::renderer::layout::layout_view::LayoutView;
use saba_core::renderer::layout::metrics::LayoutPoint;
use saba_core::renderer::layout::metrics::LayoutSize;
use saba_core::renderer::pipeline::render;
use saba_core::renderer::pipeline::render_text;

fn create_layout_view(html: String) -> LayoutView {
    let t = HtmlTokenizer::new(html);
    let dom = HtmlParser::new(t).construct_tree();
    let style = get_style_content(&dom);
    let css_tokenizer = CssTokenizer::new(style);
    let cssom = CssParser::new(css_tokenizer).parse_stylesheet();
    LayoutView::new(&dom, &cssom)
}

#[test]
fn layout_view_test_empty() {
    let layout_view = create_layout_view("".to_string());
    assert_eq!(None, layout_view.root());
}

#[test]
fn layout_view_test_body() {
    let html = "<html><head></head><body></body></html>".to_string();
    let layout_view = create_layout_view(html);

    let root = layout_view.root();
    assert!(root.is_some());
    assert_eq!(
        LayoutObjectKind::Block,
        layout_view.object(root.expect("root should exist")).kind()
    );
    assert_eq!(
        NodeKind::Element(Element::new("body", Vec::new())),
        layout_view.object(root.expect("root should exist")).node_kind()
    );
}

#[test]
fn layout_view_test_text() {
    let html = "<html><head></head><body>hello</body></html>".to_string();
    let layout_view = create_layout_view(html);

    let root = layout_view.root();
    assert!(root.is_some());
    assert_eq!(
        LayoutObjectKind::Block,
        layout_view.object(root.expect("root should exist")).kind()
    );
    assert_eq!(
        NodeKind::Element(Element::new("body", Vec::new())),
        layout_view.object(root.expect("root should exist")).node_kind()
    );

    let text = layout_view.object(root.expect("root should exist")).first_child();

    assert!(text.is_some());
    assert_eq!(
        LayoutObjectKind::Text,
        layout_view.object(text.expect("text should exist")).kind()
    );

    assert_eq!(
        NodeKind::Text("hello".to_string()),
        layout_view.object(text.expect("text should exist")).node_kind()
    );
}

#[test]
fn test_display_none() {
    let html = "<html><head><style>body{display:none;}</style></head><body>text</body></html>"
        .to_string();
    let layout_view = create_layout_view(html);

    assert_eq!(None, layout_view.root());
}

#[test]
fn test_hidden_class() {
    let html = r#"<html>
<head>
<style>
  .hidden {
    display: none;
  }
</style>
</head>
<body>
  <a class="hidden">link1</a>
  <p></p>
  <p class="hidden"><a>link2</a></p>
</body>
</html>"#
        .to_string();
    let layout_view = create_layout_view(html);

    let root = layout_view.root();
    assert!(root.is_some());
    assert_eq!(
        LayoutObjectKind::Block,
        layout_view.object(root.expect("root should exist")).kind()
    );
    assert_eq!(
        NodeKind::Element(Element::new("body", Vec::new())),
        layout_view.object(root.expect("root should exist")).node_kind()
    );

    let p = layout_view.object(root.expect("root should exist")).first_child();
    assert!(p.is_some());
    assert_eq!(
        LayoutObjectKind::Block,
        layout_view.object(p.expect("p node should exist")).kind()
    );
    assert_eq!(
        NodeKind::Element(Element::new("p", Vec::new())),
        layout_view.object(p.expect("p node should exist")).node_kind()
    );

    assert!(layout_view
        .object(p.expect("p node should exist"))
        .first_child()
        .is_none());
    assert!(layout_view
        .object(p.expect("p node should exist"))
        .next_sibling()
        .is_none());
}

#[test]
fn empty_input_renders_nothing() {
    let r = render_text("".to_string());
    assert_eq!(r.dom.len(), 1);
    assert_eq!(r.dom.node(0).kind(), &NodeKind::Document);
    assert_eq!(r.layout.root(), None);
    assert_eq!(r.layout.len(), 0);
    assert!(r.display_list.is_empty());
}

#[test]
fn empty_body_is_one_block_and_paints_nothing() {
    let r = render_text("<html><head></head><body></body></html>".to_string());
    assert_eq!(r.dom.len(), 4);
    assert_eq!(r.dom.node(0).first_child(), Some(1));
    assert_eq!(r.dom.node(1).first_child(), Some(2));
    assert_eq!(r.dom.node(2).next_sibling(), Some(3));
    assert_eq!(r.dom.node(3).next_sibling(), None);
    let root = r.layout.root().expect("root should exist");
    assert_eq!(r.layout.object(root).kind(), LayoutObjectKind::Block);
    assert_eq!(r.layout.object(root).size(), LayoutSize::new(600, 0));
    assert_eq!(r.layout.len(), 1);
    assert!(r.display_list.is_empty());
}

#[test]
fn text_in_body_is_laid_out_and_painted() {
    let r = render_text("<html><head></head><body>text</body></html>".to_string());
    let root = r.layout.root().expect("root should exist");
    let text = r.layout.object(root).first_child().expect("text should exist");
    assert_eq!(r.layout.object(text).kind(), LayoutObjectKind::Text);
    assert_eq!(r.layout.object(text).node_kind(), NodeKind::Text("text".to_string()));
    assert_eq!(r.layout.object(text).point(), LayoutPoint::new(0, 0));
    assert_eq!(r.layout.object(text).size(), LayoutSize::new(32, 16));
    assert_eq!(r.display_list.len(), 1);
    match &r.display_list[0] {
        DisplayItem::Text { text, style, layout_point } => {
            assert_eq!(text, "text");
            assert_eq!(style.color(), Color::black());
            assert_eq!(*layout_point, LayoutPoint::new(0, 0));
        }
        other => panic!("unexpected item {:?}", other),
    }
}

#[test]
fn body_that_is_not_displayed_leaves_no_layout() {
    let r = render_text(
        "<html><head><style>body{display:none;}</style></head><body>text</body></html>"
            .to_string(),
    );
    assert_eq!(r.layout.root(), None);
    assert!(r.display_list.is_empty());
}

#[test]
fn hidden_class_leaves_subtrees_out() {
    let r = render_text(
        "<html><head><style>.hidden{display:none;}</style></head><body><a class=\"hidden\">x</a><p></p><p class=\"hidden\"><a>y</a></p></body></html>"
            .to_string(),
    );
    let root = r.layout.root().expect("root should exist");
    assert_eq!(r.layout.object(root).kind(), LayoutObjectKind::Block);
    let p = r.layout.object(root).first_child().expect("p should exist");
    assert_eq!(r.layout.object(p).kind(), LayoutObjectKind::Block);
    assert_eq!(
        r.layout.object(p).node_kind(),
        NodeKind::Element(Element::new("p", Vec::new()))
    );
    assert_eq!(r.layout.object(p).first_child(), None);
    assert_eq!(r.layout.object(p).next_sibling(), None);
    assert_eq!(r.layout.len(), 2);
    assert!(r.display_list.is_empty());
}

#[test]
fn paragraph_and_heading_stack() {
    let r = render_text("<p>Hey</p><h1>Hi</h1>".to_string());
    let root = r.layout.root().expect("root should exist");
    let p = r.layout.object(root).first_child().expect("p should exist");
    assert_eq!(r.layout.object(p).kind(), LayoutObjectKind::Block);
    let hey = r.layout.object(p).first_child().expect("text should exist");
    assert_eq!(r.layout.object(hey).node_kind(), NodeKind::Text("Hey".to_string()));
    assert_eq!(r.layout.object(hey).point(), LayoutPoint::new(0, 0));
    assert_eq!(r.layout.object(hey).size(), LayoutSize::new(24, 16));
    let h1 = r.layout.object(p).next_sibling().expect("h1 should exist");
    assert_eq!(r.layout.object(h1).kind(), LayoutObjectKind::Block);
    let hi = r.layout.object(h1).first_child().expect("text should exist");
    assert_eq!(r.layout.object(hi).node_kind(), NodeKind::Text("Hi".to_string()));
    assert_eq!(r.layout.object(hi).point(), LayoutPoint::new(0, 16));
    assert_eq!(r.layout.object(hi).size(), LayoutSize::new(48, 48));
    assert_eq!(r.layout.object(hi).style().font_size(), FontSize::XXLarge);
    assert_eq!(r.layout.object(p).size(), LayoutSize::new(600, 16));
    assert_eq!(r.layout.object(h1).point(), LayoutPoint::new(0, 16));
    assert_eq!(r.layout.object(h1).size(), LayoutSize::new(600, 48));
    assert_eq!(r.layout.object(root).size(), LayoutSize::new(600, 64));
}

#[test]
fn render_fails_only_on_bytes_that_are_not_utf8() {
    assert!(render(vec![0xff, 0xfe]).is_err());
    let r = render("<p>\u{e9}</p>".as_bytes().to_vec()).expect("valid UTF-8");
    assert_eq!(r.dom.node(5).kind(), &NodeKind::Text("\u{e9}".to_string()));
    assert_eq!(r.layout.object(2).size(), LayoutSize::new(8, 16));
}

#[test]
fn every_style_is_complete_and_links_agree() {
    let r = render_text(
        "<body><p>one <a href=x>two</a> three</p><h2>four</h2><p>five</p></body>".to_string(),
    );
    for (k, o) in r.layout.objects.iter().enumerate() {
        let s = o.style();
        assert!(s.background_color.is_some());
        assert!(s.color.is_some());
        assert!(s.display.is_some());
        assert!(s.font_size.is_some());
        assert!(s.text_decoration.is_some());
        assert!(s.width.is_some());
        assert!(s.height.is_some());
        assert_ne!(s.display(), DisplayType::DisplayNone);
        if let Some(c) = o.first_child() {
            assert_eq!(r.layout.object(c).parent(), Some(k));
            assert_eq!(r.layout.object(c).previous_sibling(), None);
        }
        if let Some(n) = o.next_sibling() {
            assert!(n > k);
            assert_eq!(r.layout.object(n).previous_sibling(), Some(k));
            assert_eq!(r.layout.object(n).parent(), o.parent());
        }
        match o.parent() {
            Some(p) => assert!(p < k),
            None => assert_eq!(k, 0),
        }
    }
    for (n, node) in r.dom.nodes.iter().enumerate() {
        if let Some(c) = node.first_child() {
            assert_eq!(r.dom.node(c).parent(), Some(n));
        }
        if let Some(c) = node.last_child() {
            assert_eq!(r.dom.node(c).parent(), Some(n));
            assert_eq!(r.dom.node(c).next_sibling(), None);
        }
        if let Some(s) = node.next_sibling() {
            assert_eq!(r.dom.node(s).previous_sibling(), Some(n));
        }
    }
}

#[test]
fn inline_boxes_flow_to_the_right_and_blocks_stack() {
    let r = render_text("<body><a>ab</a><a>cde</a><p>x</p><p>y</p></body>".to_string());
    let body = r.layout.root().expect("root");
    let a1 = r.layout.object(body).first_child().expect("a1");
    let a2 = r.layout.object(a1).next_sibling().expect("a2");
    let p1 = r.layout.object(a2).next_sibling().expect("p1");
    let p2 = r.layout.object(p1).next_sibling().expect("p2");
    assert_eq!(r.layout.object(a1).kind(), LayoutObjectKind::Inline);
    assert_eq!(r.layout.object(a1).size(), LayoutSize::new(16, 16));
    assert_eq!(r.layout.object(a1).point(), LayoutPoint::new(0, 0));
    assert_eq!(r.layout.object(a2).size(), LayoutSize::new(24, 16));
    assert_eq!(r.layout.object(a2).point(), LayoutPoint::new(16, 0));
    assert_eq!(r.layout.object(p1).point(), LayoutPoint::new(0, 16));
    assert_eq!(r.layout.object(p2).point(), LayoutPoint::new(0, 32));
    assert!(
        r.layout.object(p2).point().y()
            >= r.layout.object(p1).point().y() + r.layout.object(p1).size().height()
    );
    assert_eq!(r.layout.object(body).size(), LayoutSize::new(600, 48));
    assert_eq!(r.layout.object(a1).style().text_decoration(), TextDecoration::Underline);
    let text = r.layout.object(a1).first_child().expect("text");
    assert_eq!(r.layout.object(text).style().text_decoration(), TextDecoration::Underline);
}

#[test]
fn long_text_is_broken_into_lines() {
    let text: String = std::iter::repeat('x').take(160).collect();
    let r = render_text(format!("<body><p>{}</p></body>", text));
    let body = r.layout.root().expect("root");
    let p = r.layout.object(body).first_child().expect("p");
    let t = r.layout.object(p).first_child().expect("text");
    assert_eq!(r.layout.object(t).size(), LayoutSize::new(CONTENT_AREA_WIDTH, 48));
    assert_eq!(r.layout.object(p).size(), LayoutSize::new(600, 48));
    assert_eq!(r.display_list.len(), 3);
    let lines: Vec<(String, LayoutPoint)> = r
        .display_list
        .iter()
        .map(|item| match item {
            DisplayItem::Text { text, layout_point, .. } => (text.clone(), *layout_point),
            other => panic!("unexpected item {:?}", other),
        })
        .collect();
    assert_eq!(lines[0], (std::iter::repeat('x').take(75).collect(), LayoutPoint::new(0, 0)));
    assert_eq!(lines[1], (std::iter::repeat('x').take(75).collect(), LayoutPoint::new(0, 16)));
    assert_eq!(lines[2], (std::iter::repeat('x').take(10).collect(), LayoutPoint::new(0, 32)));
}

#[test]
fn a_row_of_inline_boxes_wraps_in_the_height_of_its_block() {
    let word: String = std::iter::repeat('w').take(50).collect();
    let r = render_text(format!("<body><a>{0}</a><a>{0}</a></body>", word));
    let body = r.layout.root().expect("root");
    assert_eq!(r.layout.object(body).size(), LayoutSize::new(600, 32));
}

#[test]
fn boxes_are_painted_in_pre_order() {
    let r = render_text(
        "<html><head><style>p{background-color:red;}a{background-color:#0000FF;}h1{width:10;}</style></head><body><p>one<a>two</a></p><h1>three</h1></body></html>"
            .to_string(),
    );
    let seen: Vec<String> = r
        .display_list
        .iter()
        .map(|item| match item {
            DisplayItem::Rect { style, layout_point, layout_size } => format!(
                "rect {:06X} {},{} {}x{}",
                style.background_color().code_u32(),
                layout_point.x(),
                layout_point.y(),
                layout_size.width(),
                layout_size.height()
            ),
            DisplayItem::Text { text, layout_point, .. } => {
                format!("text {} {},{}", text, layout_point.x(), layout_point.y())
            }
        })
        .collect();
    assert_eq!(
        seen,
        vec![
            "rect FF0000 0,0 600x16",
            "text one 0,0",
            "rect 0000FF 24,0 24x16",
            "text two 24,0",
            "rect FFFFFF 0,16 600x48",
            "text three 0,16",
        ]
    );
    let h1 = r.layout.object(5);
    assert_eq!(h1.style().width(), 10);
    let a = r.layout.object(3);
    assert_eq!(a.style().background_color(), Color::from_code("#0000FF").expect("palette"));
}

#[test]
fn later_declarations_and_rules_override_earlier_ones() {
    let r = render_text(
        "<html><head><style>p{color:red;color:blue;}#x{color:green;}.k{display:inline;}p{font-size:x-large;text-decoration:underline;height:7.9;}</style></head><body><p id=x class=\"j k\">t</p><p class=kk>u</p></body></html>"
            .to_string(),
    );
    let body = r.layout.root().expect("root");
    let first = r.layout.object(body).first_child().expect("first");
    let second = r.layout.object(first).next_sibling().expect("second");
    let s = r.layout.object(first).style();
    assert_eq!(s.color(), Color::from_name("green").expect("palette"));
    assert_eq!(s.display(), DisplayType::Inline);
    assert_eq!(s.font_size(), FontSize::XLarge);
    assert_eq!(s.text_decoration(), TextDecoration::Underline);
    assert_eq!(s.height(), 7);
    assert_eq!(r.layout.object(first).kind(), LayoutObjectKind::Inline);
    let s = r.layout.object(second).style();
    assert_eq!(s.color(), Color::from_name("blue").expect("palette"));
    assert_eq!(s.display(), DisplayType::Block);
    let text = r.layout.object(first).first_child().expect("text");
    assert_eq!(r.layout.object(text).style().color(), Color::from_name("green").expect("palette"));
    assert_eq!(r.layout.object(text).size(), LayoutSize::new(16, 32));
}

#[test]
fn a_value_that_cannot_be_read_leaves_the_property_to_defaulting() {
    let r = render_text(
        "<html><head><style>p{color:nocolor;display:flex;background-color:#12345;}</style></head><body><p>t</p></body></html>"
            .to_string(),
    );
    let p = r.layout.object(1);
    assert_eq!(p.style().color(), Color::black());
    assert_eq!(p.style().background_color(), Color::white());
    assert_eq!(p.style().display(), DisplayType::Block);
}

#[test]
fn attributes_are_found_by_name() {
    let r = render_text(
        "<html><head><style>#b{display:none;}</style></head><body><p class=b>1</p><p id=b>2</p></body></html>"
            .to_string(),
    );
    assert_eq!(r.layout.len(), 3);
    assert_eq!(
        r.layout.object(1).node_kind(),
        NodeKind::Element(Element::new(
            "p",
            vec![Attribute { name: "class".to_string(), value: "b".to_string() }]
        ))
    );
}

#[test]
fn laying_out_again_changes_nothing() {
    let mut r = render_text("<body><p>one <a>two</a></p><h1>three</h1>four</body>".to_string());
    let before = r.layout.clone();
    r.layout.update_layout();
    assert_eq!(r.layout, before);
    assert_eq!(r.layout.paint(), r.display_list);
}

#[test]
fn the_width_of_the_content_area_can_be_chosen() {
    let t = HtmlTokenizer::new("<p>abcdefgh</p>".to_string());
    let dom = HtmlParser::new(t).construct_tree();
    let cssom = CssParser::new(CssTokenizer::new(String::new())).parse_stylesheet();
    let narrow = LayoutView::with_width(&dom, &cssom, 24);
    assert_eq!(narrow.object(0).size(), LayoutSize::new(24, 48));
    assert_eq!(narrow.object(2).size(), LayoutSize::new(24, 48));
    let lines: Vec<String> = narrow
        .paint()
        .iter()
        .map(|item| match item {
            DisplayItem::Text { text, .. } => text.clone(),
            other => panic!("unexpected item {:?}", other),
        })
        .collect();
    assert_eq!(lines, vec!["abc", "def", "gh"]);
    let wide = LayoutView::with_width(&dom, &cssom, 64);
    assert_eq!(wide.object(2).size(), LayoutSize::new(64, 16));
}

#[test]
fn a_whole_page_is_laid_out_and_painted() {
    let r = render_text(
        "<html>\n<head></head>\n<body>\n    <h1 id=\"title\">H1 title</h1>\n    <h2 class=\"class\">H2 title</h2>\n    <p>Test Text</p>\n    <p>\n        <a href=\"https://www.google.com\">Google Link</a>\n        <a href=\"https://www.yahoo.com\">Yahoo Link</a>\n    </p>\n</body>\n</html>\n"
            .to_string(),
    );
    let seen: Vec<(String, i64, i64, TextDecoration)> = r
        .display_list
        .iter()
        .map(|item| match item {
            DisplayItem::Text { text, style, layout_point } => (
                text.clone(),
                layout_point.x(),
                layout_point.y(),
                style.text_decoration(),
            ),
            other => panic!("unexpected item {:?}", other),
        })
        .collect();
    assert_eq!(
        seen,
        vec![
            ("H1 title".to_string(), 0, 0, TextDecoration::NoDecoration),
            ("H2 title".to_string(), 0, 48, TextDecoration::NoDecoration),
            ("Test Text".to_string(), 0, 80, TextDecoration::NoDecoration),
            ("Google Link".to_string(), 0, 96, TextDecoration::Underline),
            ("Yahoo Link".to_string(), 88, 96, TextDecoration::Underline),
        ]
    );
    assert_eq!(r.layout.object(0).size(), LayoutSize::new(600, 112));
}
