use saba_core::renderer::dom::api::get_style_content;
use saba_core::renderer::dom::api::get_target_element_node;
use saba_core::renderer::dom::node::Element;
use saba_core::renderer::dom::node::ElementKind;
use saba_core::renderer::dom::node::Node;
use saba_core::renderer::dom::node::NodeKind;
use saba_core::renderer::dom::node::Window;
use saba_core::renderer::html::parser::HtmlParser;
use saba_core::renderer::html::parser::InsertionMode;
use saba_core::renderer::html::parser::Outcome;
use saba_core::renderer::html::token::HtmlToken;
use saba_core::renderer::html::token::HtmlTokenizer;
use saba_core::renderer::html::token::State;

fn start(tag: &str) -> HtmlToken {
    HtmlToken::StartTag { tag: tag.to_string(), self_closing: false, attributes: Vec::new() }
}

fn end(tag: &str) -> HtmlToken {
    HtmlToken::EndTag { tag: tag.to_string() }
}

fn parser_in(mode: InsertionMode, open: &[&str]) -> HtmlParser {
    let mut parser = HtmlParser::new(HtmlTokenizer::new(String::new()));
    for tag in open {
        parser.insert_element(tag, Vec::new());
    }
    parser.mode = mode;
    if mode == InsertionMode::Text {
        parser.original_insertion_mode = InsertionMode::InHead;
    }
    parser
}

fn open_kinds(parser: &HtmlParser) -> Vec<ElementKind> {
    parser
        .stack_of_open_elements
        .iter()
        .map(|id| parser.window.node(*id).element_kind().expect("an element"))
        .collect()
}

#[test]
fn initial_mode_passes_characters_over() {
    let mut parser = parser_in(InsertionMode::Initial, &[]);
    assert_eq!(parser.handle(&HtmlToken::Char('x')), Outcome::Next);
    assert_eq!(parser.mode, InsertionMode::Initial);
    assert_eq!(parser.handle(&start("p")), Outcome::Again);
    assert_eq!(parser.mode, InsertionMode::BeforeHtml);
    assert_eq!(parser.window.len(), 1);
}

#[test]
fn before_html_mode_opens_the_root() {
    let mut parser = parser_in(InsertionMode::BeforeHtml, &[]);
    assert_eq!(parser.handle(&HtmlToken::Char('\n')), Outcome::Next);
    assert_eq!(parser.handle(&start("html")), Outcome::Next);
    assert_eq!(parser.mode, InsertionMode::BeforeHead);
    assert_eq!(open_kinds(&parser), vec![ElementKind::Html]);

    let mut parser = parser_in(InsertionMode::BeforeHtml, &[]);
    assert_eq!(parser.handle(&HtmlToken::Char('x')), Outcome::Again);
    assert_eq!(parser.mode, InsertionMode::BeforeHead);
    assert_eq!(open_kinds(&parser), vec![ElementKind::Html]);

    let mut parser = parser_in(InsertionMode::BeforeHtml, &[]);
    assert_eq!(parser.handle(&HtmlToken::Eof), Outcome::Stop);
    assert_eq!(parser.window.len(), 1);
}

#[test]
fn before_head_mode_opens_the_head() {
    let mut parser = parser_in(InsertionMode::BeforeHead, &["html"]);
    assert_eq!(parser.handle(&HtmlToken::Char(' ')), Outcome::Next);
    assert_eq!(parser.handle(&end("p")), Outcome::Again);
    assert_eq!(parser.mode, InsertionMode::InHead);
    assert_eq!(open_kinds(&parser), vec![ElementKind::Html, ElementKind::Head]);
}

#[test]
fn in_head_mode_opens_text_sections_and_ends_with_the_head() {
    let mut parser = parser_in(InsertionMode::InHead, &["html", "head"]);
    assert_eq!(parser.handle(&start("meta")), Outcome::Next);
    assert_eq!(parser.handle(&HtmlToken::Char('x')), Outcome::Next);
    assert_eq!(parser.window.len(), 3);
    assert_eq!(parser.handle(&start("style")), Outcome::Next);
    assert_eq!(parser.mode, InsertionMode::Text);
    assert_eq!(parser.original_insertion_mode, InsertionMode::InHead);
    assert_eq!(parser.t.state, State::Data);
    assert_eq!(
        open_kinds(&parser),
        vec![ElementKind::Html, ElementKind::Head, ElementKind::Style]
    );

    let mut parser = parser_in(InsertionMode::InHead, &["html", "head"]);
    assert_eq!(parser.handle(&start("script")), Outcome::Next);
    assert_eq!(parser.t.state, State::ScriptData);

    let mut parser = parser_in(InsertionMode::InHead, &["html", "head"]);
    assert_eq!(parser.handle(&start("p")), Outcome::Again);
    assert_eq!(parser.mode, InsertionMode::AfterHead);
    assert_eq!(open_kinds(&parser), vec![ElementKind::Html]);

    let mut parser = parser_in(InsertionMode::InHead, &["html", "head"]);
    assert_eq!(parser.handle(&end("head")), Outcome::Next);
    assert_eq!(parser.mode, InsertionMode::AfterHead);
    assert_eq!(open_kinds(&parser), vec![ElementKind::Html]);
}

#[test]
fn after_head_mode_opens_the_body() {
    let mut parser = parser_in(InsertionMode::AfterHead, &["html"]);
    assert_eq!(parser.handle(&start("body")), Outcome::Next);
    assert_eq!(parser.mode, InsertionMode::InBody);
    let mut parser = parser_in(InsertionMode::AfterHead, &["html"]);
    assert_eq!(parser.handle(&HtmlToken::Char('x')), Outcome::Again);
    assert_eq!(parser.mode, InsertionMode::InBody);
    assert_eq!(open_kinds(&parser), vec![ElementKind::Html, ElementKind::Body]);
}

#[test]
fn in_body_mode_opens_and_closes_elements() {
    let mut parser = parser_in(InsertionMode::InBody, &["html", "body"]);
    for tag in ["p", "h1", "h2", "a"] {
        assert_eq!(parser.handle(&start(tag)), Outcome::Next);
    }
    assert_eq!(parser.handle(&start("div")), Outcome::Next);
    assert_eq!(
        open_kinds(&parser),
        vec![
            ElementKind::Html,
            ElementKind::Body,
            ElementKind::P,
            ElementKind::H1,
            ElementKind::H2,
            ElementKind::A
        ]
    );
    assert_eq!(parser.handle(&end("h1")), Outcome::Next);
    assert_eq!(open_kinds(&parser), vec![ElementKind::Html, ElementKind::Body, ElementKind::P]);
    assert_eq!(parser.handle(&end("a")), Outcome::Next);
    assert_eq!(open_kinds(&parser), vec![ElementKind::Html, ElementKind::Body, ElementKind::P]);
    assert_eq!(parser.handle(&end("body")), Outcome::Next);
    assert_eq!(parser.mode, InsertionMode::AfterBody);
    assert_eq!(open_kinds(&parser), vec![ElementKind::Html]);

    let mut parser = parser_in(InsertionMode::InBody, &["html", "body"]);
    assert_eq!(parser.handle(&end("html")), Outcome::Again);
    assert_eq!(parser.mode, InsertionMode::AfterBody);
    assert!(parser.stack_of_open_elements.is_empty());

    let mut parser = parser_in(InsertionMode::InBody, &["html", "body", "p"]);
    assert_eq!(parser.handle(&end("html")), Outcome::Next);
    assert_eq!(parser.mode, InsertionMode::InBody);
    assert_eq!(parser.handle(&HtmlToken::Eof), Outcome::Stop);
}

#[test]
fn text_mode_collects_characters() {
    let mut parser = parser_in(InsertionMode::Text, &["html", "head", "style"]);
    for c in " a b".chars() {
        assert_eq!(parser.handle(&HtmlToken::Char(c)), Outcome::Next);
    }
    assert_eq!(parser.window.node(4).kind(), &NodeKind::Text("a b".to_string()));
    assert_eq!(parser.handle(&end("script")), Outcome::Next);
    assert_eq!(parser.mode, InsertionMode::InHead);
    assert_eq!(
        open_kinds(&parser),
        vec![ElementKind::Html, ElementKind::Head, ElementKind::Style]
    );

    let mut parser = parser_in(InsertionMode::Text, &["html", "head", "style"]);
    assert_eq!(parser.handle(&end("style")), Outcome::Next);
    assert_eq!(parser.mode, InsertionMode::InHead);
    assert_eq!(open_kinds(&parser), vec![ElementKind::Html, ElementKind::Head]);

    let mut parser = parser_in(InsertionMode::Text, &["html", "head", "style"]);
    assert_eq!(parser.handle(&start("p")), Outcome::Again);
    assert_eq!(parser.mode, InsertionMode::InHead);
}

#[test]
fn after_body_modes_take_blanks_and_the_end() {
    let mut parser = parser_in(InsertionMode::AfterBody, &["html"]);
    assert_eq!(parser.handle(&HtmlToken::Char(' ')), Outcome::Next);
    assert_eq!(parser.mode, InsertionMode::AfterBody);
    assert_eq!(parser.handle(&end("html")), Outcome::Next);
    assert_eq!(parser.mode, InsertionMode::AfterAfterBody);
    assert_eq!(parser.handle(&HtmlToken::Char('\n')), Outcome::Next);
    assert_eq!(parser.handle(&start("p")), Outcome::Again);
    assert_eq!(parser.mode, InsertionMode::InBody);

    let mut parser = parser_in(InsertionMode::AfterBody, &["html"]);
    assert_eq!(parser.handle(&HtmlToken::Char('x')), Outcome::Again);
    assert_eq!(parser.mode, InsertionMode::InBody);
    let mut parser = parser_in(InsertionMode::AfterBody, &["html"]);
    assert_eq!(parser.handle(&end("p")), Outcome::Again);
    let mut parser = parser_in(InsertionMode::AfterAfterBody, &["html"]);
    assert_eq!(parser.handle(&HtmlToken::Eof), Outcome::Stop);
    assert!(parser.stack_of_open_elements.is_empty());
}

#[test]
fn stack_operations() {
    let mut parser = parser_in(InsertionMode::InBody, &["html", "body", "p", "a", "p", "a"]);
    assert!(parser.contain_in_stack(ElementKind::P));
    assert!(!parser.contain_in_stack(ElementKind::H1));
    assert!(!parser.pop_current_node(ElementKind::P));
    assert!(parser.pop_current_node(ElementKind::A));
    assert_eq!(parser.stack_of_open_elements.len(), 5);
    parser.pop_until(ElementKind::A);
    assert_eq!(open_kinds(&parser), vec![ElementKind::Html, ElementKind::Body, ElementKind::P]);
    parser.insert_char(' ');
    assert_eq!(parser.window.len(), 7);
    parser.insert_char('x');
    parser.insert_char(' ');
    assert_eq!(parser.window.node(7).kind(), &NodeKind::Text("x ".to_string()));
    assert_eq!(parser.stack_of_open_elements.len(), 3);
}

#[test]
fn window_grows_by_appending_children() {
    let mut window = Window::new();
    assert_eq!(window.document(), 0);
    assert_eq!(window.node(0), &Node::new(NodeKind::Document));
    let a = window.append_child(0, NodeKind::Element(Element::new("html", Vec::new())));
    let b = window.append_child(a, NodeKind::Text("x".to_string()));
    let c = window.append_child(a, NodeKind::Element(Element::new("style", Vec::new())));
    let d = window.append_child(c, NodeKind::Text("p{}".to_string()));
    assert_eq!((a, b, c, d), (1, 2, 3, 4));
    window.push_char(b, 'y');
    window.push_char(a, 'z');
    assert_eq!(window.node(b).kind(), &NodeKind::Text("xy".to_string()));
    assert_eq!(window.node(a).get_element(), Some(&Element::new("html", Vec::new())));
    assert_eq!(window.node(b).get_element(), None);
    assert_eq!(window.node(a).first_child(), Some(b));
    assert_eq!(window.node(a).last_child(), Some(c));
    assert_eq!(window.node(b).next_sibling(), Some(c));
    assert_eq!(window.node(c).previous_sibling(), Some(b));
    assert_eq!(window.node(d).parent(), Some(c));
    assert_eq!(get_target_element_node(&window, ElementKind::Style), Some(c));
    assert_eq!(get_target_element_node(&window, ElementKind::Body), None);
    assert_eq!(get_style_content(&window), "p{}");
    assert_eq!(get_style_content(&Window::new()), "");
}
