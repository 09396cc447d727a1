use saba_core::renderer::dom::node::Element;
use saba_core::renderer::dom::node::ElementKind;
use saba_core::renderer::dom::node::NodeKind;
use saba_core::renderer::dom::node::Window;
use saba_core::renderer::html::attribute::Attribute;
use saba_core::renderer::html::parser::HtmlParser;
use saba_core::renderer::html::token::HtmlToken;
use saba_core::renderer::html::token::HtmlTokenizer;
use saba_core::renderer::html::token::State;

fn parse(html: &str) -> Window {
    let t = HtmlTokenizer::new(html.to_string());
    HtmlParser::new(t).construct_tree()
}

fn tokens(html: &str) -> Vec<HtmlToken> {
    let mut t = HtmlTokenizer::new(html.to_string());
    let mut out = Vec::new();
    while let Some(token) = t.next() {
        out.push(token);
    }
    out
}

fn element(tag: &str) -> NodeKind {
    NodeKind::Element(Element::new(tag, Vec::new()))
}

#[test]
fn parser_test_empty() {
    let html = "".to_string();
    let t = HtmlTokenizer::new(html);
    let window = HtmlParser::new(t).construct_tree();
    let expected = NodeKind::Document;
    assert_eq!(&expected, window.node(window.document()).kind());
    assert_eq!(1, window.len());
}

#[test]
fn parser_test_body() {
    let html = "<html><head></head><body></body></html>".to_string();
    let t = HtmlTokenizer::new(html);
    let window = HtmlParser::new(t).construct_tree();
    let document = window.document();
    assert_eq!(&NodeKind::Document, window.node(document).kind());

    let html = window
        .node(document)
        .first_child()
        .expect("failed to get first child of document");
    assert_eq!(
        &NodeKind::Element(Element::new("html", Vec::new())),
        window.node(html).kind()
    );

    let head = window
        .node(html)
        .first_child()
        .expect("failed to get first child of html");
    assert_eq!(
        &NodeKind::Element(Element::new("head", Vec::new())),
        window.node(head).kind()
    );

    let body = window
        .node(head)
        .next_sibling()
        .expect("failed to get next sibling of head");
    assert_eq!(
        &NodeKind::Element(Element::new("body", Vec::new())),
        window.node(body).kind()
    );
}

#[test]
fn parser_test_text() {
    let html = "<html><head></head><body>text</body></html>".to_string();
    let t = HtmlTokenizer::new(html);
    let window = HtmlParser::new(t).construct_tree();
    let document = window.document();
    assert_eq!(&NodeKind::Document, window.node(document).kind());

    let html = window
        .node(document)
        .first_child()
        .expect("failed to get first child of document");
    assert_eq!(
        &NodeKind::Element(Element::new("html", Vec::new())),
        window.node(html).kind()
    );

    let head = window
        .node(html)
        .first_child()
        .expect("failed to get first child of html");
    let body = window
        .node(head)
        .next_sibling()
        .expect("failed to get next sibling of head");
    assert_eq!(
        &NodeKind::Element(Element::new("body", Vec::new())),
        window.node(body).kind()
    );

    let text = window
        .node(body)
        .first_child()
        .expect("failed to get first child of body");
    assert_eq!(&NodeKind::Text("text".to_string()), window.node(text).kind());
}

#[test]
fn test_multiple_nodes() {
    let html = "<html><head></head><body><p><a foo=bar>test</a></p></body></html>".to_string();
    let t = HtmlTokenizer::new(html);
    let window = HtmlParser::new(t).construct_tree();
    let document = window.document();

    let html = window
        .node(document)
        .first_child()
        .expect("failed to get first child of document");
    let head = window
        .node(html)
        .first_child()
        .expect("failed to get first child of html");
    let body = window
        .node(head)
        .next_sibling()
        .expect("failed to get next sibling of head");
    assert_eq!(
        &NodeKind::Element(Element::new("body", Vec::new())),
        window.node(body).kind()
    );

    let p = window
        .node(body)
        .first_child()
        .expect("failed to get first child of body");
    assert_eq!(
        &NodeKind::Element(Element::new("p", Vec::new())),
        window.node(p).kind()
    );

    let mut attr = Attribute::new();
    attr.add_char('f', true);
    attr.add_char('o', true);
    attr.add_char('o', true);
    attr.add_char('b', false);
    attr.add_char('a', false);
    attr.add_char('r', false);

    let a = window
        .node(p)
        .first_child()
        .expect("failed to get first child of p");
    assert_eq!(
        &NodeKind::Element(Element::new("a", vec![attr])),
        window.node(a).kind()
    );

    let text = window
        .node(a)
        .first_child()
        .expect("failed to get first child of a");
    assert_eq!(&NodeKind::Text("test".to_string()), window.node(text).kind());
}

#[test]
fn tokenizer_hands_out_tags_characters_and_one_eof() {
    assert_eq!(
        tokens("<P Class=\"x y\" ID='z' checked>a</p><br/>"),
        vec![
            HtmlToken::StartTag {
                tag: "p".to_string(),
                self_closing: false,
                attributes: vec![
                    Attribute { name: "class".to_string(), value: "x y".to_string() },
                    Attribute { name: "id".to_string(), value: "z".to_string() },
                    Attribute { name: "checked".to_string(), value: "".to_string() },
                ],
            },
            HtmlToken::Char('a'),
            HtmlToken::EndTag { tag: "p".to_string() },
            HtmlToken::StartTag {
                tag: "br".to_string(),
                self_closing: true,
                attributes: Vec::new(),
            },
            HtmlToken::Eof,
        ]
    );
}

#[test]
fn tokenizer_unquoted_value_stops_at_blank_and_at_bracket() {
    assert_eq!(
        tokens("<a x=1 y=2>"),
        vec![
            HtmlToken::StartTag {
                tag: "a".to_string(),
                self_closing: false,
                attributes: vec![
                    Attribute { name: "x".to_string(), value: "1".to_string() },
                    Attribute { name: "y".to_string(), value: "2".to_string() },
                ],
            },
            HtmlToken::Eof,
        ]
    );
}

#[test]
fn tokenizer_drops_a_tag_that_the_input_cuts_off() {
    assert_eq!(tokens("a<p cla"), vec![HtmlToken::Char('a'), HtmlToken::Eof]);
    assert_eq!(tokens(""), vec![HtmlToken::Eof]);
}

#[test]
fn tokenizer_goes_back_to_data_on_a_stray_bracket() {
    assert_eq!(
        tokens("1<2"),
        vec![HtmlToken::Char('1'), HtmlToken::Char('2'), HtmlToken::Eof]
    );
}

#[test]
fn tokenizer_reads_script_content_as_characters() {
    let mut t = HtmlTokenizer::new("a<b</x </script>".to_string());
    t.switch_context(State::ScriptData);
    let mut out = Vec::new();
    while let Some(token) = t.next() {
        out.push(token);
    }
    let mut expected: Vec<HtmlToken> = "a<b</x ".chars().map(HtmlToken::Char).collect();
    expected.push(HtmlToken::EndTag { tag: "script".to_string() });
    expected.push(HtmlToken::Eof);
    assert_eq!(out, expected);
}

#[test]
fn parser_opens_html_head_and_body_that_are_not_written() {
    let window = parse("<p>Hey</p><h1>Hi</h1>");
    let kinds: Vec<NodeKind> = window.nodes.iter().map(|n| n.kind().clone()).collect();
    assert_eq!(
        kinds,
        vec![
            NodeKind::Document,
            element("html"),
            element("head"),
            element("body"),
            element("p"),
            NodeKind::Text("Hey".to_string()),
            element("h1"),
            NodeKind::Text("Hi".to_string()),
        ]
    );
    let body = 3;
    assert_eq!(window.node(body).parent(), Some(1));
    assert_eq!(window.node(body).previous_sibling(), Some(2));
    assert_eq!(window.node(body).first_child(), Some(4));
    assert_eq!(window.node(body).last_child(), Some(6));
    assert_eq!(window.node(4).next_sibling(), Some(6));
    assert_eq!(window.node(6).previous_sibling(), Some(4));
    assert_eq!(window.node(7).parent(), Some(6));
}

#[test]
fn parser_keeps_style_text_and_goes_back_to_head() {
    let window = parse("<html><head><style>p{color:red;}</style></head><body>x</body></html>");
    let kinds: Vec<NodeKind> = window.nodes.iter().map(|n| n.kind().clone()).collect();
    assert_eq!(
        kinds,
        vec![
            NodeKind::Document,
            element("html"),
            element("head"),
            element("style"),
            NodeKind::Text("p{color:red;}".to_string()),
            element("body"),
            NodeKind::Text("x".to_string()),
        ]
    );
    assert_eq!(window.node(5).parent(), Some(1));
}

#[test]
fn parser_reads_script_text_verbatim() {
    let window = parse("<html><head><script>if (a<b) {}</script></head><body></body></html>");
    assert_eq!(window.node(3).element_kind(), Some(ElementKind::Script));
    assert_eq!(window.node(4).kind(), &NodeKind::Text("if (a<b) {}".to_string()));
    assert_eq!(window.node(5).element_kind(), Some(ElementKind::Body));
}

#[test]
fn parser_drops_blanks_outside_text_and_keeps_them_inside() {
    let window = parse("<html><head></head><body>\n  <p>a b</p>\n</body></html>");
    assert_eq!(window.len(), 6);
    assert_eq!(window.node(5).kind(), &NodeKind::Text("a b".to_string()));
}

#[test]
fn parser_ignores_an_end_tag_without_its_start_tag() {
    let window = parse("<html><head></head><body></p>x</a></body></html>");
    assert_eq!(window.len(), 5);
    assert_eq!(window.node(4).kind(), &NodeKind::Text("x".to_string()));
    assert_eq!(window.node(4).parent(), Some(3));
}

#[test]
fn parser_appends_text_behind_earlier_children() {
    let window = parse("<body><p>a</p><p>b</p>c</body>");
    let body = 3;
    let first = window.node(body).first_child().expect("first child");
    let second = window.node(first).next_sibling().expect("second child");
    let third = window.node(second).next_sibling().expect("third child");
    assert_eq!(window.node(third).kind(), &NodeKind::Text("c".to_string()));
    assert_eq!(window.node(body).last_child(), Some(third));
    assert_eq!(window.node(third).previous_sibling(), Some(second));
    assert_eq!(window.node(third).next_sibling(), None);
}

#[test]
fn element_kinds_by_tag_name() {
    assert_eq!(ElementKind::from_str("h2"), Ok(ElementKind::H2));
    assert!(ElementKind::from_str("div").is_err());
    assert_eq!(Element::new("div", Vec::new()).kind(), ElementKind::Other);
    assert!(Element::new("p", Vec::new()).is_block_element());
    assert!(!Element::new("a", Vec::new()).is_block_element());
}

#[test]
fn parser_leaves_no_element_open_at_the_end() {
    for html in ["", "<p>", "<html><head><style>x", "<body><p><a>t", "<html><head></head><body></body></html>"] {
        let mut parser = HtmlParser::new(HtmlTokenizer::new(html.to_string()));
        let mut over = false;
        while !over {
            let token = parser.t.next().expect("a token before the end");
            over = parser.feed(&token);
        }
        assert!(parser.stack_of_open_elements.is_empty(), "{:?}", html);
        assert_eq!(parser.t.next(), None);
        assert_eq!(parser.window, parse(html));
    }
}

#[test]
fn parser_takes_text_behind_the_body_into_the_tree() {
    let window = parse("<html><head></head><body></body> \nx</html>");
    assert_eq!(window.len(), 5);
    assert_eq!(window.node(4).kind(), &NodeKind::Text("x".to_string()));
    assert_eq!(window.node(4).parent(), Some(1));
    let window = parse("<html><head></head><body></body></html> <p>y</p>");
    assert_eq!(window.node(4).kind(), &element("p"));
    assert_eq!(window.node(4).parent(), Some(1));
    assert_eq!(window.node(1).last_child(), Some(4));
}

#[test]
fn parser_puts_an_element_behind_text_beside_it() {
    let window = parse("<body>one<a>two</a>three</body>");
    let body = 3;
    let kinds: Vec<NodeKind> = window.nodes.iter().map(|n| n.kind().clone()).collect();
    assert_eq!(
        kinds[4..].to_vec(),
        vec![
            NodeKind::Text("one".to_string()),
            element("a"),
            NodeKind::Text("two".to_string()),
            NodeKind::Text("three".to_string()),
        ]
    );
    assert_eq!(window.node(4).parent(), Some(body));
    assert_eq!(window.node(5).parent(), Some(body));
    assert_eq!(window.node(6).parent(), Some(5));
    assert_eq!(window.node(7).parent(), Some(body));
}

#[test]
fn tokenizer_names_are_in_lower_case_and_values_are_kept() {
    assert_eq!(
        tokens("<A HREF=Big Title=\"Two Words\"></A>"),
        vec![
            HtmlToken::StartTag {
                tag: "a".to_string(),
                self_closing: false,
                attributes: vec![
                    Attribute { name: "href".to_string(), value: "Big".to_string() },
                    Attribute { name: "title".to_string(), value: "Two Words".to_string() },
                ],
            },
            HtmlToken::EndTag { tag: "a".to_string() },
            HtmlToken::Eof,
        ]
    );
}
