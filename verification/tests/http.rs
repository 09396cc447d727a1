use saba_core::browser::Browser;
use saba_core::error::Error;
use saba_core::http::Header;
use saba_core::http::HttpResponse;
use saba_core::renderer::dom::node::Window;
use saba_core::renderer::html::parser::HtmlParser;
use saba_core::renderer::html::token::HtmlTokenizer;
use saba_core::renderer::page::Page;
use saba_core::utils::convert_dom_to_string;

#[test]
fn test_status_line_only() {
    let raw = "HTTP/1.1 200 OK\n\n".to_string();
    let res = HttpResponse::new(raw).expect("Failed to parse response");

    assert_eq!(res.version(), "HTTP/1.1");
    assert_eq!(res.status_code(), 200);
    assert_eq!(res.reason(), "OK");
}

#[test]
fn test_one_header() {
    let raw = "HTTP/1.1 200 OK\nDate:xx xx xx\n\n".to_string();
    let res = HttpResponse::new(raw).expect("failed to parse http response");

    assert_eq!(res.version(), "HTTP/1.1");
    assert_eq!(res.status_code(), 200);
    assert_eq!(res.reason(), "OK");

    assert_eq!(res.header_value("Date"), Ok("xx xx xx".to_string()));
}

#[test]
fn test_two_headers_with_white_space() {
    let raw = "HTTP/1.1 200 OK\nDate: xx xx xx\nContent-Length: 42\n\n".to_string();

    let res = HttpResponse::new(raw).expect("failed to parse http response");

    assert_eq!(res.version(), "HTTP/1.1");
    assert_eq!(res.status_code(), 200);
    assert_eq!(res.reason(), "OK");

    assert_eq!(res.header_value("Date"), Ok("xx xx xx".to_string()));
    assert_eq!(res.header_value("Content-Length"), Ok("42".to_string()));
}

#[test]
fn http_test_body() {
    let raw = "HTTP/1.1 200 OK\nDate: xx xx xx\n\nbody message".to_string();

    let res = HttpResponse::new(raw).expect("failed to parse http response");

    assert_eq!(res.version(), "HTTP/1.1");
    assert_eq!(res.status_code(), 200);
    assert_eq!(res.reason(), "OK");

    assert_eq!(res.header_value("Date"), Ok("xx xx xx".to_string()));
    assert_eq!(res.body, "body message".to_string());
}

#[test]
fn test_invalid() {
    let raw = "HTTP/1.1 200 OK".to_string();

    assert!(HttpResponse::new(raw).is_err());
}

#[test]
fn response_without_empty_line_has_no_headers() {
    let res = HttpResponse::new("HTTP/1.1 200 OK\nbody\nmore".to_string()).expect("a response");
    assert_eq!(res.headers(), Vec::<Header>::new());
    assert_eq!(res.body(), "body\nmore");
    assert_eq!(res.header_value("Date"), Err("Header Date not found.".to_string()));
}

#[test]
fn response_counts_an_unreadable_status_as_404() {
    for status in ["abc", "", "99999999999", "-1", "+", "1 2"] {
        let raw = format!("HTTP/1.1 {} Reason\n\n", status);
        let res = HttpResponse::new(raw).expect("a response");
        if status == "1 2" {
            assert_eq!(res.status_code(), 1);
            assert_eq!(res.reason(), "2");
        } else {
            assert_eq!(res.status_code(), 404, "status {:?}", status);
        }
    }
    let res = HttpResponse::new("HTTP/1.1 +0301 Moved Permanently\n\n".to_string())
        .expect("a response");
    assert_eq!(res.status_code(), 301);
    assert_eq!(res.reason(), "Moved");
    let res = HttpResponse::new("HTTP/1.1 4294967295 X\n\n".to_string()).expect("a response");
    assert_eq!(res.status_code(), u32::MAX);
    let res = HttpResponse::new("HTTP/1.1 4294967296 X\n\n".to_string()).expect("a response");
    assert_eq!(res.status_code(), 404);
}

#[test]
fn response_drops_the_return_behind_a_newline() {
    let res = HttpResponse::new("HTTP/1.1 200 OK\n\rA:\u{a0}1 \n\r\n\rb\r\n".to_string())
        .expect("a response");
    assert_eq!(res.headers(), vec![Header::new("A".to_string(), "1".to_string())]);
    assert_eq!(res.body(), "b\r\n");
}

#[test]
fn response_that_is_malformed_is_a_network_error() {
    for raw in [
        "",
        "HTTP/1.1\n\n",
        "HTTP/1.1 200\n\n",
        "HTTP/1.1 200 OK\nno colon here\n\nbody",
        "HTTP/1.1 200 OK\n\n\nbody",
        "HTTP/1.1 200 OK\nA: 1\nB\n\nbody",
    ] {
        assert!(
            matches!(HttpResponse::new(raw.to_string()), Err(Error::Network(_))),
            "{:?}",
            raw
        );
    }
}

#[test]
fn dom_dump_is_a_pre_order_walk() {
    let t = HtmlTokenizer::new("<html><head></head><body><p><a foo=bar>t</a></p>u</body></html>".to_string());
    let window: Window = HtmlParser::new(t).construct_tree();
    assert_eq!(
        convert_dom_to_string(&window),
        "\nDocument\n Element(html)\n  Element(head)\n  Element(body)\n   Element(p)\n    Element(a foo=bar)\n     Text(t)\n   Text(u)\n"
    );
    assert_eq!(convert_dom_to_string(&Window::new()), "\nDocument\n");
}

#[test]
fn page_renders_the_body_of_a_response() {
    let mut browser = Browser::new();
    assert!(browser.current_page().frame.is_none());
    let response =
        HttpResponse::new("HTTP/1.1 200 OK\nData: xx xx xx\n\n<p>hi</p>".to_string())
            .expect("a response");
    let dump = browser.current_page_mut().receive_response(response);
    assert_eq!(
        dump,
        "\nDocument\n Element(html)\n  Element(head)\n  Element(body)\n   Element(p)\n    Text(hi)\n"
    );
    let frame = browser.current_page().frame.as_ref().expect("a frame");
    assert_eq!(frame.len(), 6);
    let mut page = Page::new();
    let response = HttpResponse::new("HTTP/1.1 200 OK\n\n".to_string()).expect("a response");
    assert_eq!(page.receive_response(response), "\nDocument\n");
}

const SAMPLE_RESPONSE: &str = r#"HTTP/1.1 200 OK
Data: xx xx xx

<html>
<head></head>
<body>
    <h1 id="title">H1 title</h1>
    <h2 class="class">H2 title</h2>
    <p>Test Text</p>
    <p>
        <a href="https://www.google.com">Google Link</a>
        <a href="https://www.yahoo.com">Yahoo Link</a>
    </p>
</body>
</html>
"#;

#[test]
fn a_whole_page_is_received() {
    let response = HttpResponse::new(SAMPLE_RESPONSE.to_string()).expect("a response");
    assert_eq!(response.header_value("Data"), Ok("xx xx xx".to_string()));
    let mut page = Page::new();
    assert_eq!(
        page.receive_response(response),
        "\nDocument\n Element(html)\n  Element(head)\n  Element(body)\n   Element(h1 id=title)\n    Text(H1 title)\n   Element(h2 class=class)\n    Text(H2 title)\n   Element(p)\n    Text(Test Text)\n   Element(p)\n    Element(a href=https://www.google.com)\n     Text(Google Link)\n    Element(a href=https://www.yahoo.com)\n     Text(Yahoo Link)\n"
    );
}
