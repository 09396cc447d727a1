use saba_core::http::HttpResponse;
use saba_core::renderer::layout::computed_style::DisplayType;
use saba_core::renderer::layout::layout_object::LayoutObjectKind;
use saba_core::renderer::pipeline::render_text;
use saba_core::url::Url;

struct Numbers(u64);

impl Numbers {
    fn next(&mut self) -> usize {
        self.0 = self.0.wrapping_mul(6364136223846793005).wrapping_add(1442695040888963407);
        (self.0 >> 33) as usize
    }

    fn text(&mut self, pieces: &[&str], most: usize) -> String {
        let n = self.next() % (most + 1);
        let mut s = String::new();
        for _ in 0..n {
            s.push_str(pieces[self.next() % pieces.len()]);
        }
        s
    }
}

const HTML_PIECES: [&str; 40] = [
    "<", ">", "/", "<html>", "</html>", "<head>", "</head>", "<body>", "</body>", "<p>", "</p>",
    "<h1>", "</h1>", "<h2>", "</h2>", "<a>", "</a>", "<style>", "</style>", "<script>",
    "</script>", "<div>", " ", "\n", "x", "yz", "=", "\"", "'", "class=hidden", "id=k", "<a ",
    "<P CLASS=\"a b\">", "p{display:none;}", ".hidden{display:none;}", "a{display:block;}",
    "#k{color:red;background-color:#0000FF;}", "h1{width:30;height:2.5;font-size:xx-large}",
    "{", "}",
];

#[test]
fn documents_of_many_shapes_keep_the_trees_consistent() {
    let mut numbers = Numbers(7);
    for _ in 0..1500 {
        let html = numbers.text(&HTML_PIECES, 24);
        let r = render_text(html.clone());
        let dom = &r.dom;
        for n in 0..dom.len() {
            let node = dom.node(n);
            match node.parent() {
                Some(p) => assert!(p < n, "{:?}", html),
                None => assert_eq!(n, 0, "{:?}", html),
            }
            if let Some(c) = node.first_child() {
                assert_eq!(dom.node(c).parent(), Some(n), "{:?}", html);
                assert_eq!(dom.node(c).previous_sibling(), None, "{:?}", html);
            }
            if let Some(c) = node.last_child() {
                assert_eq!(dom.node(c).parent(), Some(n), "{:?}", html);
                assert_eq!(dom.node(c).next_sibling(), None, "{:?}", html);
            }
            if let Some(s) = node.next_sibling() {
                assert!(s > n, "{:?}", html);
                assert_eq!(dom.node(s).previous_sibling(), Some(n), "{:?}", html);
                assert_eq!(dom.node(s).parent(), node.parent(), "{:?}", html);
            }
        }
        let layout = &r.layout;
        assert_eq!(layout.root(), if layout.len() > 0 { Some(0) } else { None });
        let mut texts = 0;
        for k in 0..layout.len() {
            let o = layout.object(k);
            assert_ne!(o.style().display(), DisplayType::DisplayNone, "{:?}", html);
            assert_eq!(&o.node_kind(), dom.node(o.node()).kind(), "{:?}", html);
            assert!(o.size().height() >= 0 && o.size().width() >= 0, "{:?}", html);
            match o.parent() {
                Some(p) => {
                    assert!(p < k, "{:?}", html);
                    assert_eq!(dom.node(o.node()).parent(), Some(layout.object(p).node()));
                }
                None => assert_eq!(k, 0, "{:?}", html),
            }
            if let Some(s) = o.next_sibling() {
                let next = layout.object(s);
                assert_eq!(next.parent(), o.parent(), "{:?}", html);
                assert!(next.point().y() >= o.point().y(), "{:?}", html);
                if o.kind() == LayoutObjectKind::Block {
                    assert_eq!(
                        next.point().y(),
                        o.point().y() + o.size().height(),
                        "{:?}",
                        html
                    );
                }
            }
            if o.kind() == LayoutObjectKind::Text {
                texts += 1;
            }
        }
        let painted_texts = r
            .display_list
            .iter()
            .filter(|item| matches!(item, saba_core::display_item::DisplayItem::Text { .. }))
            .count();
        assert!(painted_texts >= texts, "{:?}", html);
        let mut again = r.layout.clone();
        again.update_layout();
        assert_eq!(again, r.layout, "{:?}", html);
    }
}

const WIRE_PIECES: [&str; 16] = [
    "HTTP/1.1", " ", "200", "OK", "\n", "\n\r", "\r", ":", "Date", "x", "+", "-", "99999999999",
    "\u{a0}", "\n\n", "<p>",
];

#[test]
fn responses_and_urls_of_many_shapes_are_read_or_turned_down() {
    let mut numbers = Numbers(11);
    let mut read = 0;
    for _ in 0..3000 {
        let raw = numbers.text(&WIRE_PIECES, 14);
        if let Ok(response) = HttpResponse::new(raw.clone()) {
            read += 1;
            assert!(!response.version().contains(' '), "{:?}", raw);
            assert!(!response.reason().contains('\n'), "{:?}", raw);
            for header in response.headers() {
                assert_eq!(header.name.trim(), header.name, "{:?}", raw);
                assert_eq!(header.value.trim(), header.value, "{:?}", raw);
                assert!(!header.name.contains(':'), "{:?}", raw);
            }
        }
    }
    assert!(read > 0);
    let pieces = ["http://", "a", ":", "/", "?", "80", "b.c"];
    for _ in 0..3000 {
        let text = numbers.text(&pieces, 9);
        match Url::new(text.clone()).parse() {
            Ok(url) => {
                assert!(text.contains("http://"), "{:?}", text);
                assert!(!url.host().contains(':') && !url.host().contains('/'), "{:?}", text);
                assert!(!url.port().contains('/'), "{:?}", text);
                assert!(!url.path().contains('?'), "{:?}", text);
            }
            Err(_) => assert!(!text.contains("http://"), "{:?}", text),
        }
    }
}
