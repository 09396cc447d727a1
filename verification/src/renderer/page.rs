//! A page: the frame that a response is rendered into.

use crate::http::HttpResponse;
use crate::renderer::dom::node::Window;
use crate::renderer::html::parser::parse;
use crate::renderer::html::parser::HtmlParser;
use crate::renderer::html::token::HtmlTokenizer;
use crate::utils::convert_dom_to_string;
use crate::utils::dom_to_string;
use vstd::prelude::*;

verus! {

/// One page of the browser.
#[derive(Debug, Clone, PartialEq, Eq)]
pub struct Page {
    pub frame: Option<Window>,
}

impl Page {
    /// A page that has not received anything.
    pub fn new() -> (p: Self)
        ensures
            p.frame is None,
    {
        Page { frame: None }
    }

    /// Takes a response: its body is parsed into the frame of this page.
    /// Returns the dump of the document.
    pub fn receive_response(&mut self, response: HttpResponse) -> (dump: String)
        ensures
            final(self).frame matches Some(w) && w.wf() && w@ == parse(response@.body),
            dump@ == dom_to_string(parse(response@.body)),
    {
        self.create_frame(response.body());
        match &self.frame {
            Some(frame) => convert_dom_to_string(frame),
            None => String::new(),
        }
    }

    fn create_frame(&mut self, html: String)
        ensures
            final(self).frame matches Some(w) && w.wf() && w@ == parse(html@),
    {
        let html_tokenizer = HtmlTokenizer::new(html);
        let frame = HtmlParser::new(html_tokenizer).construct_tree();
        self.frame = Some(frame);
    }
}

} // verus!
