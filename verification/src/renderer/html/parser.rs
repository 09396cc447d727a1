//! The HTML tree builder: an insertion-mode state machine that turns the
//! tokenizer's tokens into a document tree.
//!
//! `handle` says what one token does in one insertion mode, `feed` repeats it
//! while the token has to be looked at again in another mode, and `run` pulls
//! tokens until the input ends. `HtmlParser::construct_tree` is proved to
//! compute `run`.

use crate::renderer::dom::node::dom_append;
use crate::renderer::dom::node::dom_empty;
use crate::renderer::dom::node::dom_push_char;
use crate::renderer::dom::node::dom_wf;
use crate::renderer::dom::node::element_kind_of;
use crate::renderer::dom::node::element_view;
use crate::renderer::dom::node::known_kind;
use crate::renderer::dom::node::Element;
use crate::renderer::dom::node::ElementKind;
use crate::renderer::dom::node::NodeId;
use crate::renderer::dom::node::NodeKind;
use crate::renderer::dom::node::NodeKindView;
use crate::renderer::dom::node::NodeView;
use crate::renderer::dom::node::Window;
use crate::renderer::html::attribute::attrs_view;
use crate::renderer::html::attribute::duplicate_attributes;
use crate::renderer::html::attribute::Attribute;
use crate::renderer::html::attribute::AttributeView;
use crate::renderer::html::token::closer_to_end;
use crate::renderer::html::token::idle_moves;
use crate::renderer::html::token::initial_view;
use crate::renderer::html::token::lemma_next_token_progress;
use crate::renderer::html::token::next_token;
use crate::renderer::html::token::remaining;
use crate::renderer::html::token::HtmlToken;
use crate::renderer::html::token::HtmlTokenView;
use crate::renderer::html::token::HtmlTokenizer;
use crate::renderer::html::token::State;
use crate::renderer::html::token::TokenizerView;
use crate::text::str_eq;
use vstd::prelude::*;

verus! {

/// The insertion modes of the tree builder.
#[derive(Debug, Clone, Copy, PartialEq, Eq, Structural)]
pub enum InsertionMode {
    Initial,
    BeforeHtml,
    BeforeHead,
    InHead,
    AfterHead,
    InBody,
    Text,
    AfterBody,
    AfterAfterBody,
}

/// What the tree builder does with a token once one mode has looked at it.
#[derive(Debug, Clone, Copy, PartialEq, Eq, Structural)]
pub enum Outcome {
    /// The token is used up; the next one is wanted.
    Next,
    /// The mode has changed and the same token is looked at again.
    Again,
    /// Tree construction is over.
    Stop,
}

/// The state of the tree builder.
pub struct ParserView {
    pub dom: Seq<NodeView>,
    pub mode: InsertionMode,
    pub original_mode: InsertionMode,
    pub stack: Seq<NodeId>,
    pub tokenizer: TokenizerView,
}

/// A tree builder that has seen no token yet.
pub open spec fn initial_parser() -> ParserView {
    ParserView {
        dom: dom_empty(),
        mode: InsertionMode::Initial,
        original_mode: InsertionMode::Initial,
        stack: Seq::<NodeId>::empty(),
        tokenizer: initial_view(),
    }
}

/// Every entry of the stack is an element of the tree.
pub open spec fn open_elements(dom: Seq<NodeView>, stack: Seq<NodeId>) -> bool {
    forall|i: int|
        0 <= i < stack.len() ==> (#[trigger] stack[i]) < dom.len() && dom[stack[i] as int].kind
            is Element
}

/// The tree is well formed, every entry of the stack is an element of it,
/// and the mode to go back to after a text section is never the text mode
/// itself.
pub open spec fn parser_wf(p: ParserView) -> bool {
    &&& dom_wf(p.dom)
    &&& open_elements(p.dom, p.stack)
    &&& !(p.original_mode is Text)
}

/// The node that new nodes are appended to: the innermost open element, or
/// the document when no element is open.
pub open spec fn current_node(p: ParserView) -> int {
    if p.stack.len() > 0 {
        p.stack.last() as int
    } else {
        0
    }
}

/// A new element becomes the last child of the current node and is open.
pub open spec fn insert_element(p: ParserView, tag: Seq<char>, attributes: Seq<AttributeView>)
    -> ParserView {
    ParserView {
        dom: dom_append(
            p.dom,
            current_node(p),
            NodeKindView::Element(element_view(tag, attributes)),
        ),
        stack: p.stack.push(p.dom.len() as usize),
        ..p
    }
}

/// The text node that characters are added to: the last child of the
/// current element, if that is a text node.
pub open spec fn open_text(p: ParserView) -> Option<int> {
    if p.stack.len() == 0 {
        None
    } else {
        match p.dom[p.stack.last() as int].links.last_child {
            Some(l) => if l < p.dom.len() && p.dom[l as int].kind is Text {
                Some(l as int)
            } else {
                None
            },
            None => None,
        }
    }
}

/// A character goes to the end of the open text node. Where there is none,
/// a character other than a space or a newline starts a new text node as
/// the last child of the current element, and a space or a newline is
/// dropped. With no open element every character is dropped.
pub open spec fn insert_char(p: ParserView, c: char) -> ParserView {
    if p.stack.len() == 0 {
        p
    } else {
        match open_text(p) {
            Some(t) => ParserView { dom: dom_push_char(p.dom, t, c), ..p },
            None => if c == '\n' || c == ' ' {
                p
            } else {
                ParserView {
                    dom: dom_append(p.dom, p.stack.last() as int, NodeKindView::Text(seq![c])),
                    ..p
                }
            },
        }
    }
}

/// Some open element is of kind `kind`.
pub open spec fn contains_kind(dom: Seq<NodeView>, stack: Seq<NodeId>, kind: ElementKind) -> bool {
    exists|i: int|
        0 <= i < stack.len() && element_kind_of(#[trigger] dom[stack[i] as int].kind) == Some(
            kind,
        )
}

/// The stack once everything down to and including the innermost element of
/// kind `kind` has been closed.
pub open spec fn pop_through(dom: Seq<NodeView>, stack: Seq<NodeId>, kind: ElementKind) -> Seq<
    NodeId,
>
    decreases stack.len(),
{
    if stack.len() == 0 {
        stack
    } else if element_kind_of(dom[stack.last() as int].kind) == Some(kind) {
        stack.drop_last()
    } else {
        pop_through(dom, stack.drop_last(), kind)
    }
}

/// Closes the innermost element of kind `kind` and all that is open inside
/// it; without such an element nothing is closed.
pub open spec fn pop_until(p: ParserView, kind: ElementKind) -> ParserView {
    if contains_kind(p.dom, p.stack, kind) {
        ParserView { stack: pop_through(p.dom, p.stack, kind), ..p }
    } else {
        p
    }
}

/// The current node is an element of kind `kind`.
pub open spec fn current_is(p: ParserView, kind: ElementKind) -> bool {
    p.stack.len() > 0 && element_kind_of(p.dom[p.stack.last() as int].kind) == Some(kind)
}

/// The end of tree construction: whatever is still open is closed.
pub open spec fn stop(p: ParserView) -> (ParserView, Outcome) {
    (ParserView { stack: Seq::<NodeId>::empty(), ..p }, Outcome::Stop)
}

/// The characters that count as blank between elements.
pub open spec fn is_blank(c: char) -> bool {
    c == ' ' || c == '\n'
}

/// The same state in another insertion mode.
pub open spec fn to_mode(p: ParserView, mode: InsertionMode) -> ParserView {
    ParserView { mode, ..p }
}

/// At the very start: characters are passed over; anything else starts the
/// document.
pub open spec fn handle_initial(p: ParserView, tok: HtmlTokenView) -> (ParserView, Outcome) {
    match tok {
        HtmlTokenView::Char(_) => (p, Outcome::Next),
        _ => (to_mode(p, InsertionMode::BeforeHtml), Outcome::Again),
    }
}

/// Before the root: `<html>` opens it; anything but blanks and the end of
/// the input opens it implicitly.
pub open spec fn handle_before_html(p: ParserView, tok: HtmlTokenView) -> (ParserView, Outcome) {
    let implied = (
        to_mode(
            insert_element(p, "html"@, Seq::<AttributeView>::empty()),
            InsertionMode::BeforeHead,
        ),
        Outcome::Again,
    );
    match tok {
        HtmlTokenView::Char(c) => if is_blank(c) {
            (p, Outcome::Next)
        } else {
            implied
        },
        HtmlTokenView::StartTag { tag, self_closing, attributes } => if tag == "html"@ {
            (to_mode(insert_element(p, tag, attributes), InsertionMode::BeforeHead), Outcome::Next)
        } else {
            implied
        },
        HtmlTokenView::Eof => stop(p),
        _ => implied,
    }
}

/// Before the head: `<head>` opens it; anything but blanks and the end of
/// the input opens it implicitly.
pub open spec fn handle_before_head(p: ParserView, tok: HtmlTokenView) -> (ParserView, Outcome) {
    let implied = (
        to_mode(insert_element(p, "head"@, Seq::<AttributeView>::empty()), InsertionMode::InHead),
        Outcome::Again,
    );
    match tok {
        HtmlTokenView::Char(c) => if is_blank(c) {
            (p, Outcome::Next)
        } else {
            implied
        },
        HtmlTokenView::StartTag { tag, self_closing, attributes } => if tag == "head"@ {
            (to_mode(insert_element(p, tag, attributes), InsertionMode::InHead), Outcome::Next)
        } else {
            implied
        },
        HtmlTokenView::Eof => stop(p),
        _ => implied,
    }
}

/// In the head: `<style>` and `<script>` open a text section, and the
/// content of a script is read as plain characters; the start of any other
/// known element ends the head; `</head>` closes it.
pub open spec fn handle_in_head(p: ParserView, tok: HtmlTokenView) -> (ParserView, Outcome) {
    match tok {
        HtmlTokenView::StartTag { tag, self_closing, attributes } => if tag == "style"@ || tag
            == "script"@ {
            let q = insert_element(p, tag, attributes);
            (
                ParserView {
                    original_mode: p.mode,
                    mode: InsertionMode::Text,
                    tokenizer: if tag == "script"@ {
                        TokenizerView { state: State::ScriptData, ..q.tokenizer }
                    } else {
                        q.tokenizer
                    },
                    ..q
                },
                Outcome::Next,
            )
        } else if known_kind(tag) is Some {
            (to_mode(pop_until(p, ElementKind::Head), InsertionMode::AfterHead), Outcome::Again)
        } else {
            (p, Outcome::Next)
        },
        HtmlTokenView::EndTag { tag } => if tag == "head"@ {
            (to_mode(pop_until(p, ElementKind::Head), InsertionMode::AfterHead), Outcome::Next)
        } else {
            (p, Outcome::Next)
        },
        HtmlTokenView::Eof => stop(p),
        HtmlTokenView::Char(_) => (p, Outcome::Next),
    }
}

/// After the head: `<body>` opens the body; anything but blanks and the end
/// of the input opens it implicitly.
pub open spec fn handle_after_head(p: ParserView, tok: HtmlTokenView) -> (ParserView, Outcome) {
    let implied = (
        to_mode(insert_element(p, "body"@, Seq::<AttributeView>::empty()), InsertionMode::InBody),
        Outcome::Again,
    );
    match tok {
        HtmlTokenView::Char(c) => if is_blank(c) {
            (p, Outcome::Next)
        } else {
            implied
        },
        HtmlTokenView::StartTag { tag, self_closing, attributes } => if tag == "body"@ {
            (to_mode(insert_element(p, tag, attributes), InsertionMode::InBody), Outcome::Next)
        } else {
            implied
        },
        HtmlTokenView::Eof => stop(p),
        _ => implied,
    }
}

/// The elements that the body may hold.
pub open spec fn is_flow_tag(tag: Seq<char>) -> bool {
    tag == "p"@ || tag == "h1"@ || tag == "h2"@ || tag == "a"@
}

/// The kind of a tag that the body may hold.
pub open spec fn flow_kind(tag: Seq<char>) -> ElementKind {
    if tag == "p"@ {
        ElementKind::P
    } else if tag == "h1"@ {
        ElementKind::H1
    } else if tag == "h2"@ {
        ElementKind::H2
    } else {
        ElementKind::A
    }
}

/// In the body: `p`, `h1`, `h2` and `a` open and close elements, characters
/// become text, `</body>` and `</html>` end the body.
pub open spec fn handle_in_body(p: ParserView, tok: HtmlTokenView) -> (ParserView, Outcome) {
    match tok {
        HtmlTokenView::StartTag { tag, self_closing, attributes } => if is_flow_tag(tag) {
            (insert_element(p, tag, attributes), Outcome::Next)
        } else {
            (p, Outcome::Next)
        },
        HtmlTokenView::EndTag { tag } => if tag == "body"@ {
            (to_mode(pop_until(p, ElementKind::Body), InsertionMode::AfterBody), Outcome::Next)
        } else if tag == "html"@ {
            if current_is(p, ElementKind::Body) {
                let q = ParserView { stack: p.stack.drop_last(), ..p };
                let r = if current_is(q, ElementKind::Html) {
                    ParserView { stack: q.stack.drop_last(), ..q }
                } else {
                    q
                };
                (to_mode(r, InsertionMode::AfterBody), Outcome::Again)
            } else {
                (p, Outcome::Next)
            }
        } else if is_flow_tag(tag) {
            (pop_until(p, flow_kind(tag)), Outcome::Next)
        } else {
            (p, Outcome::Next)
        },
        HtmlTokenView::Char(c) => (insert_char(p, c), Outcome::Next),
        HtmlTokenView::Eof => stop(p),
    }
}

/// In a text section: characters are collected, the end tag of the section
/// closes it, anything else ends it and is looked at again.
pub open spec fn handle_text(p: ParserView, tok: HtmlTokenView) -> (ParserView, Outcome) {
    match tok {
        HtmlTokenView::Char(c) => (insert_char(p, c), Outcome::Next),
        HtmlTokenView::EndTag { tag } => if tag == "style"@ {
            (to_mode(pop_until(p, ElementKind::Style), p.original_mode), Outcome::Next)
        } else if tag == "script"@ {
            (to_mode(pop_until(p, ElementKind::Script), p.original_mode), Outcome::Next)
        } else {
            (to_mode(p, p.original_mode), Outcome::Again)
        },
        HtmlTokenView::Eof => stop(p),
        _ => (to_mode(p, p.original_mode), Outcome::Again),
    }
}

/// After the body: blanks are passed over and `</html>` ends the document;
/// anything else belongs to the body after all.
pub open spec fn handle_after_body(p: ParserView, tok: HtmlTokenView) -> (ParserView, Outcome) {
    match tok {
        HtmlTokenView::Char(c) => if is_blank(c) {
            (p, Outcome::Next)
        } else {
            (to_mode(p, InsertionMode::InBody), Outcome::Again)
        },
        HtmlTokenView::EndTag { tag } => if tag == "html"@ {
            (to_mode(p, InsertionMode::AfterAfterBody), Outcome::Next)
        } else {
            (to_mode(p, InsertionMode::InBody), Outcome::Again)
        },
        HtmlTokenView::Eof => stop(p),
        _ => (to_mode(p, InsertionMode::InBody), Outcome::Again),
    }
}

/// After the document: blanks are passed over; anything else belongs to the
/// body after all.
pub open spec fn handle_after_after_body(p: ParserView, tok: HtmlTokenView) -> (
    ParserView,
    Outcome,
) {
    match tok {
        HtmlTokenView::Char(c) => if is_blank(c) {
            (p, Outcome::Next)
        } else {
            (to_mode(p, InsertionMode::InBody), Outcome::Again)
        },
        HtmlTokenView::Eof => stop(p),
        _ => (to_mode(p, InsertionMode::InBody), Outcome::Again),
    }
}

/// What one token does in the current insertion mode.
pub open spec fn handle(p: ParserView, tok: HtmlTokenView) -> (ParserView, Outcome) {
    match p.mode {
        InsertionMode::Initial => handle_initial(p, tok),
        InsertionMode::BeforeHtml => handle_before_html(p, tok),
        InsertionMode::BeforeHead => handle_before_head(p, tok),
        InsertionMode::InHead => handle_in_head(p, tok),
        InsertionMode::AfterHead => handle_after_head(p, tok),
        InsertionMode::InBody => handle_in_body(p, tok),
        InsertionMode::Text => handle_text(p, tok),
        InsertionMode::AfterBody => handle_after_body(p, tok),
        InsertionMode::AfterAfterBody => handle_after_after_body(p, tok),
    }
}

/// How often at most a token is looked at again, counted from `mode`.
pub open spec fn turns(mode: InsertionMode, tok: HtmlTokenView) -> nat {
    let closes_html = tok matches HtmlTokenView::EndTag { tag } && tag == "html"@;
    match mode {
        InsertionMode::Text => 9,
        InsertionMode::Initial => 8,
        InsertionMode::BeforeHtml => 7,
        InsertionMode::BeforeHead => 6,
        InsertionMode::InHead => 5,
        InsertionMode::AfterHead => 4,
        InsertionMode::AfterAfterBody => 3,
        InsertionMode::InBody => if closes_html {
            2
        } else {
            1
        },
        InsertionMode::AfterBody => if closes_html {
            1
        } else {
            2
        },
    }
}

/// Looking at a token again happens in a mode that is closer to using it up.
pub proof fn lemma_again_descends(p: ParserView, tok: HtmlTokenView)
    requires
        !(p.original_mode is Text),
        handle(p, tok).1 is Again,
    ensures
        turns(handle(p, tok).0.mode, tok) < turns(p.mode, tok),
{
}

/// One token, taken through the modes until it is used up. The flag says
/// whether tree construction is over.
pub open spec fn feed(p: ParserView, tok: HtmlTokenView) -> (ParserView, bool)
    decreases turns(p.mode, tok),
{
    let (q, outcome) = handle(p, tok);
    match outcome {
        Outcome::Next => (q, false),
        Outcome::Stop => (q, true),
        Outcome::Again => if turns(q.mode, tok) < turns(p.mode, tok) {
            feed(q, tok)
        } else {
            (q, false)
        },
    }
}

/// The end of the input ends tree construction in every mode.
pub proof fn lemma_eof_stops(p: ParserView)
    requires
        !(p.original_mode is Text),
    ensures
        feed(p, HtmlTokenView::Eof).1,
{
    let tok = HtmlTokenView::Eof;
    if p.mode is Initial {
        assert(feed(handle(p, tok).0, tok).1);
    }
}

/// Feeding a token leaves the tokenizer alone, except that the start of a
/// script switches it to script data.
pub proof fn lemma_feed_tokenizer(p: ParserView, tok: HtmlTokenView)
    ensures
        feed(p, tok).0.tokenizer == p.tokenizer || feed(p, tok).0.tokenizer == (TokenizerView {
            state: State::ScriptData,
            ..p.tokenizer
        }),
    decreases turns(p.mode, tok),
{
    let (q, outcome) = handle(p, tok);
    if outcome is Again && turns(q.mode, tok) < turns(p.mode, tok) {
        lemma_feed_tokenizer(q, tok);
    }
}

/// The tree builder run to the end of `input`: tokens are pulled and fed
/// until a token ends tree construction or no token is left.
pub open spec fn run(input: Seq<char>, p: ParserView) -> ParserView
    decreases remaining(input, p.tokenizer), idle_moves(p.tokenizer),
{
    let (t, tok) = next_token(input, p.tokenizer);
    let q = ParserView { tokenizer: t, ..p };
    match tok {
        None => q,
        Some(tok) => {
            let (r, over) = feed(q, tok);
            if over {
                r
            } else if closer_to_end(input, r.tokenizer, p.tokenizer) {
                run(input, r)
            } else {
                r
            }
        },
    }
}

/// Feeding a token never makes the text mode the mode to go back to, and
/// when it ends tree construction no element is left open.
pub proof fn lemma_feed_closes(p: ParserView, tok: HtmlTokenView)
    requires
        !(p.original_mode is Text),
    ensures
        !(feed(p, tok).0.original_mode is Text),
        feed(p, tok).1 ==> feed(p, tok).0.stack.len() == 0,
    decreases turns(p.mode, tok),
{
    let (q, outcome) = handle(p, tok);
    if outcome is Again && turns(q.mode, tok) < turns(p.mode, tok) {
        lemma_feed_closes(q, tok);
    }
}

/// Stack balance: a tree builder whose tokenizer has not reached the end of
/// its input ends with no element left open, whatever the input is. Elements
/// that the document did not close are closed when the input ends.
pub proof fn lemma_stack_balance(input: Seq<char>, p: ParserView)
    requires
        0 <= p.tokenizer.pos <= input.len(),
        !p.tokenizer.done,
        !(p.original_mode is Text),
    ensures
        run(input, p).stack.len() == 0,
    decreases remaining(input, p.tokenizer), idle_moves(p.tokenizer),
{
    lemma_next_token_progress(input, p.tokenizer);
    let (t, tok) = next_token(input, p.tokenizer);
    let q = ParserView { tokenizer: t, ..p };
    let (r, over) = feed(q, tok->0);
    lemma_feed_closes(q, tok->0);
    lemma_feed_tokenizer(q, tok->0);
    if !over {
        if tok->0 is Eof {
            lemma_eof_stops(q);
        }
        assert(closer_to_end(input, r.tokenizer, p.tokenizer));
        lemma_stack_balance(input, r);
    }
}

/// The document that `input` is parsed into.
pub open spec fn parse(input: Seq<char>) -> Seq<NodeView> {
    run(input, initial_parser()).dom
}

/// The tree builder over one tokenizer.
#[derive(Debug, Clone)]
pub struct HtmlParser {
    pub window: Window,
    pub mode: InsertionMode,
    pub original_insertion_mode: InsertionMode,
    pub stack_of_open_elements: Vec<NodeId>,
    pub t: HtmlTokenizer,
}

impl View for HtmlParser {
    type V = ParserView;

    open spec fn view(&self) -> ParserView {
        ParserView {
            dom: self.window@,
            mode: self.mode,
            original_mode: self.original_insertion_mode,
            stack: self.stack_of_open_elements@,
            tokenizer: self.t@,
        }
    }
}

impl HtmlParser {
    /// The state of the tree builder and of its tokenizer are well formed.
    pub open spec fn wf(&self) -> bool {
        &&& parser_wf(self@)
        &&& self.t.wf()
    }

    /// A tree builder that will read what `t` still has to hand out.
    pub fn new(t: HtmlTokenizer) -> (p: Self)
        requires
            t.wf(),
        ensures
            p.wf(),
            p.t == t,
            p@ == (ParserView { tokenizer: t@, ..initial_parser() }),
    {
        Self {
            window: Window::new(),
            mode: InsertionMode::Initial,
            original_insertion_mode: InsertionMode::Initial,
            stack_of_open_elements: Vec::new(),
            t,
        }
    }

    /// Runs the tree builder to the end of the input and hands over the
    /// window with the finished tree.
    pub fn construct_tree(self) -> (w: Window)
        requires
            self.wf(),
        ensures
            w.wf(),
            w@ == run(self.t.input@, self@).dom,
    {
        let ghost input = self.t.input@;
        let ghost start = self@;
        let mut parser = self;
        loop
            invariant
                parser.wf(),
                input == self.t.input@,
                start == self@,
                parser.t.input@ == input,
                run(input, parser@) == run(input, start),
            decreases remaining(input, parser.t@), idle_moves(parser.t@),
        {
            let ghost before = parser@;
            let token = parser.t.next();
            proof {
                lemma_next_token_progress(input, before.tokenizer);
            }
            let ghost pulled = parser@;
            assert(pulled == (ParserView { tokenizer: pulled.tokenizer, ..before }));
            match token {
                None => {
                    assert(run(input, before) == pulled);
                    return parser.window;
                },
                Some(tok) => {
                    let over = parser.feed(&tok);
                    proof {
                        lemma_feed_tokenizer(pulled, tok@);
                        if tok@ is Eof {
                            lemma_eof_stops(pulled);
                        }
                        assert(over || run(input, before) == run(input, parser@));
                        assert(over ==> run(input, before) == parser@);
                    }
                    if over {
                        return parser.window;
                    }
                },
            }
        }
    }

    /// Takes one token through the modes until it is used up; `true` when
    /// tree construction is over.
    pub fn feed(&mut self, tok: &HtmlToken) -> (over: bool)
        requires
            old(self).wf(),
        ensures
            final(self).wf(),
            final(self).t.input == old(self).t.input,
            (final(self)@, over) == feed(old(self)@, tok@),
    {
        loop
            invariant
                self.wf(),
                self.t.input == old(self).t.input,
                feed(self@, tok@) == feed(old(self)@, tok@),
            decreases turns(self.mode, tok@),
        {
            let ghost before = self@;
            let outcome = self.handle(tok);
            proof {
                if outcome is Again {
                    lemma_again_descends(before, tok@);
                }
            }
            match outcome {
                Outcome::Next => {
                    return false;
                },
                Outcome::Stop => {
                    return true;
                },
                Outcome::Again => {},
            }
        }
    }

    /// Lets the current insertion mode look at one token.
    pub fn handle(&mut self, tok: &HtmlToken) -> (outcome: Outcome)
        requires
            old(self).wf(),
        ensures
            final(self).wf(),
            final(self).t.input == old(self).t.input,
            (final(self)@, outcome) == handle(old(self)@, tok@),
            final(self)@.tokenizer == old(self)@.tokenizer || final(self)@.tokenizer == (
            TokenizerView { state: State::ScriptData, ..old(self)@.tokenizer }),
    {
        match self.mode {
            InsertionMode::Initial => {
                match tok {
                    HtmlToken::Char(_) => Outcome::Next,
                    _ => {
                        self.mode = InsertionMode::BeforeHtml;
                        Outcome::Again
                    },
                }
            },
            InsertionMode::BeforeHtml => self.handle_opening(
                tok,
                "html",
                InsertionMode::BeforeHead,
            ),
            InsertionMode::BeforeHead => self.handle_opening(tok, "head", InsertionMode::InHead),
            InsertionMode::InHead => self.handle_in_head(tok),
            InsertionMode::AfterHead => self.handle_opening(tok, "body", InsertionMode::InBody),
            InsertionMode::InBody => self.handle_in_body(tok),
            InsertionMode::Text => self.handle_text(tok),
            InsertionMode::AfterBody => {
                match tok {
                    HtmlToken::Char(c) => {
                        if *c == ' ' || *c == '\n' {
                            Outcome::Next
                        } else {
                            self.mode = InsertionMode::InBody;
                            Outcome::Again
                        }
                    },
                    HtmlToken::EndTag { tag } => {
                        if str_eq(tag.as_str(), "html") {
                            self.mode = InsertionMode::AfterAfterBody;
                            Outcome::Next
                        } else {
                            self.mode = InsertionMode::InBody;
                            Outcome::Again
                        }
                    },
                    HtmlToken::Eof => self.stop(),
                    _ => {
                        self.mode = InsertionMode::InBody;
                        Outcome::Again
                    },
                }
            },
            InsertionMode::AfterAfterBody => {
                match tok {
                    HtmlToken::Char(c) => {
                        if *c == ' ' || *c == '\n' {
                            Outcome::Next
                        } else {
                            self.mode = InsertionMode::InBody;
                            Outcome::Again
                        }
                    },
                    HtmlToken::Eof => self.stop(),
                    _ => {
                        self.mode = InsertionMode::InBody;
                        Outcome::Again
                    },
                }
            },
        }
    }

    /// The three modes that wait for one opening tag (`html`, `head`,
    /// `body`) and open the element implicitly when something else comes.
    fn handle_opening(&mut self, tok: &HtmlToken, name: &str, then: InsertionMode) -> (outcome:
        Outcome)
        requires
            old(self).wf(),
        ensures
            final(self).wf(),
            final(self).t == old(self).t,
            (final(self)@, outcome) == (match tok@ {
                HtmlTokenView::Char(c) => if is_blank(c) {
                    (old(self)@, Outcome::Next)
                } else {
                    (
                        to_mode(
                            insert_element(old(self)@, name@, Seq::<AttributeView>::empty()),
                            then,
                        ),
                        Outcome::Again,
                    )
                },
                HtmlTokenView::StartTag { tag, self_closing, attributes } => if tag == name@ {
                    (to_mode(insert_element(old(self)@, tag, attributes), then), Outcome::Next)
                } else {
                    (
                        to_mode(
                            insert_element(old(self)@, name@, Seq::<AttributeView>::empty()),
                            then,
                        ),
                        Outcome::Again,
                    )
                },
                HtmlTokenView::Eof => stop(old(self)@),
                _ => (
                    to_mode(insert_element(old(self)@, name@, Seq::<AttributeView>::empty()), then),
                    Outcome::Again,
                ),
            }),
    {
        match tok {
            HtmlToken::Char(c) => {
                if *c == ' ' || *c == '\n' {
                    return Outcome::Next;
                }
            },
            HtmlToken::StartTag { tag, self_closing: _, attributes } => {
                if str_eq(tag.as_str(), name) {
                    self.insert_element(tag.as_str(), duplicate_attributes(attributes));
                    self.mode = then;
                    return Outcome::Next;
                }
            },
            HtmlToken::Eof => {
                return self.stop();
            },
            _ => {},
        }
        let none: Vec<Attribute> = Vec::new();
        assert(attrs_view(none@) =~= Seq::<AttributeView>::empty());
        self.insert_element(name, none);
        self.mode = then;
        Outcome::Again
    }

    fn handle_in_head(&mut self, tok: &HtmlToken) -> (outcome: Outcome)
        requires
            old(self).wf(),
            old(self).mode is InHead,
        ensures
            final(self).wf(),
            final(self).t.input == old(self).t.input,
            (final(self)@, outcome) == handle_in_head(old(self)@, tok@),
            final(self)@.tokenizer == old(self)@.tokenizer || final(self)@.tokenizer == (
            TokenizerView { state: State::ScriptData, ..old(self)@.tokenizer }),
    {
        match tok {
            HtmlToken::StartTag { tag, self_closing: _, attributes } => {
                let is_script = str_eq(tag.as_str(), "script");
                if str_eq(tag.as_str(), "style") || is_script {
                    self.insert_element(tag.as_str(), duplicate_attributes(attributes));
                    self.original_insertion_mode = self.mode;
                    self.mode = InsertionMode::Text;
                    if is_script {
                        self.t.switch_context(State::ScriptData);
                    }
                    Outcome::Next
                } else if ElementKind::from_str(tag.as_str()).is_ok() {
                    self.pop_until_open(ElementKind::Head);
                    self.mode = InsertionMode::AfterHead;
                    Outcome::Again
                } else {
                    Outcome::Next
                }
            },
            HtmlToken::EndTag { tag } => {
                if str_eq(tag.as_str(), "head") {
                    self.pop_until_open(ElementKind::Head);
                    self.mode = InsertionMode::AfterHead;
                }
                Outcome::Next
            },
            HtmlToken::Eof => self.stop(),
            HtmlToken::Char(_) => Outcome::Next,
        }
    }

    fn handle_in_body(&mut self, tok: &HtmlToken) -> (outcome: Outcome)
        requires
            old(self).wf(),
        ensures
            final(self).wf(),
            final(self).t == old(self).t,
            (final(self)@, outcome) == handle_in_body(old(self)@, tok@),
    {
        match tok {
            HtmlToken::StartTag { tag, self_closing: _, attributes } => {
                if Self::is_flow_tag(tag.as_str()) {
                    self.insert_element(tag.as_str(), duplicate_attributes(attributes));
                }
                Outcome::Next
            },
            HtmlToken::EndTag { tag } => {
                if str_eq(tag.as_str(), "body") {
                    self.pop_until_open(ElementKind::Body);
                    self.mode = InsertionMode::AfterBody;
                    Outcome::Next
                } else if str_eq(tag.as_str(), "html") {
                    if self.pop_current_node(ElementKind::Body) {
                        self.pop_current_node(ElementKind::Html);
                        self.mode = InsertionMode::AfterBody;
                        Outcome::Again
                    } else {
                        Outcome::Next
                    }
                } else if Self::is_flow_tag(tag.as_str()) {
                    let kind = if str_eq(tag.as_str(), "p") {
                        ElementKind::P
                    } else if str_eq(tag.as_str(), "h1") {
                        ElementKind::H1
                    } else if str_eq(tag.as_str(), "h2") {
                        ElementKind::H2
                    } else {
                        ElementKind::A
                    };
                    self.pop_until_open(kind);
                    Outcome::Next
                } else {
                    Outcome::Next
                }
            },
            HtmlToken::Char(c) => {
                self.insert_char(*c);
                Outcome::Next
            },
            HtmlToken::Eof => self.stop(),
        }
    }

    fn handle_text(&mut self, tok: &HtmlToken) -> (outcome: Outcome)
        requires
            old(self).wf(),
        ensures
            final(self).wf(),
            final(self).t == old(self).t,
            (final(self)@, outcome) == handle_text(old(self)@, tok@),
    {
        match tok {
            HtmlToken::Char(c) => {
                self.insert_char(*c);
                Outcome::Next
            },
            HtmlToken::EndTag { tag } => {
                if str_eq(tag.as_str(), "style") {
                    self.pop_until_open(ElementKind::Style);
                    self.mode = self.original_insertion_mode;
                    Outcome::Next
                } else if str_eq(tag.as_str(), "script") {
                    self.pop_until_open(ElementKind::Script);
                    self.mode = self.original_insertion_mode;
                    Outcome::Next
                } else {
                    self.mode = self.original_insertion_mode;
                    Outcome::Again
                }
            },
            HtmlToken::Eof => self.stop(),
            _ => {
                self.mode = self.original_insertion_mode;
                Outcome::Again
            },
        }
    }

    fn is_flow_tag(tag: &str) -> (r: bool)
        ensures
            r == is_flow_tag(tag@),
    {
        str_eq(tag, "p") || str_eq(tag, "h1") || str_eq(tag, "h2") || str_eq(tag, "a")
    }

    fn stop(&mut self) -> (outcome: Outcome)
        requires
            old(self).wf(),
        ensures
            final(self).wf(),
            final(self).t == old(self).t,
            (final(self)@, outcome) == stop(old(self)@),
    {
        self.stack_of_open_elements = Vec::new();
        Outcome::Stop
    }

    /// Appends a new element to the current node and opens it.
    pub fn insert_element(&mut self, tag: &str, attributes: Vec<Attribute>)
        requires
            old(self).wf(),
        ensures
            final(self).wf(),
            final(self).t == old(self).t,
            final(self)@ == insert_element(old(self)@, tag@, attrs_view(attributes@)),
    {
        let n = self.stack_of_open_elements.len();
        let current = if n > 0 {
            self.stack_of_open_elements[n - 1]
        } else {
            self.window.document()
        };
        let node = self.create_element(tag, attributes);
        let id = self.window.append_child(current, node);
        self.stack_of_open_elements.push(id);
    }

    fn create_element(&self, tag: &str, attributes: Vec<Attribute>) -> (k: NodeKind)
        ensures
            k@ == NodeKindView::Element(element_view(tag@, attrs_view(attributes@))),
    {
        NodeKind::Element(Element::new(tag, attributes))
    }

    fn create_char(&self, c: char) -> (k: NodeKind)
        ensures
            k@ == NodeKindView::Text(seq![c]),
    {
        let mut s = String::new();
        s.push(c);
        assert(s@ =~= seq![c]);
        NodeKind::Text(s)
    }

    /// Closes the current node if it is an element of kind `element_kind`.
    pub fn pop_current_node(&mut self, element_kind: ElementKind) -> (popped: bool)
        requires
            old(self).wf(),
        ensures
            final(self).wf(),
            final(self).t == old(self).t,
            popped == current_is(old(self)@, element_kind),
            final(self)@ == (if popped {
                ParserView { stack: old(self)@.stack.drop_last(), ..old(self)@ }
            } else {
                old(self)@
            }),
    {
        let n = self.stack_of_open_elements.len();
        if n == 0 {
            return false;
        }
        let current = self.stack_of_open_elements[n - 1];
        if self.window.node(current).element_kind() == Some(element_kind) {
            self.stack_of_open_elements.pop();
            return true;
        }
        false
    }

    /// Closes everything down to and including the innermost open element
    /// of kind `element_kind`.
    pub fn pop_until(&mut self, element_kind: ElementKind)
        requires
            old(self).wf(),
            contains_kind(old(self)@.dom, old(self)@.stack, element_kind),
        ensures
            final(self).wf(),
            final(self).t == old(self).t,
            final(self)@ == pop_until(old(self)@, element_kind),
    {
        loop
            invariant
                self.wf(),
                self.t == old(self).t,
                self.window == old(self).window,
                self.mode == old(self).mode,
                self.original_insertion_mode == old(self).original_insertion_mode,
                contains_kind(old(self)@.dom, old(self)@.stack, element_kind),
                pop_through(self@.dom, self@.stack, element_kind) == pop_through(
                    old(self)@.dom,
                    old(self)@.stack,
                    element_kind,
                ),
            decreases self.stack_of_open_elements.len(),
        {
            let ghost before = self@.stack;
            let current = match self.stack_of_open_elements.pop() {
                Some(id) => id,
                None => {
                    assert(pop_through(self@.dom, before, element_kind) == before);
                    return ;
                },
            };
            assert(self@.stack == before.drop_last());
            assert(current == before.last());
            if self.window.node(current).element_kind() == Some(element_kind) {
                assert(pop_through(self@.dom, before, element_kind) == before.drop_last());
                return ;
            }
            assert(pop_through(self@.dom, before, element_kind) == pop_through(
                self@.dom,
                before.drop_last(),
                element_kind,
            ));
        }
    }

    /// Like `pop_until`, but leaves the stack alone when no element of that
    /// kind is open.
    fn pop_until_open(&mut self, element_kind: ElementKind)
        requires
            old(self).wf(),
        ensures
            final(self).wf(),
            final(self).t == old(self).t,
            final(self)@ == pop_until(old(self)@, element_kind),
    {
        if self.contain_in_stack(element_kind) {
            self.pop_until(element_kind);
        }
    }

    /// Whether an element of kind `element_kind` is open.
    pub fn contain_in_stack(&self, element_kind: ElementKind) -> (found: bool)
        requires
            self.wf(),
        ensures
            found == contains_kind(self@.dom, self@.stack, element_kind),
    {
        let mut i: usize = 0;
        while i < self.stack_of_open_elements.len()
            invariant
                self.wf(),
                i <= self.stack_of_open_elements.len(),
                forall|j: int|
                    0 <= j < i ==> element_kind_of(
                        #[trigger] self@.dom[self@.stack[j] as int].kind,
                    ) != Some(element_kind),
            decreases self.stack_of_open_elements.len() - i,
        {
            let id = self.stack_of_open_elements[i];
            if self.window.node(id).element_kind() == Some(element_kind) {
                return true;
            }
            i += 1;
        }
        false
    }

    /// Adds a character to the tree, as `insert_char` says.
    pub fn insert_char(&mut self, c: char)
        requires
            old(self).wf(),
        ensures
            final(self).wf(),
            final(self).t == old(self).t,
            final(self)@ == insert_char(old(self)@, c),
    {
        let n = self.stack_of_open_elements.len();
        if n == 0 {
            return ;
        }
        let current = self.stack_of_open_elements[n - 1];
        let text = match self.window.node(current).last_child() {
            Some(l) => {
                if l < self.window.len() {
                    match self.window.node(l).kind() {
                        NodeKind::Text(_) => Some(l),
                        _ => None,
                    }
                } else {
                    None
                }
            },
            None => None,
        };
        match text {
            Some(t) => {
                self.window.push_char(t, c);
            },
            None => {
                if c == '\n' || c == ' ' {
                    return ;
                }
                let node = self.create_char(c);
                self.window.append_child(current, node);
            },
        }
    }
}

} // verus!
