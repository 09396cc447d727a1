//! The HTML tokenizer: a state machine that reads one character at a time
//! and hands out start tags, end tags, characters and one final `Eof`.
//!
//! The machine is defined by `step`, which is the whole transition table, and
//! `next_token`, which repeats `step` until a token comes out. The executable
//! tokenizer is proved to follow both.

use crate::renderer::html::attribute::add_char_view;
use crate::renderer::html::attribute::attrs_view;
use crate::renderer::html::attribute::Attribute;
use crate::renderer::html::attribute::AttributeView;
use crate::text::ascii_lower;
use crate::text::char_is_alpha;
use crate::text::char_to_lower;
use crate::text::is_ascii_alpha;
use crate::text::is_ascii_upper;
use crate::text::to_chars;
use vstd::prelude::*;

verus! {

/// One token of an HTML document.
#[derive(Debug, Clone, PartialEq, Eq)]
pub enum HtmlToken {
    StartTag { tag: String, self_closing: bool, attributes: Vec<Attribute> },
    EndTag { tag: String },
    Char(char),
    Eof,
}

/// What a token holds.
pub enum HtmlTokenView {
    StartTag { tag: Seq<char>, self_closing: bool, attributes: Seq<AttributeView> },
    EndTag { tag: Seq<char> },
    Char(char),
    Eof,
}

impl View for HtmlToken {
    type V = HtmlTokenView;

    open spec fn view(&self) -> HtmlTokenView {
        match self {
            HtmlToken::StartTag { tag, self_closing, attributes } => HtmlTokenView::StartTag {
                tag: tag@,
                self_closing: *self_closing,
                attributes: attrs_view(attributes@),
            },
            HtmlToken::EndTag { tag } => HtmlTokenView::EndTag { tag: tag@ },
            HtmlToken::Char(c) => HtmlTokenView::Char(*c),
            HtmlToken::Eof => HtmlTokenView::Eof,
        }
    }
}

/// The view of an optional token.
pub open spec fn token_opt_view(t: Option<HtmlToken>) -> Option<HtmlTokenView> {
    match t {
        Some(t) => Some(t@),
        None => None,
    }
}

/// The states of the tokenizer.
#[derive(Debug, Clone, Copy, PartialEq, Eq, Structural)]
pub enum State {
    Data,
    TagOpen,
    EndTagOpen,
    TagName,
    BeforeAttributeName,
    AttributeName,
    AfterAttributeName,
    BeforeAttributeValue,
    AttributeValueDoubleQuoted,
    AttributeValueSingleQuoted,
    AttributeValueUnquoted,
    AfterAttributeValueQuoted,
    SelfClosingStartTag,
    ScriptData,
    ScriptDataLessThanSign,
    ScriptDataEndTagOpen,
    ScriptDataEndTagName,
    TemporaryBuffer,
}

/// A tag that is being read.
pub struct TagView {
    pub is_start: bool,
    pub name: Seq<char>,
    pub self_closing: bool,
    pub attributes: Seq<AttributeView>,
}

/// Everything the tokenizer remembers between two characters.
pub struct TokenizerView {
    pub state: State,
    pub pos: int,
    pub tag: Option<TagView>,
    pub buf: Seq<char>,
    pub done: bool,
}

/// Characters that separate the parts of a tag.
pub open spec fn is_space(c: char) -> bool {
    c == ' ' || c == '\n' || c == '\t' || c == '\r'
}

/// The token that a finished tag becomes.
pub open spec fn tag_token(tag: TagView) -> HtmlTokenView {
    if tag.is_start {
        HtmlTokenView::StartTag {
            tag: tag.name,
            self_closing: tag.self_closing,
            attributes: tag.attributes,
        }
    } else {
        HtmlTokenView::EndTag { tag: tag.name }
    }
}

/// A tag of which nothing has been read yet.
pub open spec fn empty_tag(is_start: bool) -> TagView {
    TagView {
        is_start,
        name: Seq::<char>::empty(),
        self_closing: false,
        attributes: Seq::<AttributeView>::empty(),
    }
}

/// The tag with one more character at the end of its name.
pub open spec fn tag_push_name(tag: Option<TagView>, c: char) -> Option<TagView> {
    match tag {
        Some(t) => Some(TagView { name: t.name.push(c), ..t }),
        None => None,
    }
}

/// The tag with one more attribute, whose name and value are empty.
pub open spec fn tag_new_attribute(tag: Option<TagView>) -> Option<TagView> {
    match tag {
        Some(t) => Some(
            TagView {
                attributes: t.attributes.push(
                    AttributeView { name: Seq::<char>::empty(), value: Seq::<char>::empty() },
                ),
                ..t
            },
        ),
        None => None,
    }
}

/// Adds `c` to the name or the value of the attribute read last.
pub open spec fn tag_push_attribute(tag: Option<TagView>, c: char, is_name: bool) -> Option<
    TagView,
> {
    match tag {
        Some(t) => if t.attributes.len() > 0 {
            Some(
                TagView {
                    attributes: t.attributes.update(
                        t.attributes.len() - 1,
                        add_char_view(t.attributes.last(), c, is_name),
                    ),
                    ..t
                },
            )
        } else {
            tag
        },
        None => None,
    }
}

/// The tag marked as closing itself.
pub open spec fn tag_set_self_closing(tag: Option<TagView>) -> Option<TagView> {
    match tag {
        Some(t) => Some(TagView { self_closing: true, ..t }),
        None => None,
    }
}

/// Moves to `state` and takes the current character.
pub open spec fn go(t: TokenizerView, state: State) -> (TokenizerView, Option<HtmlTokenView>) {
    (TokenizerView { state, pos: t.pos + 1, ..t }, None)
}

/// Moves to `state` and leaves the current character for that state to read.
pub open spec fn redo(t: TokenizerView, state: State) -> (TokenizerView, Option<HtmlTokenView>) {
    (TokenizerView { state, ..t }, None)
}

/// The end of the input: the one final `Eof`.
pub open spec fn finish(t: TokenizerView) -> (TokenizerView, Option<HtmlTokenView>) {
    (TokenizerView { done: true, ..t }, Some(HtmlTokenView::Eof))
}

/// Takes the closing `>`: the tag that was read comes out, and the machine
/// is back in `Data`.
pub open spec fn emit_tag(t: TokenizerView) -> (TokenizerView, Option<HtmlTokenView>) {
    (
        TokenizerView { state: State::Data, pos: t.pos + 1, tag: None, ..t },
        match t.tag {
            Some(tag) => Some(tag_token(tag)),
            None => None,
        },
    )
}

/// Keeps the state, takes the current character and changes the tag.
pub open spec fn keep(t: TokenizerView, tag: Option<TagView>) -> (
    TokenizerView,
    Option<HtmlTokenView>,
) {
    (TokenizerView { pos: t.pos + 1, tag, ..t }, None)
}

/// One move of the machine on `input`: the state after it, and the token
/// that came out, if one did.
pub open spec fn step(input: Seq<char>, t: TokenizerView) -> (TokenizerView, Option<HtmlTokenView>) {
    let eof = !(0 <= t.pos < input.len());
    let c = input[t.pos];
    match t.state {
        State::Data => {
            if eof {
                finish(t)
            } else if c == '<' {
                go(t, State::TagOpen)
            } else {
                (TokenizerView { pos: t.pos + 1, ..t }, Some(HtmlTokenView::Char(c)))
            }
        },
        State::TagOpen => {
            if eof {
                finish(t)
            } else if c == '/' {
                go(t, State::EndTagOpen)
            } else if is_ascii_alpha(c) {
                redo(TokenizerView { tag: Some(empty_tag(true)), ..t }, State::TagName)
            } else {
                redo(t, State::Data)
            }
        },
        State::EndTagOpen => {
            if eof {
                finish(t)
            } else if is_ascii_alpha(c) {
                redo(TokenizerView { tag: Some(empty_tag(false)), ..t }, State::TagName)
            } else {
                redo(t, State::Data)
            }
        },
        State::TagName => {
            if eof {
                finish(t)
            } else if is_space(c) {
                go(t, State::BeforeAttributeName)
            } else if c == '/' {
                go(t, State::SelfClosingStartTag)
            } else if c == '>' {
                emit_tag(t)
            } else {
                keep(t, tag_push_name(t.tag, ascii_lower(c)))
            }
        },
        State::BeforeAttributeName => {
            if eof {
                finish(t)
            } else if is_space(c) {
                go(t, State::BeforeAttributeName)
            } else if c == '/' {
                go(t, State::SelfClosingStartTag)
            } else if c == '>' {
                emit_tag(t)
            } else {
                redo(TokenizerView { tag: tag_new_attribute(t.tag), ..t }, State::AttributeName)
            }
        },
        State::AttributeName => {
            if eof {
                finish(t)
            } else if is_space(c) {
                go(t, State::AfterAttributeName)
            } else if c == '/' {
                go(t, State::SelfClosingStartTag)
            } else if c == '>' {
                emit_tag(t)
            } else if c == '=' {
                go(t, State::BeforeAttributeValue)
            } else {
                keep(t, tag_push_attribute(t.tag, ascii_lower(c), true))
            }
        },
        State::AfterAttributeName => {
            if eof {
                finish(t)
            } else if is_space(c) {
                go(t, State::AfterAttributeName)
            } else if c == '/' {
                go(t, State::SelfClosingStartTag)
            } else if c == '=' {
                go(t, State::BeforeAttributeValue)
            } else if c == '>' {
                emit_tag(t)
            } else {
                redo(TokenizerView { tag: tag_new_attribute(t.tag), ..t }, State::AttributeName)
            }
        },
        State::BeforeAttributeValue => {
            if eof {
                finish(t)
            } else if is_space(c) {
                go(t, State::BeforeAttributeValue)
            } else if c == '"' {
                go(t, State::AttributeValueDoubleQuoted)
            } else if c == '\'' {
                go(t, State::AttributeValueSingleQuoted)
            } else if c == '>' {
                emit_tag(t)
            } else {
                redo(t, State::AttributeValueUnquoted)
            }
        },
        State::AttributeValueDoubleQuoted => {
            if eof {
                finish(t)
            } else if c == '"' {
                go(t, State::AfterAttributeValueQuoted)
            } else {
                keep(t, tag_push_attribute(t.tag, c, false))
            }
        },
        State::AttributeValueSingleQuoted => {
            if eof {
                finish(t)
            } else if c == '\'' {
                go(t, State::AfterAttributeValueQuoted)
            } else {
                keep(t, tag_push_attribute(t.tag, c, false))
            }
        },
        State::AttributeValueUnquoted => {
            if eof {
                finish(t)
            } else if is_space(c) {
                go(t, State::BeforeAttributeName)
            } else if c == '>' {
                emit_tag(t)
            } else {
                keep(t, tag_push_attribute(t.tag, c, false))
            }
        },
        State::AfterAttributeValueQuoted => {
            if eof {
                finish(t)
            } else if is_space(c) {
                go(t, State::BeforeAttributeName)
            } else if c == '/' {
                go(t, State::SelfClosingStartTag)
            } else if c == '>' {
                emit_tag(t)
            } else {
                redo(t, State::BeforeAttributeName)
            }
        },
        State::SelfClosingStartTag => {
            if eof {
                finish(t)
            } else if c == '>' {
                emit_tag(TokenizerView { tag: tag_set_self_closing(t.tag), ..t })
            } else {
                go(t, State::SelfClosingStartTag)
            }
        },
        State::ScriptData => {
            if eof {
                finish(t)
            } else if c == '<' {
                go(t, State::ScriptDataLessThanSign)
            } else {
                (TokenizerView { pos: t.pos + 1, ..t }, Some(HtmlTokenView::Char(c)))
            }
        },
        State::ScriptDataLessThanSign => {
            if !eof && c == '/' {
                go(TokenizerView { buf: Seq::<char>::empty(), ..t }, State::ScriptDataEndTagOpen)
            } else {
                (TokenizerView { state: State::ScriptData, ..t }, Some(HtmlTokenView::Char('<')))
            }
        },
        State::ScriptDataEndTagOpen => {
            if !eof && is_ascii_alpha(c) {
                redo(
                    TokenizerView { tag: Some(empty_tag(false)), ..t },
                    State::ScriptDataEndTagName,
                )
            } else {
                redo(TokenizerView { buf: seq!['<', '/'], ..t }, State::TemporaryBuffer)
            }
        },
        State::ScriptDataEndTagName => {
            if !eof && c == '>' {
                emit_tag(t)
            } else if !eof && is_ascii_alpha(c) {
                keep(
                    TokenizerView { buf: t.buf.push(c), ..t },
                    tag_push_name(t.tag, ascii_lower(c)),
                )
            } else {
                redo(
                    TokenizerView { buf: seq!['<', '/'] + t.buf, tag: None, ..t },
                    State::TemporaryBuffer,
                )
            }
        },
        State::TemporaryBuffer => {
            if t.buf.len() == 0 {
                redo(t, State::ScriptData)
            } else {
                (
                    TokenizerView { buf: t.buf.drop_first(), ..t },
                    Some(HtmlTokenView::Char(t.buf[0])),
                )
            }
        },
    }
}

/// How many moves the machine can make at most before it takes a character:
/// moves that only change the state, and characters handed out from the
/// temporary buffer.
pub open spec fn idle_moves(t: TokenizerView) -> nat {
    match t.state {
        State::ScriptDataEndTagOpen => t.buf.len() + 5,
        State::ScriptDataEndTagName => t.buf.len() + 4,
        State::TemporaryBuffer => t.buf.len() + 1,
        State::AfterAttributeValueQuoted => 2,
        State::TagOpen
        | State::EndTagOpen
        | State::BeforeAttributeName
        | State::AfterAttributeName
        | State::BeforeAttributeValue
        | State::ScriptDataLessThanSign => 1,
        _ => 0,
    }
}

/// What is left to read, counted in characters; the end of input counts one.
pub open spec fn remaining(input: Seq<char>, t: TokenizerView) -> nat {
    if 0 <= t.pos <= input.len() {
        (input.len() - t.pos + 1) as nat
    } else {
        0
    }
}

/// `a` has less left to do than `b`.
pub open spec fn closer_to_end(input: Seq<char>, a: TokenizerView, b: TokenizerView) -> bool {
    remaining(input, a) < remaining(input, b) || (remaining(input, a) == remaining(input, b)
        && idle_moves(a) < idle_moves(b))
}

/// Every move but the one that hands out `Eof` comes closer to the end of
/// the input.
pub proof fn lemma_step_progress(input: Seq<char>, t: TokenizerView)
    requires
        0 <= t.pos <= input.len(),
        !t.done,
    ensures
        0 <= step(input, t).0.pos <= input.len(),
        step(input, t).0.done <==> step(input, t).1 == Some(HtmlTokenView::Eof),
        !step(input, t).0.done ==> closer_to_end(input, step(input, t).0, t),
{
}

/// The next token on `input` from `t`, and the state after it. Once `Eof`
/// has been handed out there is no further token.
pub open spec fn next_token(input: Seq<char>, t: TokenizerView) -> (
    TokenizerView,
    Option<HtmlTokenView>,
)
    decreases remaining(input, t), idle_moves(t),
{
    if t.done || !(0 <= t.pos <= input.len()) {
        (t, None)
    } else {
        let (t1, out) = step(input, t);
        if out is Some {
            (t1, out)
        } else if closer_to_end(input, t1, t) {
            next_token(input, t1)
        } else {
            (t1, None)
        }
    }
}

/// A tokenizer that has not handed out `Eof` hands out a token, and unless
/// that token is `Eof` it has come closer to the end of the input. `Eof` is
/// handed out once: after it there is no token.
pub proof fn lemma_next_token_progress(input: Seq<char>, t: TokenizerView)
    requires
        0 <= t.pos <= input.len(),
    ensures
        0 <= next_token(input, t).0.pos <= input.len(),
        t.done ==> next_token(input, t) == (t, None::<HtmlTokenView>),
        !t.done ==> next_token(input, t).1 is Some,
        !t.done ==> (next_token(input, t).0.done <==> next_token(input, t).1 == Some(
            HtmlTokenView::Eof,
        )),
        !t.done && !next_token(input, t).0.done ==> closer_to_end(
            input,
            next_token(input, t).0,
            t,
        ),
    decreases remaining(input, t), idle_moves(t),
{
    if !t.done {
        lemma_step_progress(input, t);
        let (t1, out) = step(input, t);
        if out is None {
            lemma_next_token_progress(input, t1);
        }
    }
}

/// No character of `s` is an upper-case ASCII letter.
pub open spec fn is_lower_case(s: Seq<char>) -> bool {
    forall|i: int| 0 <= i < s.len() ==> !is_ascii_upper(#[trigger] s[i])
}

/// The name of the tag and the names of its attributes are in lower case.
pub open spec fn tag_in_lower_case(tag: TagView) -> bool {
    &&& is_lower_case(tag.name)
    &&& forall|i: int| 0 <= i < tag.attributes.len() ==> is_lower_case(
        (#[trigger] tag.attributes[i]).name,
    )
}

/// The names that a token carries are in lower case.
pub open spec fn token_in_lower_case(token: HtmlTokenView) -> bool {
    match token {
        HtmlTokenView::StartTag { tag, self_closing, attributes } => tag_in_lower_case(
            TagView { is_start: true, name: tag, self_closing, attributes },
        ),
        HtmlTokenView::EndTag { tag } => is_lower_case(tag),
        _ => true,
    }
}

proof fn lemma_step_lower_case(input: Seq<char>, t: TokenizerView)
    requires
        t.tag matches Some(tag) ==> tag_in_lower_case(tag),
    ensures
        step(input, t).0.tag matches Some(tag) ==> tag_in_lower_case(tag),
        step(input, t).1 matches Some(token) ==> token_in_lower_case(token),
{
    let c = input[t.pos];
    assert(!is_ascii_upper(ascii_lower(c)));
    let after = step(input, t).0.tag;
    if let Some(tag) = after {
        if let Some(before) = t.tag {
            assert forall|i: int| 0 <= i < tag.name.len() implies !is_ascii_upper(
                #[trigger] tag.name[i],
            ) by {
                if i < before.name.len() {
                    assert(!is_ascii_upper(before.name[i]));
                }
            }
            assert forall|i: int| 0 <= i < tag.attributes.len() implies is_lower_case(
                (#[trigger] tag.attributes[i]).name,
            ) by {
                if i < before.attributes.len() {
                    assert(is_lower_case(before.attributes[i].name));
                    let name = tag.attributes[i].name;
                    assert forall|j: int| 0 <= j < name.len() implies !is_ascii_upper(
                        #[trigger] name[j],
                    ) by {
                        if j < before.attributes[i].name.len() {
                            assert(!is_ascii_upper(before.attributes[i].name[j]));
                        }
                    }
                }
            }
        }
    }
}

/// Tag names and attribute names come out in lower case: whatever the
/// input, a tokenizer that holds no name with an upper-case letter hands out
/// none and keeps none.
pub proof fn lemma_names_in_lower_case(input: Seq<char>, t: TokenizerView)
    requires
        t.tag matches Some(tag) ==> tag_in_lower_case(tag),
    ensures
        next_token(input, t).0.tag matches Some(tag) ==> tag_in_lower_case(tag),
        next_token(input, t).1 matches Some(token) ==> token_in_lower_case(token),
    decreases remaining(input, t), idle_moves(t),
{
    if !(t.done || !(0 <= t.pos <= input.len())) {
        lemma_step_lower_case(input, t);
        let (t1, out) = step(input, t);
        if out is None && closer_to_end(input, t1, t) {
            lemma_names_in_lower_case(input, t1);
        }
    }
}

/// The tokenizer over one input string.
#[derive(Debug, Clone)]
pub struct HtmlTokenizer {
    pub state: State,
    pub pos: usize,
    pub input: Vec<char>,
    pub buf: Vec<char>,
    pub done: bool,
    pub has_tag: bool,
    pub tag_is_start: bool,
    pub tag_name: String,
    pub tag_self_closing: bool,
    pub tag_attributes: Vec<Attribute>,
}

impl View for HtmlTokenizer {
    type V = TokenizerView;

    open spec fn view(&self) -> TokenizerView {
        TokenizerView {
            state: self.state,
            pos: self.pos as int,
            tag: if self.has_tag {
                Some(
                    TagView {
                        is_start: self.tag_is_start,
                        name: self.tag_name@,
                        self_closing: self.tag_self_closing,
                        attributes: attrs_view(self.tag_attributes@),
                    },
                )
            } else {
                None
            },
            buf: self.buf@,
            done: self.done,
        }
    }
}

/// The tokenizer before its first move.
pub open spec fn initial_view() -> TokenizerView {
    TokenizerView {
        state: State::Data,
        pos: 0,
        tag: None,
        buf: Seq::<char>::empty(),
        done: false,
    }
}

impl HtmlTokenizer {
    /// The read position lies within the input or just behind it.
    pub open spec fn wf(&self) -> bool {
        self.pos <= self.input@.len()
    }

    /// A tokenizer at the start of `html`, in state `Data`.
    pub fn new(html: String) -> (t: Self)
        ensures
            t.wf(),
            t.input@ == html@,
            t@ == initial_view(),
    {
        Self {
            state: State::Data,
            pos: 0,
            input: to_chars(html.as_str()),
            buf: Vec::new(),
            done: false,
            has_tag: false,
            tag_is_start: false,
            tag_name: String::new(),
            tag_self_closing: false,
            tag_attributes: Vec::new(),
        }
    }

    /// Puts the machine into `state`; the tree builder uses this to have the
    /// content of a script read as plain characters.
    pub fn switch_context(&mut self, state: State)
        ensures
            final(self)@ == (TokenizerView { state, ..old(self)@ }),
            final(self).input == old(self).input,
            final(self).wf() == old(self).wf(),
    {
        self.state = state;
    }

    fn start_tag(&mut self, is_start: bool)
        ensures
            final(self)@ == (TokenizerView { tag: Some(empty_tag(is_start)), ..old(self)@ }),
            final(self).input == old(self).input,
    {
        self.has_tag = true;
        self.tag_is_start = is_start;
        self.tag_name = String::new();
        self.tag_self_closing = false;
        self.tag_attributes = Vec::new();
        assert(attrs_view(self.tag_attributes@) =~= Seq::<AttributeView>::empty());
    }

    fn push_name(&mut self, c: char)
        ensures
            final(self)@ == (TokenizerView { tag: tag_push_name(old(self)@.tag, c), ..old(self)@ }),
            final(self).input == old(self).input,
    {
        if self.has_tag {
            self.tag_name.push(c);
        }
    }

    fn new_attribute(&mut self)
        ensures
            final(self)@ == (TokenizerView { tag: tag_new_attribute(old(self)@.tag), ..old(self)@ }),
            final(self).input == old(self).input,
    {
        if self.has_tag {
            self.tag_attributes.push(Attribute::new());
            assert(attrs_view(self.tag_attributes@) =~= attrs_view(old(self).tag_attributes@).push(
                AttributeView { name: Seq::<char>::empty(), value: Seq::<char>::empty() },
            ));
        }
    }

    fn push_attribute(&mut self, c: char, is_name: bool)
        ensures
            final(self)@ == (TokenizerView {
                tag: tag_push_attribute(old(self)@.tag, c, is_name),
                ..old(self)@
            }),
            final(self).input == old(self).input,
    {
        let n = self.tag_attributes.len();
        if self.has_tag && n > 0 {
            self.tag_attributes[n - 1].add_char(c, is_name);
            assert(attrs_view(self.tag_attributes@) =~= attrs_view(
                old(self).tag_attributes@,
            ).update(
                n - 1,
                add_char_view(attrs_view(old(self).tag_attributes@).last(), c, is_name),
            ));
        }
    }

    /// The tag that was read, as a token; the tokenizer keeps none of it.
    fn take_tag(&mut self) -> (r: Option<HtmlToken>)
        ensures
            token_opt_view(r) == match old(self)@.tag {
                Some(tag) => Some(tag_token(tag)),
                None => None,
            },
            final(self)@ == (TokenizerView { tag: None, ..old(self)@ }),
            final(self).input == old(self).input,
    {
        if !self.has_tag {
            return None;
        }
        self.has_tag = false;
        let mut tag = String::new();
        let mut attributes: Vec<Attribute> = Vec::new();
        core::mem::swap(&mut tag, &mut self.tag_name);
        core::mem::swap(&mut attributes, &mut self.tag_attributes);
        if self.tag_is_start {
            Some(HtmlToken::StartTag { tag, self_closing: self.tag_self_closing, attributes })
        } else {
            Some(HtmlToken::EndTag { tag })
        }
    }

    fn is_space(c: char) -> (r: bool)
        ensures
            r == is_space(c),
    {
        c == ' ' || c == '\n' || c == '\t' || c == '\r'
    }

    fn emit_tag(&mut self) -> (r: Option<HtmlToken>)
        requires
            old(self).pos < old(self).input.len(),
        ensures
            (final(self)@, token_opt_view(r)) == emit_tag(old(self)@),
            final(self).input == old(self).input,
    {
        self.state = State::Data;
        self.pos = self.pos + 1;
        self.take_tag()
    }

    /// One move of the machine.
    pub fn step(&mut self) -> (r: Option<HtmlToken>)
        requires
            old(self).wf(),
        ensures
            final(self).wf(),
            final(self).input == old(self).input,
            (final(self)@, token_opt_view(r)) == step(old(self).input@, old(self)@),
    {
        let eof = self.pos >= self.input.len();
        let c = if eof {
            ' '
        } else {
            self.input[self.pos]
        };
        match self.state {
            State::Data => {
                if eof {
                    self.done = true;
                    Some(HtmlToken::Eof)
                } else if c == '<' {
                    self.state = State::TagOpen;
                    self.pos = self.pos + 1;
                    None
                } else {
                    self.pos = self.pos + 1;
                    Some(HtmlToken::Char(c))
                }
            },
            State::TagOpen => {
                if eof {
                    self.done = true;
                    Some(HtmlToken::Eof)
                } else if c == '/' {
                    self.state = State::EndTagOpen;
                    self.pos = self.pos + 1;
                    None
                } else if char_is_alpha(c) {
                    self.start_tag(true);
                    self.state = State::TagName;
                    None
                } else {
                    self.state = State::Data;
                    None
                }
            },
            State::EndTagOpen => {
                if eof {
                    self.done = true;
                    Some(HtmlToken::Eof)
                } else if char_is_alpha(c) {
                    self.start_tag(false);
                    self.state = State::TagName;
                    None
                } else {
                    self.state = State::Data;
                    None
                }
            },
            State::TagName => {
                if eof {
                    self.done = true;
                    Some(HtmlToken::Eof)
                } else if Self::is_space(c) {
                    self.state = State::BeforeAttributeName;
                    self.pos = self.pos + 1;
                    None
                } else if c == '/' {
                    self.state = State::SelfClosingStartTag;
                    self.pos = self.pos + 1;
                    None
                } else if c == '>' {
                    self.emit_tag()
                } else {
                    self.push_name(char_to_lower(c));
                    self.pos = self.pos + 1;
                    None
                }
            },
            State::BeforeAttributeName => {
                if eof {
                    self.done = true;
                    Some(HtmlToken::Eof)
                } else if Self::is_space(c) {
                    self.pos = self.pos + 1;
                    None
                } else if c == '/' {
                    self.state = State::SelfClosingStartTag;
                    self.pos = self.pos + 1;
                    None
                } else if c == '>' {
                    self.emit_tag()
                } else {
                    self.new_attribute();
                    self.state = State::AttributeName;
                    None
                }
            },
            State::AttributeName => {
                if eof {
                    self.done = true;
                    Some(HtmlToken::Eof)
                } else if Self::is_space(c) {
                    self.state = State::AfterAttributeName;
                    self.pos = self.pos + 1;
                    None
                } else if c == '/' {
                    self.state = State::SelfClosingStartTag;
                    self.pos = self.pos + 1;
                    None
                } else if c == '>' {
                    self.emit_tag()
                } else if c == '=' {
                    self.state = State::BeforeAttributeValue;
                    self.pos = self.pos + 1;
                    None
                } else {
                    self.push_attribute(char_to_lower(c), true);
                    self.pos = self.pos + 1;
                    None
                }
            },
            State::AfterAttributeName => {
                if eof {
                    self.done = true;
                    Some(HtmlToken::Eof)
                } else if Self::is_space(c) {
                    self.pos = self.pos + 1;
                    None
                } else if c == '/' {
                    self.state = State::SelfClosingStartTag;
                    self.pos = self.pos + 1;
                    None
                } else if c == '=' {
                    self.state = State::BeforeAttributeValue;
                    self.pos = self.pos + 1;
                    None
                } else if c == '>' {
                    self.emit_tag()
                } else {
                    self.new_attribute();
                    self.state = State::AttributeName;
                    None
                }
            },
            State::BeforeAttributeValue => {
                if eof {
                    self.done = true;
                    Some(HtmlToken::Eof)
                } else if Self::is_space(c) {
                    self.pos = self.pos + 1;
                    None
                } else if c == '"' {
                    self.state = State::AttributeValueDoubleQuoted;
                    self.pos = self.pos + 1;
                    None
                } else if c == '\'' {
                    self.state = State::AttributeValueSingleQuoted;
                    self.pos = self.pos + 1;
                    None
                } else if c == '>' {
                    self.emit_tag()
                } else {
                    self.state = State::AttributeValueUnquoted;
                    None
                }
            },
            State::AttributeValueDoubleQuoted => {
                if eof {
                    self.done = true;
                    Some(HtmlToken::Eof)
                } else if c == '"' {
                    self.state = State::AfterAttributeValueQuoted;
                    self.pos = self.pos + 1;
                    None
                } else {
                    self.push_attribute(c, false);
                    self.pos = self.pos + 1;
                    None
                }
            },
            State::AttributeValueSingleQuoted => {
                if eof {
                    self.done = true;
                    Some(HtmlToken::Eof)
                } else if c == '\'' {
                    self.state = State::AfterAttributeValueQuoted;
                    self.pos = self.pos + 1;
                    None
                } else {
                    self.push_attribute(c, false);
                    self.pos = self.pos + 1;
                    None
                }
            },
            State::AttributeValueUnquoted => {
                if eof {
                    self.done = true;
                    Some(HtmlToken::Eof)
                } else if Self::is_space(c) {
                    self.state = State::BeforeAttributeName;
                    self.pos = self.pos + 1;
                    None
                } else if c == '>' {
                    self.emit_tag()
                } else {
                    self.push_attribute(c, false);
                    self.pos = self.pos + 1;
                    None
                }
            },
            State::AfterAttributeValueQuoted => {
                if eof {
                    self.done = true;
                    Some(HtmlToken::Eof)
                } else if Self::is_space(c) {
                    self.state = State::BeforeAttributeName;
                    self.pos = self.pos + 1;
                    None
                } else if c == '/' {
                    self.state = State::SelfClosingStartTag;
                    self.pos = self.pos + 1;
                    None
                } else if c == '>' {
                    self.emit_tag()
                } else {
                    self.state = State::BeforeAttributeName;
                    None
                }
            },
            State::SelfClosingStartTag => {
                if eof {
                    self.done = true;
                    Some(HtmlToken::Eof)
                } else if c == '>' {
                    if self.has_tag {
                        self.tag_self_closing = true;
                    }
                    self.emit_tag()
                } else {
                    self.pos = self.pos + 1;
                    None
                }
            },
            State::ScriptData => {
                if eof {
                    self.done = true;
                    Some(HtmlToken::Eof)
                } else if c == '<' {
                    self.state = State::ScriptDataLessThanSign;
                    self.pos = self.pos + 1;
                    None
                } else {
                    self.pos = self.pos + 1;
                    Some(HtmlToken::Char(c))
                }
            },
            State::ScriptDataLessThanSign => {
                if !eof && c == '/' {
                    self.buf = Vec::new();
                    self.state = State::ScriptDataEndTagOpen;
                    self.pos = self.pos + 1;
                    None
                } else {
                    self.state = State::ScriptData;
                    Some(HtmlToken::Char('<'))
                }
            },
            State::ScriptDataEndTagOpen => {
                if !eof && char_is_alpha(c) {
                    self.start_tag(false);
                    self.state = State::ScriptDataEndTagName;
                    None
                } else {
                    let mut buf: Vec<char> = Vec::new();
                    buf.push('<');
                    buf.push('/');
                    self.buf = buf;
                    self.state = State::TemporaryBuffer;
                    assert(self.buf@ =~= seq!['<', '/']);
                    None
                }
            },
            State::ScriptDataEndTagName => {
                if !eof && c == '>' {
                    self.emit_tag()
                } else if !eof && char_is_alpha(c) {
                    self.buf.push(c);
                    self.push_name(char_to_lower(c));
                    self.pos = self.pos + 1;
                    None
                } else {
                    let mut buf: Vec<char> = Vec::new();
                    buf.push('<');
                    buf.push('/');
                    let mut rest: Vec<char> = Vec::new();
                    core::mem::swap(&mut rest, &mut self.buf);
                    buf.append(&mut rest);
                    self.buf = buf;
                    self.has_tag = false;
                    self.state = State::TemporaryBuffer;
                    assert(self.buf@ =~= seq!['<', '/'] + old(self).buf@);
                    None
                }
            },
            State::TemporaryBuffer => {
                if self.buf.len() == 0 {
                    self.state = State::ScriptData;
                    None
                } else {
                    let first = self.buf.remove(0);
                    assert(self.buf@ =~= old(self).buf@.drop_first());
                    Some(HtmlToken::Char(first))
                }
            },
        }
    }

    /// The next token of the input, or `None` once `Eof` has been handed out.
    pub fn next(&mut self) -> (r: Option<HtmlToken>)
        requires
            old(self).wf(),
        ensures
            final(self).wf(),
            final(self).input == old(self).input,
            (final(self)@, token_opt_view(r)) == next_token(old(self).input@, old(self)@),
    {
        if self.done {
            return None;
        }
        loop
            invariant
                self.wf(),
                !self.done,
                self.input == old(self).input,
                next_token(self.input@, self@) == next_token(old(self).input@, old(self)@),
            decreases remaining(self.input@, self@), idle_moves(self@),
        {
            let ghost before = self@;
            let r = self.step();
            proof {
                lemma_step_progress(self.input@, before);
            }
            if r.is_some() {
                return r;
            }
        }
    }
}

} // verus!
