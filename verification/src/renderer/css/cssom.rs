//! The CSS object model and the parser that builds it from tokens.
//!
//! The grammar is given by the spec functions `selector_at`,
//! `declaration_at`, `declarations_at`, `rule_at` and `rules_at` over a
//! token sequence; the parser is proved to compute them. It never fails:
//! what it cannot read it passes over.

use crate::renderer::css::token::tokens_from;
use crate::renderer::css::token::tokens_view;
use crate::renderer::css::token::CssToken;
use crate::renderer::css::token::CssTokenView;
use crate::renderer::css::token::CssTokenizer;
use crate::text::from_chars;
use crate::text::to_chars;
use vstd::prelude::*;

verus! {

/// A value of a declaration: an identifier, string, number or hash token.
pub type ComponentValue = CssToken;

/// What a rule applies to.
#[derive(Debug, Clone, PartialEq, Eq)]
pub enum Selector {
    TypeSelector(String),
    ClassSelector(String),
    IdSelector(String),
    UnknownSelector,
}

/// What a selector holds.
pub enum SelectorView {
    TypeSelector(Seq<char>),
    ClassSelector(Seq<char>),
    IdSelector(Seq<char>),
    UnknownSelector,
}

impl View for Selector {
    type V = SelectorView;

    open spec fn view(&self) -> SelectorView {
        match self {
            Selector::TypeSelector(s) => SelectorView::TypeSelector(s@),
            Selector::ClassSelector(s) => SelectorView::ClassSelector(s@),
            Selector::IdSelector(s) => SelectorView::IdSelector(s@),
            Selector::UnknownSelector => SelectorView::UnknownSelector,
        }
    }
}

/// One `property: value` pair.
#[derive(Debug, Clone, PartialEq, Eq)]
pub struct Declaration {
    pub property: String,
    pub value: ComponentValue,
}

/// What a declaration holds.
pub struct DeclarationView {
    pub property: Seq<char>,
    pub value: CssTokenView,
}

impl View for Declaration {
    type V = DeclarationView;

    open spec fn view(&self) -> DeclarationView {
        DeclarationView { property: self.property@, value: self.value@ }
    }
}

/// A list of declarations seen as a sequence of views.
pub open spec fn declarations_view(v: Seq<Declaration>) -> Seq<DeclarationView> {
    Seq::new(v.len(), |i: int| v[i]@)
}

impl Declaration {
    /// A declaration with an empty property and an empty identifier as value.
    pub fn new() -> (d: Self)
        ensures
            d@ == (DeclarationView {
                property: Seq::<char>::empty(),
                value: CssTokenView::Ident(Seq::<char>::empty()),
            }),
    {
        Self { property: String::new(), value: CssToken::Ident(String::new()) }
    }

    pub fn set_property(&mut self, property: String)
        ensures
            final(self)@ == (DeclarationView { property: property@, ..old(self)@ }),
    {
        self.property = property;
    }

    pub fn set_value(&mut self, value: ComponentValue)
        ensures
            final(self)@ == (DeclarationView { value: value@, ..old(self)@ }),
    {
        self.value = value;
    }
}

/// A selector with its block of declarations.
#[derive(Debug, Clone, PartialEq, Eq)]
pub struct QualifiedRule {
    pub selector: Selector,
    pub declarations: Vec<Declaration>,
}

/// What a rule holds.
pub struct RuleView {
    pub selector: SelectorView,
    pub declarations: Seq<DeclarationView>,
}

impl View for QualifiedRule {
    type V = RuleView;

    open spec fn view(&self) -> RuleView {
        RuleView {
            selector: self.selector@,
            declarations: declarations_view(self.declarations@),
        }
    }
}

/// A list of rules seen as a sequence of views.
pub open spec fn rules_view(v: Seq<QualifiedRule>) -> Seq<RuleView> {
    Seq::new(v.len(), |i: int| v[i]@)
}

/// The selector of a rule whose selector has not been read.
pub open spec fn blank_selector() -> SelectorView {
    SelectorView::TypeSelector(Seq::<char>::empty())
}

impl QualifiedRule {
    /// A rule for the type selector with the empty name, without declarations.
    pub fn new() -> (r: Self)
        ensures
            r@ == (RuleView {
                selector: blank_selector(),
                declarations: Seq::<DeclarationView>::empty(),
            }),
    {
        let r = Self { selector: Selector::TypeSelector(String::new()), declarations: Vec::new() };
        assert(declarations_view(r.declarations@) =~= Seq::<DeclarationView>::empty());
        r
    }

    pub fn set_selector(&mut self, selector: Selector)
        ensures
            final(self)@ == (RuleView { selector: selector@, ..old(self)@ }),
    {
        self.selector = selector;
    }

    pub fn set_declarations(&mut self, declarations: Vec<Declaration>)
        ensures
            final(self)@ == (RuleView {
                declarations: declarations_view(declarations@),
                ..old(self)@
            }),
    {
        self.declarations = declarations;
    }
}

/// The rules of a style sheet, in source order.
#[derive(Debug, Clone, PartialEq, Eq)]
pub struct StyleSheet {
    pub rules: Vec<QualifiedRule>,
}

impl View for StyleSheet {
    type V = Seq<RuleView>;

    open spec fn view(&self) -> Seq<RuleView> {
        rules_view(self.rules@)
    }
}

impl StyleSheet {
    /// A sheet without rules.
    pub fn new() -> (s: Self)
        ensures
            s@ == Seq::<RuleView>::empty(),
    {
        let s = Self { rules: Vec::new() };
        assert(s@ =~= Seq::<RuleView>::empty());
        s
    }

    pub fn set_rules(&mut self, rules: Vec<QualifiedRule>)
        ensures
            final(self)@ == rules_view(rules@),
    {
        self.rules = rules;
    }
}

/// The first position at or after `pos` that holds a `{`, or the end.
pub open spec fn skip_to_curly(ts: Seq<CssTokenView>, pos: int) -> int
    decreases ts.len() - pos,
{
    if 0 <= pos < ts.len() && !(ts[pos] is OpenCurly) {
        skip_to_curly(ts, pos + 1)
    } else {
        pos
    }
}

/// Skipping ends at or behind its start, and within the tokens.
pub proof fn lemma_skip_to_curly_bounds(ts: Seq<CssTokenView>, pos: int)
    requires
        0 <= pos <= ts.len(),
    ensures
        pos <= skip_to_curly(ts, pos) <= ts.len(),
    decreases ts.len() - pos,
{
    if pos < ts.len() && !(ts[pos] is OpenCurly) {
        lemma_skip_to_curly_bounds(ts, pos + 1);
    }
}

/// The name of an id selector: the hash token without its `#`.
pub open spec fn id_of_hash(v: Seq<char>) -> Seq<char> {
    if v.len() > 0 {
        v.subrange(1, v.len() as int)
    } else {
        v
    }
}

/// The selector that starts at `pos`, and the position behind it.
///
/// A hash token is an id selector; `.` with an identifier is a class
/// selector; an identifier is a type selector, and a pseudo-class behind it
/// is skipped up to the next `{`; an at-keyword is skipped up to the next `{`
/// and gives no selector. Any other token gives no selector either.
pub open spec fn selector_at(ts: Seq<CssTokenView>, pos: int) -> (SelectorView, int) {
    match ts[pos] {
        CssTokenView::HashToken(v) => (SelectorView::IdSelector(id_of_hash(v)), pos + 1),
        CssTokenView::Delim(c) => if c == '.' && pos + 1 < ts.len() && ts[pos + 1] is Ident {
            (SelectorView::ClassSelector(ts[pos + 1]->Ident_0), pos + 2)
        } else {
            (SelectorView::UnknownSelector, pos + 1)
        },
        CssTokenView::Ident(name) => (
            SelectorView::TypeSelector(name),
            if pos + 1 < ts.len() && ts[pos + 1] is Colon {
                skip_to_curly(ts, pos + 1)
            } else {
                pos + 1
            },
        ),
        CssTokenView::AtKeyword(_) => (SelectorView::UnknownSelector, skip_to_curly(ts, pos + 1)),
        _ => (SelectorView::UnknownSelector, pos + 1),
    }
}

/// The tokens that can be the value of a declaration.
pub open spec fn is_component_value(t: CssTokenView) -> bool {
    t is Ident || t is StringToken || t is Number || t is HashToken
}

/// The declaration that starts with the identifier at `pos`, and the
/// position behind it. Without a colon and a value behind the identifier
/// there is no declaration.
pub open spec fn declaration_at(ts: Seq<CssTokenView>, pos: int) -> (Option<DeclarationView>, int) {
    if pos + 1 >= ts.len() {
        (None, pos + 1)
    } else if !(ts[pos + 1] is Colon) {
        (None, pos + 2)
    } else if pos + 2 < ts.len() && is_component_value(ts[pos + 2]) {
        (Some(DeclarationView { property: ts[pos]->Ident_0, value: ts[pos + 2] }), pos + 3)
    } else {
        (None, pos + 2)
    }
}

/// The declarations of the block whose content starts at `pos`, and the
/// position behind its `}`.
pub open spec fn declarations_at(ts: Seq<CssTokenView>, pos: int) -> (Seq<DeclarationView>, int)
    decreases ts.len() - pos,
{
    if !(0 <= pos < ts.len()) {
        (Seq::<DeclarationView>::empty(), pos)
    } else if ts[pos] is CloseCurly {
        (Seq::<DeclarationView>::empty(), pos + 1)
    } else if ts[pos] is Ident {
        let (d, next) = declaration_at(ts, pos);
        let rest = declarations_at(ts, next);
        match d {
            Some(d) => (seq![d] + rest.0, rest.1),
            None => rest,
        }
    } else {
        declarations_at(ts, pos + 1)
    }
}

/// A block ends at or behind its start, and within the tokens.
pub proof fn lemma_declarations_bounds(ts: Seq<CssTokenView>, pos: int)
    requires
        0 <= pos <= ts.len(),
    ensures
        pos <= declarations_at(ts, pos).1 <= ts.len(),
    decreases ts.len() - pos,
{
    if pos < ts.len() {
        if ts[pos] is CloseCurly {
        } else if ts[pos] is Ident {
            lemma_declarations_bounds(ts, declaration_at(ts, pos).1);
        } else {
            lemma_declarations_bounds(ts, pos + 1);
        }
    }
}

/// The rule that starts at `pos`, and the position behind it. Its first
/// token determines the selector; a rule that starts with its block has the
/// type selector with the empty name. What stands between the selector and
/// the `{` of the block is passed over. There is no rule when the tokens end
/// before a `{`.
pub open spec fn rule_at(ts: Seq<CssTokenView>, pos: int) -> (Option<RuleView>, int) {
    if !(0 <= pos < ts.len()) {
        (None, pos)
    } else {
        let (selector, after) = if ts[pos] is OpenCurly {
            (blank_selector(), pos)
        } else {
            selector_at(ts, pos)
        };
        let open = skip_to_curly(ts, after);
        if 0 <= open < ts.len() {
            let (declarations, next) = declarations_at(ts, open + 1);
            (Some(RuleView { selector, declarations }), next)
        } else {
            (None, open)
        }
    }
}

/// A selector takes at least one token and ends within the tokens.
pub proof fn lemma_selector_bounds(ts: Seq<CssTokenView>, pos: int)
    requires
        0 <= pos < ts.len(),
    ensures
        pos < selector_at(ts, pos).1 <= ts.len(),
{
    lemma_skip_to_curly_bounds(ts, pos + 1);
}

/// A rule takes at least one token and ends within the tokens.
pub proof fn lemma_rule_bounds(ts: Seq<CssTokenView>, pos: int)
    requires
        0 <= pos <= ts.len(),
    ensures
        pos <= rule_at(ts, pos).1 <= ts.len(),
        pos < ts.len() ==> pos < rule_at(ts, pos).1,
{
    if pos < ts.len() {
        let after = if ts[pos] is OpenCurly {
            pos
        } else {
            lemma_selector_bounds(ts, pos);
            selector_at(ts, pos).1
        };
        lemma_skip_to_curly_bounds(ts, after);
        let open = skip_to_curly(ts, after);
        if open < ts.len() {
            lemma_declarations_bounds(ts, open + 1);
        }
    }
}

/// The rules of the sheet from `pos` on. A rule that starts with an
/// at-keyword is read and left out.
pub open spec fn rules_at(ts: Seq<CssTokenView>, pos: int) -> Seq<RuleView>
    decreases ts.len() - pos,
{
    if !(0 <= pos < ts.len()) {
        Seq::<RuleView>::empty()
    } else {
        let (rule, next) = rule_at(ts, pos);
        if ts[pos] is AtKeyword {
            if pos < next <= ts.len() {
                rules_at(ts, next)
            } else {
                Seq::<RuleView>::empty()
            }
        } else {
            match rule {
                Some(r) => if pos < next <= ts.len() {
                    seq![r] + rules_at(ts, next)
                } else {
                    seq![r]
                },
                None => Seq::<RuleView>::empty(),
            }
        }
    }
}

/// The style sheet that the text `css` is parsed into.
pub open spec fn parse_css(css: Seq<char>) -> Seq<RuleView> {
    rules_at(tokens_from(css, 0), 0)
}

/// The CSS parser over the tokens of one style sheet.
#[derive(Debug, Clone)]
pub struct CssParser {
    pub tokens: Vec<CssToken>,
    pub pos: usize,
}

impl CssParser {
    /// The read position lies within the tokens or just behind them.
    pub open spec fn wf(&self) -> bool {
        self.pos <= self.tokens@.len()
    }

    /// The tokens as the grammar sees them.
    pub open spec fn ts(&self) -> Seq<CssTokenView> {
        tokens_view(self.tokens@)
    }

    /// A parser over all the tokens that `t` still has to hand out.
    pub fn new(t: CssTokenizer) -> (p: Self)
        requires
            t.wf(),
        ensures
            p.wf(),
            p.pos == 0,
            p.ts() == tokens_from(t.input@, t.pos as int),
    {
        let mut t = t;
        let tokens = t.collect();
        CssParser { tokens, pos: 0 }
    }

    /// Parses what is left of the tokens into a style sheet.
    pub fn parse_stylesheet(&mut self) -> (sheet: StyleSheet)
        requires
            old(self).wf(),
        ensures
            final(self).wf(),
            final(self).tokens == old(self).tokens,
            sheet@ == rules_at(old(self).ts(), old(self).pos as int),
    {
        let mut sheet = StyleSheet::new();
        sheet.set_rules(self.consume_list_of_rules());
        sheet
    }

    fn consume_list_of_rules(&mut self) -> (rules: Vec<QualifiedRule>)
        requires
            old(self).wf(),
        ensures
            final(self).wf(),
            final(self).tokens == old(self).tokens,
            rules_view(rules@) == rules_at(old(self).ts(), old(self).pos as int),
    {
        let mut rules: Vec<QualifiedRule> = Vec::new();
        let ghost ts = self.ts();
        let ghost start = self.pos as int;
        loop
            invariant
                self.wf(),
                self.tokens == old(self).tokens,
                ts == old(self).ts(),
                start == old(self).pos,
                rules_view(rules@) + rules_at(ts, self.pos as int) == rules_at(ts, start),
            decreases self.tokens.len() - self.pos,
        {
            let ghost seen = rules_view(rules@);
            let ghost pos = self.pos as int;
            if self.pos >= self.tokens.len() {
                assert(seen + Seq::<RuleView>::empty() =~= seen);
                return rules;
            }
            proof {
                lemma_rule_bounds(ts, pos);
            }
            let is_at_rule = match &self.tokens[self.pos] {
                CssToken::AtKeyword(_) => true,
                _ => false,
            };
            let rule = self.consume_qualified_rule();
            if !is_at_rule {
                match rule {
                    Some(r) => {
                        rules.push(r);
                        proof {
                            assert(rules_view(rules@) =~= seen + seq![r@]);
                            assert(seen + (seq![r@] + rules_at(ts, self.pos as int)) =~= (seen
                                + seq![r@]) + rules_at(ts, self.pos as int));
                        }
                    },
                    None => {
                        assert(seen + Seq::<RuleView>::empty() =~= seen);
                        return rules;
                    },
                }
            }
        }
    }

    fn consume_qualified_rule(&mut self) -> (rule: Option<QualifiedRule>)
        requires
            old(self).wf(),
        ensures
            final(self).wf(),
            final(self).tokens == old(self).tokens,
            match rule {
                Some(r) => Some(r@),
                None => None,
            } == rule_at(old(self).ts(), old(self).pos as int).0,
            final(self).pos == rule_at(old(self).ts(), old(self).pos as int).1,
    {
        if self.pos >= self.tokens.len() {
            return None;
        }
        let mut rule = QualifiedRule::new();
        if !Self::is_open_curly(&self.tokens[self.pos]) {
            rule.set_selector(self.consume_selector());
        }
        self.skip_to_curly();
        if self.pos >= self.tokens.len() {
            return None;
        }
        self.pos = self.pos + 1;
        rule.set_declarations(self.consume_list_of_declarations());
        Some(rule)
    }

    /// Moves to the next `{`, or to the end when there is none.
    fn skip_to_curly(&mut self)
        requires
            old(self).wf(),
        ensures
            final(self).wf(),
            final(self).tokens == old(self).tokens,
            final(self).pos == skip_to_curly(old(self).ts(), old(self).pos as int),
    {
        while self.pos < self.tokens.len() && !Self::is_open_curly(&self.tokens[self.pos])
            invariant
                self.wf(),
                self.tokens == old(self).tokens,
                skip_to_curly(self.ts(), self.pos as int) == skip_to_curly(
                    old(self).ts(),
                    old(self).pos as int,
                ),
            decreases self.tokens.len() - self.pos,
        {
            self.pos = self.pos + 1;
        }
    }

    fn is_open_curly(t: &CssToken) -> (r: bool)
        ensures
            r == (t@ is OpenCurly),
    {
        match t {
            CssToken::OpenCurly => true,
            _ => false,
        }
    }

    fn is_colon(t: &CssToken) -> (r: bool)
        ensures
            r == (t@ is Colon),
    {
        match t {
            CssToken::Colon => true,
            _ => false,
        }
    }

    fn is_ident(t: &CssToken) -> (r: bool)
        ensures
            r == (t@ is Ident),
    {
        match t {
            CssToken::Ident(_) => true,
            _ => false,
        }
    }

    fn consume_selector(&mut self) -> (selector: Selector)
        requires
            old(self).wf(),
            old(self).pos < old(self).tokens.len(),
        ensures
            final(self).wf(),
            final(self).tokens == old(self).tokens,
            selector@ == selector_at(old(self).ts(), old(self).pos as int).0,
            final(self).pos == selector_at(old(self).ts(), old(self).pos as int).1,
    {
        let at = self.pos;
        let n = self.tokens.len();
        proof {
            lemma_skip_to_curly_bounds(self.ts(), at + 1);
        }
        self.pos = at + 1;
        match &self.tokens[at] {
            CssToken::HashToken(value) => {
                let chars = to_chars(value.as_str());
                let name = if chars.len() > 0 {
                    from_chars(&chars, 1, chars.len())
                } else {
                    String::new()
                };
                assert(name@ =~= id_of_hash(value@));
                Selector::IdSelector(name)
            },
            CssToken::Delim(delim) => {
                if *delim == '.' && at + 1 < n && Self::is_ident(&self.tokens[at + 1]) {
                    Selector::ClassSelector(self.consume_ident())
                } else {
                    Selector::UnknownSelector
                }
            },
            CssToken::Ident(ident) => {
                let name = ident.clone();
                if at + 1 < n && Self::is_colon(&self.tokens[at + 1]) {
                    self.skip_to_curly();
                }
                Selector::TypeSelector(name)
            },
            CssToken::AtKeyword(_keyword) => {
                self.skip_to_curly();
                Selector::UnknownSelector
            },
            _ => Selector::UnknownSelector,
        }
    }

    fn consume_list_of_declarations(&mut self) -> (declarations: Vec<Declaration>)
        requires
            old(self).wf(),
        ensures
            final(self).wf(),
            final(self).tokens == old(self).tokens,
            declarations_view(declarations@) == declarations_at(
                old(self).ts(),
                old(self).pos as int,
            ).0,
            final(self).pos == declarations_at(old(self).ts(), old(self).pos as int).1,
    {
        let mut declarations: Vec<Declaration> = Vec::new();
        let ghost ts = self.ts();
        let ghost start = self.pos as int;
        loop
            invariant
                self.wf(),
                self.tokens == old(self).tokens,
                ts == old(self).ts(),
                start == old(self).pos,
                declarations_view(declarations@) + declarations_at(ts, self.pos as int).0
                    == declarations_at(ts, start).0,
                declarations_at(ts, self.pos as int).1 == declarations_at(ts, start).1,
            decreases self.tokens.len() - self.pos,
        {
            let ghost seen = declarations_view(declarations@);
            if self.pos >= self.tokens.len() {
                assert(seen + Seq::<DeclarationView>::empty() =~= seen);
                return declarations;
            }
            match &self.tokens[self.pos] {
                CssToken::CloseCurly => {
                    self.pos = self.pos + 1;
                    assert(seen + Seq::<DeclarationView>::empty() =~= seen);
                    return declarations;
                },
                CssToken::Ident(_) => {
                    let ghost pos = self.pos as int;
                    if let Some(declaration) = self.consume_declaration() {
                        declarations.push(declaration);
                        proof {
                            let rest = declarations_at(ts, self.pos as int).0;
                            assert(declarations_view(declarations@) =~= seen + seq![
                                declaration@,
                            ]);
                            assert(seen + (seq![declaration@] + rest) =~= (seen + seq![
                                declaration@,
                            ]) + rest);
                        }
                    }
                },
                _ => {
                    self.pos = self.pos + 1;
                },
            }
        }
    }

    fn consume_declaration(&mut self) -> (declaration: Option<Declaration>)
        requires
            old(self).wf(),
            old(self).pos < old(self).tokens.len(),
            old(self).ts()[old(self).pos as int] is Ident,
        ensures
            final(self).wf(),
            final(self).tokens == old(self).tokens,
            match declaration {
                Some(d) => Some(d@),
                None => None,
            } == declaration_at(old(self).ts(), old(self).pos as int).0,
            final(self).pos == declaration_at(old(self).ts(), old(self).pos as int).1,
            old(self).pos < final(self).pos,
    {
        let mut declaration = Declaration::new();
        declaration.set_property(self.consume_ident());
        if self.pos >= self.tokens.len() {
            return None;
        }
        let colon = Self::is_colon(&self.tokens[self.pos]);
        self.pos = self.pos + 1;
        if !colon {
            return None;
        }
        if self.pos >= self.tokens.len() {
            return None;
        }
        let is_value = match &self.tokens[self.pos] {
            CssToken::Ident(_) | CssToken::StringToken(_) | CssToken::Number(_) | CssToken::HashToken(
                _,
            ) => true,
            _ => false,
        };
        if !is_value {
            return None;
        }
        declaration.set_value(self.consume_component_value());
        Some(declaration)
    }

    /// Takes the identifier at the current position.
    fn consume_ident(&mut self) -> (ident: String)
        requires
            old(self).wf(),
            old(self).pos < old(self).tokens.len(),
            old(self).ts()[old(self).pos as int] is Ident,
        ensures
            final(self).wf(),
            final(self).tokens == old(self).tokens,
            final(self).pos == old(self).pos + 1,
            ident@ == old(self).ts()[old(self).pos as int]->Ident_0,
    {
        let at = self.pos;
        self.pos = at + 1;
        match &self.tokens[at] {
            CssToken::Ident(ident) => ident.clone(),
            _ => String::new(),
        }
    }

    /// Takes the token at the current position as a value.
    fn consume_component_value(&mut self) -> (value: ComponentValue)
        requires
            old(self).wf(),
            old(self).pos < old(self).tokens.len(),
        ensures
            final(self).wf(),
            final(self).tokens == old(self).tokens,
            final(self).pos == old(self).pos + 1,
            value@ == old(self).ts()[old(self).pos as int],
    {
        let at = self.pos;
        self.pos = at + 1;
        self.tokens[at].duplicate()
    }
}

} // verus!
