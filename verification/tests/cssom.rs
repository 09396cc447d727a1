use saba_core::renderer::css::cssom::ComponentValue;
use saba_core::renderer::css::cssom::CssParser;
use saba_core::renderer::css::cssom::Declaration;
use saba_core::renderer::css::cssom::QualifiedRule;
use saba_core::renderer::css::cssom::Selector;
use saba_core::renderer::css::cssom::StyleSheet;
use saba_core::renderer::css::token::CssToken;
use saba_core::renderer::css::token::CssTokenizer;

fn parse(style: &str) -> StyleSheet {
    let t = CssTokenizer::new(style.to_string());
    CssParser::new(t).parse_stylesheet()
}

fn color_red_rule(selector: Selector) -> QualifiedRule {
    let mut rule = QualifiedRule::new();
    rule.set_selector(selector);
    let mut declaration = Declaration::new();
    declaration.set_property("color".to_string());
    declaration.set_value(ComponentValue::Ident("red".to_string()));
    rule.set_declarations(vec![declaration]);
    rule
}

#[test]
fn cssom_test_empty() {
    let style = "".to_string();
    let t = CssTokenizer::new(style);
    let cssom = CssParser::new(t).parse_stylesheet();

    assert_eq!(cssom.rules.len(), 0);
}

#[test]
fn test_one_rule() {
    let style = "p { color: red; }".to_string();
    let t = CssTokenizer::new(style);
    let cssom = CssParser::new(t).parse_stylesheet();

    let mut rule = QualifiedRule::new();
    rule.set_selector(Selector::TypeSelector("p".to_string()));
    let mut declaration = Declaration::new();
    declaration.set_property("color".to_string());
    declaration.set_value(ComponentValue::Ident("red".to_string()));
    rule.set_declarations(vec![declaration]);

    let expected = [rule];
    assert_eq!(cssom.rules.len(), expected.len());

    let mut i = 0;
    for rule in &cssom.rules {
        assert_eq!(&expected[i], rule);
        i += 1;
    }
}

#[test]
fn test_id_selector() {
    let style = "#id { color: red; }".to_string();
    let t = CssTokenizer::new(style);
    let cssom = CssParser::new(t).parse_stylesheet();

    let mut rule = QualifiedRule::new();
    rule.set_selector(Selector::IdSelector("id".to_string()));
    let mut declaration = Declaration::new();
    declaration.set_property("color".to_string());
    declaration.set_value(ComponentValue::Ident("red".to_string()));
    rule.set_declarations(vec![declaration]);

    let expected = [rule];
    assert_eq!(cssom.rules.len(), expected.len());

    let mut i = 0;
    for rule in &cssom.rules {
        assert_eq!(&expected[i], rule);
        i += 1;
    }
}

#[test]
fn test_class_selector() {
    let style = ".class { color: red; }".to_string();
    let t = CssTokenizer::new(style);
    let cssom = CssParser::new(t).parse_stylesheet();

    let mut rule = QualifiedRule::new();
    rule.set_selector(Selector::ClassSelector("class".to_string()));
    let mut declaration = Declaration::new();
    declaration.set_property("color".to_string());
    declaration.set_value(ComponentValue::Ident("red".to_string()));
    rule.set_declarations(vec![declaration]);

    let expected = [rule];
    assert_eq!(cssom.rules.len(), expected.len());

    let mut i = 0;
    for rule in &cssom.rules {
        assert_eq!(&expected[i], rule);
        i += 1;
    }
}

#[test]
fn test_multiple_rules() {
    let style = "p { content: \"Hey\"; } h1 { font-size: 40; color: blue; }".to_string();
    let t = CssTokenizer::new(style);
    let cssom = CssParser::new(t).parse_stylesheet();

    let mut rule1 = QualifiedRule::new();
    rule1.set_selector(Selector::TypeSelector("p".to_string()));
    let mut declaration1 = Declaration::new();
    declaration1.set_property("content".to_string());
    declaration1.set_value(ComponentValue::StringToken("Hey".to_string()));
    rule1.set_declarations(vec![declaration1]);

    let mut rule2 = QualifiedRule::new();
    rule2.set_selector(Selector::TypeSelector("h1".to_string()));
    let mut declaration2 = Declaration::new();
    declaration2.set_property("font-size".to_string());
    declaration2.set_value(ComponentValue::Number("40".to_string()));
    let mut declaration3 = Declaration::new();
    declaration3.set_property("color".to_string());
    declaration3.set_value(ComponentValue::Ident("blue".to_string()));
    rule2.set_declarations(vec![declaration2, declaration3]);

    let expected = [rule1, rule2];
    assert_eq!(cssom.rules.len(), expected.len());

    let mut i = 0;
    for rule in &cssom.rules {
        assert_eq!(&expected[i], rule);
        i += 1;
    }
}

#[test]
fn css_tokens_of_every_kind() {
    let mut t = CssTokenizer::new("a#b{c:1.5;}(\"s\")@media,".to_string());
    let tokens = t.collect();
    assert_eq!(
        tokens,
        vec![
            CssToken::Ident("a".to_string()),
            CssToken::HashToken("#b".to_string()),
            CssToken::OpenCurly,
            CssToken::Ident("c".to_string()),
            CssToken::Colon,
            CssToken::Number("1.5".to_string()),
            CssToken::Semicolon,
            CssToken::CloseCurly,
            CssToken::OpenParen,
            CssToken::StringToken("s".to_string()),
            CssToken::CloseParen,
            CssToken::AtKeyword("media".to_string()),
            CssToken::Delim(','),
        ]
    );
}

#[test]
fn css_at_rule_is_left_out() {
    let sheet = parse("@media screen { color: red; } p { color: red; }");
    assert_eq!(sheet.rules, vec![color_red_rule(Selector::TypeSelector("p".to_string()))]);
}

#[test]
fn css_pseudo_class_is_skipped() {
    let sheet = parse("a:hover { color: red; }");
    assert_eq!(sheet.rules, vec![color_red_rule(Selector::TypeSelector("a".to_string()))]);
}

#[test]
fn css_declaration_without_value_is_dropped() {
    let sheet = parse("p { width: ; color: red; height }");
    assert_eq!(sheet.rules, vec![color_red_rule(Selector::TypeSelector("p".to_string()))]);
}

#[test]
fn css_unknown_property_is_kept() {
    let sheet = parse("p { margin: auto; }");
    assert_eq!(sheet.rules.len(), 1);
    assert_eq!(sheet.rules[0].declarations.len(), 1);
    assert_eq!(sheet.rules[0].declarations[0].property, "margin");
    assert_eq!(sheet.rules[0].declarations[0].value, CssToken::Ident("auto".to_string()));
}

#[test]
fn css_rule_without_block_ends_the_sheet() {
    let sheet = parse("p { color: red; } h1");
    assert_eq!(sheet.rules.len(), 1);
}

#[test]
fn css_first_token_determines_the_selector() {
    let sheet = parse("p a { color: red; } { color: red; }");
    assert_eq!(
        sheet.rules,
        vec![
            color_red_rule(Selector::TypeSelector("p".to_string())),
            color_red_rule(Selector::TypeSelector("".to_string())),
        ]
    );
    let sheet = parse("* { color: red; } . { color: red; }");
    assert_eq!(
        sheet.rules,
        vec![
            color_red_rule(Selector::UnknownSelector),
            color_red_rule(Selector::UnknownSelector),
        ]
    );
}
