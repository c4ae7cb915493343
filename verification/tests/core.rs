use mythic_core::error_registry::Severity;
use mythic_core::expressions::{
    HealthModifierValue, HealthModifierValueOrRange, MlcValueContainer, MlcValueIdentifier,
    SkillLine,
};
use mythic_core::lexer::{MythicScanner, MythicToken, TokenType};
use mythic_core::parser::Parser;
use mythic_core::positions_and_ranges::{CustomPosition, CustomRange};
use mythic_core::schema::YamlSchemaString;

fn scan(source: &str) -> Vec<MythicToken> {
    let mut scanner = MythicScanner::new(String::from(source));
    scanner.scan_tokens().expect("scan should succeed")
}

fn parse(source: &str) -> SkillLine {
    let tokens = scan(source);
    let mut parser = Parser::new(tokens, String::from(source));
    parser.parse().expect("parse should succeed")
}

#[test]
fn position_from_offset_walks_lines() {
    let source = "ab\ncd\ne";
    assert_eq!(CustomPosition::from_offset(0, source), CustomPosition::new(0, 0));
    assert_eq!(CustomPosition::from_offset(1, source), CustomPosition::new(0, 1));
    assert_eq!(CustomPosition::from_offset(2, source), CustomPosition::new(0, 2));
    assert_eq!(CustomPosition::from_offset(3, source), CustomPosition::new(1, 0));
    assert_eq!(CustomPosition::from_offset(6, source), CustomPosition::new(2, 0));
    // an offset past the end clamps to the last position reached
    assert_eq!(CustomPosition::from_offset(99, source), CustomPosition::new(2, 1));
}

#[test]
fn offset_position_roundtrip_is_stable() {
    let source = "one\ntwo three\n\nfour";
    for offset in 0..=(source.chars().count() as u32) {
        let position = CustomPosition::from_offset(offset, source);
        let back = position.to_offset(source);
        assert_eq!(back, offset);
        assert_eq!(CustomPosition::from_offset(back, source), position);
    }
}

#[test]
fn range_contains_is_a_strict_open_interval() {
    let range = CustomRange::new(CustomPosition::new(1, 2), CustomPosition::new(3, 4));
    assert!(!range.contains(&CustomPosition::new(1, 2)));
    assert!(!range.contains(&CustomPosition::new(3, 4)));
    assert!(range.contains(&CustomPosition::new(2, 0)));
    assert!(range.contains(&CustomPosition::new(1, 3)));
    assert!(range.contains(&CustomPosition::new(3, 3)));
    assert!(!range.contains(&CustomPosition::new(0, 9)));
    assert!(!range.contains(&CustomPosition::new(3, 5)));
}

#[test]
fn range_length_and_text() {
    let source = "abc\ndef";
    let range = CustomRange::new(
        CustomPosition::from_offset(1, source),
        CustomPosition::from_offset(6, source),
    );
    assert_eq!(range.length(source), 5);
    assert_eq!(range.get_from(source), "bc\nde");
    // an inverted range defensively reports length 1
    let inverted = CustomRange::new(CustomPosition::new(2, 0), CustomPosition::new(1, 0));
    assert_eq!(inverted.length(source), 1);
}

#[test]
fn scanning_empty_source_yields_only_eof() {
    let tokens = scan("");
    assert_eq!(tokens.len(), 1);
    assert_eq!(tokens[0].type_, TokenType::Eof);
    assert_eq!(tokens[0].start, 0);
    assert_eq!(tokens[0].current, 0);
}

#[test]
fn scanning_tokenizes_a_full_line() {
    let tokens = scan("fire{a=1} @self ~hit ?cond %50 >10");
    let types: Vec<TokenType> = tokens.iter().map(|t| t.type_).collect();
    assert_eq!(
        types,
        vec![
            TokenType::Identifier,
            TokenType::LeftBrace,
            TokenType::Identifier,
            TokenType::Equal,
            TokenType::Number,
            TokenType::RightBrace,
            TokenType::Space,
            TokenType::At,
            TokenType::Identifier,
            TokenType::Space,
            TokenType::Tilde,
            TokenType::Identifier,
            TokenType::Space,
            TokenType::Question,
            TokenType::Identifier,
            TokenType::Space,
            TokenType::Percent,
            TokenType::Number,
            TokenType::Space,
            TokenType::GreaterThan,
            TokenType::Number,
            TokenType::Eof,
        ]
    );
    assert_eq!(tokens[0].lexeme.as_deref(), Some("fire"));
    assert_eq!(tokens[4].literal.as_deref(), Some("1"));
}

#[test]
fn scanning_quoted_strings_and_numbers() {
    let tokens = scan("\"hi there\" 12.5");
    assert_eq!(tokens[0].type_, TokenType::String);
    assert_eq!(tokens[0].literal.as_deref(), Some("hi there"));
    assert_eq!(tokens[2].type_, TokenType::Number);
    assert_eq!(tokens[2].lexeme.as_deref(), Some("12.5"));
}

#[test]
fn scanning_unterminated_string_fails_with_consumed_range() {
    let mut scanner = MythicScanner::new(String::from("\"abc"));
    let err = scanner.scan_tokens().expect_err("scan should fail");
    assert_eq!(err.message, "Unterminated string.");
    assert_eq!(err.range.start, CustomPosition::new(0, 0));
    assert_eq!(err.range.end, CustomPosition::new(0, 4));
}

#[test]
fn scanning_unexpected_character_fails() {
    let mut scanner = MythicScanner::new(String::from("ab #"));
    let err = scanner.scan_tokens().expect_err("scan should fail");
    assert_eq!(err.message, "Unexpected character: #");
}

#[test]
fn parsing_bare_identifier_gives_plain_skill_line() {
    let source = "fireball";
    let ast = parse(source);
    assert_eq!(ast.mechanic.name.tokens.len(), 1);
    let name = &ast.mechanic.name.tokens[0];
    assert_eq!(name.lexeme.as_deref(), Some("fireball"));
    assert_eq!(name.start, 0);
    assert_eq!(name.current, source.len() as u32);
    assert!(ast.mechanic.mlc.is_none());
    assert!(ast.targeter.is_none());
    assert!(ast.trigger.is_none());
    assert!(ast.conditions.is_empty());
    assert!(ast.chance.is_none());
    assert!(ast.health_modifier.is_none());
}

#[test]
fn parsing_full_line_fills_every_modifier() {
    let ast = parse("fireball{damage=10} @EntitiesInRadius{radius=5} ~onDamaged ?enemy %50 >10");
    let mech_mlc = ast.mechanic.mlc.as_ref().expect("mechanic config");
    assert_eq!(mech_mlc.mlcs.len(), 1);
    assert_eq!(mech_mlc.mlcs[0].key.lexeme.as_deref(), Some("damage"));
    let targeter = ast.targeter.as_ref().expect("targeter");
    assert_eq!(targeter.name.lexeme.as_deref(), Some("EntitiesInRadius"));
    let targeter_mlc = targeter.mlc.as_ref().expect("targeter config");
    assert_eq!(targeter_mlc.mlcs.len(), 1);
    assert_eq!(targeter_mlc.mlcs[0].key.lexeme.as_deref(), Some("radius"));
    let trigger = ast.trigger.as_ref().expect("trigger");
    assert_eq!(trigger.name.tokens[0].lexeme.as_deref(), Some("onDamaged"));
    assert!(trigger.colon.is_none());
    assert!(trigger.arg.is_none());
    assert_eq!(ast.conditions.len(), 1);
    assert_eq!(ast.conditions[0].name.lexeme.as_deref(), Some("enemy"));
    let chance = ast.chance.as_ref().expect("chance");
    assert_eq!(chance.token.lexeme.as_deref(), Some("50"));
    let hm = ast.health_modifier.as_ref().expect("health modifier");
    assert_eq!(hm.operator.type_, TokenType::GreaterThan);
    match &hm.value {
        HealthModifierValueOrRange::Value(HealthModifierValue::Absolute(t)) => {
            assert_eq!(t.lexeme.as_deref(), Some("10"));
        }
        other => panic!("expected absolute value, got {:?}", other),
    }
}

#[test]
fn parsing_duplicate_targeter_reports_first_targeter_range() {
    let source = "fireball @self @self";
    let tokens = scan(source);
    let mut parser = Parser::new(tokens, String::from(source));
    let err = parser.parse().expect_err("parse should fail");
    assert_eq!(err.code, "targeter_already_defined_error");
    assert_eq!(err.code_number, 1);
    assert_eq!(err.severity, Severity::Error);
    // the range is that of the first `@self`
    assert_eq!(err.range.start, CustomPosition::new(0, 9));
    assert_eq!(err.range.end, CustomPosition::new(0, 14));
}

#[test]
fn parsing_duplicate_trigger_reports_first_trigger_range() {
    let source = "fireball ~hit ~hit";
    let tokens = scan(source);
    let mut parser = Parser::new(tokens, String::from(source));
    let err = parser.parse().expect_err("parse should fail");
    assert_eq!(err.code, "trigger_already_defined_error");
    assert_eq!(err.code_number, 2);
    assert_eq!(err.range.start, CustomPosition::new(0, 9));
    assert_eq!(err.range.end, CustomPosition::new(0, 13));
}

#[test]
fn parsing_placeholder_splits_value_into_runs() {
    let ast = parse("fireball{power=<caster.name>}");
    let mlc = ast.mechanic.mlc.as_ref().expect("config");
    assert_eq!(mlc.mlcs.len(), 1);
    let value = match &mlc.mlcs[0].value {
        MlcValueContainer::MlcValue(v) => v,
        other => panic!("expected a plain value, got {:?}", other),
    };
    assert_eq!(value.identifiers.len(), 3);
    match &value.identifiers[0] {
        MlcValueIdentifier::Identifiers(run) => assert!(run.is_empty()),
        other => panic!("expected leading literal run, got {:?}", other),
    }
    match &value.identifiers[1] {
        MlcValueIdentifier::Placeholder(ph) => {
            assert_eq!(ph.identifiers.len(), 2);
            assert_eq!(ph.identifiers[0].name.tokens[0].lexeme.as_deref(), Some("caster"));
            assert_eq!(ph.identifiers[1].name.tokens[0].lexeme.as_deref(), Some("name"));
            assert_eq!(ph.dots.len(), 1);
        }
        other => panic!("expected placeholder, got {:?}", other),
    }
    match &value.identifiers[2] {
        MlcValueIdentifier::Identifiers(run) => assert!(run.is_empty()),
        other => panic!("expected trailing literal run, got {:?}", other),
    }
}

#[test]
fn parsing_health_modifier_range_only_with_equals() {
    let ast = parse("fireball =10-20");
    let hm = ast.health_modifier.as_ref().expect("health modifier");
    assert_eq!(hm.operator.type_, TokenType::Equal);
    match &hm.value {
        HealthModifierValueOrRange::Range(
            HealthModifierValue::Absolute(lo),
            HealthModifierValue::Absolute(hi),
        ) => {
            assert_eq!(lo.lexeme.as_deref(), Some("10"));
            assert_eq!(hi.lexeme.as_deref(), Some("20"));
        }
        other => panic!("expected range, got {:?}", other),
    }

    let tokens = scan("fireball >10-20");
    let mut parser = Parser::new(tokens, String::from("fireball >10-20"));
    let err = parser.parse().expect_err("range form is illegal for '>'");
    assert_eq!(err.code, "syntax_error");
    assert_eq!(err.message, "Expected a valid skill line modifier");
}

#[test]
fn parsing_percentage_health_modifier() {
    let ast = parse("heal <50%");
    let hm = ast.health_modifier.as_ref().expect("health modifier");
    assert_eq!(hm.operator.type_, TokenType::LessThan);
    match &hm.value {
        HealthModifierValueOrRange::Value(HealthModifierValue::Percentage(n, pct)) => {
            assert_eq!(n.lexeme.as_deref(), Some("50"));
            assert_eq!(pct.type_, TokenType::Percent);
        }
        other => panic!("expected percentage, got {:?}", other),
    }
}

#[test]
fn parsing_trigger_argument_after_colon() {
    let ast = parse("cast ~onSignal:beam");
    let trigger = ast.trigger.as_ref().expect("trigger");
    assert_eq!(trigger.name.tokens[0].lexeme.as_deref(), Some("onSignal"));
    assert!(trigger.colon.is_some());
    let arg = trigger.arg.as_ref().expect("argument");
    assert_eq!(arg.tokens[0].lexeme.as_deref(), Some("beam"));
}

#[test]
fn parsing_condition_prefixes_and_duplicates() {
    let ast = parse("cast ?!~enemy");
    assert_eq!(ast.conditions.len(), 1);
    assert!(ast.conditions[0].exclamation_mark.is_some());
    assert!(ast.conditions[0].tilde.is_some());

    let tokens = scan("cast ?!!enemy");
    let mut parser = Parser::new(tokens, String::from("cast ?!!enemy"));
    let err = parser.parse().expect_err("duplicate prefix should fail");
    assert_eq!(err.message, "Duplicate inline condition trigger symbol!");
}

#[test]
fn parsing_missing_chance_value_fails() {
    let tokens = scan("cast %");
    let mut parser = Parser::new(tokens, String::from("cast %"));
    let err = parser.parse().expect_err("a chance needs a number");
    assert_eq!(err.message, "Expected a chance value after '%'!");
}

#[test]
fn parsing_empty_source_demands_a_mechanic() {
    let tokens = scan("");
    let mut parser = Parser::new(tokens, String::new());
    let err = parser.parse().expect_err("empty input has no mechanic");
    assert_eq!(err.message, "Expected mechanic name!");
    assert_eq!(err.code_number, 0);
}

#[test]
fn token_range_spans_its_lexeme() {
    let tokens = scan("ab cd");
    let second = &tokens[2];
    assert_eq!(second.lexeme.as_deref(), Some("cd"));
    let range = second.get_range();
    assert_eq!(range.start, CustomPosition::new(0, 3));
    assert_eq!(range.end, CustomPosition::new(0, 5));
    assert_eq!(second.length(), 2);
}

#[test]
fn schema_string_validates_scalars() {
    let any = YamlSchemaString::new(None);
    assert_eq!(any.get_description(), "string");
    assert!(any.validate(Some("hello")));
    assert!(!any.validate(None));
    let pinned = YamlSchemaString::new(Some(String::from("on")));
    assert_eq!(pinned.get_description(), "\"on\"");
    assert!(pinned.validate(Some("on")));
    assert!(!pinned.validate(Some("off")));
}

#[test]
fn positions_compare_lexicographically() {
    let a = CustomPosition::new(1, 5);
    let b = CustomPosition::new(2, 0);
    assert_eq!(a.compare(&b), std::cmp::Ordering::Less);
    assert_eq!(b.compare(&a), std::cmp::Ordering::Greater);
    assert_eq!(a.compare(&CustomPosition::new(1, 5)), std::cmp::Ordering::Equal);
    let mut c = a;
    c.add_line(1);
    c.subtract_character(5);
    assert_eq!(c, CustomPosition::new(2, 0));
    assert_eq!(a.add(&b), CustomPosition::new(3, 5));
}
