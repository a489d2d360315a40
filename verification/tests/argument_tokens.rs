use bestbefore::arguments::{parse_arguments, ArgToken, RawArgument, SyntaxError};
use bestbefore::target::{item_name, TargetKind};

fn lit(text: &str) -> ArgToken {
    ArgToken::Literal(text.to_string())
}

fn ident(text: &str) -> ArgToken {
    ArgToken::Ident(text.to_string())
}

fn comma() -> ArgToken {
    ArgToken::Punct(',')
}

fn equals() -> ArgToken {
    ArgToken::Punct('=')
}

fn date(text: &str) -> RawArgument {
    RawArgument::Positional(text.to_string())
}

fn named(key: &str, value: &str) -> RawArgument {
    RawArgument::Named { key: key.to_string(), value: value.to_string() }
}

#[test]
fn no_tokens_spell_no_arguments() {
    assert_eq!(parse_arguments(&vec![]), Ok(vec![]));
}

#[test]
fn a_literal_is_a_date_on_its_own() {
    assert_eq!(parse_arguments(&vec![lit("03.2024")]), Ok(vec![date("03.2024")]));
}

#[test]
fn an_identifier_with_a_value_is_a_named_argument() {
    assert_eq!(
        parse_arguments(&vec![ident("expires"), equals(), lit("01.2028")]),
        Ok(vec![named("expires", "01.2028")])
    );
}

#[test]
fn arguments_are_parted_by_commas() {
    let tokens = vec![
        lit("01.2023"),
        comma(),
        ident("expires"),
        equals(),
        lit("12.2023"),
        comma(),
        ident("message"),
        equals(),
        lit("use new_api()"),
    ];
    assert_eq!(
        parse_arguments(&tokens),
        Ok(vec![date("01.2023"), named("expires", "12.2023"), named("message", "use new_api()")])
    );
}

#[test]
fn one_trailing_comma_is_accepted() {
    assert_eq!(parse_arguments(&vec![lit("01.2023"), comma()]), Ok(vec![date("01.2023")]));
    assert_eq!(
        parse_arguments(&vec![ident("expires"), equals(), lit("12.2023"), comma()]),
        Ok(vec![named("expires", "12.2023")])
    );
}

#[test]
fn keys_and_places_are_not_judged_here() {
    assert_eq!(
        parse_arguments(&vec![ident("anything"), equals(), lit("x"), comma(), lit("y")]),
        Ok(vec![named("anything", "x"), date("y")])
    );
}

#[test]
fn a_comma_where_an_argument_must_stand_is_refused() {
    assert_eq!(parse_arguments(&vec![comma()]), Err(SyntaxError { position: 0 }));
    assert_eq!(
        parse_arguments(&vec![lit("a"), comma(), comma()]),
        Err(SyntaxError { position: 2 })
    );
}

#[test]
fn a_missing_comma_is_refused() {
    assert_eq!(parse_arguments(&vec![lit("a"), lit("b")]), Err(SyntaxError { position: 1 }));
    assert_eq!(
        parse_arguments(&vec![lit("a"), ident("expires"), equals(), lit("b")]),
        Err(SyntaxError { position: 1 })
    );
}

#[test]
fn a_name_without_equals_is_refused() {
    assert_eq!(parse_arguments(&vec![ident("expires")]), Err(SyntaxError { position: 1 }));
    assert_eq!(
        parse_arguments(&vec![ident("expires"), lit("x")]),
        Err(SyntaxError { position: 1 })
    );
    assert_eq!(
        parse_arguments(&vec![ident("expires"), ArgToken::Punct(':'), lit("x")]),
        Err(SyntaxError { position: 1 })
    );
}

#[test]
fn a_name_without_a_literal_value_is_refused() {
    assert_eq!(
        parse_arguments(&vec![ident("expires"), equals()]),
        Err(SyntaxError { position: 2 })
    );
    assert_eq!(
        parse_arguments(&vec![ident("expires"), equals(), ident("soon")]),
        Err(SyntaxError { position: 2 })
    );
    assert_eq!(
        parse_arguments(&vec![ident("expires"), equals(), ArgToken::Other]),
        Err(SyntaxError { position: 2 })
    );
}

#[test]
fn other_tokens_are_refused() {
    assert_eq!(parse_arguments(&vec![ArgToken::Other]), Err(SyntaxError { position: 0 }));
    assert_eq!(
        parse_arguments(&vec![lit("a"), comma(), ArgToken::Punct('=')]),
        Err(SyntaxError { position: 2 })
    );
}

#[test]
fn items_are_called_by_name_or_by_kind_and_name() {
    assert_eq!(item_name(&TargetKind::Function("legacy_function".to_string())), "legacy_function");
    assert_eq!(item_name(&TargetKind::Module("legacy_module".to_string())), "legacy_module");
    assert_eq!(item_name(&TargetKind::Implementation), "implementation block");
    assert_eq!(item_name(&TargetKind::Trait("Old".to_string())), "trait Old");
    assert_eq!(item_name(&TargetKind::Struct("OldStructure".to_string())), "struct OldStructure");
    assert_eq!(item_name(&TargetKind::Enum("Kind".to_string())), "enum Kind");
    assert_eq!(item_name(&TargetKind::Other), "code block");
}
