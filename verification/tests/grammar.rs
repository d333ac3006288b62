use core_macro::synth::resolve_field;
use core_macro::{Attribute, Error, Literal, Place, Token, VersionMeta};

fn ident(s: &str) -> Token {
    Token::Ident(s.to_string())
}

fn lit(s: &str) -> Token {
    Token::Str(format!("\"{}\"", s))
}

fn pair(word: &str, value: &str) -> Vec<Token> {
    vec![ident(word), Token::Punct('='), lit(value)]
}

fn literal(value: &str, attr: usize, token: usize) -> Literal {
    Literal { text: format!("\"{}\"", value), place: Place { attr, token } }
}

fn version(tokens: Vec<Token>) -> Attribute {
    Attribute { path: "version".to_string(), tokens }
}

#[test]
fn item_since() {
    let tokens = pair("since", "1.0");
    let (meta, next) = VersionMeta::parse(&tokens, 4, 0).unwrap();
    assert_eq!(meta, VersionMeta { since: Some(literal("1.0", 4, 2)), until: None });
    assert_eq!(next, 3);
}

#[test]
fn item_until() {
    let mut tokens = vec![Token::Other];
    tokens.extend(pair("until", "15.0"));
    let (meta, next) = VersionMeta::parse(&tokens, 0, 1).unwrap();
    assert_eq!(meta, VersionMeta { since: None, until: Some(literal("15.0", 0, 3)) });
    assert_eq!(next, 4);
}

#[test]
fn item_without_keyword_is_empty() {
    let tokens = vec![ident("from"), Token::Punct('='), lit("1.0")];
    let (meta, next) = VersionMeta::parse(&tokens, 0, 0).unwrap();
    assert_eq!(meta, VersionMeta { since: None, until: None });
    assert_eq!(next, 0);
    let (meta, next) = VersionMeta::parse(&tokens, 0, 3).unwrap();
    assert_eq!(meta, VersionMeta::new());
    assert_eq!(next, 3);
}

#[test]
fn item_keyword_without_equals() {
    let tokens = vec![ident("since"), lit("1.0")];
    assert_eq!(
        VersionMeta::parse(&tokens, 2, 0),
        Err(Error::Syntax { at: Place { attr: 2, token: 1 } })
    );
    let tokens = vec![ident("until")];
    assert_eq!(
        VersionMeta::parse(&tokens, 0, 0),
        Err(Error::Syntax { at: Place { attr: 0, token: 1 } })
    );
}

#[test]
fn item_keyword_without_string() {
    let tokens = vec![ident("since"), Token::Punct('='), Token::Other];
    assert_eq!(
        VersionMeta::parse(&tokens, 0, 0),
        Err(Error::Syntax { at: Place { attr: 0, token: 2 } })
    );
    let tokens = vec![ident("since"), Token::Punct('=')];
    assert_eq!(
        VersionMeta::parse(&tokens, 0, 0),
        Err(Error::Syntax { at: Place { attr: 0, token: 2 } })
    );
}

#[test]
fn list_of_nothing() {
    assert_eq!(VersionMeta::parse_list(&vec![], 0), Ok(vec![]));
}

#[test]
fn list_of_two_with_and_without_last_comma() {
    let mut tokens = pair("since", "1.0");
    tokens.push(Token::Punct(','));
    tokens.extend(pair("until", "15.0"));
    let expected = vec![
        VersionMeta { since: Some(literal("1.0", 0, 2)), until: None },
        VersionMeta { since: None, until: Some(literal("15.0", 0, 6)) },
    ];
    assert_eq!(VersionMeta::parse_list(&tokens, 0), Ok(expected.clone()));
    tokens.push(Token::Punct(','));
    assert_eq!(VersionMeta::parse_list(&tokens, 0), Ok(expected));
}

#[test]
fn list_of_commas_holds_empty_items() {
    let tokens = vec![Token::Punct(','), Token::Punct(',')];
    assert_eq!(
        VersionMeta::parse_list(&tokens, 0),
        Ok(vec![VersionMeta::new(), VersionMeta::new()])
    );
}

#[test]
fn list_without_comma_between_items() {
    let mut tokens = pair("since", "1.0");
    tokens.extend(pair("until", "15.0"));
    assert_eq!(
        VersionMeta::parse_list(&tokens, 3),
        Err(Error::Syntax { at: Place { attr: 3, token: 3 } })
    );
}

#[test]
fn list_with_unknown_word() {
    let tokens = vec![ident("from"), Token::Punct('='), lit("1.0")];
    assert_eq!(
        VersionMeta::parse_list(&tokens, 0),
        Err(Error::Syntax { at: Place { attr: 0, token: 0 } })
    );
}

#[test]
fn merge_disjoint_bounds() {
    let a = VersionMeta { since: Some(literal("1.0", 0, 2)), until: None };
    let b = VersionMeta { since: None, until: Some(literal("2.0", 1, 2)) };
    let both = VersionMeta { since: Some(literal("1.0", 0, 2)), until: Some(literal("2.0", 1, 2)) };
    assert_eq!(a.clone().merge(b.clone()), Ok(both.clone()));
    assert_eq!(b.merge(a), Ok(both.clone()));
    assert_eq!(both.clone().merge(VersionMeta::new()), Ok(both.clone()));
    assert_eq!(VersionMeta::new().merge(both.clone()), Ok(both));
}

#[test]
fn merge_same_bound_is_redundant() {
    let a = VersionMeta { since: Some(literal("1.0", 0, 2)), until: None };
    let b = VersionMeta { since: Some(literal("2.0", 1, 2)), until: None };
    assert_eq!(
        a.merge(b),
        Err(Error::Redundant { first: Place { attr: 0, token: 2 }, again: Place { attr: 1, token: 2 } })
    );
    let a = VersionMeta { since: None, until: Some(literal("1.0", 0, 2)) };
    let b = VersionMeta { since: None, until: Some(literal("1.0", 0, 6)) };
    assert_eq!(
        a.merge(b),
        Err(Error::Redundant { first: Place { attr: 0, token: 2 }, again: Place { attr: 0, token: 6 } })
    );
}

#[test]
fn merge_reports_since_before_until() {
    let a = VersionMeta { since: Some(literal("1.0", 0, 2)), until: Some(literal("2.0", 0, 6)) };
    let b = VersionMeta { since: Some(literal("3.0", 1, 2)), until: Some(literal("4.0", 1, 6)) };
    assert_eq!(
        a.merge(b),
        Err(Error::Redundant { first: Place { attr: 0, token: 2 }, again: Place { attr: 1, token: 2 } })
    );
}

#[test]
fn merge_all_from_left_to_right() {
    let list = vec![
        VersionMeta { since: Some(literal("1.0", 0, 2)), until: None },
        VersionMeta::new(),
        VersionMeta { since: None, until: Some(literal("2.0", 0, 7)) },
    ];
    assert_eq!(
        VersionMeta::new().merge_all(&list),
        Ok(VersionMeta { since: Some(literal("1.0", 0, 2)), until: Some(literal("2.0", 0, 7)) })
    );
    let start = VersionMeta { since: None, until: Some(literal("9.0", 5, 2)) };
    assert_eq!(
        start.merge_all(&list),
        Err(Error::Redundant { first: Place { attr: 5, token: 2 }, again: Place { attr: 0, token: 7 } })
    );
}

#[test]
fn field_without_annotation_declares_nothing() {
    assert_eq!(resolve_field(&vec![]), Ok(VersionMeta { since: None, until: None }));
    assert_eq!(resolve_field(&vec![version(vec![])]), Ok(VersionMeta::new()));
}

#[test]
fn field_with_both_bounds_in_one_annotation() {
    let mut tokens = pair("since", "1.0");
    tokens.push(Token::Punct(','));
    tokens.extend(pair("until", "15.0"));
    assert_eq!(
        resolve_field(&vec![version(tokens)]),
        Ok(VersionMeta { since: Some(literal("1.0", 0, 2)), until: Some(literal("15.0", 0, 6)) })
    );
}

#[test]
fn field_with_bounds_in_two_annotations() {
    let attrs = vec![version(pair("until", "3.5")), version(vec![]), version(pair("since", "2.0"))];
    assert_eq!(
        resolve_field(&attrs),
        Ok(VersionMeta { since: Some(literal("2.0", 2, 2)), until: Some(literal("3.5", 0, 2)) })
    );
}

#[test]
fn field_with_since_in_two_annotations() {
    let attrs = vec![version(pair("since", "1.0")), version(pair("since", "2.0"))];
    assert_eq!(
        resolve_field(&attrs),
        Err(Error::Redundant { first: Place { attr: 0, token: 2 }, again: Place { attr: 1, token: 2 } })
    );
}

#[test]
fn field_with_until_twice_in_one_annotation() {
    let mut tokens = pair("until", "1.0");
    tokens.push(Token::Punct(','));
    tokens.extend(pair("until", "1.0"));
    assert_eq!(
        resolve_field(&vec![version(tokens)]),
        Err(Error::Redundant { first: Place { attr: 0, token: 2 }, again: Place { attr: 0, token: 6 } })
    );
}

#[test]
fn field_passes_over_other_annotations() {
    let attrs = vec![
        Attribute { path: "serde".to_string(), tokens: pair("since", "7.0") },
        version(pair("since", "1.0")),
        Attribute { path: "doc".to_string(), tokens: vec![Token::Other] },
    ];
    assert_eq!(
        resolve_field(&attrs),
        Ok(VersionMeta { since: Some(literal("1.0", 1, 2)), until: None })
    );
}

#[test]
fn field_reads_an_annotation_whole_before_it_combines() {
    let mut tokens = pair("since", "1.0");
    tokens.push(Token::Punct(','));
    tokens.extend(pair("since", "2.0"));
    tokens.push(Token::Other);
    assert_eq!(
        resolve_field(&vec![version(tokens)]),
        Err(Error::Syntax { at: Place { attr: 0, token: 7 } })
    );
}

#[test]
fn field_stops_at_the_first_annotation_that_fails() {
    let attrs = vec![
        version(pair("since", "1.0")),
        version(pair("since", "2.0")),
        version(vec![Token::Other]),
    ];
    assert_eq!(
        resolve_field(&attrs),
        Err(Error::Redundant { first: Place { attr: 0, token: 2 }, again: Place { attr: 1, token: 2 } })
    );
}

#[test]
fn token_words_and_punctuation() {
    assert!(ident("since").has_word("since"));
    assert!(!ident("since").has_word("until"));
    assert!(!ident("r#since").has_word("since"));
    assert!(!lit("since").has_word("since"));
    assert!(Token::Punct(',').has_punct(','));
    assert!(!Token::Punct('=').has_punct(','));
    assert!(!Token::Other.has_punct(','));
}

#[test]
fn copies_hold_the_same() {
    let l = literal("1.0", 3, 2);
    assert_eq!(l.dup(), l);
    let m = VersionMeta { since: Some(literal("1.0", 0, 2)), until: Some(literal("2.0", 1, 2)) };
    assert_eq!(m.dup(), m);
    assert_eq!(VersionMeta::new().dup(), VersionMeta { since: None, until: None });
}
