use exclusive::emit::{exclusive, wrap, Delimiter, Spacing, Token};
use exclusive::ident::{name_for, span_id, Naming};

fn text(cs: &[char]) -> String {
    cs.iter().collect()
}

// Renders tokens with one space between them, a group's body as `{body}`.
fn render<B: std::fmt::Debug>(ts: &[Token<B>]) -> String {
    let mut out: Vec<String> = Vec::new();
    for t in ts {
        out.push(match t {
            Token::Ident(cs) => text(cs),
            Token::Punct(c, _) => c.to_string(),
            Token::Empty(Delimiter::Parenthesis) => "()".to_string(),
            Token::Empty(Delimiter::Brace) => "{}".to_string(),
            Token::Group(Delimiter::Parenthesis, b) => format!("({:?})", b),
            Token::Group(Delimiter::Brace, b) => format!("{{{:?}}}", b),
        });
    }
    out.join(" ")
}

fn declared_name<B>(ts: &[Token<B>]) -> String {
    match &ts[1] {
        Token::Ident(cs) => text(cs),
        _ => panic!("the second token is not a name"),
    }
}

fn is_identifier(s: &str) -> bool {
    let first = s.chars().next();
    first.is_some()
        && !first.unwrap().is_ascii_digit()
        && s.chars().all(|c| c.is_ascii_alphanumeric() || c == '_')
}

#[test]
fn span_id_spells_each_byte_high_half_first() {
    let id = span_id(&[0x0F, 0xA1, 0x00, 0xFF, 0x5C]);
    assert_eq!(text(&id), "_EXCLUSIVE_0FA100FF5C");
}

#[test]
fn span_id_of_empty_metadata_is_the_prefix() {
    assert_eq!(text(&span_id(&[])), "_EXCLUSIVE_");
}

#[test]
fn span_id_uses_upper_case_digits() {
    let all: Vec<u8> = (0u8..16).map(|n| n * 17).collect();
    assert_eq!(
        text(&span_id(&all)),
        "_EXCLUSIVE_00112233445566778899AABBCCDDEEFF"
    );
}

#[test]
fn placeholder_naming_gives_underscore() {
    assert_eq!(text(&name_for(Naming::Placeholder, &[1, 2, 3])), "_");
    assert_eq!(text(&name_for(Naming::Hashed, &[1, 2, 3])), "_EXCLUSIVE_010203");
}

#[test]
fn expansion_declares_a_const_closure() {
    let ts = exclusive(Naming::Hashed, &[0x12, 0xEF], "let x = 20; let y = 30;");
    assert_eq!(ts.len(), 13);
    assert_eq!(
        render(&ts),
        "const _EXCLUSIVE_12EF : fn () - > () = | | {\"let x = 20; let y = 30;\"} ;"
    );
}

#[test]
fn arrow_and_bars_are_joint() {
    let ts = exclusive(Naming::Hashed, &[7], ());
    let spacings: Vec<(char, Spacing)> = ts
        .iter()
        .filter_map(|t| match t {
            Token::Punct(c, s) => Some((*c, *s)),
            _ => None,
        })
        .collect();
    assert_eq!(
        spacings,
        vec![
            (':', Spacing::Alone),
            ('-', Spacing::Joint),
            ('>', Spacing::Joint),
            ('=', Spacing::Alone),
            ('|', Spacing::Joint),
            ('|', Spacing::Joint),
            (';', Spacing::Alone),
        ]
    );
}

#[test]
fn placeholder_expansion_declares_underscore() {
    let ts = exclusive(Naming::Placeholder, &[9, 9], 1u8);
    assert_eq!(render(&ts), "const _ : fn () - > () = | | {1} ;");
}

#[test]
fn same_site_gives_same_name() {
    let site = [0xDE, 0xAD, 0xBE, 0xEF];
    let a = exclusive(Naming::Hashed, &site, "first");
    let b = exclusive(Naming::Hashed, &site, "second body");
    assert_eq!(declared_name(&a), declared_name(&b));
    assert_eq!(declared_name(&a), "_EXCLUSIVE_DEADBEEF");
}

#[test]
fn distinct_sites_give_distinct_names() {
    let sites: Vec<Vec<u8>> = vec![vec![1, 2], vec![2, 1], vec![0x12], vec![1, 2, 0], vec![]];
    let names: Vec<String> = sites
        .iter()
        .map(|s| declared_name(&exclusive(Naming::Hashed, s, ())))
        .collect();
    for (i, a) in names.iter().enumerate() {
        assert!(is_identifier(a));
        for b in &names[i + 1..] {
            assert_ne!(a, b);
        }
    }
}

#[test]
fn body_is_only_the_closure_body() {
    let ts = exclusive(Naming::Hashed, &[3, 4], vec!["println!(\"Hello, world!\");"]);
    let groups: Vec<usize> = (0..ts.len())
        .filter(|&i| matches!(ts[i], Token::Group(_, _)))
        .collect();
    assert_eq!(groups, vec![11]);
    assert!(matches!(ts[12], Token::Punct(';', Spacing::Alone)));
    assert!(matches!(ts[0], Token::Ident(ref cs) if text(cs) == "const"));
}

#[test]
fn multi_statement_body_passes_through_in_order() {
    let body = vec!["let a = 6;", "let b = 7;", "a * b"];
    let ts = exclusive(Naming::Hashed, &[0xAB], body.clone());
    match &ts[11] {
        Token::Group(Delimiter::Brace, b) => assert_eq!(b, &body),
        _ => panic!("no body group"),
    }
}

#[test]
fn empty_input_gives_a_full_declaration() {
    let ts = exclusive(Naming::Hashed, &[0, 1], Vec::<String>::new());
    assert_eq!(ts.len(), 13);
    match &ts[11] {
        Token::Group(Delimiter::Brace, b) => assert!(b.is_empty()),
        _ => panic!("no body group"),
    }
    assert_eq!(
        render(&ts),
        "const _EXCLUSIVE_0001 : fn () - > () = | | {[]} ;"
    );
}

#[test]
fn equal_metadata_in_separate_scopes_is_not_checked() {
    // Two expansions that a host compiles into two different function
    // bodies may carry equal metadata: both succeed with the same name.
    let site = [0x42, 0x24];
    let in_one = exclusive(Naming::Hashed, &site, "fn_one");
    let in_other = exclusive(Naming::Hashed, &site, "fn_other");
    assert_eq!(in_one.len(), 13);
    assert_eq!(in_other.len(), 13);
    assert_eq!(declared_name(&in_one), declared_name(&in_other));
}

#[test]
fn wrap_encloses_any_name() {
    let ts = wrap(vec!['m', 'y', '_', 'n'], 5i32);
    assert_eq!(render(&ts), "const my_n : fn () - > () = | | {5} ;");
}
