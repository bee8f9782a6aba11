use ream::lexer::{try_parse_number, try_parse_op, try_parse_parenthesis};
use ream::{lex, Number, Operations, Parenthesis, TokenTypes};

#[test]
fn lexer_try_parse_op_not_an_op_returns_none() {
    let script = "supra test yo";
    let expected = None;
    let actual = try_parse_op(script);

    assert_eq!(expected, actual);
}

#[test]
fn lexer_try_parse_op_divide_returns_some_divide() {
    let script = "/";
    let expected = Some(TokenTypes::Operation(Operations::Divide));
    let actual = try_parse_op(script);

    assert_eq!(expected, actual);
}

#[test]
fn lexer_try_parse_op_multiply_returns_some_multiply() {
    let script = "*";
    let expected = Some(TokenTypes::Operation(Operations::Multiply));
    let actual = try_parse_op(script);

    assert_eq!(expected, actual);
}

#[test]
fn lexer_try_parse_op_plus_returns_some_plus() {
    let script = "+";
    let expected = Some(TokenTypes::Operation(Operations::Plus));
    let actual = try_parse_op(script);

    assert_eq!(expected, actual);
}

#[test]
fn lexer_try_parse_op_minus_returns_some_minus() {
    let script = "-";
    let expected = Some(TokenTypes::Operation(Operations::Minus));
    let actual = try_parse_op(script);

    assert_eq!(expected, actual);
}

#[test]
fn lexer_try_parse_parenthesis_lparen_returns_some_lparen() {
    let script = "(";
    let expected = Some(TokenTypes::Parenthesis(Parenthesis::LParen));
    let actual = try_parse_parenthesis(script);

    assert_eq!(expected, actual);
}

#[test]
fn lexer_try_parse_parenthesis_rparen_returns_some_rparen() {
    let script = ")";
    let expected = Some(TokenTypes::Parenthesis(Parenthesis::RParen));
    let actual = try_parse_parenthesis(script);

    assert_eq!(expected, actual);
}

#[test]
fn lexer_try_parse_parenthesis_not_a_parenthesis_returns_none() {
    let script = "ajajaja";
    let expected = None;
    let actual = try_parse_parenthesis(script);

    assert_eq!(expected, actual);
}

#[test]
fn lexer_basic_lex() {
    let script = "(+ 1 2)".to_string();
    let tokens = lex(&script);

    let expected: Vec<TokenTypes> = vec![
        TokenTypes::Parenthesis(Parenthesis::LParen),
        TokenTypes::Operation(Operations::Plus),
        TokenTypes::Number(Number::from_int(1)),
        TokenTypes::Number(Number::from_int(2)),
        TokenTypes::Parenthesis(Parenthesis::RParen),
    ];

    assert_eq!(expected, tokens);
}

#[test]
fn lex_empty_and_blank_give_no_tokens() {
    assert!(lex(&"".to_string()).is_empty());
    assert!(lex(&"   \t  ".to_string()).is_empty());
}

#[test]
fn lex_one_token_per_padded_word() {
    let tokens = lex(&"(foo(1)bar)  baz".to_string());
    assert_eq!(tokens.len(), 8);
}

#[test]
fn lex_padding_gives_identical_tokens() {
    assert_eq!(lex(&"(+ 1 2)".to_string()), lex(&"( + 1 2 )".to_string()));
}

#[test]
fn lex_glued_parenthesis_is_isolated() {
    let tokens = lex(&"(* 2)(/ 4)".to_string());
    let expected = vec![
        TokenTypes::Parenthesis(Parenthesis::LParen),
        TokenTypes::Operation(Operations::Multiply),
        TokenTypes::Number(Number::from_int(2)),
        TokenTypes::Parenthesis(Parenthesis::RParen),
        TokenTypes::Parenthesis(Parenthesis::LParen),
        TokenTypes::Operation(Operations::Divide),
        TokenTypes::Number(Number::from_int(4)),
        TokenTypes::Parenthesis(Parenthesis::RParen),
    ];
    assert_eq!(tokens, expected);
}

#[test]
fn lex_case_insensitive_str() {
    let upper = lex(&"A".to_string());
    let lower = lex(&"a".to_string());
    assert_eq!(upper, lower);
    assert_eq!(upper, vec![TokenTypes::Str("a".to_string())]);
}

#[test]
fn lex_str_is_lowercased_word() {
    let tokens = lex(&"Hello (World)".to_string());
    assert_eq!(tokens[0], TokenTypes::Str("hello".to_string()));
    assert_eq!(tokens[2], TokenTypes::Str("world".to_string()));
}

#[test]
fn lex_signed_number_and_bare_minus() {
    let tokens = lex(&"- -3 1.5".to_string());
    assert_eq!(
        tokens,
        vec![
            TokenTypes::Operation(Operations::Minus),
            TokenTypes::Number(Number::from_int(-3)),
            TokenTypes::Number(Number::from_bits(6144)),
        ]
    );
}

#[test]
fn lex_out_of_range_number_is_str() {
    let tokens = lex(&"1000000".to_string());
    assert_eq!(tokens, vec![TokenTypes::Str("1000000".to_string())]);
}

#[test]
fn try_parse_number_reads_decimal() {
    assert_eq!(try_parse_number("42"), Some(TokenTypes::Number(Number::from_int(42))));
    assert_eq!(try_parse_number("0.25"), Some(TokenTypes::Number(Number::from_bits(1024))));
    assert_eq!(try_parse_number("x1"), None);
    assert_eq!(try_parse_number("-"), None);
}

#[test]
fn token_text_renders_kind_and_payload() {
    assert_eq!(TokenTypes::Parenthesis(Parenthesis::LParen).to_text(), "Parenthesis(()");
    assert_eq!(TokenTypes::Parenthesis(Parenthesis::RParen).to_text(), "Parenthesis())");
    assert_eq!(TokenTypes::Operation(Operations::Multiply).to_text(), "Operation(*)");
    assert_eq!(TokenTypes::Number(Number::from_bits(6144)).to_text(), "Number(1.5)");
    assert_eq!(TokenTypes::Str("abc".to_string()).to_text(), "Str(abc)");
    assert_eq!(TokenTypes::EOF.to_text(), "EOF");
    assert_eq!(Operations::Minus.to_text(), "-");
    assert_eq!(Parenthesis::RParen.to_text(), ")");
}

#[test]
fn number_render_then_parse_round_trips() {
    let mut bits: i64 = i32::MIN as i64;
    while bits <= i32::MAX as i64 {
        let n = Number::from_bits(bits as i32);
        let text = n.render();
        assert_eq!(Number::parse(&text), Some(n), "{}", text);
        bits += 65537;
    }
    for b in [i32::MIN, i32::MAX, 0, 1, -1, 4095, 4096, -4097] {
        let n = Number::from_bits(b);
        assert_eq!(Number::parse(&n.render()), Some(n));
    }
}

#[test]
fn number_render_is_decimal() {
    assert_eq!(Number::from_int(3).render(), "3");
    assert_eq!(Number::from_bits(-2048).render(), "-0.5");
}
