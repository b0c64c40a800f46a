use penguin::error::PengError;
use penguin::lexer::lexer::{lex_file_source, lex_source};
use penguin::lexer::positioned_token::PengPositionedToken;
use penguin::lexer::token::PengToken;
use penguin::position::PengPosition;
use penguin::positioned::PengPositioned;

fn values(tokens: &[PengPositionedToken]) -> Vec<PengToken> {
    tokens.iter().map(|t| t.value.clone()).collect()
}

fn ident(s: &str) -> PengToken {
    PengToken::Identifier(s.to_string())
}

#[test]
fn lexes_a_declaration() {
    let tokens = lex_source("var x = 10\n".to_string()).unwrap();
    assert_eq!(
        values(&tokens),
        vec![PengToken::Var, ident("x"), PengToken::Equals, PengToken::NumberLiteral("10".to_string())]
    );
    assert_eq!(tokens[0].position.line, 1);
    assert_eq!(tokens[0].position.column, Some(1));
    assert_eq!(tokens[1].position.column, Some(5));
    assert_eq!(tokens[2].position.column, Some(7));
    assert_eq!(tokens[3].position.column, Some(9));
    assert_eq!(tokens[3].position.id, 0);
}

#[test]
fn longest_symbol_wins() {
    let tokens = lex_source("a**=b...c->d<=e".to_string()).unwrap();
    assert_eq!(
        values(&tokens),
        vec![
            ident("a"),
            PengToken::DoubleAsteriskEquals,
            ident("b"),
            PengToken::TripleDot,
            ident("c"),
            PengToken::Arrow,
            ident("d"),
            PengToken::LessThanEquals,
            ident("e"),
        ]
    );
}

#[test]
fn comments_are_skipped_and_lines_counted() {
    let src = "a // one\n/* two\nthree */ b\nc";
    let tokens = lex_source(src.to_string()).unwrap();
    assert_eq!(values(&tokens), vec![ident("a"), ident("b"), ident("c")]);
    assert_eq!(tokens[0].position.line, 1);
    assert_eq!(tokens[1].position.line, 3);
    assert_eq!(tokens[1].position.column, Some(10));
    assert_eq!(tokens[2].position.line, 4);
}

#[test]
fn strings_and_escapes() {
    let tokens = lex_source("x = \"a\\nb\\\"c\" #\"raw\"#".to_string()).unwrap();
    assert_eq!(
        values(&tokens),
        vec![
            ident("x"),
            PengToken::Equals,
            PengToken::StringLiteral("a\nb\"c".to_string()),
            PengToken::StringLiteral("raw".to_string()),
        ]
    );
    assert_eq!(tokens[2].position.column, Some(5));
}

#[test]
fn unterminated_string_runs_to_the_end() {
    let tokens = lex_source("s \"open".to_string()).unwrap();
    assert_eq!(values(&tokens), vec![ident("s"), PengToken::StringLiteral("open".to_string())]);
}

#[test]
fn number_literals() {
    let tokens = lex_source("1_000 7i 8u 255b 3.25 2.0f64 1.5f32 1..3".to_string()).unwrap();
    assert_eq!(
        values(&tokens),
        vec![
            PengToken::NumberLiteral("1000".to_string()),
            PengToken::IntLiteral(7),
            PengToken::UintLiteral(8),
            PengToken::ByteLiteral(255),
            PengToken::Float32Literal("3.25".to_string()),
            PengToken::Float64Literal("2.0".to_string()),
            PengToken::Float32Literal("1.5".to_string()),
            PengToken::NumberLiteral("1".to_string()),
            PengToken::DoubleDot,
            PengToken::NumberLiteral("3".to_string()),
        ]
    );
    assert!(lex_source("2f64".to_string()).is_err());
}

#[test]
fn invalid_number_is_an_error_at_its_position() {
    match lex_source("x = 10abc".to_string()) {
        Err(PengError::PositionedError { error, position }) => {
            assert_eq!(position.line, 1);
            assert_eq!(position.column, Some(5));
            match *error {
                PengError::SyntaxError(m) => assert_eq!(m, "invalid number literal: 10abc"),
                _ => panic!("expected a syntax error"),
            }
        }
        _ => panic!("expected an error"),
    }
}

#[test]
fn byte_literal_must_fit() {
    assert!(lex_source("256b".to_string()).is_err());
}

#[test]
fn tab_hides_columns() {
    let tokens = lex_source("\tif x\ny".to_string()).unwrap();
    assert_eq!(values(&tokens), vec![PengToken::If, ident("x"), ident("y")]);
    assert_eq!(tokens[0].position.column, None);
    assert_eq!(tokens[1].position.column, None);
    assert_eq!(tokens[2].position.column, Some(1));
}

#[test]
fn carriage_returns_are_ignored() {
    let tokens = lex_source("a\r\nb".to_string()).unwrap();
    assert_eq!(values(&tokens), vec![ident("a"), ident("b")]);
    assert_eq!(tokens[1].position.line, 2);
}

#[test]
fn file_positions_carry_the_file_id() {
    let tokens = lex_file_source("return".to_string(), 7).unwrap();
    assert_eq!(tokens[0].position, PengPosition::new(7, 1, Some(1)));
    assert_eq!(tokens[0].value, PengToken::Return);
}

#[test]
fn keywords_and_names() {
    assert_eq!(PengToken::from_string("while".to_string()), Ok(PengToken::While));
    assert_eq!(PengToken::from_string("whiles".to_string()), Ok(ident("whiles")));
    assert_eq!(PengToken::from_string("?".to_string()), Ok(ident("?")));
    assert_eq!(PengToken::from_string("1.2.3".to_string()), Err("invalid number literal: 1.2.3".to_string()));
    assert_eq!(PengToken::new_string("s".to_string()), PengToken::StringLiteral("s".to_string()));
}

#[test]
fn token_display_texts() {
    let at = PengPosition::new(0, 1, Some(1));
    let show = |t: PengToken| PengPositioned { value: t, position: at }.token_display();
    assert_eq!(show(ident("abc")), "Identifier(abc)");
    assert_eq!(show(PengToken::NumberLiteral("12".to_string())), "NumberLiteral(12)");
    assert_eq!(show(PengToken::StringLiteral("hi".to_string())), "String(\"hi\")");
    assert_eq!(show(PengToken::IntLiteral(-42)), "IntLiteral(-42)");
    assert_eq!(show(PengToken::ByteLiteral(7)), "ByteLiteral(7)");
    assert_eq!(show(PengToken::DoubleEquals), "DoubleEquals");
    assert_eq!(show(PengToken::True), "True");
    let p = PengPositioned::<PengToken>::from_string("12u".to_string(), at).unwrap();
    assert_eq!(p.value, PengToken::UintLiteral(12));
    let s = PengPositioned::<PengToken>::new_string("x".to_string(), at);
    assert_eq!(s.value, PengToken::StringLiteral("x".to_string()));
}
