use coral::scanner::{scan, Scanner};
use coral::token::{LexError, Token};

fn num(text: &str) -> Token {
    Token::Number(String::from(text))
}

fn ident(name: &str) -> Token {
    Token::Identifier(String::from(name))
}

fn number_value(token: &Token) -> f64 {
    match token {
        Token::Number(text) => text.parse::<f64>().unwrap(),
        other => panic!("not a number token: {:?}", other),
    }
}

#[test]
fn test_advance_source() {
    let mut scanner = Scanner::init("1 + 1");
    assert_eq!(Some('1'), scanner.advance());
    assert_eq!(Some(' '), scanner.advance());
    assert_eq!(Some('+'), scanner.advance());
    assert_eq!(Some(' '), scanner.advance());
    assert_eq!(Some('1'), scanner.advance());
}

#[test]
fn test_scan_source_basic_operator() {
    let mut scn = Scanner::init(":+-*/().,![]{}>< ");
    assert_eq!(Ok(Some(Token::Colon)), scn.scan_next());
    assert_eq!(Ok(Some(Token::Plus)), scn.scan_next());
    assert_eq!(Ok(Some(Token::Minus)), scn.scan_next());
    assert_eq!(Ok(Some(Token::Star)), scn.scan_next());
    assert_eq!(Ok(Some(Token::Slash)), scn.scan_next());
    assert_eq!(Ok(Some(Token::ParenOpen)), scn.scan_next());
    assert_eq!(Ok(Some(Token::ParenClose)), scn.scan_next());
    assert_eq!(Ok(Some(Token::Dot)), scn.scan_next());
    assert_eq!(Ok(Some(Token::Comma)), scn.scan_next());
    assert_eq!(Ok(Some(Token::Bang)), scn.scan_next());
    assert_eq!(Ok(Some(Token::BracketOpen)), scn.scan_next());
    assert_eq!(Ok(Some(Token::BracketClose)), scn.scan_next());
    assert_eq!(Ok(Some(Token::BraceOpen)), scn.scan_next());
    assert_eq!(Ok(Some(Token::BraceClose)), scn.scan_next());
    assert_eq!(Ok(Some(Token::Greater)), scn.scan_next());
    assert_eq!(Ok(Some(Token::Less)), scn.scan_next());
    assert_eq!(Ok(Some(Token::WhiteSpace)), scn.scan_next());
}

#[test]
fn test_scan_source_comment() {
    let mut scn = Scanner::init("# this is a comment");
    assert_eq!(Ok(Some(Token::Comment)), scn.scan_next());
    assert_eq!(Ok(None), scn.scan_next());
}

#[test]
fn test_scan_source_double_operator() {
    let mut scn = Scanner::init("==");
    assert_eq!(Ok(Some(Token::EqualEqual)), scn.scan_next());

    scn = Scanner::init(">=");
    assert_eq!(Ok(Some(Token::GreaterEqual)), scn.scan_next());

    scn = Scanner::init("<=");
    assert_eq!(Ok(Some(Token::LessEqual)), scn.scan_next());
}

#[test]
fn test_scan_source_numbers() {
    let mut scn1 = Scanner::init("122");
    let first = scn1.scan_next().unwrap().unwrap();
    assert_eq!(num("122"), first);
    assert_eq!(122.0f64, number_value(&first));

    let mut scn2 = Scanner::init("12.2");
    let second = scn2.scan_next().unwrap().unwrap();
    assert_eq!(num("12.2"), second);
    assert_eq!(12.2f64, number_value(&second));
}

#[test]
fn test_scan_strings() {
    let mut scn = Scanner::init("\"122\"");
    assert_eq!(Ok(Some(Token::Str(String::from("122")))), scn.scan_next());
}

#[test]
fn test_scan_identifiers() {
    let mut scn = Scanner::init("True");
    assert_eq!(Ok(Some(Token::Boolean(true))), scn.scan_next());

    scn = Scanner::init("False");
    assert_eq!(Ok(Some(Token::Boolean(false))), scn.scan_next());

    scn = Scanner::init("and");
    assert_eq!(Ok(Some(Token::And)), scn.scan_next());

    scn = Scanner::init("or");
    assert_eq!(Ok(Some(Token::Or)), scn.scan_next());

    scn = Scanner::init("for");
    assert_eq!(Ok(Some(Token::For)), scn.scan_next());

    scn = Scanner::init("if");
    assert_eq!(Ok(Some(Token::If)), scn.scan_next());

    scn = Scanner::init("else");
    assert_eq!(Ok(Some(Token::Else)), scn.scan_next());

    scn = Scanner::init("while");
    assert_eq!(Ok(Some(Token::While)), scn.scan_next());

    scn = Scanner::init("return");
    assert_eq!(Ok(Some(Token::Return)), scn.scan_next());

    scn = Scanner::init("break");
    assert_eq!(Ok(Some(Token::Break)), scn.scan_next());

    scn = Scanner::init("break");
    assert_eq!(Ok(Some(Token::Break)), scn.scan_next());

    scn = Scanner::init("def");
    assert_eq!(Ok(Some(Token::Def)), scn.scan_next());

    scn = Scanner::init("class");
    assert_eq!(Ok(Some(Token::Class)), scn.scan_next());

    scn = Scanner::init("not");
    assert_eq!(Ok(Some(Token::Not)), scn.scan_next());

    scn = Scanner::init("in");
    assert_eq!(Ok(Some(Token::In)), scn.scan_next());

    scn = Scanner::init("print");
    assert_eq!(Ok(Some(Token::Print)), scn.scan_next());

    scn = Scanner::init("a");
    assert_eq!(Ok(Some(ident("a"))), scn.scan_next());
}

#[test]
fn test_scan_sum() {
    let tokens = scan("1 + 1").unwrap();
    assert_eq!(num("1"), tokens[0]);
    assert_eq!(Token::Plus, tokens[1]);
    assert_eq!(num("1"), tokens[2]);
    assert_eq!(1.0f64, number_value(&tokens[0]));
    assert_eq!(1.0f64, number_value(&tokens[2]));
}

#[test]
fn test_scan_without_comment() {
    let tokens = scan("1 + 1 # this a comment").unwrap();
    assert_eq!(num("1"), tokens[0]);
    assert_eq!(Token::Plus, tokens[1]);
    assert_eq!(num("1"), tokens[2]);
    assert_eq!(3, tokens.len());
}

#[test]
fn test_scan_string_literal() {
    let tokens = scan("name = \"coral\"").unwrap();
    assert_eq!(ident("name"), tokens[0]);
    assert_eq!(Token::Equal, tokens[1]);
    assert_eq!(Token::Str(String::from("coral")), tokens[2]);
}

#[test]
fn test_scan_multiline() {
    let tokens = scan(
        "name = \"coral\"\n            # this is a comment\n            age = 90",
    )
        .unwrap();
    assert_eq!(ident("name"), tokens[0]);
    assert_eq!(Token::Equal, tokens[1]);
    assert_eq!(Token::Str(String::from("coral")), tokens[2]);
    assert_eq!(ident("age"), tokens[3]);
    assert_eq!(Token::Equal, tokens[4]);
    assert_eq!(num("90"), tokens[5]);
}

#[test]
fn test_number_forms_parse_as_doubles() {
    let cases: Vec<(&str, f64)> = vec![
        ("7", 7.0f64),
        ("007", 7.0f64),
        ("3.25", 3.25f64),
        ("0.5", 0.5f64),
        ("123456789", 123456789.0f64),
    ];
    for (text, expected) in cases {
        let tokens = scan(text).unwrap();
        assert_eq!(1, tokens.len());
        assert_eq!(num(text), tokens[0]);
        assert_eq!(expected, number_value(&tokens[0]));
    }
}

#[test]
fn test_number_dot_needs_digit() {
    let tokens = scan("12.x").unwrap();
    assert_eq!(vec![num("12"), Token::Dot, ident("x")], tokens);

    let tokens = scan("1.2.3").unwrap();
    assert_eq!(vec![num("1.2"), Token::Dot, num("3")], tokens);
}

#[test]
fn test_unterminated_string_fails() {
    assert_eq!(
        Err(LexError::UnterminatedString { position: 0 }),
        scan("\"abc"),
    );
    assert_eq!(
        Err(LexError::UnterminatedString { position: 7 }),
        scan("name = \"coral\nage = 90"),
    );
}

#[test]
fn test_unexpected_character_fails() {
    assert_eq!(
        Err(LexError::UnexpectedCharacter { character: '$', position: 0 }),
        scan("$"),
    );
    assert_eq!(
        Err(LexError::UnexpectedCharacter { character: '@', position: 2 }),
        scan("a @ b"),
    );
}

#[test]
fn test_scan_empty_and_blank_input() {
    assert_eq!(Ok(Vec::new()), scan(""));
    assert_eq!(Ok(Vec::new()), scan("  \t  \n "));
    assert_eq!(Ok(Vec::new()), scan("# only a comment"));
}

#[test]
fn test_keyword_match_is_exact_not_prefix() {
    let tokens = scan("definition ifx True_").unwrap();
    assert_eq!(
        vec![ident("definition"), ident("ifx"), ident("True_")],
        tokens,
    );
}

#[test]
fn test_underscore_identifier() {
    let tokens = scan("_private x_1").unwrap();
    assert_eq!(vec![ident("_private"), ident("x_1")], tokens);
}

#[test]
fn test_single_equals_are_not_merged_across_space() {
    let tokens = scan("= =").unwrap();
    assert_eq!(vec![Token::Equal, Token::Equal], tokens);
}

#[test]
fn test_scan_twice_yields_identical_sequences() {
    let source = "def f(x): return x + 1 # doubles nothing";
    let first = scan(source);
    let second = scan(source);
    assert_eq!(first, second);
    let again = scan(source);
    assert_eq!(second, again);
}

#[test]
fn test_string_keeps_inner_spaces_and_hash() {
    let tokens = scan("\"a # b\"").unwrap();
    assert_eq!(vec![Token::Str(String::from("a # b"))], tokens);
}

#[test]
fn test_empty_string_literal() {
    let tokens = scan("\"\"").unwrap();
    assert_eq!(vec![Token::Str(String::new())], tokens);
}
