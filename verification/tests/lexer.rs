use belt_machine::lexer::{tokenize, Token};

fn kinds(src: &str) -> Vec<Token> {
    tokenize(src).into_iter().map(|t| t.token).collect()
}

#[test]
fn test_tokenize_instruction_line() {
    assert_eq!(
        kinds("add b5 b6"),
        vec![
            Token::Text(String::from("add")),
            Token::Register(String::from("b5")),
            Token::Register(String::from("b6")),
        ]
    );
}

#[test]
fn test_tokenize_register_preferred_over_text() {
    assert_eq!(kinds("b3"), vec![Token::Register(String::from("b3"))]);
    assert_eq!(kinds("b15"), vec![Token::Register(String::from("b15"))]);
    // A longer identifier wins over the shorter register reading.
    assert_eq!(kinds("b16"), vec![Token::Text(String::from("b16"))]);
    assert_eq!(kinds("b3a"), vec![Token::Text(String::from("b3a"))]);
}

#[test]
fn test_tokenize_numbers() {
    assert_eq!(kinds("42"), vec![Token::Number(String::from("42"))]);
    assert_eq!(kinds("-42"), vec![Token::Number(String::from("-42"))]);
    assert_eq!(kinds("+7"), vec![Token::Number(String::from("+7"))]);
    assert_eq!(kinds("0x1F"), vec![Token::Number(String::from("0x1F"))]);
    assert_eq!(kinds("0b101"), vec![Token::Number(String::from("0b101"))]);
    assert_eq!(kinds("0o17"), vec![Token::Number(String::from("0o17"))]);
    // Without a valid prefix digit, the zero stands alone.
    assert_eq!(
        kinds("0xG"),
        vec![Token::Number(String::from("0")), Token::Text(String::from("xG"))]
    );
}

#[test]
fn test_tokenize_labels_and_directives() {
    assert_eq!(kinds("loop-1:"), vec![Token::Label(String::from("loop-1:"))]);
    assert_eq!(kinds(".balign"), vec![Token::Directive(String::from(".balign"))]);
    assert_eq!(
        kinds("start: .balign 4"),
        vec![
            Token::Label(String::from("start:")),
            Token::Directive(String::from(".balign")),
            Token::Number(String::from("4")),
        ]
    );
}

#[test]
fn test_tokenize_comments_and_whitespace_are_silent() {
    assert_eq!(
        kinds("nop // comment here\npop"),
        vec![
            Token::Text(String::from("nop")),
            Token::NewLine,
            Token::Text(String::from("pop")),
        ]
    );
    assert_eq!(
        kinds("nop /* inline */ pop"),
        vec![Token::Text(String::from("nop")), Token::Text(String::from("pop"))]
    );
    assert_eq!(kinds("\t  \t"), vec![]);
}

#[test]
fn test_tokenize_error_token_keeps_lexing() {
    assert_eq!(
        kinds("nop @ pop"),
        vec![
            Token::Text(String::from("nop")),
            Token::Error,
            Token::Text(String::from("pop")),
        ]
    );
}

#[test]
fn test_tokenize_spans() {
    let toks = tokenize("ab 12");
    assert_eq!(toks.len(), 2);
    assert_eq!((toks[0].start, toks[0].end), (0, 2));
    assert_eq!((toks[1].start, toks[1].end), (3, 5));
}
