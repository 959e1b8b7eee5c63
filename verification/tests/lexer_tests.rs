use minicc::lexer::tokenize;
use minicc::lexer::LexError;
use minicc::lexer::Token;

#[test]
fn lexer_tokenize_test() {
    let result = tokenize("+ - * / !=").ok().unwrap();

    assert_eq!(
        result,
        vec![
            Token::Plus,
            Token::Minus,
            Token::Asterisk,
            Token::Slash,
            Token::NotEq
        ]
    );

    let result = tokenize("100 + 1234 - 5555").ok().unwrap();

    assert_eq!(
        result,
        vec![
            Token::Int(100),
            Token::Plus,
            Token::Int(1234),
            Token::Minus,
            Token::Int(5555)
        ]
    );

    let result = tokenize("10!=2+2+2==6").ok().unwrap();

    assert_eq!(
        result,
        vec![
            Token::Int(10),
            Token::NotEq,
            Token::Int(2),
            Token::Plus,
            Token::Int(2),
            Token::Plus,
            Token::Int(2),
            Token::Eq,
            Token::Int(6),
        ]
    );
}

#[test]
fn lexer_test_tokenize_test() {
    let result = tokenize("+ - * /").ok().unwrap();

    assert_eq!(
        result,
        vec![Token::Plus, Token::Minus, Token::Asterisk, Token::Slash]
    )
}

#[test]
fn tokenize_keywords_and_idents() {
    let result = tokenize("return x; if else while for int").ok().unwrap();
    assert_eq!(
        result,
        vec![
            Token::Return,
            Token::Var("x".to_string()),
            Token::Semicolon,
            Token::If,
            Token::Else,
            Token::While,
            Token::For,
            Token::Type(minicc::lexer::TypeDec::Int),
        ]
    );
}

#[test]
fn tokenize_rejects_strange_character() {
    let result = tokenize("1 + @");
    assert_eq!(result, Err(LexError::BadChar('@')));
}

#[test]
fn tokenize_rejects_huge_literal() {
    let result = tokenize("99999999999");
    assert_eq!(result, Err(LexError::NumTooLarge));
}
