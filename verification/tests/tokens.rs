use alcl::parse::Token;

#[test]
fn token_kinds_are_told_apart() {
    assert!(Token::Number(3).is_number());
    assert!(!Token::Number(3).is_identifier());
    assert!(!Token::Number(3).is_string());
    assert!(Token::Identifier("x".to_string()).is_identifier());
    assert!(!Token::Identifier("x".to_string()).is_number());
    assert!(Token::String("x".to_string()).is_string());
    assert!(!Token::String("x".to_string()).is_identifier());
    assert!(!Token::Plus.is_number());
    assert!(!Token::Eof.is_identifier());
    assert!(!Token::Func.is_string());
}

#[test]
fn token_payloads_are_read_back() {
    assert_eq!(Token::Number(-7).as_number(), Ok(-7));
    assert_eq!(Token::Identifier("abc".to_string()).as_identifier(), Ok("abc".to_string()));
    assert_eq!(Token::String("a b".to_string()).as_string(), Ok("a b".to_string()));
}

#[test]
fn reading_the_wrong_payload_fails() {
    assert_eq!(Token::Plus.as_number(), Err("non number token".to_string()));
    assert_eq!(Token::Number(1).as_identifier(), Err("non Identifier token".to_string()));
    assert_eq!(Token::Identifier("s".to_string()).as_string(), Err("non String token".to_string()));
}

#[test]
fn tokens_compare_by_kind_and_payload() {
    assert_eq!(Token::Arrow, Token::Arrow);
    assert_ne!(Token::Arrow, Token::Ellipsis);
    assert_eq!(Token::Number(4), Token::Number(4));
    assert_ne!(Token::Number(4), Token::Number(5));
    assert_ne!(Token::Identifier("a".to_string()), Token::String("a".to_string()));
    assert_eq!(Token::Identifier("a".to_string()).clone(), Token::Identifier("a".to_string()));
}
