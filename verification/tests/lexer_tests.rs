use call_lexer::error::lexer::make_number::MakeNumberError;
use call_lexer::error::lexer::make_string::MakeStringError;
use call_lexer::error::lexer::LexerError;
use call_lexer::error::CompilerError;
use call_lexer::lexer::{Lexer, Literal, TokenType};

#[test]
fn printout() {
    println!("Running printout");
    let mut lexer = Lexer::new("join(\"joined: \", add(1, 3), sub(4, 2))");

    let mut list = Vec::new();
    while let Some(it) = lexer.next() {
        let it = it.unwrap();
        println!("{:?}", it);
        list.push(it.token_type);
    }

    println!("{:?}", list);
}

#[test]
fn test_identifier() {
    let str = "hello";
    let mut lexer = Lexer::new(str);

    assert_eq!(
        lexer.next().expect("Next expected").unwrap().token_type,
        TokenType::Identifier("hello".to_string())
    )
}

#[test]
fn identifier_span_is_whole_input() {
    let mut lexer = Lexer::new("hello");
    let token = lexer.next().unwrap().unwrap();
    assert_eq!(token.slice, "hello");
    assert!(lexer.next().is_none());
}

#[test]
fn integer_literal() {
    let mut lexer = Lexer::new("42");
    let token = lexer.next().unwrap().unwrap();
    assert_eq!(
        token.token_type,
        TokenType::Literal(Literal::Integer(42))
    );
    assert_eq!(token.slice, "42");
    assert!(lexer.next().is_none());
}

#[test]
fn float_literal() {
    let mut lexer = Lexer::new("3.14");
    let token = lexer.next().unwrap().unwrap();
    assert_eq!(
        token.token_type,
        TokenType::Literal(Literal::Float("3.14".to_string()))
    );
    assert_eq!(token.slice, "3.14");
    // The text the token carries re-parses to the expected value.
    assert_eq!("3.14".parse::<f32>().unwrap(), 3.14f32);
    assert!(lexer.next().is_none());
}

#[test]
fn double_dot_offsets() {
    let mut lexer = Lexer::new("1.2.3");
    match lexer.next() {
        Some(Err(LexerError::MakeNumber(MakeNumberError::DoubleDot(e)))) => {
            assert_eq!(e.get_message(), "DoubleDotError at char 3, first char at 1");
        }
        other => panic!("expected a DoubleDot error, got {:?}", other),
    }
}

#[test]
fn scanning_continues_after_error() {
    let mut lexer = Lexer::new("1.2.3");
    assert!(matches!(
        lexer.next(),
        Some(Err(LexerError::MakeNumber(MakeNumberError::DoubleDot(_))))
    ));
    // The cursor stopped on the second dot, which now becomes a
    // one-character ignorable token, and scanning goes on.
    let dot = lexer.next().unwrap().unwrap();
    assert_eq!(dot.token_type, TokenType::NoneToken);
    assert_eq!(dot.slice, ".");
    let three = lexer.next().unwrap().unwrap();
    assert_eq!(three.token_type, TokenType::Literal(Literal::Integer(3)));
    assert!(lexer.next().is_none());
}

#[test]
fn unterminated_string() {
    let mut lexer = Lexer::new("\"abc");
    match lexer.next() {
        Some(Err(LexerError::MakeString(MakeStringError::StringNotClosed(e)))) => {
            assert_eq!(e.get_message(), "StringNotClosedError at char 0");
        }
        other => panic!("expected a StringNotClosed error, got {:?}", other),
    }
    // The whole remainder was consumed looking for the closing quote.
    assert!(lexer.next().is_none());
}

#[test]
fn string_token_payload_and_span() {
    let mut lexer = Lexer::new("\"a(b\"");
    let token = lexer.next().unwrap().unwrap();
    // The payload is the interior strictly between the quotes; the
    // span is the whole quoted substring.
    assert_eq!(
        token.token_type,
        TokenType::Literal(Literal::String("a(b".to_string()))
    );
    assert_eq!(token.slice, "\"a(b\"");
    assert!(lexer.next().is_none());
}

#[test]
fn invalid_digit_offset() {
    let mut lexer = Lexer::new("1a");
    match lexer.next() {
        Some(Err(LexerError::MakeNumber(MakeNumberError::InvalidDigit(e)))) => {
            assert_eq!(e.get_message(), "InvalidDecimalLiteralError at char 1");
        }
        other => panic!("expected an InvalidDigit error, got {:?}", other),
    }
}

#[test]
fn invalid_digit_two_digit_offset() {
    // Eleven spaces, then a numeric literal broken at offset 12.
    let mut lexer = Lexer::new("           1x");
    let blanks = lexer.next().unwrap().unwrap();
    assert_eq!(blanks.token_type, TokenType::NoneToken);
    match lexer.next() {
        Some(Err(LexerError::MakeNumber(MakeNumberError::InvalidDigit(e)))) => {
            assert_eq!(e.get_message(), "InvalidDecimalLiteralError at char 12");
        }
        other => panic!("expected an InvalidDigit error, got {:?}", other),
    }
}

#[test]
fn semicolon_does_not_end_a_number() {
    // The terminator set holds space, parentheses, comma and newline,
    // but not the semicolon: inside a numeric literal it is invalid.
    let mut lexer = Lexer::new("1;");
    assert!(matches!(
        lexer.next(),
        Some(Err(LexerError::MakeNumber(MakeNumberError::InvalidDigit(_))))
    ));
}

#[test]
fn integer_boundaries() {
    let mut lexer = Lexer::new("2147483647");
    assert_eq!(
        lexer.next().unwrap().unwrap().token_type,
        TokenType::Literal(Literal::Integer(2147483647))
    );

    let mut lexer = Lexer::new("2147483648");
    match lexer.next() {
        Some(Err(LexerError::MakeNumber(MakeNumberError::ParseInt(text)))) => {
            assert_eq!(text, "2147483648");
        }
        other => panic!("expected a ParseInt error, got {:?}", other),
    }

    let mut lexer = Lexer::new("99999999999");
    match lexer.next() {
        Some(Err(LexerError::MakeNumber(MakeNumberError::ParseInt(text)))) => {
            assert_eq!(text, "99999999999");
        }
        other => panic!("expected a ParseInt error, got {:?}", other),
    }
}

#[test]
fn leading_zeros_parse() {
    let mut lexer = Lexer::new("007");
    assert_eq!(
        lexer.next().unwrap().unwrap().token_type,
        TokenType::Literal(Literal::Integer(7))
    );
}

#[test]
fn trailing_dot_float() {
    let mut lexer = Lexer::new("5.");
    assert_eq!(
        lexer.next().unwrap().unwrap().token_type,
        TokenType::Literal(Literal::Float("5.".to_string()))
    );
}

#[test]
fn whitespace_run_is_one_token() {
    let mut lexer = Lexer::new("  \t\n");
    let token = lexer.next().unwrap().unwrap();
    assert_eq!(token.token_type, TokenType::NoneToken);
    assert_eq!(token.slice, "  \t\n");
    assert!(lexer.next().is_none());
}

#[test]
fn unrecognized_character_is_one_none_token() {
    let mut lexer = Lexer::new("%%");
    let first = lexer.next().unwrap().unwrap();
    assert_eq!(first.token_type, TokenType::NoneToken);
    assert_eq!(first.slice, "%");
    let second = lexer.next().unwrap().unwrap();
    assert_eq!(second.token_type, TokenType::NoneToken);
    assert_eq!(second.slice, "%");
    assert!(lexer.next().is_none());
}

#[test]
fn empty_input_is_exhausted() {
    let mut lexer = Lexer::new("");
    assert!(lexer.next().is_none());
    assert!(lexer.next().is_none());
}

#[test]
fn terminator_token() {
    let mut lexer = Lexer::new("a ;");
    assert_eq!(
        lexer.next().unwrap().unwrap().token_type,
        TokenType::Identifier("a".to_string())
    );
    assert_eq!(lexer.next().unwrap().unwrap().token_type, TokenType::NoneToken);
    assert_eq!(lexer.next().unwrap().unwrap().token_type, TokenType::Terminator);
    assert!(lexer.next().is_none());
}

#[test]
fn round_trip_concrete() {
    // Concatenating every span of an input without string literals
    // reproduces the input exactly.
    let input = "add(1, 3);";
    let mut lexer = Lexer::new(input);
    let mut rebuilt = String::new();
    while let Some(it) = lexer.next() {
        rebuilt.push_str(it.unwrap().slice);
    }
    assert_eq!(rebuilt, input);
}

#[test]
fn round_trip_with_string_literal() {
    // A string token's span keeps both quotes, so even an input with a
    // string literal rebuilds exactly.
    let input = "say(\"hi\")";
    let mut lexer = Lexer::new(input);
    let mut rebuilt = String::new();
    while let Some(it) = lexer.next() {
        rebuilt.push_str(it.unwrap().slice);
    }
    assert_eq!(rebuilt, input);
}

#[test]
fn classification_totality_concrete() {
    // Over letters, digits, punctuation and whitespace, every character
    // lands in exactly one token's span: the spans tile the input.
    let input = "ab(\"hi\", x2) ;%";
    let mut lexer = Lexer::new(input);
    let mut offset = 0;
    while let Some(it) = lexer.next() {
        let token = it.unwrap();
        assert_eq!(&input[offset..offset + token.slice.len()], token.slice);
        offset += token.slice.len();
    }
    assert_eq!(offset, input.len());
}

#[test]
fn unicode_identifier() {
    // A non-ASCII letter still starts an identifier.
    let mut lexer = Lexer::new("héllo");
    let token = lexer.next().unwrap().unwrap();
    assert_eq!(token.token_type, TokenType::Identifier("héllo".to_string()));
    assert_eq!(token.slice, "héllo");
    assert!(lexer.next().is_none());
}

#[test]
fn end_to_end_scenario() {
    let mut lexer = Lexer::new("join(\"joined: \", add(1, 3), sub(4, 2))");
    let mut types = Vec::new();
    while let Some(it) = lexer.next() {
        types.push(it.unwrap().token_type);
    }
    let expected = vec![
        TokenType::Identifier("join".to_string()),
        TokenType::FunctionStart,
        TokenType::Literal(Literal::String("joined: ".to_string())),
        TokenType::Comma,
        TokenType::NoneToken,
        TokenType::Identifier("add".to_string()),
        TokenType::FunctionStart,
        TokenType::Literal(Literal::Integer(1)),
        TokenType::Comma,
        TokenType::NoneToken,
        TokenType::Literal(Literal::Integer(3)),
        TokenType::FunctionEnd,
        TokenType::Comma,
        TokenType::NoneToken,
        TokenType::Identifier("sub".to_string()),
        TokenType::FunctionStart,
        TokenType::Literal(Literal::Integer(4)),
        TokenType::Comma,
        TokenType::NoneToken,
        TokenType::Literal(Literal::Integer(2)),
        TokenType::FunctionEnd,
        TokenType::FunctionEnd,
    ];
    assert_eq!(types, expected);
}
