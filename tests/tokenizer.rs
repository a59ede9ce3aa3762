use interpreter_starter_rust::{Parser, Token, TokenType, Tokenizer, TokenizerErrorType};

fn scan(input: &str) -> Vec<(TokenType, String, String, usize)> {
    let output = Tokenizer::tokenize(input.to_string());
    output
        .get_tokens()
        .iter()
        .map(|t: &Token| (*t.get_type(), t.lexeme.clone(), t.get_literal().to_string(), *t.get_line()))
        .collect()
}

fn printed(input: &str) -> (String, String, i32) {
    let output = Tokenizer::tokenize(input.to_string());
    let s = Tokenizer::serialize(output.get_tokens(), output.get_errors());
    (s.output, s.diagnostics, s.exit_code)
}

#[test]
fn integer_gets_point_zero() {
    let toks = scan("2");
    assert_eq!(toks[0], (TokenType::Number, "2".to_string(), "2.0".to_string(), 1));
    assert_eq!(toks[1].0, TokenType::EOF);
    assert_eq!(toks.len(), 2);
}

#[test]
fn trailing_zeros_are_stripped() {
    assert_eq!(scan("2.50")[0].2, "2.5");
    assert_eq!(scan("2.50")[0].1, "2.50");
    assert_eq!(scan("2.00")[0].2, "2.0");
    assert_eq!(scan("10.0")[0].2, "10.0");
    assert_eq!(scan("1234.1234")[0].2, "1234.1234");
}

#[test]
fn normalized_literal_scans_to_itself() {
    for text in ["2.0", "2.5", "1234.1234", "0.0"] {
        let toks = scan(text);
        assert_eq!(toks[0].2, text.to_string());
        assert_eq!(toks.len(), 2);
    }
}

#[test]
fn trailing_point_is_a_dot_token() {
    let toks = scan("2.");
    assert_eq!(toks[0], (TokenType::Number, "2".to_string(), "2.0".to_string(), 1));
    assert_eq!(toks[1], (TokenType::Dot, ".".to_string(), "null".to_string(), 1));
    assert_eq!(toks[2].0, TokenType::EOF);
    let toks = scan("3.x");
    assert_eq!(toks[0].2, "3.0");
    assert_eq!(toks[1].0, TokenType::Dot);
    assert_eq!(toks[2], (TokenType::Identifier, "x".to_string(), "null".to_string(), 1));
}

#[test]
fn second_point_ends_number() {
    let toks = scan("1.5.2");
    assert_eq!(toks[0].2, "1.5");
    assert_eq!(toks[1].0, TokenType::Dot);
    assert_eq!(toks[2].2, "2.0");
}

#[test]
fn tokenize_prints_tokens() {
    let (out, err, code) = printed("(){};,+-*!===<=>=!=<>/.");
    assert_eq!(
        out,
        "LEFT_PAREN ( null\nRIGHT_PAREN ) null\nLEFT_BRACE { null\nRIGHT_BRACE } null\n\
SEMICOLON ; null\nCOMMA , null\nPLUS + null\nMINUS - null\nSTAR * null\n\
BANG_EQUAL != null\nEQUAL_EQUAL == null\nLESS_EQUAL <= null\nGREATER_EQUAL >= null\n\
BANG_EQUAL != null\nLESS < null\nGREATER > null\nSLASH / null\nDOT . null\nEOF  null\n"
    );
    assert_eq!(err, "");
    assert_eq!(code, 0);
}

#[test]
fn empty_input_gives_eof_only() {
    let (out, err, code) = printed("");
    assert_eq!(out, "EOF  null\n");
    assert_eq!(err, "");
    assert_eq!(code, 0);
}

#[test]
fn equal_after_other_token_stays_alone() {
    let toks = scan("a = b");
    assert_eq!(toks[0].0, TokenType::Identifier);
    assert_eq!(toks[1], (TokenType::Equal, "=".to_string(), "null".to_string(), 1));
    assert_eq!(toks[2].0, TokenType::Identifier);
    let toks = scan("=");
    assert_eq!(toks[0].0, TokenType::Equal);
}

#[test]
fn equal_composes_across_spaces() {
    let toks = scan("! =");
    assert_eq!(toks[0], (TokenType::BangEqual, "!=".to_string(), "null".to_string(), 1));
    assert_eq!(toks.len(), 2);
}

#[test]
fn strings_keep_raw_content() {
    let (out, _, code) = printed("\"foo bar\" \"\"");
    assert_eq!(out, "STRING \"foo bar\" foo bar\nSTRING \"\" \nEOF  null\n");
    assert_eq!(code, 0);
}

#[test]
fn unterminated_string_is_reported() {
    let (out, err, code) = printed("\"abc\n1");
    assert_eq!(err, "[line 1] Error: Unterminated string.\n");
    assert_eq!(out, "NUMBER 1 1.0\nEOF  null\n");
    assert_eq!(code, 65);
}

#[test]
fn unexpected_character_does_not_stop_scanning() {
    let (out, err, code) = printed("1 @ 2\n3 $");
    assert_eq!(
        err,
        "[line 1] Error: Unexpected character: @\n[line 2] Error: Unexpected character: $\n"
    );
    assert_eq!(out, "NUMBER 1 1.0\nNUMBER 2 2.0\nNUMBER 3 3.0\nEOF  null\n");
    assert_eq!(code, 65);
    let output = Tokenizer::tokenize("@".to_string());
    let errors = output.get_errors();
    assert_eq!(errors.len(), 1);
    assert_eq!(errors[0].error_type, TokenizerErrorType::UnexpectedCharacter('@'));
    assert_eq!(errors[0].line, 1);
    assert_eq!(errors[0].to_string(), "[line 1] Error: Unexpected character: @");
}

#[test]
fn error_line_numbers_have_many_digits() {
    let mut text = String::new();
    for _ in 0..11 {
        text.push('\n');
    }
    text.push('#');
    let (_, err, _) = printed(&text);
    assert_eq!(err, "[line 12] Error: Unexpected character: #\n");
}

#[test]
fn comment_ends_the_line() {
    let toks = scan("1 // 2 @\n3");
    assert_eq!(toks.len(), 3);
    assert_eq!(toks[0].2, "1.0");
    assert_eq!(toks[1], (TokenType::Number, "3".to_string(), "3.0".to_string(), 2));
    let (_, err, code) = printed("// @");
    assert_eq!(err, "");
    assert_eq!(code, 0);
}

#[test]
fn keywords_and_identifiers() {
    let (out, _, _) = printed("and class else false fun for if nil or print return super this true var while foo_1 _x");
    assert_eq!(
        out,
        "AND and null\nCLASS class null\nELSE else null\nFALSE false null\nFUN fun null\n\
FOR for null\nIF if null\nNIL nil null\nOR or null\nPRINT print null\nRETURN return null\n\
SUPER super null\nTHIS this null\nTRUE true null\nVAR var null\nWHILE while null\n\
IDENTIFIER foo_1 null\nIDENTIFIER _x null\nEOF  null\n"
    );
}

#[test]
fn carriage_returns_before_newlines_are_dropped() {
    let toks = scan("1\r\n2\r\n");
    assert_eq!(toks.len(), 3);
    assert_eq!(toks[0].3, 1);
    assert_eq!(toks[1].3, 2);
    assert_eq!(toks[2].3, 0);
}

#[test]
fn tabs_and_spaces_are_skipped() {
    let toks = scan("\t1 \t 2");
    assert_eq!(toks.len(), 3);
    let output = Tokenizer::tokenize("\t".to_string());
    assert!(output.get_errors().is_empty());
}

#[test]
fn token_type_tables() {
    assert_eq!(TokenType::from_one(&'('), Some(TokenType::LeftParenthesis));
    assert_eq!(TokenType::from_one(&' '), Some(TokenType::Whitespace));
    assert_eq!(TokenType::from_one(&'\t'), Some(TokenType::Tab));
    assert_eq!(TokenType::from_one(&'@'), None);
    assert_eq!(TokenType::from_two("!="), Some(TokenType::BangEqual));
    assert_eq!(TokenType::from_two(">="), Some(TokenType::GreaterEqual));
    assert_eq!(TokenType::from_two("=!"), None);
    assert_eq!(TokenType::from_two("=="), Some(TokenType::EqualEqual));
    assert_eq!(TokenType::from_two("<=="), None);
    assert_eq!(TokenType::from_string("while"), Some(TokenType::While));
    assert_eq!(TokenType::from_string("whale"), None);
    assert_eq!(TokenType::from_string(""), None);
    assert_eq!(TokenType::GreaterEqual.get_type_string(), "GREATER_EQUAL");
    assert_eq!(TokenType::EOF.get_type_string(), "EOF");
    assert_eq!(TokenType::LessEqual.get_lexeme(), "<=");
    assert_eq!(TokenType::Super.get_lexeme(), "super");
    assert_eq!(TokenType::Number.get_lexeme(), "");
}

#[test]
fn scanned_literal_rescans_on_its_own_line() {
    let output = Tokenizer::tokenize("x = 7 * 2.50 + 3.;".to_string());
    let mut seen = 0;
    for t in output.get_tokens() {
        if *t.get_type() == TokenType::Number {
            let lit: Vec<char> = t.get_literal().chars().collect();
            let mut tokens = Vec::new();
            let mut errors = Vec::new();
            Tokenizer::tokenize_line(&mut tokens, &mut errors, 4, &lit);
            assert_eq!(tokens.len(), 1);
            assert_eq!(tokens[0].token_type, TokenType::Number);
            assert_eq!(tokens[0].lexeme, t.literal);
            assert_eq!(tokens[0].literal, t.literal);
            assert_eq!(tokens[0].line, 5);
            assert!(errors.is_empty());
            seen += 1;
        }
    }
    assert_eq!(seen, 3);
}

#[test]
fn parsed_number_prints_and_rescans() {
    for (input, expected) in [("2.50", "2.5"), ("7", "7.0"), ("3.", "3.0"), ("10.00", "10.0")] {
        let output = Tokenizer::tokenize(input.to_string());
        let printed = Parser::parse_tokens(output.get_tokens()).unwrap().to_string();
        assert_eq!(printed, expected);
        let again = scan(&printed);
        assert_eq!(again.len(), 2);
        assert_eq!(again[0], (TokenType::Number, printed.clone(), printed.clone(), 1));
        assert_eq!(again[1].0, TokenType::EOF);
    }
}
