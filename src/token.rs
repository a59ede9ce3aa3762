use vstd::prelude::*;

use crate::text::string_of;
use crate::token_type::{spec_lexeme, TokenType};

verus! {

/// A token as plain values: its kind, its text in the source, its
/// normalized value, and the line it stands on.
pub struct TokenView {
    pub token_type: TokenType,
    pub lexeme: Seq<char>,
    pub literal: Seq<char>,
    pub line: usize,
}

/// A lexical unit of the source.
#[derive(Debug)]
pub struct Token {
    pub token_type: TokenType,
    pub lexeme: String,
    pub literal: String,
    pub line: usize,
}

impl View for Token {
    type V = TokenView;

    open spec fn view(&self) -> TokenView {
        TokenView {
            token_type: self.token_type,
            lexeme: self.lexeme@,
            literal: self.literal@,
            line: self.line,
        }
    }
}

/// The text that tokens without a value carry as their literal.
pub open spec fn null_text() -> Seq<char> {
    "null"@
}

/// The token of a punctuator of kind `t` on line `line`.
pub open spec fn punctuator_view(t: TokenType, line: usize) -> TokenView {
    TokenView { token_type: t, lexeme: spec_lexeme(t), literal: null_text(), line }
}

/// The placeholder token left where a character could not be scanned.
pub open spec fn unknown_view(line: usize) -> TokenView {
    TokenView { token_type: TokenType::Unknown, lexeme: Seq::empty(), literal: Seq::empty(), line }
}

/// The token that ends every scan.
pub open spec fn eof_view() -> TokenView {
    TokenView { token_type: TokenType::EOF, lexeme: Seq::empty(), literal: null_text(), line: 0 }
}

/// The views of a sequence of tokens.
pub open spec fn views(ts: Seq<Token>) -> Seq<TokenView> {
    ts.map_values(|t: Token| t@)
}

impl Token {
    pub fn get_type(&self) -> (r: &TokenType)
        ensures
            *r == self.token_type,
    {
        &self.token_type
    }

    pub fn get_literal(&self) -> (r: &str)
        ensures
            r@ == self.literal@,
    {
        self.literal.as_str()
    }

    pub fn get_line(&self) -> (r: &usize)
        ensures
            *r == self.line,
    {
        &self.line
    }

    /// A token from its parts.
    pub fn new(
        token_type: TokenType,
        lexeme: &Vec<char>,
        literal: &Vec<char>,
        line: usize,
    ) -> (r: Token)
        ensures
            r@ == (TokenView { token_type, lexeme: lexeme@, literal: literal@, line }),
    {
        Token { token_type, lexeme: string_of(lexeme), literal: string_of(literal), line }
    }

    /// The token of a punctuator; its lexeme is the punctuator's text.
    pub fn new_punctuator(token_type: TokenType, line: usize) -> (r: Token)
        ensures
            r@ == punctuator_view(token_type, line),
    {
        Token {
            lexeme: token_type.get_lexeme(),
            token_type,
            literal: String::from_str("null"),
            line,
        }
    }

    /// The token of a word that is not a keyword.
    pub fn new_identifier(word: &Vec<char>, line: usize) -> (r: Token)
        ensures
            r@ == (TokenView {
                token_type: TokenType::Identifier,
                lexeme: word@,
                literal: null_text(),
                line,
            }),
    {
        Token {
            token_type: TokenType::Identifier,
            lexeme: string_of(word),
            literal: String::from_str("null"),
            line,
        }
    }

    /// The token of a keyword; its lexeme is the keyword's text.
    pub fn new_reserved(token_type: TokenType, word: &Vec<char>, line: usize) -> (r: Token)
        ensures
            r@ == (TokenView { token_type, lexeme: word@, literal: null_text(), line }),
    {
        Token { token_type, lexeme: string_of(word), literal: String::from_str("null"), line }
    }

    /// The token that ends every scan.
    pub fn new_eof() -> (r: Token)
        ensures
            r@ == eof_view(),
    {
        Token {
            token_type: TokenType::EOF,
            lexeme: String::new(),
            literal: String::from_str("null"),
            line: 0,
        }
    }

    /// The placeholder token left where a character could not be scanned.
    pub fn new_unknown(line: usize) -> (r: Token)
        ensures
            r@ == unknown_view(line),
    {
        Token {
            token_type: TokenType::Unknown,
            lexeme: String::new(),
            literal: String::new(),
            line,
        }
    }
}

} // verus!
