use vstd::prelude::*;

verus! {

/// The kinds of tokens.
#[derive(Clone, Copy, Debug, PartialEq, Eq, Structural)]
pub enum TokenType {
    LeftParenthesis,
    RightParenthesis,
    LeftCurly,
    RightCurly,
    Comma,
    Dot,
    Minus,
    Plus,
    Semicolon,
    Slash,
    Star,
    Bang,
    BangEqual,
    Equal,
    EqualEqual,
    Greater,
    GreaterEqual,
    Less,
    LessEqual,
    Identifier,
    StringLit,
    Number,
    And,
    Class,
    Else,
    False,
    Fun,
    For,
    If,
    Nil,
    Or,
    Print,
    Return,
    Super,
    This,
    True,
    Var,
    While,
    EOF,
    Unknown,
    Whitespace,
    Tab,
}

/// The keyword that `w` spells, if any.
pub open spec fn spec_reserved(w: Seq<char>) -> Option<TokenType> {
    if w == "and"@ {
        Some(TokenType::And)
    } else if w == "class"@ {
        Some(TokenType::Class)
    } else if w == "else"@ {
        Some(TokenType::Else)
    } else if w == "false"@ {
        Some(TokenType::False)
    } else if w == "fun"@ {
        Some(TokenType::Fun)
    } else if w == "for"@ {
        Some(TokenType::For)
    } else if w == "if"@ {
        Some(TokenType::If)
    } else if w == "nil"@ {
        Some(TokenType::Nil)
    } else if w == "or"@ {
        Some(TokenType::Or)
    } else if w == "print"@ {
        Some(TokenType::Print)
    } else if w == "return"@ {
        Some(TokenType::Return)
    } else if w == "super"@ {
        Some(TokenType::Super)
    } else if w == "this"@ {
        Some(TokenType::This)
    } else if w == "true"@ {
        Some(TokenType::True)
    } else if w == "var"@ {
        Some(TokenType::Var)
    } else if w == "while"@ {
        Some(TokenType::While)
    } else {
        None
    }
}

/// The kind named by one character; `None` where the character names none.
pub open spec fn spec_from_one(ch: char) -> Option<TokenType> {
    match ch {
        '(' => Some(TokenType::LeftParenthesis),
        ')' => Some(TokenType::RightParenthesis),
        '{' => Some(TokenType::LeftCurly),
        '}' => Some(TokenType::RightCurly),
        ';' => Some(TokenType::Semicolon),
        ',' => Some(TokenType::Comma),
        '+' => Some(TokenType::Plus),
        '-' => Some(TokenType::Minus),
        '*' => Some(TokenType::Star),
        '<' => Some(TokenType::Less),
        '>' => Some(TokenType::Greater),
        '/' => Some(TokenType::Slash),
        '.' => Some(TokenType::Dot),
        '=' => Some(TokenType::Equal),
        '!' => Some(TokenType::Bang),
        ' ' => Some(TokenType::Whitespace),
        '\t' => Some(TokenType::Tab),
        _ => None,
    }
}

/// The kind named by two characters; `None` where they name none.
pub open spec fn spec_from_two(s: Seq<char>) -> Option<TokenType> {
    if s == seq!['!', '='] {
        Some(TokenType::BangEqual)
    } else if s == seq!['=', '='] {
        Some(TokenType::EqualEqual)
    } else if s == seq!['<', '='] {
        Some(TokenType::LessEqual)
    } else if s == seq!['>', '='] {
        Some(TokenType::GreaterEqual)
    } else {
        None
    }
}

/// The name under which a kind is printed.
pub open spec fn spec_type_string(t: TokenType) -> Seq<char> {
    match t {
        TokenType::LeftParenthesis => "LEFT_PAREN"@,
        TokenType::RightParenthesis => "RIGHT_PAREN"@,
        TokenType::LeftCurly => "LEFT_BRACE"@,
        TokenType::RightCurly => "RIGHT_BRACE"@,
        TokenType::Comma => "COMMA"@,
        TokenType::Dot => "DOT"@,
        TokenType::Minus => "MINUS"@,
        TokenType::Plus => "PLUS"@,
        TokenType::Semicolon => "SEMICOLON"@,
        TokenType::Slash => "SLASH"@,
        TokenType::Star => "STAR"@,
        TokenType::Bang => "BANG"@,
        TokenType::BangEqual => "BANG_EQUAL"@,
        TokenType::Equal => "EQUAL"@,
        TokenType::EqualEqual => "EQUAL_EQUAL"@,
        TokenType::Greater => "GREATER"@,
        TokenType::GreaterEqual => "GREATER_EQUAL"@,
        TokenType::Less => "LESS"@,
        TokenType::LessEqual => "LESS_EQUAL"@,
        TokenType::Identifier => "IDENTIFIER"@,
        TokenType::StringLit => "STRING"@,
        TokenType::Number => "NUMBER"@,
        TokenType::And => "AND"@,
        TokenType::Class => "CLASS"@,
        TokenType::Else => "ELSE"@,
        TokenType::False => "FALSE"@,
        TokenType::Fun => "FUN"@,
        TokenType::For => "FOR"@,
        TokenType::If => "IF"@,
        TokenType::Nil => "NIL"@,
        TokenType::Or => "OR"@,
        TokenType::Print => "PRINT"@,
        TokenType::Return => "RETURN"@,
        TokenType::Super => "SUPER"@,
        TokenType::This => "THIS"@,
        TokenType::True => "TRUE"@,
        TokenType::Var => "VAR"@,
        TokenType::While => "WHILE"@,
        TokenType::EOF => "EOF"@,
        _ => ""@,
    }
}

/// The fixed text of a kind (punctuators and keywords).
pub open spec fn spec_lexeme(t: TokenType) -> Seq<char> {
    match t {
        TokenType::LeftParenthesis => "("@,
        TokenType::RightParenthesis => ")"@,
        TokenType::LeftCurly => "{"@,
        TokenType::RightCurly => "}"@,
        TokenType::Comma => ","@,
        TokenType::Dot => "."@,
        TokenType::Minus => "-"@,
        TokenType::Plus => "+"@,
        TokenType::Semicolon => ";"@,
        TokenType::Slash => "/"@,
        TokenType::Star => "*"@,
        TokenType::Bang => "!"@,
        TokenType::BangEqual => "!="@,
        TokenType::Equal => "="@,
        TokenType::EqualEqual => "=="@,
        TokenType::Greater => ">"@,
        TokenType::GreaterEqual => ">="@,
        TokenType::Less => "<"@,
        TokenType::LessEqual => "<="@,
        TokenType::And => "and"@,
        TokenType::Class => "class"@,
        TokenType::Else => "else"@,
        TokenType::False => "false"@,
        TokenType::Fun => "fun"@,
        TokenType::For => "for"@,
        TokenType::If => "if"@,
        TokenType::Nil => "nil"@,
        TokenType::Or => "or"@,
        TokenType::Print => "print"@,
        TokenType::Return => "return"@,
        TokenType::Super => "super"@,
        TokenType::This => "this"@,
        TokenType::True => "true"@,
        TokenType::Var => "var"@,
        TokenType::While => "while"@,
        _ => ""@,
    }
}

impl TokenType {
    /// The kind named by one character (punctuators and the two whitespace markers).
    pub fn from_one(ch: &char) -> (r: Option<TokenType>)
        ensures
            r == spec_from_one(*ch),
    {
        match *ch {
            '(' => Some(TokenType::LeftParenthesis),
            ')' => Some(TokenType::RightParenthesis),
            '{' => Some(TokenType::LeftCurly),
            '}' => Some(TokenType::RightCurly),
            ';' => Some(TokenType::Semicolon),
            ',' => Some(TokenType::Comma),
            '+' => Some(TokenType::Plus),
            '-' => Some(TokenType::Minus),
            '*' => Some(TokenType::Star),
            '<' => Some(TokenType::Less),
            '>' => Some(TokenType::Greater),
            '/' => Some(TokenType::Slash),
            '.' => Some(TokenType::Dot),
            '=' => Some(TokenType::Equal),
            '!' => Some(TokenType::Bang),
            ' ' => Some(TokenType::Whitespace),
            '\t' => Some(TokenType::Tab),
            _ => None,
        }
    }

    /// The kind named by a two-character operator.
    pub fn from_two(char_pair: &str) -> (r: Option<TokenType>)
        ensures
            r == spec_from_two(char_pair@),
    {
        if char_pair.unicode_len() != 2 {
            return None;
        }
        let a = char_pair.get_char(0);
        let b = char_pair.get_char(1);
        proof {
            assert(char_pair@ =~= seq![a, b]);
        }
        if b != '=' {
            None
        } else {
            match a {
                '!' => Some(TokenType::BangEqual),
                '=' => Some(TokenType::EqualEqual),
                '<' => Some(TokenType::LessEqual),
                '>' => Some(TokenType::GreaterEqual),
                _ => None,
            }
        }
    }

    /// The keyword that `string` spells, if any.
    pub fn from_string(string: &str) -> (r: Option<TokenType>)
        ensures
            r == spec_reserved(string@),
    {
        let w = crate::text::chars_of(string);
        reserved_word(&w)
    }

    /// The name under which this kind is printed.
    pub fn get_type_string(&self) -> (r: String)
        ensures
            r@ == spec_type_string(*self),
    {
        let s = match self {
            TokenType::LeftParenthesis => "LEFT_PAREN",
            TokenType::RightParenthesis => "RIGHT_PAREN",
            TokenType::LeftCurly => "LEFT_BRACE",
            TokenType::RightCurly => "RIGHT_BRACE",
            TokenType::Comma => "COMMA",
            TokenType::Dot => "DOT",
            TokenType::Minus => "MINUS",
            TokenType::Plus => "PLUS",
            TokenType::Semicolon => "SEMICOLON",
            TokenType::Slash => "SLASH",
            TokenType::Star => "STAR",
            TokenType::Bang => "BANG",
            TokenType::BangEqual => "BANG_EQUAL",
            TokenType::Equal => "EQUAL",
            TokenType::EqualEqual => "EQUAL_EQUAL",
            TokenType::Greater => "GREATER",
            TokenType::GreaterEqual => "GREATER_EQUAL",
            TokenType::Less => "LESS",
            TokenType::LessEqual => "LESS_EQUAL",
            TokenType::Identifier => "IDENTIFIER",
            TokenType::StringLit => "STRING",
            TokenType::Number => "NUMBER",
            TokenType::And => "AND",
            TokenType::Class => "CLASS",
            TokenType::Else => "ELSE",
            TokenType::False => "FALSE",
            TokenType::Fun => "FUN",
            TokenType::For => "FOR",
            TokenType::If => "IF",
            TokenType::Nil => "NIL",
            TokenType::Or => "OR",
            TokenType::Print => "PRINT",
            TokenType::Return => "RETURN",
            TokenType::Super => "SUPER",
            TokenType::This => "THIS",
            TokenType::True => "TRUE",
            TokenType::Var => "VAR",
            TokenType::While => "WHILE",
            TokenType::EOF => "EOF",
            _ => "",
        };
        String::from_str(s)
    }

    /// The fixed text of this kind; empty for literals and markers.
    pub fn get_lexeme(&self) -> (r: String)
        ensures
            r@ == spec_lexeme(*self),
    {
        let s = match self {
            TokenType::LeftParenthesis => "(",
            TokenType::RightParenthesis => ")",
            TokenType::LeftCurly => "{",
            TokenType::RightCurly => "}",
            TokenType::Comma => ",",
            TokenType::Dot => ".",
            TokenType::Minus => "-",
            TokenType::Plus => "+",
            TokenType::Semicolon => ";",
            TokenType::Slash => "/",
            TokenType::Star => "*",
            TokenType::Bang => "!",
            TokenType::BangEqual => "!=",
            TokenType::Equal => "=",
            TokenType::EqualEqual => "==",
            TokenType::Greater => ">",
            TokenType::GreaterEqual => ">=",
            TokenType::Less => "<",
            TokenType::LessEqual => "<=",
            TokenType::And => "and",
            TokenType::Class => "class",
            TokenType::Else => "else",
            TokenType::False => "false",
            TokenType::Fun => "fun",
            TokenType::For => "for",
            TokenType::If => "if",
            TokenType::Nil => "nil",
            TokenType::Or => "or",
            TokenType::Print => "print",
            TokenType::Return => "return",
            TokenType::Super => "super",
            TokenType::This => "this",
            TokenType::True => "true",
            TokenType::Var => "var",
            TokenType::While => "while",
            _ => "",
        };
        String::from_str(s)
    }
}

/// Whether `w` spells exactly the characters of `k`.
fn spells(w: &Vec<char>, k: &str) -> (r: bool)
    ensures
        r == (w@ == k@),
{
    if w.len() != k.unicode_len() {
        return false;
    }
    let mut i: usize = 0;
    while i < w.len()
        invariant
            w@.len() == k@.len(),
            i <= w@.len(),
            forall|j: int| 0 <= j < i ==> w@[j] == k@[j],
        decreases w.len() - i,
    {
        if w[i] != k.get_char(i) {
            return false;
        }
        i = i + 1;
    }
    assert(w@ =~= k@);
    true
}

/// The keyword that the characters of `w` spell, if any.
pub fn reserved_word(w: &Vec<char>) -> (r: Option<TokenType>)
    ensures
        r == spec_reserved(w@),
{
    if spells(w, "and") {
        Some(TokenType::And)
    } else if spells(w, "class") {
        Some(TokenType::Class)
    } else if spells(w, "else") {
        Some(TokenType::Else)
    } else if spells(w, "false") {
        Some(TokenType::False)
    } else if spells(w, "fun") {
        Some(TokenType::Fun)
    } else if spells(w, "for") {
        Some(TokenType::For)
    } else if spells(w, "if") {
        Some(TokenType::If)
    } else if spells(w, "nil") {
        Some(TokenType::Nil)
    } else if spells(w, "or") {
        Some(TokenType::Or)
    } else if spells(w, "print") {
        Some(TokenType::Print)
    } else if spells(w, "return") {
        Some(TokenType::Return)
    } else if spells(w, "super") {
        Some(TokenType::Super)
    } else if spells(w, "this") {
        Some(TokenType::This)
    } else if spells(w, "true") {
        Some(TokenType::True)
    } else if spells(w, "var") {
        Some(TokenType::Var)
    } else if spells(w, "while") {
        Some(TokenType::While)
    } else {
        None
    }
}

} // verus!
