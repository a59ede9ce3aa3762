use vstd::prelude::*;

use crate::text::{chars_of, decimal, push_decimal};
use crate::token::{
    eof_view, null_text, punctuator_view, unknown_view, views, Token, TokenView,
};
use crate::token_type::{reserved_word, spec_from_one, spec_reserved, spec_type_string, TokenType};

verus! {

/// What went wrong while scanning.
#[derive(Clone, Copy, Debug, PartialEq, Eq, Structural)]
pub enum TokenizerErrorType {
    UnexpectedCharacter(char),
    UnterminatedString,
}

/// A lexical error and the line it was found on.
#[derive(Clone, Copy, Debug, PartialEq, Eq, Structural)]
pub struct TokenizerError {
    pub error_type: TokenizerErrorType,
    pub line: usize,
}

/// What the scanner is in the middle of, within one line.
#[derive(Clone, Copy, Debug, PartialEq, Eq, Structural)]
pub enum ScanMode {
    /// Between tokens.
    Idle,
    /// Inside a string literal.
    InString,
    /// Inside a number; the flag says whether a decimal point was seen.
    InNumber(bool),
    /// Inside a word.
    InWord,
}

pub open spec fn is_digit(c: char) -> bool {
    '0' <= c <= '9'
}

pub open spec fn is_word_start(c: char) -> bool {
    ('a' <= c <= 'z') || ('A' <= c <= 'Z') || c == '_'
}

pub open spec fn is_word_char(c: char) -> bool {
    is_word_start(c) || is_digit(c)
}

/// `s` without its trailing `'0'` characters.
pub open spec fn strip_zeros(s: Seq<char>) -> Seq<char>
    decreases s.len(),
{
    if s.len() > 0 && s.last() == '0' {
        strip_zeros(s.drop_last())
    } else {
        s
    }
}

/// The normalized value of a number with a decimal point: trailing zeros
/// after the point are dropped, but one digit always follows the point.
pub open spec fn normalize(s: Seq<char>) -> Seq<char> {
    let t = strip_zeros(s);
    if t.len() > 0 && t.last() == '.' {
        t.push('0')
    } else {
        t
    }
}

proof fn lemma_strip_zeros(s: Seq<char>)
    ensures
        strip_zeros(strip_zeros(s)) == strip_zeros(s),
        strip_zeros(s).len() == 0 || strip_zeros(s).last() != '0',
    decreases s.len(),
{
    if s.len() > 0 && s.last() == '0' {
        lemma_strip_zeros(s.drop_last());
    }
}

/// Normalizing a number text twice gives what normalizing it once gives.
pub proof fn lemma_normalize_idempotent(s: Seq<char>)
    ensures
        normalize(normalize(s)) == normalize(s),
{
    let t = strip_zeros(s);
    lemma_strip_zeros(s);
    if t.len() > 0 && t.last() == '.' {
        assert(t.push('0').drop_last() =~= t);
        assert(strip_zeros(t.push('0')) == strip_zeros(t));
    }
}

/// The tokens that a finished number buffer gives.
pub open spec fn number_views(buf: Seq<char>, seen_dot: bool, line: usize) -> Seq<TokenView> {
    if !seen_dot {
        seq![
            TokenView {
                token_type: TokenType::Number,
                lexeme: buf,
                literal: buf + seq!['.', '0'],
                line,
            },
        ]
    } else if buf.len() > 0 && buf.last() == '.' {
        seq![
            TokenView {
                token_type: TokenType::Number,
                lexeme: buf.drop_last(),
                literal: buf.push('0'),
                line,
            },
            punctuator_view(TokenType::Dot, line),
        ]
    } else {
        seq![
            TokenView { token_type: TokenType::Number, lexeme: buf, literal: normalize(buf), line },
        ]
    }
}

/// The literal of every number token is already normalized.
pub proof fn lemma_number_literals_normalized(buf: Seq<char>, seen_dot: bool, line: usize)
    ensures
        forall|i: int|
            0 <= i < number_views(buf, seen_dot, line).len() && (#[trigger] number_views(
                buf,
                seen_dot,
                line,
            )[i]).token_type is Number ==> normalize(number_views(buf, seen_dot, line)[i].literal)
                == number_views(buf, seen_dot, line)[i].literal,
{
    if !seen_dot {
        let lit = buf + seq!['.', '0'];
        assert(lit.drop_last() =~= buf.push('.'));
        assert(strip_zeros(lit) == strip_zeros(buf.push('.')));
        assert(buf.push('.').push('0') =~= lit);
    } else if buf.len() > 0 && buf.last() == '.' {
        assert(buf.push('0').drop_last() =~= buf);
        assert(strip_zeros(buf.push('0')) == strip_zeros(buf));
    } else {
        lemma_normalize_idempotent(buf);
    }
}

/// The token that a finished word gives: a keyword or an identifier.
pub open spec fn word_view(buf: Seq<char>, line: usize) -> TokenView {
    match spec_reserved(buf) {
        Some(k) => TokenView { token_type: k, lexeme: buf, literal: null_text(), line },
        None => TokenView {
            token_type: TokenType::Identifier,
            lexeme: buf,
            literal: null_text(),
            line,
        },
    }
}

/// The token of a closed string literal.
pub open spec fn string_view(buf: Seq<char>, line: usize) -> TokenView {
    TokenView {
        token_type: TokenType::StringLit,
        lexeme: seq!['"'] + buf + seq!['"'],
        literal: buf,
        line,
    }
}

/// The two-character operator that a token of kind `t` followed by `=` forms.
pub open spec fn equal_composite(t: TokenType) -> Option<TokenType> {
    match t {
        TokenType::Bang => Some(TokenType::BangEqual),
        TokenType::Equal => Some(TokenType::EqualEqual),
        TokenType::Greater => Some(TokenType::GreaterEqual),
        TokenType::Less => Some(TokenType::LessEqual),
        _ => None,
    }
}

/// The tokens after an `=` on line `line`, where `toks` is not empty: the
/// last token and the `=` merge when they form an operator.
pub open spec fn push_equal(toks: Seq<TokenView>, line: usize) -> Seq<TokenView> {
    match equal_composite(toks.last().token_type) {
        Some(k) => toks.drop_last().push(punctuator_view(k, line)),
        None => toks.push(punctuator_view(TokenType::Equal, line)),
    }
}

pub open spec fn scan_error(error_type: TokenizerErrorType, line: usize) -> TokenizerError {
    TokenizerError { error_type, line }
}

/// What the end of a line makes of the token in progress.
pub open spec fn flush(
    mode: ScanMode,
    buf: Seq<char>,
    toks: Seq<TokenView>,
    errs: Seq<TokenizerError>,
    line: usize,
) -> (Seq<TokenView>, Seq<TokenizerError>) {
    match mode {
        ScanMode::Idle => (toks, errs),
        ScanMode::InString => (
            toks,
            errs.push(scan_error(TokenizerErrorType::UnterminatedString, line)),
        ),
        ScanMode::InNumber(d) => (toks + number_views(buf, d, line), errs),
        ScanMode::InWord => (toks.push(word_view(buf, line)), errs),
    }
}

/// The tokens and errors after scanning `chars` from position `i` on, in
/// mode `mode` with `buf` buffered, where `toks` and `errs` were found before.
pub open spec fn scan_rest(
    chars: Seq<char>,
    i: int,
    mode: ScanMode,
    buf: Seq<char>,
    toks: Seq<TokenView>,
    errs: Seq<TokenizerError>,
    line: usize,
) -> (Seq<TokenView>, Seq<TokenizerError>)
    decreases chars.len() - i, (if mode is Idle { 0int } else { 1int }),
{
    if i < 0 || i >= chars.len() {
        flush(mode, buf, toks, errs, line)
    } else {
        let ch = chars[i];
        let none = Seq::<char>::empty();
        match mode {
            ScanMode::Idle => {
                if ch == '"' {
                    scan_rest(chars, i + 1, ScanMode::InString, none, toks, errs, line)
                } else if is_digit(ch) {
                    scan_rest(chars, i + 1, ScanMode::InNumber(false), seq![ch], toks, errs, line)
                } else if is_word_start(ch) {
                    scan_rest(chars, i + 1, ScanMode::InWord, seq![ch], toks, errs, line)
                } else if ch == '/' && i + 1 < chars.len() && chars[i + 1] == '/' {
                    (toks, errs)
                } else if ch == '=' && toks.len() > 0 {
                    scan_rest(
                        chars,
                        i + 1,
                        ScanMode::Idle,
                        none,
                        push_equal(toks, line),
                        errs,
                        line,
                    )
                } else {
                    match spec_from_one(ch) {
                        None => scan_rest(
                            chars,
                            i + 1,
                            ScanMode::Idle,
                            none,
                            toks.push(unknown_view(line)),
                            errs.push(
                                scan_error(TokenizerErrorType::UnexpectedCharacter(ch), line),
                            ),
                            line,
                        ),
                        Some(t) => if t is Whitespace || t is Tab {
                            scan_rest(chars, i + 1, ScanMode::Idle, none, toks, errs, line)
                        } else {
                            scan_rest(
                                chars,
                                i + 1,
                                ScanMode::Idle,
                                none,
                                toks.push(punctuator_view(t, line)),
                                errs,
                                line,
                            )
                        },
                    }
                }
            },
            ScanMode::InString => {
                if ch == '"' {
                    scan_rest(
                        chars,
                        i + 1,
                        ScanMode::Idle,
                        none,
                        toks.push(string_view(buf, line)),
                        errs,
                        line,
                    )
                } else {
                    scan_rest(chars, i + 1, ScanMode::InString, buf.push(ch), toks, errs, line)
                }
            },
            ScanMode::InNumber(d) => {
                if is_digit(ch) {
                    scan_rest(chars, i + 1, ScanMode::InNumber(d), buf.push(ch), toks, errs, line)
                } else if ch == '.' && !d {
                    scan_rest(
                        chars,
                        i + 1,
                        ScanMode::InNumber(true),
                        buf.push(ch),
                        toks,
                        errs,
                        line,
                    )
                } else {
                    scan_rest(
                        chars,
                        i,
                        ScanMode::Idle,
                        none,
                        toks + number_views(buf, d, line),
                        errs,
                        line,
                    )
                }
            },
            ScanMode::InWord => {
                if is_word_char(ch) {
                    scan_rest(chars, i + 1, ScanMode::InWord, buf.push(ch), toks, errs, line)
                } else {
                    scan_rest(
                        chars,
                        i,
                        ScanMode::Idle,
                        none,
                        toks.push(word_view(buf, line)),
                        errs,
                        line,
                    )
                }
            },
        }
    }
}

/// The tokens and errors after scanning one whole line, numbered `line`.
pub open spec fn scan_line(
    chars: Seq<char>,
    toks: Seq<TokenView>,
    errs: Seq<TokenizerError>,
    line: usize,
) -> (Seq<TokenView>, Seq<TokenizerError>) {
    scan_rest(chars, 0, ScanMode::Idle, Seq::empty(), toks, errs, line)
}

proof fn lemma_scan_digits(
    chars: Seq<char>,
    i: int,
    k: int,
    d: bool,
    buf: Seq<char>,
    toks: Seq<TokenView>,
    errs: Seq<TokenizerError>,
    line: usize,
)
    requires
        0 <= i <= k <= chars.len(),
        forall|j: int| i <= j < k ==> is_digit(#[trigger] chars[j]),
    ensures
        scan_rest(chars, i, ScanMode::InNumber(d), buf, toks, errs, line) == scan_rest(
            chars,
            k,
            ScanMode::InNumber(d),
            buf + chars.subrange(i, k),
            toks,
            errs,
            line,
        ),
    decreases k - i,
{
    if i < k {
        lemma_scan_digits(chars, i + 1, k, d, buf.push(chars[i]), toks, errs, line);
        assert(buf.push(chars[i]) + chars.subrange(i + 1, k) =~= buf + chars.subrange(i, k));
    } else {
        assert(buf + chars.subrange(i, k) =~= buf);
    }
}

/// A number literal as the scanner prints it (digits, one decimal point
/// with digits on both sides, normalized) scans back, alone on a line, to
/// one number token whose lexeme and literal are that same text.
pub proof fn lemma_literal_rescans(lit: Seq<char>, point: int, line: usize)
    requires
        0 < point < lit.len() - 1,
        lit[point] == '.',
        forall|j: int| 0 <= j < lit.len() && j != point ==> is_digit(#[trigger] lit[j]),
        normalize(lit) == lit,
    ensures
        scan_line(lit, Seq::empty(), Seq::empty(), line) == (
            seq![TokenView { token_type: TokenType::Number, lexeme: lit, literal: lit, line }],
            Seq::<TokenizerError>::empty(),
        ),
{
    let none = Seq::<TokenView>::empty();
    let no_errs = Seq::<TokenizerError>::empty();
    assert(is_digit(lit[0]));
    lemma_scan_digits(lit, 1, point, false, seq![lit[0]], none, no_errs, line);
    let before = seq![lit[0]] + lit.subrange(1, point);
    lemma_scan_digits(
        lit,
        point + 1,
        lit.len() as int,
        true,
        before.push('.'),
        none,
        no_errs,
        line,
    );
    assert(before.push('.') + lit.subrange(point + 1, lit.len() as int) =~= lit);
    assert(is_digit(lit[lit.len() - 1]));
    assert(none + number_views(lit, true, line) =~= seq![
        TokenView { token_type: TokenType::Number, lexeme: lit, literal: lit, line },
    ]);
}

/// An unexpected character `ch` at position `i` leaves a placeholder token
/// and an error, and the scan goes on with the next character.
pub proof fn lemma_unexpected_char_continues(
    chars: Seq<char>,
    i: int,
    ch: char,
    toks: Seq<TokenView>,
    errs: Seq<TokenizerError>,
    line: usize,
)
    requires
        0 <= i < chars.len(),
        chars[i] == ch,
        spec_from_one(ch) is None,
        ch != '"',
        !is_digit(ch),
        !is_word_start(ch),
    ensures
        scan_rest(chars, i, ScanMode::Idle, Seq::empty(), toks, errs, line) == scan_rest(
            chars,
            i + 1,
            ScanMode::Idle,
            Seq::empty(),
            toks.push(unknown_view(line)),
            errs.push(scan_error(TokenizerErrorType::UnexpectedCharacter(ch), line)),
            line,
        ),
{
}

/// The character at position `i`, as a value of type `char` in its own right.
proof fn char_at(s: Seq<char>, i: int) -> (c: char)
    requires
        0 <= i < s.len(),
    ensures
        c == s[i],
{
    s[i]
}

/// Scanning only adds errors: those found before stay, in order, at the front.
pub proof fn lemma_scan_keeps_errors(
    chars: Seq<char>,
    i: int,
    mode: ScanMode,
    buf: Seq<char>,
    toks: Seq<TokenView>,
    errs: Seq<TokenizerError>,
    line: usize,
)
    ensures
        errs.len() <= scan_rest(chars, i, mode, buf, toks, errs, line).1.len(),
        forall|j: int|
            0 <= j < errs.len() ==> #[trigger] scan_rest(chars, i, mode, buf, toks, errs, line).1[j]
                == errs[j],
    decreases chars.len() - i, (if mode is Idle { 0int } else { 1int }),
{
    let r = scan_rest(chars, i, mode, buf, toks, errs, line);
    if 0 <= i < chars.len() {
        let ch = char_at(chars, i);
        let none = Seq::<char>::empty();
        match mode {
            ScanMode::Idle => {
                if ch == '"' {
                    lemma_scan_keeps_errors(
                        chars,
                        i + 1,
                        ScanMode::InString,
                        none,
                        toks,
                        errs,
                        line,
                    );
                } else if is_digit(ch) {
                    lemma_scan_keeps_errors(
                        chars,
                        i + 1,
                        ScanMode::InNumber(false),
                        seq![ch],
                        toks,
                        errs,
                        line,
                    );
                } else if is_word_start(ch) {
                    lemma_scan_keeps_errors(
                        chars,
                        i + 1,
                        ScanMode::InWord,
                        seq![ch],
                        toks,
                        errs,
                        line,
                    );
                } else if ch == '/' && i + 1 < chars.len() && chars[i + 1] == '/' {
                } else if ch == '=' && toks.len() > 0 {
                    lemma_scan_keeps_errors(
                        chars,
                        i + 1,
                        ScanMode::Idle,
                        none,
                        push_equal(toks, line),
                        errs,
                        line,
                    );
                } else {
                    match spec_from_one(ch) {
                        None => {
                            let errs2 = errs.push(
                                scan_error(TokenizerErrorType::UnexpectedCharacter(ch), line),
                            );
                            let toks2 = toks.push(unknown_view(line));
                            lemma_scan_keeps_errors(
                                chars,
                                i + 1,
                                ScanMode::Idle,
                                none,
                                toks2,
                                errs2,
                                line,
                            );
                            assert forall|j: int| 0 <= j < errs.len() implies r.1[j] == errs[j] by {
                                assert(errs2[j] == errs[j]);
                            }
                        },
                        Some(t) => if t is Whitespace || t is Tab {
                            lemma_scan_keeps_errors(
                                chars,
                                i + 1,
                                ScanMode::Idle,
                                none,
                                toks,
                                errs,
                                line,
                            );
                        } else {
                            lemma_scan_keeps_errors(
                                chars,
                                i + 1,
                                ScanMode::Idle,
                                none,
                                toks.push(punctuator_view(t, line)),
                                errs,
                                line,
                            );
                        },
                    }
                }
            },
            ScanMode::InString => {
                if ch == '"' {
                    lemma_scan_keeps_errors(
                        chars,
                        i + 1,
                        ScanMode::Idle,
                        none,
                        toks.push(string_view(buf, line)),
                        errs,
                        line,
                    );
                } else {
                    lemma_scan_keeps_errors(
                        chars,
                        i + 1,
                        ScanMode::InString,
                        buf.push(ch),
                        toks,
                        errs,
                        line,
                    );
                }
            },
            ScanMode::InNumber(d) => {
                if is_digit(ch) {
                    lemma_scan_keeps_errors(
                        chars,
                        i + 1,
                        ScanMode::InNumber(d),
                        buf.push(ch),
                        toks,
                        errs,
                        line,
                    );
                } else if ch == '.' && !d {
                    lemma_scan_keeps_errors(
                        chars,
                        i + 1,
                        ScanMode::InNumber(true),
                        buf.push(ch),
                        toks,
                        errs,
                        line,
                    );
                } else {
                    lemma_scan_keeps_errors(
                        chars,
                        i,
                        ScanMode::Idle,
                        none,
                        toks + number_views(buf, d, line),
                        errs,
                        line,
                    );
                }
            },
            ScanMode::InWord => {
                if is_word_char(ch) {
                    lemma_scan_keeps_errors(
                        chars,
                        i + 1,
                        ScanMode::InWord,
                        buf.push(ch),
                        toks,
                        errs,
                        line,
                    );
                } else {
                    lemma_scan_keeps_errors(
                        chars,
                        i,
                        ScanMode::Idle,
                        none,
                        toks.push(word_view(buf, line)),
                        errs,
                        line,
                    );
                }
            },
        }
    }
}

/// `s` without a final carriage return.
pub open spec fn strip_cr(s: Seq<char>) -> Seq<char> {
    if s.len() > 0 && s.last() == '\r' {
        s.drop_last()
    } else {
        s
    }
}

/// The finished lines and the line in progress after the first `n`
/// characters of `s`.
pub open spec fn lines_upto(s: Seq<char>, n: nat) -> (Seq<Seq<char>>, Seq<char>)
    decreases n,
{
    if n == 0 || n > s.len() {
        (Seq::empty(), Seq::empty())
    } else {
        let (done, cur) = lines_upto(s, (n - 1) as nat);
        if s[n - 1] == '\n' {
            (done.push(strip_cr(cur)), Seq::empty())
        } else {
            (done, cur.push(s[n - 1]))
        }
    }
}

/// The lines of `s`: split at each `\n`, with a `\r` before it dropped; a
/// final line is kept only where it is not empty.
pub open spec fn split_lines(s: Seq<char>) -> Seq<Seq<char>> {
    let (done, cur) = lines_upto(s, s.len());
    if cur.len() > 0 {
        done.push(cur)
    } else {
        done
    }
}

/// The tokens and errors after scanning the first `k` lines.
pub open spec fn scan_lines(lines: Seq<Seq<char>>, k: nat) -> (Seq<TokenView>, Seq<TokenizerError>)
    decreases k,
{
    if k == 0 || k > lines.len() {
        (Seq::empty(), Seq::empty())
    } else {
        let (toks, errs) = scan_lines(lines, (k - 1) as nat);
        scan_line(lines[k - 1], toks, errs, k as usize)
    }
}

/// Errors found on earlier lines stay, in order, whatever later lines hold.
pub proof fn lemma_earlier_errors_kept(lines: Seq<Seq<char>>, k: nat, m: nat)
    requires
        k <= m <= lines.len(),
    ensures
        scan_lines(lines, k).1.len() <= scan_lines(lines, m).1.len(),
        forall|j: int|
            0 <= j < scan_lines(lines, k).1.len() ==> #[trigger] scan_lines(lines, m).1[j]
                == scan_lines(lines, k).1[j],
    decreases m - k,
{
    if k < m {
        lemma_earlier_errors_kept(lines, k, (m - 1) as nat);
        let (toks, errs) = scan_lines(lines, (m - 1) as nat);
        lemma_scan_keeps_errors(
            lines[m - 1],
            0,
            ScanMode::Idle,
            Seq::empty(),
            toks,
            errs,
            m as usize,
        );
    }
}

/// The tokens and errors of a whole source text; the tokens end with `EOF`.
pub open spec fn spec_tokenize(s: Seq<char>) -> (Seq<TokenView>, Seq<TokenizerError>) {
    let lines = split_lines(s);
    let (toks, errs) = scan_lines(lines, lines.len());
    (toks.push(eof_view()), errs)
}

pub open spec fn line_views(lines: Seq<Vec<char>>) -> Seq<Seq<char>> {
    lines.map_values(|l: Vec<char>| l@)
}

/// The lines of `s`, as `split_lines` gives them.
pub fn lines_of(s: &Vec<char>) -> (r: Vec<Vec<char>>)
    ensures
        line_views(r@) == split_lines(s@),
{
    let mut done: Vec<Vec<char>> = Vec::new();
    let mut cur: Vec<char> = Vec::new();
    let mut i: usize = 0;
    while i < s.len()
        invariant
            i <= s@.len(),
            (line_views(done@), cur@) == lines_upto(s@, i as nat),
        decreases s.len() - i,
    {
        let ch = s[i];
        if ch == '\n' {
            if cur.len() > 0 && cur[cur.len() - 1] == '\r' {
                cur.pop();
            }
            let ghost before = line_views(done@);
            done.push(cur);
            proof {
                assert(line_views(done@) =~= before.push(done@.last()@));
            }
            cur = Vec::new();
            proof {
                assert(cur@ =~= Seq::<char>::empty());
            }
        } else {
            cur.push(ch);
        }
        i = i + 1;
    }
    if cur.len() > 0 {
        let ghost before = line_views(done@);
        done.push(cur);
        proof {
            assert(line_views(done@) =~= before.push(done@.last()@));
        }
    }
    done
}

fn push_token(tokens: &mut Vec<Token>, t: Token)
    ensures
        views(final(tokens)@) == views(old(tokens)@).push(t@),
{
    tokens.push(t);
    proof {
        assert(views(tokens@) =~= views(old(tokens)@).push(t@));
    }
}

fn copy_chars(v: &Vec<char>) -> (r: Vec<char>)
    ensures
        r@ == v@,
{
    let mut r: Vec<char> = Vec::new();
    let mut i: usize = 0;
    while i < v.len()
        invariant
            i <= v@.len(),
            r@ == v@.subrange(0, i as int),
        decreases v.len() - i,
    {
        r.push(v[i]);
        i = i + 1;
    }
    assert(r@ =~= v@);
    r
}

/// The normalized value of the number text `buf`.
pub fn normalized(buf: &Vec<char>) -> (r: Vec<char>)
    ensures
        r@ == normalize(buf@),
{
    let mut lit = copy_chars(buf);
    while lit.len() > 0 && lit[lit.len() - 1] == '0'
        invariant
            strip_zeros(lit@) == strip_zeros(buf@),
        decreases lit.len(),
    {
        lit.pop();
    }
    if lit.len() > 0 && lit[lit.len() - 1] == '.' {
        lit.push('0');
    }
    lit
}

fn push_number(tokens: &mut Vec<Token>, buf: &Vec<char>, seen_dot: bool, line: usize)
    ensures
        views(final(tokens)@) == views(old(tokens)@) + number_views(buf@, seen_dot, line),
{
    if !seen_dot {
        let mut lit = copy_chars(buf);
        lit.push('.');
        lit.push('0');
        proof {
            assert(lit@ =~= buf@ + seq!['.', '0']);
        }
        push_token(tokens, Token::new(TokenType::Number, buf, &lit, line));
    } else if buf.len() > 0 && buf[buf.len() - 1] == '.' {
        let mut lexeme = copy_chars(buf);
        lexeme.pop();
        let mut lit = copy_chars(buf);
        lit.push('0');
        push_token(tokens, Token::new(TokenType::Number, &lexeme, &lit, line));
        push_token(tokens, Token::new_punctuator(TokenType::Dot, line));
    } else {
        let lit = normalized(buf);
        push_token(tokens, Token::new(TokenType::Number, buf, &lit, line));
    }
    assert(views(tokens@) =~= views(old(tokens)@) + number_views(buf@, seen_dot, line));
}

fn push_word(tokens: &mut Vec<Token>, buf: &Vec<char>, line: usize)
    ensures
        views(final(tokens)@) == views(old(tokens)@).push(word_view(buf@, line)),
{
    match reserved_word(buf) {
        Some(k) => push_token(tokens, Token::new_reserved(k, buf, line)),
        None => push_token(tokens, Token::new_identifier(buf, line)),
    }
}

fn push_string(tokens: &mut Vec<Token>, buf: &Vec<char>, line: usize)
    ensures
        views(final(tokens)@) == views(old(tokens)@).push(string_view(buf@, line)),
{
    let mut lexeme: Vec<char> = Vec::new();
    lexeme.push('"');
    let mut i: usize = 0;
    while i < buf.len()
        invariant
            i <= buf@.len(),
            lexeme@ == seq!['"'] + buf@.subrange(0, i as int),
        decreases buf.len() - i,
    {
        lexeme.push(buf[i]);
        i = i + 1;
        assert(lexeme@ =~= seq!['"'] + buf@.subrange(0, i as int));
    }
    lexeme.push('"');
    assert(lexeme@ =~= seq!['"'] + buf@ + seq!['"']);
    push_token(tokens, Token::new(TokenType::StringLit, &lexeme, buf, line));
}

fn composite_with_equal(t: TokenType) -> (r: Option<TokenType>)
    ensures
        r == equal_composite(t),
{
    match t {
        TokenType::Bang => Some(TokenType::BangEqual),
        TokenType::Equal => Some(TokenType::EqualEqual),
        TokenType::Greater => Some(TokenType::GreaterEqual),
        TokenType::Less => Some(TokenType::LessEqual),
        _ => None,
    }
}

fn push_equal_token(tokens: &mut Vec<Token>, line: usize)
    requires
        old(tokens).len() > 0,
    ensures
        views(final(tokens)@) == push_equal(views(old(tokens)@), line),
{
    let ghost before = views(tokens@);
    let prev = tokens.pop();
    proof {
        assert(views(tokens@) =~= before.drop_last());
    }
    match prev {
        Some(p) => {
            assert(p@ == before.last());
            match composite_with_equal(p.token_type) {
                Some(k) => push_token(tokens, Token::new_punctuator(k, line)),
                None => {
                    push_token(tokens, p);
                    assert(views(tokens@) =~= before);
                    push_token(tokens, Token::new_punctuator(TokenType::Equal, line));
                },
            }
        },
        None => {},
    }
}

/// The scanner: source text to tokens and lexical errors.
pub struct Tokenizer {}

/// The tokens of a source text, ending with `EOF`, and the lexical errors
/// found, both in source order.
pub struct TokenizerOutput {
    pub tokens: Vec<Token>,
    pub errors: Vec<TokenizerError>,
}

impl Tokenizer {
    /// Scans one line, numbered `index + 1`, appending what it finds.
    pub fn tokenize_line(
        tokens: &mut Vec<Token>,
        errors: &mut Vec<TokenizerError>,
        index: usize,
        line: &Vec<char>,
    )
        requires
            index < usize::MAX,
        ensures
            (views(final(tokens)@), final(errors)@) == scan_line(
                line@,
                views(old(tokens)@),
                old(errors)@,
                (index + 1) as usize,
            ),
    {
        let ln = index + 1;
        let ghost target = scan_line(line@, views(tokens@), errors@, ln);
        let mut i: usize = 0;
        let mut mode = ScanMode::Idle;
        let mut buffer: Vec<char> = Vec::new();
        while i < line.len()
            invariant
                i <= line@.len(),
                ln == index + 1,
                target == scan_line(line@, views(old(tokens)@), old(errors)@, ln),
                scan_rest(line@, i as int, mode, buffer@, views(tokens@), errors@, ln) == target,
            decreases line@.len() - i, (if mode is Idle { 0int } else { 1int }),
        {
            let ch = line[i];
            match mode {
                ScanMode::Idle => {
                    if ch == '"' {
                        buffer = Vec::new();
                        mode = ScanMode::InString;
                        i = i + 1;
                    } else if '0' <= ch && ch <= '9' {
                        buffer = Vec::new();
                        buffer.push(ch);
                        proof {
                            assert(buffer@ =~= seq![ch]);
                        }
                        mode = ScanMode::InNumber(false);
                        i = i + 1;
                    } else if ('a' <= ch && ch <= 'z') || ('A' <= ch && ch <= 'Z') || ch == '_' {
                        buffer = Vec::new();
                        buffer.push(ch);
                        proof {
                            assert(buffer@ =~= seq![ch]);
                        }
                        mode = ScanMode::InWord;
                        i = i + 1;
                    } else if ch == '/' && i + 1 < line.len() && line[i + 1] == '/' {
                        return;
                    } else if ch == '=' && tokens.len() > 0 {
                        push_equal_token(tokens, ln);
                        buffer = Vec::new();
                        i = i + 1;
                    } else {
                        match TokenType::from_one(&ch) {
                            None => {
                                push_token(tokens, Token::new_unknown(ln));
                                errors.push(TokenizerError::unexpected_char(ch, ln));
                            },
                            Some(t) => {
                                if t != TokenType::Whitespace && t != TokenType::Tab {
                                    push_token(tokens, Token::new_punctuator(t, ln));
                                }
                            },
                        }
                        buffer = Vec::new();
                        i = i + 1;
                    }
                },
                ScanMode::InString => {
                    if ch == '"' {
                        push_string(tokens, &buffer, ln);
                        buffer = Vec::new();
                        mode = ScanMode::Idle;
                    } else {
                        buffer.push(ch);
                    }
                    i = i + 1;
                },
                ScanMode::InNumber(d) => {
                    if '0' <= ch && ch <= '9' {
                        buffer.push(ch);
                        i = i + 1;
                    } else if ch == '.' && !d {
                        buffer.push(ch);
                        mode = ScanMode::InNumber(true);
                        i = i + 1;
                    } else {
                        push_number(tokens, &buffer, d, ln);
                        buffer = Vec::new();
                        mode = ScanMode::Idle;
                    }
                },
                ScanMode::InWord => {
                    if ('a' <= ch && ch <= 'z') || ('A' <= ch && ch <= 'Z') || ch == '_' || ('0'
                        <= ch && ch <= '9') {
                        buffer.push(ch);
                        i = i + 1;
                    } else {
                        push_word(tokens, &buffer, ln);
                        buffer = Vec::new();
                        mode = ScanMode::Idle;
                    }
                },
            }
        }
        match mode {
            ScanMode::Idle => {},
            ScanMode::InString => {
                errors.push(TokenizerError::unterminated_string(ln));
            },
            ScanMode::InNumber(d) => push_number(tokens, &buffer, d, ln),
            ScanMode::InWord => push_word(tokens, &buffer, ln),
        }
    }

    /// Scans a whole source text, line by line, and appends `EOF`.
    pub fn tokenize(file_contents: String) -> (r: TokenizerOutput)
        ensures
            (views(r.tokens@), r.errors@) == spec_tokenize(file_contents@),
    {
        let chars = chars_of(file_contents.as_str());
        let lines = lines_of(&chars);
        let ghost ls = split_lines(file_contents@);
        let mut tokens: Vec<Token> = Vec::new();
        let mut errors: Vec<TokenizerError> = Vec::new();
        let mut k: usize = 0;
        proof {
            assert(views(tokens@) =~= Seq::<TokenView>::empty());
        }
        while k < lines.len()
            invariant
                k <= lines@.len(),
                line_views(lines@) == ls,
                (views(tokens@), errors@) == scan_lines(ls, k as nat),
            decreases lines.len() - k,
        {
            Tokenizer::tokenize_line(&mut tokens, &mut errors, k, &lines[k]);
            k = k + 1;
        }
        push_token(&mut tokens, Token::new_eof());
        TokenizerOutput { tokens, errors }
    }
}

/// Whether a token of kind `t` is printed: whitespace markers and the
/// placeholders of unscannable characters are not.
pub open spec fn is_shown(t: TokenType) -> bool {
    !(t is Whitespace || t is Tab || t is Unknown)
}

/// The printed line of a token: kind, lexeme and literal.
pub open spec fn token_line(t: TokenView) -> Seq<char> {
    spec_type_string(t.token_type) + " "@ + t.lexeme + " "@ + t.literal + "\n"@
}

/// The printed lines of the shown tokens, in order.
pub open spec fn tokens_text(ts: Seq<TokenView>) -> Seq<char>
    decreases ts.len(),
{
    if ts.len() == 0 {
        Seq::empty()
    } else {
        tokens_text(ts.drop_last()) + if is_shown(ts.last().token_type) {
            token_line(ts.last())
        } else {
            Seq::empty()
        }
    }
}

pub open spec fn error_message(k: TokenizerErrorType) -> Seq<char> {
    match k {
        TokenizerErrorType::UnexpectedCharacter(c) => "Unexpected character: "@.push(c),
        TokenizerErrorType::UnterminatedString => "Unterminated string."@,
    }
}

/// The printed form of an error.
pub open spec fn error_text(e: TokenizerError) -> Seq<char> {
    "[line "@ + decimal(e.line as nat) + "] Error: "@ + error_message(e.error_type)
}

/// The printed lines of the errors, in order.
pub open spec fn errors_text(es: Seq<TokenizerError>) -> Seq<char>
    decreases es.len(),
{
    if es.len() == 0 {
        Seq::empty()
    } else {
        errors_text(es.drop_last()) + error_text(es.last()) + "\n"@
    }
}

/// The exit status that a scan reports: 0 without errors, 65 with some.
pub open spec fn spec_exit_code(es: Seq<TokenizerError>) -> i32 {
    if es.len() == 0 {
        0
    } else {
        65
    }
}

/// What the scan of a source text prints: the token lines for standard
/// output, the error lines for the diagnostic stream, and the exit status.
pub struct Serialized {
    pub output: String,
    pub diagnostics: String,
    pub exit_code: i32,
}

impl TokenizerError {
    pub fn new(error_type: TokenizerErrorType, line: usize) -> (r: TokenizerError)
        ensures
            r == scan_error(error_type, line),
    {
        TokenizerError { error_type, line }
    }

    pub fn unexpected_char(ch: char, line: usize) -> (r: TokenizerError)
        ensures
            r == scan_error(TokenizerErrorType::UnexpectedCharacter(ch), line),
    {
        TokenizerError::new(TokenizerErrorType::UnexpectedCharacter(ch), line)
    }

    pub fn unterminated_string(line: usize) -> (r: TokenizerError)
        ensures
            r == scan_error(TokenizerErrorType::UnterminatedString, line),
    {
        TokenizerError::new(TokenizerErrorType::UnterminatedString, line)
    }

    fn write_to(&self, out: &mut String)
        ensures
            final(out)@ == old(out)@ + error_text(*self),
    {
        out.append("[line ");
        push_decimal(out, self.line);
        out.append("] Error: ");
        match self.error_type {
            TokenizerErrorType::UnexpectedCharacter(c) => {
                out.append("Unexpected character: ");
                out.push(c);
            },
            TokenizerErrorType::UnterminatedString => out.append("Unterminated string."),
        }
        assert(out@ =~= old(out)@ + error_text(*self));
    }

    /// The printed form of this error: `[line <n>] Error: <message>`.
    pub fn to_string(&self) -> (r: String)
        ensures
            r@ == error_text(*self),
    {
        let mut out = String::new();
        self.write_to(&mut out);
        assert(out@ =~= error_text(*self));
        out
    }
}

impl Token {
    fn write_to(&self, out: &mut String)
        ensures
            final(out)@ == old(out)@ + token_line(self@),
    {
        let kind = self.token_type.get_type_string();
        out.append(kind.as_str());
        out.append(" ");
        out.append(self.lexeme.as_str());
        out.append(" ");
        out.append(self.literal.as_str());
        out.append("\n");
        assert(out@ =~= old(out)@ + token_line(self@));
    }
}

impl TokenizerOutput {
    pub fn get_tokens(&self) -> (r: &Vec<Token>)
        ensures
            r == &self.tokens,
    {
        &self.tokens
    }

    pub fn get_errors(&self) -> (r: &Vec<TokenizerError>)
        ensures
            r == &self.errors,
    {
        &self.errors
    }

    /// Whether a token is printed (see `is_shown`).
    pub fn filter_empty(t: &Token) -> (r: bool)
        ensures
            r == is_shown(t.token_type),
    {
        match t.token_type {
            TokenType::Whitespace | TokenType::Tab | TokenType::Unknown => false,
            _ => true,
        }
    }
}

impl Tokenizer {
    /// The printed form of a scan: errors first on the diagnostic stream,
    /// the shown tokens one per line, and the exit status.
    pub fn serialize(tokens: &Vec<Token>, errors: &Vec<TokenizerError>) -> (r: Serialized)
        ensures
            r.output@ == tokens_text(views(tokens@)),
            r.diagnostics@ == errors_text(errors@),
            r.exit_code == spec_exit_code(errors@),
    {
        let mut diagnostics = String::new();
        let mut j: usize = 0;
        while j < errors.len()
            invariant
                j <= errors@.len(),
                diagnostics@ == errors_text(errors@.subrange(0, j as int)),
            decreases errors.len() - j,
        {
            errors[j].write_to(&mut diagnostics);
            diagnostics.append("\n");
            j = j + 1;
            assert(errors@.subrange(0, j as int).drop_last() =~= errors@.subrange(0, j - 1 as int));
        }
        assert(errors@.subrange(0, errors@.len() as int) =~= errors@);
        let mut output = String::new();
        let mut i: usize = 0;
        while i < tokens.len()
            invariant
                i <= tokens@.len(),
                output@ == tokens_text(views(tokens@.subrange(0, i as int))),
            decreases tokens.len() - i,
        {
            let ghost prev = output@;
            if TokenizerOutput::filter_empty(&tokens[i]) {
                tokens[i].write_to(&mut output);
            }
            i = i + 1;
            assert(views(tokens@.subrange(0, i as int)).drop_last() =~= views(
                tokens@.subrange(0, i - 1 as int),
            ));
            assert(output@ =~= tokens_text(views(tokens@.subrange(0, i as int))));
        }
        assert(tokens@.subrange(0, tokens@.len() as int) =~= tokens@);
        let exit_code: i32 = if errors.len() == 0 {
            0
        } else {
            65
        };
        Serialized { output, diagnostics, exit_code }
    }
}

/// `lit` is digits with one decimal point at `point`, with digits on both
/// sides of it.
pub open spec fn has_number_shape(lit: Seq<char>, point: int) -> bool {
    &&& 0 < point < lit.len() - 1
    &&& lit[point] == '.'
    &&& forall|j: int| 0 <= j < lit.len() && j != point ==> is_digit(#[trigger] lit[j])
}

/// A number literal as the scanner makes it: digits, one decimal point with
/// digits on both sides, and normalized.
pub open spec fn is_printed_number(lit: Seq<char>) -> bool {
    &&& exists|point: int| has_number_shape(lit, point)
    &&& normalize(lit) == lit
}

/// Every number token among `toks` has a literal as the scanner makes it.
pub open spec fn numbers_printed(toks: Seq<TokenView>) -> bool {
    forall|k: int|
        0 <= k < toks.len() && (#[trigger] toks[k]).token_type is Number ==> is_printed_number(
            toks[k].literal,
        )
}

/// What a number buffer holds: digits, and after a decimal point was seen,
/// that point (not in front) among digits.
pub open spec fn number_buffer_ok(buf: Seq<char>, seen_dot: bool) -> bool {
    if !seen_dot {
        buf.len() > 0 && forall|j: int| 0 <= j < buf.len() ==> is_digit(#[trigger] buf[j])
    } else {
        exists|point: int|
            0 < point < buf.len() && buf[point] == '.' && forall|j: int|
                0 <= j < buf.len() && j != point ==> is_digit(#[trigger] buf[j])
    }
}

proof fn lemma_strip_zeros_prefix(s: Seq<char>, point: int)
    requires
        0 <= point < s.len(),
        s[point] == '.',
    ensures
        point < strip_zeros(s).len() <= s.len(),
        strip_zeros(s) == s.subrange(0, strip_zeros(s).len() as int),
    decreases s.len(),
{
    if s.len() > 0 && s.last() == '0' {
        lemma_strip_zeros_prefix(s.drop_last(), point);
        let t = strip_zeros(s.drop_last());
        assert(s.drop_last().subrange(0, t.len() as int) =~= s.subrange(0, t.len() as int));
    } else {
        assert(s.subrange(0, s.len() as int) =~= s);
    }
}

/// The number tokens that a well-formed buffer gives have printed literals.
proof fn lemma_number_views_printed(buf: Seq<char>, seen_dot: bool, line: usize)
    requires
        number_buffer_ok(buf, seen_dot),
    ensures
        numbers_printed(number_views(buf, seen_dot, line)),
{
    let vs = number_views(buf, seen_dot, line);
    lemma_number_literals_normalized(buf, seen_dot, line);
    if !seen_dot {
        let lit = buf + seq!['.', '0'];
        assert(has_number_shape(lit, buf.len() as int));
    } else {
        let point = choose|point: int|
            0 < point < buf.len() && buf[point] == '.' && forall|j: int|
                0 <= j < buf.len() && j != point ==> is_digit(#[trigger] buf[j]);
        if buf.last() == '.' {
            assert(point == buf.len() - 1) by {
                if point != buf.len() - 1 {
                    assert(is_digit(buf[buf.len() - 1]));
                }
            }
            assert(has_number_shape(buf.push('0'), point));
        } else {
            assert(point < buf.len() - 1) by {
                assert(is_digit(buf[buf.len() - 1]));
            }
            let t = strip_zeros(buf);
            lemma_strip_zeros_prefix(buf, point);
            if t.last() == '.' {
                assert(t.len() - 1 == point) by {
                    if t.len() - 1 != point {
                        assert(t[t.len() - 1] == buf[t.len() - 1]);
                        assert(is_digit(buf[t.len() - 1]));
                    }
                }
                let n = t.push('0');
                assert forall|j: int| 0 <= j < n.len() && j != point implies is_digit(
                    #[trigger] n[j],
                ) by {
                    if j < t.len() {
                        assert(n[j] == buf[j]);
                    }
                }
                assert(has_number_shape(n, point));
            } else {
                assert(t.len() - 1 > point);
                assert forall|j: int| 0 <= j < t.len() && j != point implies is_digit(
                    #[trigger] t[j],
                ) by {
                    assert(t[j] == buf[j]);
                }
                assert(has_number_shape(t, point));
            }
        }
    }
}

proof fn lemma_printed_push(toks: Seq<TokenView>, t: TokenView)
    requires
        numbers_printed(toks),
        !(t.token_type is Number),
    ensures
        numbers_printed(toks.push(t)),
{
    assert forall|k: int|
        0 <= k < toks.push(t).len() && (#[trigger] toks.push(t)[k]).token_type is Number
    implies is_printed_number(toks.push(t)[k].literal) by {
        assert(toks.push(t)[k] == toks[k]);
    }
}

proof fn lemma_printed_concat(a: Seq<TokenView>, b: Seq<TokenView>)
    requires
        numbers_printed(a),
        numbers_printed(b),
    ensures
        numbers_printed(a + b),
{
    assert forall|k: int|
        0 <= k < (a + b).len() && (#[trigger] (a + b)[k]).token_type is Number
    implies is_printed_number((a + b)[k].literal) by {
        if k < a.len() {
            assert((a + b)[k] == a[k]);
        } else {
            assert((a + b)[k] == b[k - a.len()]);
        }
    }
}

proof fn lemma_printed_push_equal(toks: Seq<TokenView>, line: usize)
    requires
        toks.len() > 0,
        numbers_printed(toks),
    ensures
        numbers_printed(push_equal(toks, line)),
{
    let rest = toks.drop_last();
    assert forall|k: int|
        0 <= k < rest.len() && (#[trigger] rest[k]).token_type is Number implies is_printed_number(
        rest[k].literal,
    ) by {
        assert(rest[k] == toks[k]);
    }
    match equal_composite(toks.last().token_type) {
        Some(c) => lemma_printed_push(rest, punctuator_view(c, line)),
        None => lemma_printed_push(toks, punctuator_view(TokenType::Equal, line)),
    }
}

/// Scanning keeps every number literal in the printed shape: where the
/// tokens found before have such literals, so do all tokens after.
pub proof fn lemma_scan_numbers_printed(
    chars: Seq<char>,
    i: int,
    mode: ScanMode,
    buf: Seq<char>,
    toks: Seq<TokenView>,
    errs: Seq<TokenizerError>,
    line: usize,
)
    requires
        numbers_printed(toks),
        mode matches ScanMode::InNumber(d) ==> number_buffer_ok(buf, d),
    ensures
        numbers_printed(scan_rest(chars, i, mode, buf, toks, errs, line).0),
    decreases chars.len() - i, (if mode is Idle { 0int } else { 1int }),
{
    let none = Seq::<char>::empty();
    if 0 <= i < chars.len() {
        let ch = char_at(chars, i);
        match mode {
            ScanMode::Idle => {
                if ch == '"' {
                    lemma_scan_numbers_printed(
                        chars,
                        i + 1,
                        ScanMode::InString,
                        none,
                        toks,
                        errs,
                        line,
                    );
                } else if is_digit(ch) {
                    lemma_scan_numbers_printed(
                        chars,
                        i + 1,
                        ScanMode::InNumber(false),
                        seq![ch],
                        toks,
                        errs,
                        line,
                    );
                } else if is_word_start(ch) {
                    lemma_scan_numbers_printed(
                        chars,
                        i + 1,
                        ScanMode::InWord,
                        seq![ch],
                        toks,
                        errs,
                        line,
                    );
                } else if ch == '/' && i + 1 < chars.len() && chars[i + 1] == '/' {
                } else if ch == '=' && toks.len() > 0 {
                    lemma_printed_push_equal(toks, line);
                    lemma_scan_numbers_printed(
                        chars,
                        i + 1,
                        ScanMode::Idle,
                        none,
                        push_equal(toks, line),
                        errs,
                        line,
                    );
                } else {
                    match spec_from_one(ch) {
                        None => {
                            let errs2 = errs.push(
                                scan_error(TokenizerErrorType::UnexpectedCharacter(ch), line),
                            );
                            lemma_printed_push(toks, unknown_view(line));
                            lemma_scan_numbers_printed(
                                chars,
                                i + 1,
                                ScanMode::Idle,
                                none,
                                toks.push(unknown_view(line)),
                                errs2,
                                line,
                            );
                        },
                        Some(t) => if t is Whitespace || t is Tab {
                            lemma_scan_numbers_printed(
                                chars,
                                i + 1,
                                ScanMode::Idle,
                                none,
                                toks,
                                errs,
                                line,
                            );
                        } else {
                            lemma_printed_push(toks, punctuator_view(t, line));
                            lemma_scan_numbers_printed(
                                chars,
                                i + 1,
                                ScanMode::Idle,
                                none,
                                toks.push(punctuator_view(t, line)),
                                errs,
                                line,
                            );
                        },
                    }
                }
            },
            ScanMode::InString => {
                if ch == '"' {
                    lemma_printed_push(toks, string_view(buf, line));
                    lemma_scan_numbers_printed(
                        chars,
                        i + 1,
                        ScanMode::Idle,
                        none,
                        toks.push(string_view(buf, line)),
                        errs,
                        line,
                    );
                } else {
                    lemma_scan_numbers_printed(
                        chars,
                        i + 1,
                        ScanMode::InString,
                        buf.push(ch),
                        toks,
                        errs,
                        line,
                    );
                }
            },
            ScanMode::InNumber(d) => {
                if is_digit(ch) {
                    let nb = buf.push(ch);
                    if d {
                        let point = choose|point: int|
                            0 < point < buf.len() && buf[point] == '.' && forall|j: int|
                                0 <= j < buf.len() && j != point ==> is_digit(#[trigger] buf[j]);
                        assert forall|j: int| 0 <= j < nb.len() && j != point implies is_digit(
                            #[trigger] nb[j],
                        ) by {
                            if j < buf.len() {
                                assert(nb[j] == buf[j]);
                            }
                        }
                        assert(nb[point] == '.');
                    } else {
                        assert forall|j: int| 0 <= j < nb.len() implies is_digit(
                            #[trigger] nb[j],
                        ) by {
                            if j < buf.len() {
                                assert(nb[j] == buf[j]);
                            }
                        }
                    }
                    lemma_scan_numbers_printed(
                        chars,
                        i + 1,
                        ScanMode::InNumber(d),
                        nb,
                        toks,
                        errs,
                        line,
                    );
                } else if ch == '.' && !d {
                    let nb = buf.push(ch);
                    let point = buf.len() as int;
                    assert forall|j: int| 0 <= j < nb.len() && j != point implies is_digit(
                        #[trigger] nb[j],
                    ) by {
                        assert(nb[j] == buf[j]);
                    }
                    assert(nb[point] == '.');
                    lemma_scan_numbers_printed(
                        chars,
                        i + 1,
                        ScanMode::InNumber(true),
                        nb,
                        toks,
                        errs,
                        line,
                    );
                } else {
                    lemma_number_views_printed(buf, d, line);
                    lemma_printed_concat(toks, number_views(buf, d, line));
                    lemma_scan_numbers_printed(
                        chars,
                        i,
                        ScanMode::Idle,
                        none,
                        toks + number_views(buf, d, line),
                        errs,
                        line,
                    );
                }
            },
            ScanMode::InWord => {
                if is_word_char(ch) {
                    lemma_scan_numbers_printed(
                        chars,
                        i + 1,
                        ScanMode::InWord,
                        buf.push(ch),
                        toks,
                        errs,
                        line,
                    );
                } else {
                    lemma_printed_push(toks, word_view(buf, line));
                    lemma_scan_numbers_printed(
                        chars,
                        i,
                        ScanMode::Idle,
                        none,
                        toks.push(word_view(buf, line)),
                        errs,
                        line,
                    );
                }
            },
        }
    } else {
        match mode {
            ScanMode::InNumber(d) => {
                lemma_number_views_printed(buf, d, line);
                lemma_printed_concat(toks, number_views(buf, d, line));
            },
            ScanMode::InWord => lemma_printed_push(toks, word_view(buf, line)),
            _ => {},
        }
    }
}

proof fn lemma_lines_printed(lines: Seq<Seq<char>>, k: nat)
    ensures
        numbers_printed(scan_lines(lines, k).0),
    decreases k,
{
    if k > 0 && k <= lines.len() {
        lemma_lines_printed(lines, (k - 1) as nat);
        let (toks, errs) = scan_lines(lines, (k - 1) as nat);
        lemma_scan_numbers_printed(
            lines[k - 1],
            0,
            ScanMode::Idle,
            Seq::empty(),
            toks,
            errs,
            k as usize,
        );
    }
}

/// Every number token of a scanned text has a literal in the printed shape.
pub proof fn lemma_tokenize_numbers_printed(s: Seq<char>)
    ensures
        numbers_printed(spec_tokenize(s).0),
{
    let lines = split_lines(s);
    lemma_lines_printed(lines, lines.len());
    lemma_printed_push(scan_lines(lines, lines.len()).0, eof_view());
}

/// The literal of any number token of a scanned text, scanned again alone
/// on a line, gives back one number token with that same literal.
pub proof fn lemma_scanned_literal_rescans(s: Seq<char>, k: int, line: usize)
    requires
        0 <= k < spec_tokenize(s).0.len(),
        spec_tokenize(s).0[k].token_type is Number,
    ensures
        ({
            let lit = spec_tokenize(s).0[k].literal;
            scan_line(lit, Seq::empty(), Seq::empty(), line) == (
                seq![TokenView { token_type: TokenType::Number, lexeme: lit, literal: lit, line }],
                Seq::<TokenizerError>::empty(),
            )
        }),
{
    lemma_tokenize_numbers_printed(s);
    let lit = spec_tokenize(s).0[k].literal;
    let point = choose|point: int| has_number_shape(lit, point);
    lemma_literal_rescans(lit, point, line);
}

proof fn lemma_lines_without_newline(s: Seq<char>, n: nat)
    requires
        n <= s.len(),
        forall|j: int| 0 <= j < n ==> s[j] != '\n',
    ensures
        lines_upto(s, n) == (Seq::<Seq<char>>::empty(), s.subrange(0, n as int)),
    decreases n,
{
    if n > 0 {
        lemma_lines_without_newline(s, (n - 1) as nat);
        assert(s.subrange(0, n - 1).push(s[n - 1]) =~= s.subrange(0, n as int));
    } else {
        assert(s.subrange(0, 0) =~= Seq::<char>::empty());
    }
}

/// A number literal in the printed shape, as a whole source text, scans to
/// one number token with that literal on line 1, then `EOF`, and no error:
/// printing a number and scanning it again is stable.
pub proof fn lemma_printed_literal_retokenizes(lit: Seq<char>)
    requires
        is_printed_number(lit),
    ensures
        spec_tokenize(lit) == (
            seq![
                TokenView { token_type: TokenType::Number, lexeme: lit, literal: lit, line: 1 },
                eof_view(),
            ],
            Seq::<TokenizerError>::empty(),
        ),
{
    let point = choose|point: int| has_number_shape(lit, point);
    assert forall|j: int| 0 <= j < lit.len() implies lit[j] != '\n' by {
        if j != point {
            assert(is_digit(lit[j]));
        }
    }
    lemma_lines_without_newline(lit, lit.len());
    assert(lit.subrange(0, lit.len() as int) =~= lit);
    assert(split_lines(lit) =~= seq![lit]);
    lemma_literal_rescans(lit, point, 1);
    assert(scan_lines(seq![lit], 0) == (Seq::<TokenView>::empty(), Seq::<TokenizerError>::empty()));
    assert(spec_tokenize(lit).0 =~= seq![
        TokenView { token_type: TokenType::Number, lexeme: lit, literal: lit, line: 1 },
        eof_view(),
    ]);
}

} // verus!
