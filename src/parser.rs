use vstd::prelude::*;

use crate::expression::{
    classify_minus, empty_operator, has_one_slot, is_full, mk_binary, mk_unary,
    spec_insert_operator, spec_insert_value, AddExpr, BinaryType, Expression, IsPartial, MinusRole,
    ParseExprErrorType, Unary, UnaryType,
};
use crate::text::{decimal, push_decimal};
use crate::token::{eof_view, views, Token, TokenView};
use crate::tokenizer::{
    is_printed_number, lemma_printed_literal_retokenizes, numbers_printed,
    spec_tokenize, TokenizerError,
};
use crate::token_type::TokenType;

verus! {

/// A structural error and the line of the token where it was found.
#[derive(Clone, Copy, Debug, PartialEq, Eq, Structural)]
pub struct ParseExprError {
    pub error_type: ParseExprErrorType,
    pub line: usize,
}

/// The description of a structural error.
pub open spec fn parse_error_message(k: ParseExprErrorType) -> Seq<char> {
    match k {
        ParseExprErrorType::EmptyToken => "Cannot parse an empty token list."@,
        ParseExprErrorType::UnmatchedParenthesis => "Unmatched parentheses."@,
        ParseExprErrorType::UnclosedGroup => "Unclosed group at end of input."@,
        ParseExprErrorType::IncompleteGroup => "Expect expression inside group."@,
        ParseExprErrorType::ExpressionFull => "Expect operator between expressions."@,
        ParseExprErrorType::MissingOperand => "Expect expression before operator."@,
    }
}

/// The printed form of a structural error.
pub open spec fn parse_error_text(e: ParseExprError) -> Seq<char> {
    "[line "@ + decimal(e.line as nat) + "] Error: "@ + parse_error_message(e.error_type)
}

impl ParseExprError {
    /// The printed form of this error: `[line <n>] Error: <message>`.
    pub fn to_string(&self) -> (r: String)
        ensures
            r@ == parse_error_text(*self),
    {
        let mut out = String::from_str("[line ");
        push_decimal(&mut out, self.line);
        out.append("] Error: ");
        out.append(
            match self.error_type {
                ParseExprErrorType::EmptyToken => "Cannot parse an empty token list.",
                ParseExprErrorType::UnmatchedParenthesis => "Unmatched parentheses.",
                ParseExprErrorType::UnclosedGroup => "Unclosed group at end of input.",
                ParseExprErrorType::IncompleteGroup => "Expect expression inside group.",
                ParseExprErrorType::ExpressionFull => "Expect operator between expressions.",
                ParseExprErrorType::MissingOperand => "Expect expression before operator.",
            },
        );
        out
    }
}

/// The expression builder: it folds tokens into one expression by slot
/// insertion, with a stack of the groups still open.
pub struct Parser;

/// Whether the builder takes in tokens of kind `t`; it skips all others.
/// Of these, `=`, `,`, `;` and `.` change nothing (see `is_passed_over`).
pub open spec fn is_relevant(t: TokenType) -> bool {
    match t {
        TokenType::LeftParenthesis | TokenType::RightParenthesis | TokenType::Bang
        | TokenType::BangEqual | TokenType::EqualEqual | TokenType::Greater
        | TokenType::GreaterEqual | TokenType::Less | TokenType::LessEqual | TokenType::Minus
        | TokenType::Plus | TokenType::Slash | TokenType::Star | TokenType::Number
        | TokenType::StringLit | TokenType::True | TokenType::False | TokenType::Nil
        | TokenType::Equal | TokenType::Comma | TokenType::Semicolon | TokenType::Dot => true,
        _ => false,
    }
}

/// The punctuators that the builder takes in but that no expression uses:
/// a step on one of them leaves the stack as it was.
pub open spec fn is_passed_over(t: TokenType) -> bool {
    t is Equal || t is Comma || t is Semicolon || t is Dot
}

/// The binary operator that a token of kind `t` stands for, `-` aside.
pub open spec fn spec_binary_type(t: TokenType) -> Option<BinaryType> {
    match t {
        TokenType::Plus => Some(BinaryType::Plus),
        TokenType::Slash => Some(BinaryType::Slash),
        TokenType::Star => Some(BinaryType::Star),
        TokenType::BangEqual => Some(BinaryType::BangEqual),
        TokenType::EqualEqual => Some(BinaryType::EqualEqual),
        TokenType::Greater => Some(BinaryType::Greater),
        TokenType::GreaterEqual => Some(BinaryType::GreaterEqual),
        TokenType::Less => Some(BinaryType::Less),
        TokenType::LessEqual => Some(BinaryType::LessEqual),
        _ => None,
    }
}

pub open spec fn parse_error(error_type: ParseExprErrorType, line: usize) -> ParseExprError {
    ParseExprError { error_type, line }
}

/// The stack after inserting the operand `v` into its top.
pub open spec fn put_value(stack: Seq<Expression>, v: Expression, line: usize) -> Result<
    Seq<Expression>,
    ParseExprError,
> {
    match spec_insert_value(stack.last(), v) {
        Some(n) => Ok(stack.drop_last().push(n)),
        None => Err(parse_error(ParseExprErrorType::ExpressionFull, line)),
    }
}

/// The stack after placing the binary operator `op` on its top.
pub open spec fn put_operator(stack: Seq<Expression>, op: BinaryType, line: usize) -> Result<
    Seq<Expression>,
    ParseExprError,
> {
    match spec_insert_operator(stack.last(), op) {
        Some(n) => Ok(stack.drop_last().push(n)),
        None => Err(parse_error(ParseExprErrorType::MissingOperand, line)),
    }
}

/// The stack that a step of the builder leaves, or its error.
pub open spec fn outcome(r: Result<(), ParseExprError>, stack: Seq<Expression>) -> Result<
    Seq<Expression>,
    ParseExprError,
> {
    match r {
        Ok(()) => Ok(stack),
        Err(e) => Err(e),
    }
}

/// One step of the builder. The stack holds the top-level expression
/// first and then one expression per open group; the last one is the one
/// being built.
pub open spec fn build_step(stack: Seq<Expression>, tok: Token) -> Result<
    Seq<Expression>,
    ParseExprError,
> {
    let cur = stack.last();
    let line = tok.line;
    match tok.token_type {
        TokenType::LeftParenthesis => Ok(stack.push(Expression::Empty)),
        TokenType::RightParenthesis => {
            if stack.len() <= 1 {
                Err(parse_error(ParseExprErrorType::UnmatchedParenthesis, line))
            } else if !is_full(cur) {
                Err(parse_error(ParseExprErrorType::IncompleteGroup, line))
            } else {
                put_value(stack.drop_last(), Expression::Grouping(Box::new(cur)), line)
            }
        },
        TokenType::Minus => {
            if is_full(cur) {
                put_operator(stack, BinaryType::Minus, line)
            } else {
                put_value(stack, mk_unary(UnaryType::Minus, Expression::Empty), line)
            }
        },
        TokenType::Bang => put_value(stack, mk_unary(UnaryType::Bang, Expression::Empty), line),
        TokenType::Number => put_value(stack, Expression::Number(tok.literal), line),
        TokenType::StringLit => put_value(stack, Expression::Str(tok.literal), line),
        TokenType::True => put_value(stack, Expression::True, line),
        TokenType::False => put_value(stack, Expression::False, line),
        TokenType::Nil => put_value(stack, Expression::Nil, line),
        _ => match spec_binary_type(tok.token_type) {
            Some(op) => put_operator(stack, op, line),
            None => Ok(stack),
        },
    }
}

/// The builder's stack after the first `n` tokens.
pub open spec fn build_upto(toks: Seq<Token>, n: nat) -> Result<Seq<Expression>, ParseExprError>
    decreases n,
{
    if n == 0 || n > toks.len() {
        Ok(seq![Expression::Empty])
    } else {
        match build_upto(toks, (n - 1) as nat) {
            Ok(stack) => build_step(stack, toks[n - 1]),
            Err(e) => Err(e),
        }
    }
}

/// The line of the last token among the first `n` that the builder takes
/// in; 0 where there is none.
pub open spec fn last_relevant_line(toks: Seq<Token>, n: nat) -> usize
    decreases n,
{
    if n == 0 || n > toks.len() {
        0
    } else if is_relevant(toks[n - 1].token_type) {
        toks[n - 1].line
    } else {
        last_relevant_line(toks, (n - 1) as nat)
    }
}

/// The expression that a token sequence builds, or the first structural
/// error. A group left open is reported at the last token taken in.
pub open spec fn spec_parse(toks: Seq<Token>) -> Result<Expression, ParseExprError> {
    if toks.len() == 0 {
        Err(parse_error(ParseExprErrorType::EmptyToken, 0))
    } else {
        match build_upto(toks, toks.len()) {
            Ok(stack) => if stack.len() == 1 {
                Ok(stack[0])
            } else {
                let line = last_relevant_line(toks, toks.len());
                Err(parse_error(ParseExprErrorType::UnclosedGroup, line))
            },
            Err(e) => Err(e),
        }
    }
}

impl BinaryType {
    /// The binary operator that a token kind stands for; `-` is left out,
    /// since it may be a negation.
    pub fn from_token(t: &TokenType) -> (r: Option<BinaryType>)
        ensures
            r == spec_binary_type(*t),
    {
        match t {
            TokenType::Plus => Some(BinaryType::Plus),
            TokenType::Slash => Some(BinaryType::Slash),
            TokenType::Star => Some(BinaryType::Star),
            TokenType::BangEqual => Some(BinaryType::BangEqual),
            TokenType::EqualEqual => Some(BinaryType::EqualEqual),
            TokenType::Greater => Some(BinaryType::Greater),
            TokenType::GreaterEqual => Some(BinaryType::GreaterEqual),
            TokenType::Less => Some(BinaryType::Less),
            TokenType::LessEqual => Some(BinaryType::LessEqual),
            _ => None,
        }
    }
}

impl Parser {
    /// Whether the builder takes in tokens of kind `t`.
    pub fn token_filter(t: &TokenType) -> (r: bool)
        ensures
            r == is_relevant(*t),
    {
        match t {
            TokenType::LeftParenthesis | TokenType::RightParenthesis | TokenType::Bang
            | TokenType::BangEqual | TokenType::EqualEqual | TokenType::Greater
            | TokenType::GreaterEqual | TokenType::Less | TokenType::LessEqual | TokenType::Minus
            | TokenType::Plus | TokenType::Slash | TokenType::Star | TokenType::Number
            | TokenType::StringLit | TokenType::True | TokenType::False | TokenType::Nil
            | TokenType::Equal | TokenType::Comma | TokenType::Semicolon | TokenType::Dot => true,
            _ => false,
        }
    }

    fn put_value(stack: &mut Vec<Expression>, v: Expression, line: usize) -> (r: Result<
        (),
        ParseExprError,
    >)
        requires
            old(stack).len() >= 1,
            empty_operator(v) is None,
        ensures
            put_value(old(stack)@, v, line) == outcome(r, final(stack)@),
            r is Ok ==> final(stack).len() >= 1,
    {
        let ghost before = stack@;
        let cur = stack.pop().unwrap();
        match cur.add_expr(v) {
            Ok(n) => {
                stack.push(n);
                assert(stack@ =~= before.drop_last().push(n));
                Ok(())
            },
            Err(k) => Err(ParseExprError { error_type: k, line }),
        }
    }

    fn put_operator(stack: &mut Vec<Expression>, op: BinaryType, line: usize) -> (r: Result<
        (),
        ParseExprError,
    >)
        requires
            old(stack).len() >= 1,
        ensures
            put_operator(old(stack)@, op, line) == outcome(r, final(stack)@),
            r is Ok ==> final(stack).len() >= 1,
    {
        let ghost before = stack@;
        let cur = stack.pop().unwrap();
        match cur.add_operator(op) {
            Ok(n) => {
                stack.push(n);
                assert(stack@ =~= before.drop_last().push(n));
                Ok(())
            },
            Err(k) => Err(ParseExprError { error_type: k, line }),
        }
    }

    fn step(stack: &mut Vec<Expression>, tok: &Token) -> (r: Result<(), ParseExprError>)
        requires
            old(stack).len() >= 1,
        ensures
            build_step(old(stack)@, *tok) == outcome(r, final(stack)@),
            r is Ok ==> final(stack).len() >= 1,
    {
        let line = tok.line;
        match tok.token_type {
            TokenType::LeftParenthesis => {
                stack.push(Expression::Empty);
                Ok(())
            },
            TokenType::RightParenthesis => {
                if stack.len() <= 1 {
                    return Err(
                        ParseExprError {
                            error_type: ParseExprErrorType::UnmatchedParenthesis,
                            line,
                        },
                    );
                }
                let ghost before = stack@;
                let group = stack.pop().unwrap();
                assert(stack@ =~= before.drop_last());
                if group.is_partial() {
                    return Err(
                        ParseExprError { error_type: ParseExprErrorType::IncompleteGroup, line },
                    );
                }
                Parser::put_value(stack, Expression::Grouping(Box::new(group)), line)
            },
            TokenType::Minus => {
                match classify_minus(&stack[stack.len() - 1]) {
                    MinusRole::Binary => Parser::put_operator(stack, BinaryType::Minus, line),
                    MinusRole::Unary => Parser::put_value(
                        stack,
                        Unary::new_minus_expr(Expression::Empty),
                        line,
                    ),
                }
            },
            TokenType::Bang => {
                Parser::put_value(stack, Unary::new_bang_expr(Expression::Empty), line)
            },
            TokenType::Number => {
                Parser::put_value(stack, Expression::Number(tok.literal.clone()), line)
            },
            TokenType::StringLit => {
                Parser::put_value(stack, Expression::Str(tok.literal.clone()), line)
            },
            TokenType::True => Parser::put_value(stack, Expression::True, line),
            TokenType::False => Parser::put_value(stack, Expression::False, line),
            TokenType::Nil => Parser::put_value(stack, Expression::Nil, line),
            _ => match BinaryType::from_token(&tok.token_type) {
                Some(op) => Parser::put_operator(stack, op, line),
                None => Ok(()),
            },
        }
    }

    /// Builds one expression from a token sequence.
    pub fn parse_tokens(tokens: &Vec<Token>) -> (r: Result<Expression, ParseExprError>)
        ensures
            r == spec_parse(tokens@),
    {
        if tokens.len() == 0 {
            return Err(ParseExprError { error_type: ParseExprErrorType::EmptyToken, line: 0 });
        }
        let mut stack: Vec<Expression> = Vec::new();
        stack.push(Expression::Empty);
        assert(stack@ =~= seq![Expression::Empty]);
        let mut i: usize = 0;
        let mut last_line: usize = 0;
        while i < tokens.len()
            invariant
                i <= tokens@.len(),
                stack.len() >= 1,
                last_line == last_relevant_line(tokens@, i as nat),
                build_upto(tokens@, i as nat) == Ok::<Seq<Expression>, ParseExprError>(stack@),
            decreases tokens.len() - i,
        {
            let tok = &tokens[i];
            if Parser::token_filter(&tok.token_type) {
                last_line = tok.line;
                match Parser::step(&mut stack, tok) {
                    Ok(()) => {},
                    Err(e) => {
                        proof {
                            lemma_error_persists(tokens@, (i + 1) as nat, e);
                        }
                        return Err(e);
                    },
                }
            }
            i = i + 1;
        }
        if stack.len() != 1 {
            return Err(
                ParseExprError { error_type: ParseExprErrorType::UnclosedGroup, line: last_line },
            );
        }
        let e = stack.pop().unwrap();
        Ok(e)
    }
}

/// Once the builder has failed, it stays failed with the same error.
proof fn lemma_error_persists(toks: Seq<Token>, n: nat, e: ParseExprError)
    requires
        n <= toks.len(),
        build_upto(toks, n) == Err::<Seq<Expression>, ParseExprError>(e),
    ensures
        build_upto(toks, toks.len()) == Err::<Seq<Expression>, ParseExprError>(e),
    decreases toks.len() - n,
{
    if n < toks.len() {
        assert(build_upto(toks, n + 1) == Err::<Seq<Expression>, ParseExprError>(e));
        lemma_error_persists(toks, n + 1, e);
    }
}

/// One step of the grammar of well-formed expressions, over token kinds.
/// The state says whether an operand comes next and how many groups are
/// open; `None` means the tokens so far fit no expression.
pub open spec fn accept_step(state: Option<(bool, nat)>, t: TokenType) -> Option<(bool, nat)> {
    match state {
        None => None,
        Some((expect_operand, depth)) => {
            if !is_relevant(t) || is_passed_over(t) {
                state
            } else if expect_operand {
                match t {
                    TokenType::Number | TokenType::StringLit | TokenType::True | TokenType::False
                    | TokenType::Nil => Some((false, depth)),
                    TokenType::LeftParenthesis => Some((true, depth + 1)),
                    TokenType::Bang | TokenType::Minus => Some((true, depth)),
                    _ => None,
                }
            } else {
                match t {
                    TokenType::RightParenthesis => if depth > 0 {
                        Some((false, (depth - 1) as nat))
                    } else {
                        None
                    },
                    TokenType::Minus => Some((true, depth)),
                    _ => if spec_binary_type(t) is Some {
                        Some((true, depth))
                    } else {
                        None
                    },
                }
            }
        },
    }
}

/// The grammar's state after the first `n` tokens.
pub open spec fn accept_upto(toks: Seq<Token>, n: nat) -> Option<(bool, nat)>
    decreases n,
{
    if n == 0 || n > toks.len() {
        Some((true, 0))
    } else {
        accept_step(accept_upto(toks, (n - 1) as nat), toks[n - 1].token_type)
    }
}

/// A well-formed expression: operands and binary operators alternate, each
/// operand may carry prefix `!` and `-`, parentheses are balanced and each
/// group holds a well-formed expression. Tokens the builder skips are
/// ignored.
pub open spec fn is_valid_expression(toks: Seq<Token>) -> bool {
    accept_upto(toks, toks.len()) == Some((false, 0nat))
}

/// How the builder's stack looks in a given grammar state: one entry per
/// open group beyond the top level; every entry below the last waits for an
/// operand in its one slot, and the last one does too when an operand comes
/// next, and is full otherwise.
pub open spec fn stack_fits(stack: Seq<Expression>, expect_operand: bool, depth: nat) -> bool {
    &&& stack.len() == depth + 1
    &&& forall|j: int| 0 <= j < stack.len() - 1 ==> has_one_slot(#[trigger] stack[j])
    &&& expect_operand ==> has_one_slot(stack.last())
    &&& !expect_operand ==> is_full(stack.last())
}

/// `stack_fits` for a grammar state that exists.
pub open spec fn fits_state(stack: Seq<Expression>, state: Option<(bool, nat)>) -> bool {
    match state {
        Some((expect_operand, depth)) => stack_fits(stack, expect_operand, depth),
        None => false,
    }
}

proof fn lemma_one_slot_not_full(e: Expression)
    requires
        has_one_slot(e),
    ensures
        !is_full(e),
    decreases e,
{
    match e {
        Expression::Unary(u) => lemma_one_slot_not_full(*u.expression),
        Expression::Binary(b) => {
            if has_one_slot(*b.left) {
                lemma_one_slot_not_full(*b.left);
            } else {
                lemma_one_slot_not_full(*b.right);
            }
        },
        _ => {},
    }
}

/// An operand always fits into an expression with one slot; a full operand
/// leaves it full, an operand with one slot leaves it with one slot.
proof fn lemma_insert_into_slot(t: Expression, v: Expression)
    requires
        has_one_slot(t),
    ensures
        spec_insert_value(t, v) is Some,
        is_full(v) ==> is_full(spec_insert_value(t, v)->0),
        has_one_slot(v) ==> has_one_slot(spec_insert_value(t, v)->0),
    decreases t,
{
    match t {
        Expression::Unary(u) => {
            if !(*u.expression is Empty) {
                lemma_one_slot_not_full(*u.expression);
                lemma_insert_into_slot(*u.expression, v);
            }
        },
        Expression::Binary(b) => {
            if has_one_slot(*b.left) {
                lemma_one_slot_not_full(*b.left);
                if !(*b.left is Empty) {
                    lemma_insert_into_slot(*b.left, v);
                }
            } else {
                lemma_one_slot_not_full(*b.right);
                if !(*b.right is Empty) {
                    lemma_insert_into_slot(*b.right, v);
                }
            }
        },
        _ => {},
    }
}

/// A binary operator after a full expression leaves one slot open.
proof fn lemma_operator_after_full(t: Expression, op: BinaryType)
    requires
        is_full(t),
    ensures
        spec_insert_operator(t, op) is Some,
        has_one_slot(spec_insert_operator(t, op)->0),
{
    assert(has_one_slot(Expression::Empty));
    match t {
        Expression::Binary(b) => {
            assert(has_one_slot(mk_binary(op, *b.right, Expression::Empty)));
        },
        _ => {},
    }
}

proof fn lemma_step_fits(stack: Seq<Expression>, eo: bool, d: nat, tok: Token)
    requires
        stack_fits(stack, eo, d),
        accept_step(Some((eo, d)), tok.token_type) is Some,
    ensures
        build_step(stack, tok) is Ok,
        fits_state(build_step(stack, tok)->Ok_0, accept_step(Some((eo, d)), tok.token_type)),
{
    let cur = stack.last();
    let rest = stack.drop_last();
    let t = tok.token_type;
    assert(has_one_slot(Expression::Empty));
    assert(has_one_slot(mk_unary(UnaryType::Minus, Expression::Empty)));
    assert(has_one_slot(mk_unary(UnaryType::Bang, Expression::Empty)));
    if eo {
        lemma_insert_into_slot(cur, Expression::Number(tok.literal));
        lemma_insert_into_slot(cur, Expression::Str(tok.literal));
        lemma_insert_into_slot(cur, Expression::True);
        lemma_insert_into_slot(cur, Expression::False);
        lemma_insert_into_slot(cur, Expression::Nil);
        lemma_insert_into_slot(cur, mk_unary(UnaryType::Minus, Expression::Empty));
        lemma_insert_into_slot(cur, mk_unary(UnaryType::Bang, Expression::Empty));
        lemma_one_slot_not_full(cur);
        if t is LeftParenthesis {
            let next = stack.push(Expression::Empty);
            assert forall|j: int| 0 <= j < next.len() - 1 implies has_one_slot(
                #[trigger] next[j],
            ) by {
                assert(next[j] == stack[j]);
            }
        }
        if is_relevant(t) && !is_passed_over(t) && !(t is LeftParenthesis) {
            let n = spec_insert_value(cur, Expression::Empty)->0;
            let v = match t {
                TokenType::Number => Expression::Number(tok.literal),
                TokenType::StringLit => Expression::Str(tok.literal),
                TokenType::True => Expression::True,
                TokenType::False => Expression::False,
                TokenType::Nil => Expression::Nil,
                TokenType::Minus => mk_unary(UnaryType::Minus, Expression::Empty),
                _ => mk_unary(UnaryType::Bang, Expression::Empty),
            };
            let next = rest.push(spec_insert_value(cur, v)->0);
            assert forall|j: int| 0 <= j < next.len() - 1 implies has_one_slot(
                #[trigger] next[j],
            ) by {
                assert(next[j] == stack[j]);
            }
        }
    } else {
        if t is RightParenthesis {
            let g = Expression::Grouping(Box::new(cur));
            let parent = rest.last();
            assert(has_one_slot(rest[rest.len() - 1]));
            lemma_insert_into_slot(parent, g);
            let next = rest.drop_last().push(spec_insert_value(parent, g)->0);
            assert forall|j: int| 0 <= j < next.len() - 1 implies has_one_slot(
                #[trigger] next[j],
            ) by {
                assert(next[j] == stack[j]);
            }
        } else if is_relevant(t) && !is_passed_over(t) {
            let op = if t is Minus {
                BinaryType::Minus
            } else {
                spec_binary_type(t)->0
            };
            lemma_operator_after_full(cur, op);
            let next = rest.push(spec_insert_operator(cur, op)->0);
            assert forall|j: int| 0 <= j < next.len() - 1 implies has_one_slot(
                #[trigger] next[j],
            ) by {
                assert(next[j] == stack[j]);
            }
        }
    }
}

proof fn lemma_prefix_fits(toks: Seq<Token>, n: nat)
    requires
        n <= toks.len(),
        accept_upto(toks, n) is Some,
    ensures
        build_upto(toks, n) is Ok,
        fits_state(build_upto(toks, n)->Ok_0, accept_upto(toks, n)),
    decreases n,
{
    if n == 0 {
        assert(has_one_slot(Expression::Empty));
    } else {
        let prev = accept_upto(toks, (n - 1) as nat);
        if prev is None {
            assert(accept_upto(toks, n) is None);
        }
        lemma_prefix_fits(toks, (n - 1) as nat);
        let (eo, d) = prev.unwrap();
        lemma_step_fits(build_upto(toks, (n - 1) as nat)->Ok_0, eo, d, toks[n - 1]);
    }
}

/// A well-formed token sequence builds a complete expression: the builder
/// succeeds, with no group left open and no empty slot in the result.
pub proof fn lemma_valid_tokens_build_full(toks: Seq<Token>)
    requires
        is_valid_expression(toks),
    ensures
        spec_parse(toks) is Ok,
        is_full(spec_parse(toks)->Ok_0),
{
    lemma_prefix_fits(toks, toks.len());
}

/// Every number leaf of `e` has a literal in the printed shape.
pub open spec fn leaves_printed(e: Expression) -> bool
    decreases e,
{
    match e {
        Expression::Grouping(inner) => leaves_printed(*inner),
        Expression::Binary(b) => leaves_printed(*b.left) && leaves_printed(*b.right),
        Expression::Unary(u) => leaves_printed(*u.expression),
        Expression::Number(n) => is_printed_number(n@),
        _ => true,
    }
}

proof fn lemma_insert_value_printed(t: Expression, v: Expression)
    requires
        leaves_printed(t),
        leaves_printed(v),
        spec_insert_value(t, v) is Some,
    ensures
        leaves_printed(spec_insert_value(t, v)->0),
    decreases t,
{
    match t {
        Expression::Unary(u) => {
            if !(*u.expression is Empty) {
                lemma_insert_value_printed(*u.expression, v);
            }
        },
        Expression::Binary(b) => {
            if !(*b.left is Empty) && !is_full(*b.left) {
                lemma_insert_value_printed(*b.left, v);
            } else if is_full(*b.left) && !(*b.right is Empty) && !is_full(*b.right) {
                lemma_insert_value_printed(*b.right, v);
            }
        },
        _ => {},
    }
}

proof fn lemma_step_printed(stack: Seq<Expression>, tok: Token)
    requires
        stack.len() >= 1,
        forall|j: int| 0 <= j < stack.len() ==> leaves_printed(#[trigger] stack[j]),
        tok.token_type is Number ==> is_printed_number(tok.literal@),
        build_step(stack, tok) is Ok,
    ensures
        forall|j: int|
            0 <= j < build_step(stack, tok)->Ok_0.len() ==> leaves_printed(
                #[trigger] build_step(stack, tok)->Ok_0[j],
            ),
{
    let next = build_step(stack, tok)->Ok_0;
    let cur = stack.last();
    let rest = stack.drop_last();
    assert(leaves_printed(cur));
    assert(leaves_printed(Expression::Empty));
    assert(leaves_printed(mk_unary(UnaryType::Minus, Expression::Empty)));
    assert(leaves_printed(mk_unary(UnaryType::Bang, Expression::Empty)));
    let t = tok.token_type;
    if t is RightParenthesis {
        let g = Expression::Grouping(Box::new(cur));
        assert(leaves_printed(g));
        assert(leaves_printed(rest[rest.len() - 1]));
        lemma_insert_value_printed(rest.last(), g);
    } else if t is Minus && !is_full(cur) || t is Bang || t is Number || t is StringLit || t is True
        || t is False || t is Nil {
        let v = match t {
            TokenType::Number => Expression::Number(tok.literal),
            TokenType::StringLit => Expression::Str(tok.literal),
            TokenType::True => Expression::True,
            TokenType::False => Expression::False,
            TokenType::Nil => Expression::Nil,
            TokenType::Minus => mk_unary(UnaryType::Minus, Expression::Empty),
            _ => mk_unary(UnaryType::Bang, Expression::Empty),
        };
        lemma_insert_value_printed(cur, v);
    } else if t is Minus || spec_binary_type(t) is Some {
        let op = if t is Minus {
            BinaryType::Minus
        } else {
            spec_binary_type(t)->0
        };
        if !(cur is Empty) {
            match cur {
                Expression::Binary(b) => {
                    assert(leaves_printed(*b.left) && leaves_printed(*b.right));
                    assert(leaves_printed(mk_binary(op, *b.right, Expression::Empty)));
                },
                _ => {},
            }
            assert(leaves_printed(mk_binary(op, cur, Expression::Empty)));
            assert(leaves_printed(spec_insert_operator(cur, op)->0));
        }
    }
    assert forall|j: int| 0 <= j < next.len() implies leaves_printed(#[trigger] next[j]) by {
        if j < next.len() - 1 {
            assert(next[j] == stack[j]);
        }
    }
}

proof fn lemma_build_printed(toks: Seq<Token>, n: nat)
    requires
        n <= toks.len(),
        numbers_printed(views(toks)),
        build_upto(toks, n) is Ok,
    ensures
        build_upto(toks, n)->Ok_0.len() >= 1,
        forall|j: int|
            0 <= j < build_upto(toks, n)->Ok_0.len() ==> leaves_printed(
                #[trigger] build_upto(toks, n)->Ok_0[j],
            ),
    decreases n,
{
    if n == 0 {
        assert(leaves_printed(Expression::Empty));
    } else {
        lemma_build_printed(toks, (n - 1) as nat);
        let tok = toks[n - 1];
        assert(views(toks)[n - 1] == tok@);
        lemma_step_printed(build_upto(toks, (n - 1) as nat)->Ok_0, tok);
    }
}

/// A number that the builder returns, printed and scanned again as a whole
/// text, gives one number token with the same literal, then `EOF`: where
/// the tokens came from the scanner, printing a number is stable.
pub proof fn lemma_parsed_number_retokenizes(toks: Seq<Token>, n: String)
    requires
        numbers_printed(views(toks)),
        spec_parse(toks) == Ok::<Expression, ParseExprError>(Expression::Number(n)),
    ensures
        spec_tokenize(n@) == (
            seq![
                TokenView { token_type: TokenType::Number, lexeme: n@, literal: n@, line: 1 },
                eof_view(),
            ],
            Seq::<TokenizerError>::empty(),
        ),
{
    lemma_build_printed(toks, toks.len());
    let stack = build_upto(toks, toks.len())->Ok_0;
    assert(leaves_printed(stack[0]));
    lemma_printed_literal_retokenizes(n@);
}

} // verus!
