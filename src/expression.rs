use vstd::prelude::*;

verus! {

/// Operators of a binary node.
#[derive(Clone, Copy, Debug, PartialEq, Eq, Structural)]
pub enum BinaryType {
    EqualEqual,
    BangEqual,
    Greater,
    GreaterEqual,
    Less,
    LessEqual,
    Plus,
    Minus,
    Star,
    Slash,
}

/// Operators of a unary node.
#[derive(Clone, Copy, Debug, PartialEq, Eq, Structural)]
pub enum UnaryType {
    Bang,
    Minus,
}

/// A binary node: an operator with its two operands.
#[derive(Debug)]
pub struct Binary {
    pub binary_type: BinaryType,
    pub left: Box<Expression>,
    pub right: Box<Expression>,
}

/// A unary node: an operator with its operand.
#[derive(Debug)]
pub struct Unary {
    pub unary_type: UnaryType,
    pub expression: Box<Expression>,
}

/// A node of the syntax tree. `Empty` marks a slot that no expression
/// fills yet; it is the value of an empty input too.
#[derive(Debug)]
pub enum Expression {
    Grouping(Box<Expression>),
    Binary(Binary),
    Unary(Unary),
    Number(String),
    Str(String),
    True,
    False,
    Nil,
    Empty,
}

/// Where a `-` stands: before an operand, or between two.
#[derive(Clone, Copy, Debug, PartialEq, Eq, Structural)]
pub enum MinusRole {
    Unary,
    Binary,
}

/// What went wrong while building an expression.
#[derive(Clone, Copy, Debug, PartialEq, Eq, Structural)]
pub enum ParseExprErrorType {
    /// There were no tokens at all.
    EmptyToken,
    /// A `)` with no open `(`.
    UnmatchedParenthesis,
    /// A `(` still open at the end of the input.
    UnclosedGroup,
    /// A `)` that closes a group without a complete expression in it.
    IncompleteGroup,
    /// An operand where the expression is already complete.
    ExpressionFull,
    /// A binary operator where an operand is still missing.
    MissingOperand,
}

pub open spec fn mk_binary(op: BinaryType, left: Expression, right: Expression) -> Expression {
    Expression::Binary(Binary { binary_type: op, left: Box::new(left), right: Box::new(right) })
}

pub open spec fn mk_unary(op: UnaryType, operand: Expression) -> Expression {
    Expression::Unary(Unary { unary_type: op, expression: Box::new(operand) })
}

/// An expression with no empty slot anywhere in it.
pub open spec fn is_full(e: Expression) -> bool
    decreases e,
{
    match e {
        Expression::Grouping(inner) => is_full(*inner),
        Expression::Binary(b) => is_full(*b.left) && is_full(*b.right),
        Expression::Unary(u) => is_full(*u.expression),
        Expression::Empty => false,
        _ => true,
    }
}

/// An expression with exactly one empty slot, where the next operand goes:
/// `Empty` itself, or an operator node whose operands are full but for one
/// such slot on the right-most open path.
pub open spec fn has_one_slot(e: Expression) -> bool
    decreases e,
{
    match e {
        Expression::Empty => true,
        Expression::Unary(u) => has_one_slot(*u.expression),
        Expression::Binary(b) => (has_one_slot(*b.left) && is_full(*b.right)) || (is_full(*b.left)
            && has_one_slot(*b.right)),
        _ => false,
    }
}

/// The tree after inserting the operand `v` into the open slot of `t`;
/// `None` where `t` has no slot to take it.
pub open spec fn spec_insert_value(t: Expression, v: Expression) -> Option<Expression>
    decreases t,
{
    match t {
        Expression::Empty => Some(v),
        Expression::Unary(u) => {
            if *u.expression is Empty {
                Some(mk_unary(u.unary_type, v))
            } else if !is_full(*u.expression) {
                match spec_insert_value(*u.expression, v) {
                    Some(n) => Some(mk_unary(u.unary_type, n)),
                    None => None,
                }
            } else {
                None
            }
        },
        Expression::Binary(b) => {
            if *b.left is Empty {
                Some(mk_binary(b.binary_type, v, *b.right))
            } else if !is_full(*b.left) {
                match spec_insert_value(*b.left, v) {
                    Some(n) => Some(mk_binary(b.binary_type, n, *b.right)),
                    None => None,
                }
            } else if *b.right is Empty {
                Some(mk_binary(b.binary_type, *b.left, v))
            } else if !is_full(*b.right) {
                match spec_insert_value(*b.right, v) {
                    Some(n) => Some(mk_binary(b.binary_type, *b.left, n)),
                    None => None,
                }
            } else {
                None
            }
        },
        _ => None,
    }
}

/// Whether a new operator `new_op` binds tighter than `outer`, so that it
/// takes only the right operand of a complete `outer` node.
pub open spec fn binds_tighter(outer: BinaryType, new_op: BinaryType) -> bool {
    (outer is Plus || outer is Minus) && (new_op is Star || new_op is Slash)
}

/// The tree after a binary operator `new_op` follows the complete
/// expression `t`: `t` becomes its left operand, except that a `*` or `/`
/// after a complete `+` or `-` node takes only that node's right operand.
pub open spec fn spec_absorb(t: Expression, new_op: BinaryType) -> Expression {
    match t {
        Expression::Binary(b) => if binds_tighter(b.binary_type, new_op) {
            mk_binary(b.binary_type, *b.left, mk_binary(new_op, *b.right, Expression::Empty))
        } else {
            mk_binary(new_op, t, Expression::Empty)
        },
        _ => mk_binary(new_op, t, Expression::Empty),
    }
}

/// The tree after a binary operator `op` arrives: on an empty tree the
/// operator starts with both operands open; on a complete one see
/// `spec_absorb`; `None` where an operand is still missing.
pub open spec fn spec_insert_operator(t: Expression, op: BinaryType) -> Option<Expression> {
    if t is Empty {
        Some(mk_binary(op, Expression::Empty, Expression::Empty))
    } else if !is_full(t) {
        None
    } else {
        Some(spec_absorb(t, op))
    }
}

/// A `-` is a negation where an operand is expected, a subtraction after a
/// complete expression.
pub open spec fn spec_minus_role(t: Expression) -> MinusRole {
    if is_full(t) {
        MinusRole::Binary
    } else {
        MinusRole::Unary
    }
}

pub open spec fn binary_symbol(op: BinaryType) -> Seq<char> {
    match op {
        BinaryType::EqualEqual => "=="@,
        BinaryType::BangEqual => "!="@,
        BinaryType::Greater => ">"@,
        BinaryType::GreaterEqual => ">="@,
        BinaryType::Less => "<"@,
        BinaryType::LessEqual => "<="@,
        BinaryType::Plus => "+"@,
        BinaryType::Minus => "-"@,
        BinaryType::Star => "*"@,
        BinaryType::Slash => "/"@,
    }
}

pub open spec fn unary_symbol(op: UnaryType) -> Seq<char> {
    match op {
        UnaryType::Bang => "!"@,
        UnaryType::Minus => "-"@,
    }
}

/// The fully parenthesized text of an expression.
pub open spec fn expr_text(e: Expression) -> Seq<char>
    decreases e,
{
    match e {
        Expression::Grouping(inner) => "(group "@ + expr_text(*inner) + ")"@,
        Expression::Binary(b) => "("@ + binary_symbol(b.binary_type) + " "@ + expr_text(*b.left)
            + " "@ + expr_text(*b.right) + ")"@,
        Expression::Unary(u) => "("@ + unary_symbol(u.unary_type) + " "@ + expr_text(*u.expression)
            + ")"@,
        Expression::Number(n) => n@,
        Expression::Str(s) => s@,
        Expression::True => "true"@,
        Expression::False => "false"@,
        Expression::Nil => "nil"@,
        Expression::Empty => Seq::empty(),
    }
}

/// Whether a node still has an empty slot somewhere below it.
pub trait IsPartial {
    spec fn spec_is_partial(&self) -> bool;

    fn is_partial(&self) -> (r: bool)
        ensures
            r == self.spec_is_partial(),
    ;

    fn is_full(&self) -> (r: bool)
        ensures
            r == !self.spec_is_partial(),
    ;
}

impl IsPartial for Expression {
    open spec fn spec_is_partial(&self) -> bool {
        !is_full(*self)
    }

    fn is_partial(&self) -> (r: bool)
        decreases *self,
    {
        match self {
            Expression::Grouping(inner) => inner.is_partial(),
            Expression::Binary(b) => b.is_partial(),
            Expression::Unary(u) => u.is_partial(),
            Expression::Empty => true,
            _ => false,
        }
    }

    fn is_full(&self) -> (r: bool) {
        !self.is_partial()
    }
}

impl IsPartial for Binary {
    open spec fn spec_is_partial(&self) -> bool {
        !is_full(*self.left) || !is_full(*self.right)
    }

    fn is_partial(&self) -> (r: bool)
        decreases *self,
    {
        self.left.is_partial() || self.right.is_partial()
    }

    fn is_full(&self) -> (r: bool) {
        !self.is_partial()
    }
}

impl IsPartial for Unary {
    open spec fn spec_is_partial(&self) -> bool {
        !is_full(*self.expression)
    }

    fn is_partial(&self) -> (r: bool)
        decreases *self,
    {
        self.expression.is_partial()
    }

    fn is_full(&self) -> (r: bool) {
        !self.is_partial()
    }
}

impl Binary {
    pub fn new(binary_type: BinaryType, left: Expression, right: Expression) -> (r: Binary)
        ensures
            r.binary_type == binary_type,
            *r.left == left,
            *r.right == right,
    {
        Binary { binary_type, left: Box::new(left), right: Box::new(right) }
    }

    /// A binary node with both operands open.
    pub fn new_empty_expr(binary_type: BinaryType) -> (r: Expression)
        ensures
            r == mk_binary(binary_type, Expression::Empty, Expression::Empty),
    {
        Expression::Binary(Binary::new(binary_type, Expression::Empty, Expression::Empty))
    }

    pub fn new_expr(binary_type: BinaryType, left: Expression, right: Expression) -> (r: Expression)
        ensures
            r == mk_binary(binary_type, left, right),
    {
        Expression::Binary(Binary::new(binary_type, left, right))
    }
}

impl Unary {
    pub fn new(unary_type: UnaryType, expr: Expression) -> (r: Unary)
        ensures
            r.unary_type == unary_type,
            *r.expression == expr,
    {
        Unary { unary_type, expression: Box::new(expr) }
    }

    pub fn new_bang(expr: Expression) -> (r: Unary)
        ensures
            r.unary_type == UnaryType::Bang,
            *r.expression == expr,
    {
        Unary::new(UnaryType::Bang, expr)
    }

    pub fn new_bang_expr(expr: Expression) -> (r: Expression)
        ensures
            r == mk_unary(UnaryType::Bang, expr),
    {
        Expression::Unary(Unary::new_bang(expr))
    }

    pub fn new_minus(expr: Expression) -> (r: Unary)
        ensures
            r.unary_type == UnaryType::Minus,
            *r.expression == expr,
    {
        Unary::new(UnaryType::Minus, expr)
    }

    pub fn new_minus_expr(expr: Expression) -> (r: Expression)
        ensures
            r == mk_unary(UnaryType::Minus, expr),
    {
        Expression::Unary(Unary::new_minus(expr))
    }
}

impl Expression {
    pub fn is_none(&self) -> (r: bool)
        ensures
            r == (*self is Empty),
    {
        match self {
            Expression::Empty => true,
            _ => false,
        }
    }

    pub fn is_binary(&self) -> (r: bool)
        ensures
            r == (*self is Binary),
    {
        match self {
            Expression::Binary(_) => true,
            _ => false,
        }
    }

    pub fn is_unary(&self) -> (r: bool)
        ensures
            r == (*self is Unary),
    {
        match self {
            Expression::Unary(_) => true,
            _ => false,
        }
    }

    /// The operator of this node where it is a binary node with both
    /// operands open.
    pub fn empty_operator(&self) -> (r: Option<BinaryType>)
        ensures
            r == empty_operator(*self),
    {
        match self {
            Expression::Binary(b) => {
                if b.left.is_none() && b.right.is_none() {
                    Some(b.binary_type)
                } else {
                    None
                }
            },
            _ => None,
        }
    }

    pub fn get_binary(&self) -> (r: Option<&Binary>)
        ensures
            match *self {
                Expression::Binary(b) => r == Some(&b),
                _ => r is None,
            },
    {
        match self {
            Expression::Binary(b) => Some(b),
            _ => None,
        }
    }

    pub fn get_unary(&self) -> (r: Option<&Unary>)
        ensures
            match *self {
                Expression::Unary(u) => r == Some(&u),
                _ => r is None,
            },
    {
        match self {
            Expression::Unary(u) => Some(u),
            _ => None,
        }
    }
}

/// The operator of `e` where `e` is a binary node with both operands
/// still open, as a new operator token makes it.
pub open spec fn empty_operator(e: Expression) -> Option<BinaryType> {
    match e {
        Expression::Binary(b) => if *b.left is Empty && *b.right is Empty {
            Some(b.binary_type)
        } else {
            None
        },
        _ => None,
    }
}

/// The tree after `expr` is added to `t`. An empty operator node that
/// follows an empty or complete tree places its operator as
/// `spec_insert_operator` says; anything else goes into the open slot of
/// `t` as an operand.
pub open spec fn spec_add(t: Expression, expr: Expression) -> Option<Expression> {
    match empty_operator(expr) {
        Some(op) => if t is Empty || is_full(t) {
            spec_insert_operator(t, op)
        } else {
            spec_insert_value(t, expr)
        },
        None => spec_insert_value(t, expr),
    }
}

/// Adding an operand or a new operator node to a tree.
pub trait AddExpr: Sized {
    /// The tree after the addition; `None` where an operand finds no slot.
    spec fn spec_add_expr(self, expr: Expression) -> Option<Expression>;

    fn add_expr(self, expr: Expression) -> (r: Result<Expression, ParseExprErrorType>)
        ensures
            match r {
                Ok(e) => self.spec_add_expr(expr) == Some(e),
                Err(k) => self.spec_add_expr(expr) is None && k
                    == ParseExprErrorType::ExpressionFull,
            },
    ;
}

impl Expression {
    /// Inserts the operand `expr` into the open slot of this expression.
    fn insert_value(self, expr: Expression) -> (r: Result<Expression, ParseExprErrorType>)
        ensures
            match r {
                Ok(e) => spec_insert_value(self, expr) == Some(e),
                Err(k) => spec_insert_value(self, expr) is None && k
                    == ParseExprErrorType::ExpressionFull,
            },
        decreases self,
    {
        match self {
            Expression::Empty => Ok(expr),
            Expression::Unary(u) => {
                let op = u.unary_type;
                let operand = *u.expression;
                if operand.is_none() {
                    Ok(Expression::Unary(Unary::new(op, expr)))
                } else if operand.is_partial() {
                    match operand.insert_value(expr) {
                        Ok(n) => Ok(Expression::Unary(Unary::new(op, n))),
                        Err(k) => Err(k),
                    }
                } else {
                    Err(ParseExprErrorType::ExpressionFull)
                }
            },
            Expression::Binary(b) => {
                let op = b.binary_type;
                let left = *b.left;
                let right = *b.right;
                if left.is_none() {
                    Ok(Binary::new_expr(op, expr, right))
                } else if left.is_partial() {
                    match left.insert_value(expr) {
                        Ok(n) => Ok(Binary::new_expr(op, n, right)),
                        Err(k) => Err(k),
                    }
                } else if right.is_none() {
                    Ok(Binary::new_expr(op, left, expr))
                } else if right.is_partial() {
                    match right.insert_value(expr) {
                        Ok(n) => Ok(Binary::new_expr(op, left, n)),
                        Err(k) => Err(k),
                    }
                } else {
                    Err(ParseExprErrorType::ExpressionFull)
                }
            },
            _ => Err(ParseExprErrorType::ExpressionFull),
        }
    }
}

impl AddExpr for Expression {
    open spec fn spec_add_expr(self, expr: Expression) -> Option<Expression> {
        spec_add(self, expr)
    }

    fn add_expr(self, expr: Expression) -> (r: Result<Expression, ParseExprErrorType>) {
        match expr.empty_operator() {
            Some(op) => {
                if self.is_none() || self.is_full() {
                    match self.add_operator(op) {
                        Ok(e) => Ok(e),
                        Err(_) => Err(ParseExprErrorType::ExpressionFull),
                    }
                } else {
                    self.insert_value(expr)
                }
            },
            None => self.insert_value(expr),
        }
    }
}

impl AddExpr for Binary {
    open spec fn spec_add_expr(self, expr: Expression) -> Option<Expression> {
        spec_add(Expression::Binary(self), expr)
    }

    fn add_expr(self, expr: Expression) -> (r: Result<Expression, ParseExprErrorType>) {
        Expression::Binary(self).add_expr(expr)
    }
}

impl AddExpr for Unary {
    open spec fn spec_add_expr(self, expr: Expression) -> Option<Expression> {
        spec_add(Expression::Unary(self), expr)
    }

    fn add_expr(self, expr: Expression) -> (r: Result<Expression, ParseExprErrorType>) {
        Expression::Unary(self).add_expr(expr)
    }
}

/// Whether a `-` after `current` negates the next operand or subtracts it.
pub fn classify_minus(current: &Expression) -> (r: MinusRole)
    ensures
        r == spec_minus_role(*current),
{
    if current.is_partial() {
        MinusRole::Unary
    } else {
        MinusRole::Binary
    }
}

/// Places a new binary operator `new_op` after the complete expression
/// `current` (see `spec_absorb`).
pub fn absorb_higher_precedence(current: Expression, new_op: BinaryType) -> (r: Expression)
    ensures
        r == spec_absorb(current, new_op),
{
    match current {
        Expression::Binary(b) => {
            let op = b.binary_type;
            let tighter = (op == BinaryType::Plus || op == BinaryType::Minus) && (new_op
                == BinaryType::Star || new_op == BinaryType::Slash);
            if tighter {
                let left = *b.left;
                let right = *b.right;
                Binary::new_expr(op, left, Binary::new_expr(new_op, right, Expression::Empty))
            } else {
                Binary::new_expr(new_op, Expression::Binary(b), Expression::Empty)
            }
        },
        other => Binary::new_expr(new_op, other, Expression::Empty),
    }
}

impl Expression {
    /// Places the binary operator `op` after this expression.
    pub fn add_operator(self, op: BinaryType) -> (r: Result<Expression, ParseExprErrorType>)
        ensures
            match r {
                Ok(e) => spec_insert_operator(self, op) == Some(e),
                Err(k) => spec_insert_operator(self, op) is None && k
                    == ParseExprErrorType::MissingOperand,
            },
    {
        if self.is_none() {
            Ok(Binary::new_empty_expr(op))
        } else if self.is_partial() {
            Err(ParseExprErrorType::MissingOperand)
        } else {
            Ok(absorb_higher_precedence(self, op))
        }
    }

    /// Appends the fully parenthesized text of this expression to `out`.
    pub fn write_to(&self, out: &mut String)
        ensures
            final(out)@ == old(out)@ + expr_text(*self),
        decreases *self,
    {
        match self {
            Expression::Grouping(inner) => {
                out.append("(group ");
                inner.write_to(out);
                out.append(")");
            },
            Expression::Binary(b) => {
                out.append("(");
                out.append(binary_symbol_str(b.binary_type));
                out.append(" ");
                b.left.write_to(out);
                out.append(" ");
                b.right.write_to(out);
                out.append(")");
            },
            Expression::Unary(u) => {
                out.append("(");
                out.append(
                    match u.unary_type {
                        UnaryType::Bang => "!",
                        UnaryType::Minus => "-",
                    },
                );
                out.append(" ");
                u.expression.write_to(out);
                out.append(")");
            },
            Expression::Number(n) => out.append(n.as_str()),
            Expression::Str(s) => out.append(s.as_str()),
            Expression::True => out.append("true"),
            Expression::False => out.append("false"),
            Expression::Nil => out.append("nil"),
            Expression::Empty => {},
        }
        assert(out@ =~= old(out)@ + expr_text(*self));
    }

    /// The fully parenthesized text of this expression.
    pub fn to_string(&self) -> (r: String)
        ensures
            r@ == expr_text(*self),
    {
        let mut out = String::new();
        self.write_to(&mut out);
        assert(out@ =~= expr_text(*self));
        out
    }
}

fn binary_symbol_str(op: BinaryType) -> (r: &'static str)
    ensures
        r@ == binary_symbol(op),
{
    match op {
        BinaryType::EqualEqual => "==",
        BinaryType::BangEqual => "!=",
        BinaryType::Greater => ">",
        BinaryType::GreaterEqual => ">=",
        BinaryType::Less => "<",
        BinaryType::LessEqual => "<=",
        BinaryType::Plus => "+",
        BinaryType::Minus => "-",
        BinaryType::Star => "*",
        BinaryType::Slash => "/",
    }
}

} // verus!
