//! The SQL abstract syntax: statements, expressions, column definitions,
//! and the runtime value type with its operator semantics.
//!
//! Text the engine handles is carried as UTF-8 bytes, and an eight-byte
//! float is carried as its IEEE-754 bit pattern; arithmetic and boolean
//! operators are defined pairwise for integers, text and booleans, and
//! every other pairing is an evaluation error. Ordering comparisons are
//! defined only within one variant.

use vstd::prelude::*;

verus! {

broadcast use vstd::std_specs::vec::axiom_vec_decreases_to_view, vstd::seq::axiom_seq_index_decreases, vstd::seq::axiom_seq_subrange_decreases;

/// A runtime database value.
#[derive(Debug)]
pub enum DbValue {
    Bool(bool),
    Null,
    Integer(i64),
    /// A floating-point value, held as its IEEE-754 bit pattern.
    Float(u64),
    /// A text value: valid UTF-8 bytes.
    Text(Vec<u8>),
    Blob(Vec<u8>),
}

/// The mathematical shape of a runtime value.
pub enum DbValueV {
    Bool(bool),
    Null,
    Integer(i64),
    Float(u64),
    Text(Seq<u8>),
    Blob(Seq<u8>),
}

impl View for DbValue {
    type V = DbValueV;

    open spec fn view(&self) -> DbValueV {
        match self {
            DbValue::Bool(b) => DbValueV::Bool(*b),
            DbValue::Null => DbValueV::Null,
            DbValue::Integer(v) => DbValueV::Integer(*v),
            DbValue::Float(v) => DbValueV::Float(*v),
            DbValue::Text(s) => DbValueV::Text(s@),
            DbValue::Blob(s) => DbValueV::Blob(s@),
        }
    }
}

impl DeepView for DbValue {
    type V = DbValueV;

    open spec fn deep_view(&self) -> DbValueV {
        self.view()
    }
}

/// The variant a value belongs to.
#[derive(PartialEq, Eq, Structural, Debug, Clone, Copy)]
pub enum ValueKind {
    Bool,
    Null,
    Integer,
    Float,
    Text,
    Blob,
}

/// The kind of a value's shape.
pub open spec fn spec_kind(v: DbValueV) -> ValueKind {
    match v {
        DbValueV::Bool(_) => ValueKind::Bool,
        DbValueV::Null => ValueKind::Null,
        DbValueV::Integer(_) => ValueKind::Integer,
        DbValueV::Float(_) => ValueKind::Float,
        DbValueV::Text(_) => ValueKind::Text,
        DbValueV::Blob(_) => ValueKind::Blob,
    }
}

/// The operators of the expression grammar.
#[derive(PartialEq, Eq, Structural, Debug, Clone, Copy)]
pub enum Operator {
    Plus,
    Minus,
    Equals,
    Bang,
    Notequals,
    Less,
    Greater,
    LessEq,
    GreaterEq,
    Asterisk,
    Slash,
    Or,
    And,
    Not,
}

/// What expression evaluation can report.
#[derive(PartialEq, Eq, Structural, Debug, Clone, Copy)]
pub enum EvalError {
    /// The operator is not defined for this pairing of value kinds.
    TypeMismatch(Operator, ValueKind, ValueKind),
    /// The construct parses but has no evaluator.
    Unsupported,
    /// An integer division by zero.
    DivisionByZero,
}

/// Whether a float bit pattern encodes a NaN.
pub open spec fn spec_f64_is_nan(bits: u64) -> bool {
    (bits >> 52) & 0x7ff == 0x7ff && bits & 0xfffffffffffff != 0
}

/// Whether a float bit pattern encodes a zero of either sign.
pub open spec fn spec_f64_is_zero(bits: u64) -> bool {
    bits & 0x7fffffffffffffff == 0
}

/// Floating-point equality on bit patterns: NaN equals nothing, and the
/// two zeroes equal each other.
pub open spec fn spec_float_eq(a: u64, b: u64) -> bool {
    !spec_f64_is_nan(a) && !spec_f64_is_nan(b) && (a == b || (spec_f64_is_zero(a)
        && spec_f64_is_zero(b)))
}

/// The position of a non-NaN float on the number line, as an integer key
/// that orders bit patterns the way the encoded values order.
pub open spec fn spec_float_key(bits: u64) -> int {
    if bits >> 63 == 0 {
        (bits & 0x7fffffffffffffff) as int
    } else {
        -((bits & 0x7fffffffffffffff) as int)
    }
}

/// Floating-point strict order on bit patterns: false on any NaN.
pub open spec fn spec_float_lt(a: u64, b: u64) -> bool {
    !spec_f64_is_nan(a) && !spec_f64_is_nan(b) && spec_float_key(a) < spec_float_key(b)
}

/// Lexicographic strict order on byte strings.
pub open spec fn spec_bytes_lt(a: Seq<u8>, b: Seq<u8>) -> bool
    decreases a.len(),
{
    if b.len() == 0 {
        false
    } else if a.len() == 0 {
        true
    } else if a[0] < b[0] {
        true
    } else if a[0] > b[0] {
        false
    } else {
        spec_bytes_lt(a.drop_first(), b.drop_first())
    }
}

/// Value equality: structural within a variant, never across variants;
/// floats compare by number, so NaN equals nothing.
pub open spec fn spec_value_eq(a: DbValueV, b: DbValueV) -> bool {
    match (a, b) {
        (DbValueV::Bool(x), DbValueV::Bool(y)) => x == y,
        (DbValueV::Null, DbValueV::Null) => true,
        (DbValueV::Integer(x), DbValueV::Integer(y)) => x == y,
        (DbValueV::Float(x), DbValueV::Float(y)) => spec_float_eq(x, y),
        (DbValueV::Text(x), DbValueV::Text(y)) => x == y,
        (DbValueV::Blob(x), DbValueV::Blob(y)) => x == y,
        _ => false,
    }
}

/// Strict order, defined only within one variant: false before true,
/// numeric order for integers and floats, lexicographic order for text
/// and blobs; two nulls are equal. Any other pairing is an error.
pub open spec fn spec_value_lt(a: DbValueV, b: DbValueV) -> Result<bool, EvalError> {
    match (a, b) {
        (DbValueV::Bool(x), DbValueV::Bool(y)) => Ok(!x && y),
        (DbValueV::Null, DbValueV::Null) => Ok(false),
        (DbValueV::Integer(x), DbValueV::Integer(y)) => Ok(x < y),
        (DbValueV::Float(x), DbValueV::Float(y)) => Ok(spec_float_lt(x, y)),
        (DbValueV::Text(x), DbValueV::Text(y)) => Ok(spec_bytes_lt(x, y)),
        (DbValueV::Blob(x), DbValueV::Blob(y)) => Ok(spec_bytes_lt(x, y)),
        _ => Err(EvalError::TypeMismatch(Operator::Less, spec_kind(a), spec_kind(b))),
    }
}

/// Non-strict order within one variant; for floats this is numeric, so
/// nothing is below or equal to a NaN.
pub open spec fn spec_value_le(a: DbValueV, b: DbValueV) -> Result<bool, EvalError> {
    match spec_value_lt(a, b) {
        Ok(lt) => Ok(lt || spec_value_eq(a, b)),
        Err(e) => Err(e),
    }
}

/// Addition: integers add with wrap-around and text concatenates;
/// every other pairing is an error.
pub open spec fn spec_value_add(a: DbValueV, b: DbValueV) -> Result<DbValueV, EvalError> {
    match (a, b) {
        (DbValueV::Integer(x), DbValueV::Integer(y)) => Ok(DbValueV::Integer(x.wrapping_add(y))),
        (DbValueV::Text(x), DbValueV::Text(y)) => Ok(DbValueV::Text(x + y)),
        _ => Err(EvalError::TypeMismatch(Operator::Plus, spec_kind(a), spec_kind(b))),
    }
}

/// Subtraction, defined for integers with wrap-around.
pub open spec fn spec_value_sub(a: DbValueV, b: DbValueV) -> Result<DbValueV, EvalError> {
    match (a, b) {
        (DbValueV::Integer(x), DbValueV::Integer(y)) => Ok(DbValueV::Integer(x.wrapping_sub(y))),
        _ => Err(EvalError::TypeMismatch(Operator::Minus, spec_kind(a), spec_kind(b))),
    }
}

/// Multiplication, defined for integers with wrap-around.
pub open spec fn spec_value_mul(a: DbValueV, b: DbValueV) -> Result<DbValueV, EvalError> {
    match (a, b) {
        (DbValueV::Integer(x), DbValueV::Integer(y)) => Ok(DbValueV::Integer(x.wrapping_mul(y))),
        _ => Err(EvalError::TypeMismatch(Operator::Asterisk, spec_kind(a), spec_kind(b))),
    }
}

/// The quotient rounded toward zero, as machine division computes it.
pub open spec fn spec_trunc_div(x: i64, y: i64) -> i64 {
    let xa: int = if x >= 0 {
        x as int
    } else {
        -(x as int)
    };
    let ya: int = if y >= 0 {
        y as int
    } else {
        -(y as int)
    };
    let q = xa / ya;
    if (x >= 0) == (y >= 0) {
        q as i64
    } else {
        (-q) as i64
    }
}

/// Division, defined for integers; dividing by zero is an error, and the
/// one overflowing quotient wraps to itself.
pub open spec fn spec_value_div(a: DbValueV, b: DbValueV) -> Result<DbValueV, EvalError> {
    match (a, b) {
        (DbValueV::Integer(x), DbValueV::Integer(y)) => if y == 0 {
            Err(EvalError::DivisionByZero)
        } else if x == i64::MIN && y == -1 {
            Ok(DbValueV::Integer(i64::MIN))
        } else {
            Ok(DbValueV::Integer(spec_trunc_div(x, y)))
        },
        _ => Err(EvalError::TypeMismatch(Operator::Slash, spec_kind(a), spec_kind(b))),
    }
}

/// Negation, defined for integers with wrap-around.
pub open spec fn spec_value_neg(a: DbValueV) -> Result<DbValueV, EvalError> {
    match a {
        DbValueV::Integer(x) => Ok(DbValueV::Integer((0i64).wrapping_sub(x))),
        _ => Err(EvalError::TypeMismatch(Operator::Minus, spec_kind(a), spec_kind(a))),
    }
}

/// Logical not on booleans, bitwise not on integers.
pub open spec fn spec_value_not(a: DbValueV) -> Result<DbValueV, EvalError> {
    match a {
        DbValueV::Bool(x) => Ok(DbValueV::Bool(!x)),
        DbValueV::Integer(x) => Ok(DbValueV::Integer(!x)),
        _ => Err(EvalError::TypeMismatch(Operator::Bang, spec_kind(a), spec_kind(a))),
    }
}

/// Logical conjunction and disjunction, defined for booleans only.
pub open spec fn spec_value_logic(op: Operator, a: DbValueV, b: DbValueV) -> Result<
    DbValueV,
    EvalError,
> {
    match (a, b) {
        (DbValueV::Bool(x), DbValueV::Bool(y)) => if op == Operator::And {
            Ok(DbValueV::Bool(x && y))
        } else {
            Ok(DbValueV::Bool(x || y))
        },
        _ => Err(EvalError::TypeMismatch(op, spec_kind(a), spec_kind(b))),
    }
}

/// One SQL statement.
#[derive(Debug)]
pub enum Statement {
    Create(CreateStatement),
    Select(SelectStatement),
}

/// A parsed data-definition statement.
#[derive(Debug)]
pub enum CreateStatement {
    Table { name: Vec<u8>, cols: Vec<ColumnDefinition> },
}

/// One column of a CREATE TABLE list.
#[derive(Debug)]
pub struct ColumnDefinition {
    pub name: Vec<u8>,
    pub position: usize,
    pub typ: ColType,
    pub constraint: Vec<ColumnConstraint>,
}

/// A column constraint, with its optional conflict clause.
#[derive(PartialEq, Eq, Structural, Debug, Clone, Copy)]
pub enum ColumnConstraint {
    Pk { asc: bool, autoinc: bool, conflict: Option<ConflictClause> },
    NotNull(Option<ConflictClause>),
    Unique(Option<ConflictClause>),
}

/// The resolution named by an ON CONFLICT clause.
#[derive(PartialEq, Eq, Structural, Debug, Clone, Copy)]
pub enum ConflictClause {
    Rollback,
    Abort,
    Fail,
    Ignore,
    Replace,
}

/// The two column types the grammar accepts.
#[derive(PartialEq, Eq, Structural, Debug, Clone, Copy)]
pub enum ColType {
    INTEGER,
    TEXT,
}

/// A parsed SELECT statement.
#[derive(Debug)]
pub struct SelectStatement {
    pub from: Vec<u8>,
    pub fields: Vec<Expr>,
    pub filter: Option<Expr>,
}

/// An expression tree.
#[derive(Debug)]
pub enum Expr {
    Identifier { value: Vec<u8> },
    Literal { value: DbValue },
    Binary { left: Box<Expr>, right: Box<Expr>, operator: Operator },
    Unary { operator: Operator, expr: Box<Expr> },
    Function { name: Vec<u8>, args: FunctionArg },
    Grouping { expr: Box<Expr> },
}

/// The arguments of a function call: a star or an expression list.
#[derive(Debug)]
pub enum FunctionArg {
    Star,
    Args(Vec<Expr>),
}

/// The mathematical shape of a column definition.
pub struct ColumnDefinitionV {
    pub name: Seq<u8>,
    pub position: int,
    pub typ: ColType,
    pub constraint: Seq<ColumnConstraint>,
}

impl View for ColumnDefinition {
    type V = ColumnDefinitionV;

    open spec fn view(&self) -> ColumnDefinitionV {
        ColumnDefinitionV {
            name: self.name@,
            position: self.position as int,
            typ: self.typ,
            constraint: self.constraint@,
        }
    }
}

impl DeepView for ColumnDefinition {
    type V = ColumnDefinitionV;

    open spec fn deep_view(&self) -> ColumnDefinitionV {
        self.view()
    }
}

/// The mathematical shape of an expression.
pub enum ExprV {
    Identifier { value: Seq<u8> },
    Literal { value: DbValueV },
    Binary { left: Box<ExprV>, right: Box<ExprV>, operator: Operator },
    Unary { operator: Operator, expr: Box<ExprV> },
    Function { name: Seq<u8>, args: FunctionArgV },
    Grouping { expr: Box<ExprV> },
}

/// The mathematical shape of a function argument list.
pub enum FunctionArgV {
    Star,
    Args(Seq<ExprV>),
}

/// The shape of an expression tree.
pub open spec fn expr_view(e: Expr) -> ExprV
    decreases e,
{
    match e {
        Expr::Identifier { value } => ExprV::Identifier { value: value@ },
        Expr::Literal { value } => ExprV::Literal { value: value@ },
        Expr::Binary { left, right, operator } => ExprV::Binary {
            left: Box::new(expr_view(*left)),
            right: Box::new(expr_view(*right)),
            operator: operator,
        },
        Expr::Unary { operator, expr } => ExprV::Unary {
            operator: operator,
            expr: Box::new(expr_view(*expr)),
        },
        Expr::Function { name, args } => ExprV::Function { name: name@, args: arg_view(args) },
        Expr::Grouping { expr } => ExprV::Grouping { expr: Box::new(expr_view(*expr)) },
    }
}

/// The shape of a function argument list.
pub open spec fn arg_view(a: FunctionArg) -> FunctionArgV
    decreases a,
{
    match a {
        FunctionArg::Star => FunctionArgV::Star,
        FunctionArg::Args(args) => FunctionArgV::Args(exprs_view(args@)),
    }
}

/// The shapes of a run of expressions.
pub open spec fn exprs_view(s: Seq<Expr>) -> Seq<ExprV>
    decreases s,
{
    if s.len() == 0 {
        Seq::empty()
    } else {
        seq![expr_view(s[0])] + exprs_view(s.drop_first())
    }
}

/// The shapes of a run of expressions, read element by element.
pub proof fn lemma_exprs_view(s: Seq<Expr>)
    ensures
        exprs_view(s).len() == s.len(),
        forall|i: int| 0 <= i < s.len() ==> exprs_view(s)[i] == expr_view(s[i]),
    decreases s.len(),
{
    if s.len() > 0 {
        lemma_exprs_view(s.drop_first());
    }
}

impl View for Expr {
    type V = ExprV;

    open spec fn view(&self) -> ExprV {
        expr_view(*self)
    }
}

impl DeepView for Expr {
    type V = ExprV;

    open spec fn deep_view(&self) -> ExprV {
        expr_view(*self)
    }
}

impl View for FunctionArg {
    type V = FunctionArgV;

    open spec fn view(&self) -> FunctionArgV {
        arg_view(*self)
    }
}

impl DeepView for FunctionArg {
    type V = FunctionArgV;

    open spec fn deep_view(&self) -> FunctionArgV {
        arg_view(*self)
    }
}

/// The mathematical shape of a SELECT statement.
pub struct SelectStatementV {
    pub from: Seq<u8>,
    pub fields: Seq<ExprV>,
    pub filter: Option<ExprV>,
}

impl View for SelectStatement {
    type V = SelectStatementV;

    open spec fn view(&self) -> SelectStatementV {
        SelectStatementV {
            from: self.from@,
            fields: self.fields.deep_view(),
            filter: self.filter.deep_view(),
        }
    }
}

impl DeepView for SelectStatement {
    type V = SelectStatementV;

    open spec fn deep_view(&self) -> SelectStatementV {
        self.view()
    }
}

/// The mathematical shape of a data-definition statement.
pub enum CreateStatementV {
    Table { name: Seq<u8>, cols: Seq<ColumnDefinitionV> },
}

impl View for CreateStatement {
    type V = CreateStatementV;

    open spec fn view(&self) -> CreateStatementV {
        match self {
            CreateStatement::Table { name, cols } => CreateStatementV::Table {
                name: name@,
                cols: cols.deep_view(),
            },
        }
    }
}

impl DeepView for CreateStatement {
    type V = CreateStatementV;

    open spec fn deep_view(&self) -> CreateStatementV {
        self.view()
    }
}

/// The mathematical shape of a statement.
pub enum StatementV {
    Create(CreateStatementV),
    Select(SelectStatementV),
}

impl View for Statement {
    type V = StatementV;

    open spec fn view(&self) -> StatementV {
        match self {
            Statement::Create(c) => StatementV::Create(c@),
            Statement::Select(s) => StatementV::Select(s@),
        }
    }
}

impl DeepView for Statement {
    type V = StatementV;

    open spec fn deep_view(&self) -> StatementV {
        self.view()
    }
}

impl DbValue {
    /// The variant this value belongs to.
    pub fn kind(&self) -> (r: ValueKind)
        ensures
            r == spec_kind(self@),
    {
        match self {
            DbValue::Bool(_) => ValueKind::Bool,
            DbValue::Null => ValueKind::Null,
            DbValue::Integer(_) => ValueKind::Integer,
            DbValue::Float(_) => ValueKind::Float,
            DbValue::Text(_) => ValueKind::Text,
            DbValue::Blob(_) => ValueKind::Blob,
        }
    }

    /// Adds two values under the pairwise operator semantics.
    pub fn op_add(self, rhs: DbValue) -> (r: Result<DbValue, EvalError>)
        ensures
            match r {
                Ok(v) => spec_value_add(self@, rhs@) == Ok::<DbValueV, EvalError>(v@),
                Err(e) => spec_value_add(self@, rhs@) == Err::<DbValueV, EvalError>(e),
            },
    {
        match (self, rhs) {
            (DbValue::Integer(x), DbValue::Integer(y)) => Ok(
                DbValue::Integer(x.wrapping_add(y)),
            ),
            (DbValue::Text(x), DbValue::Text(y)) => Ok(DbValue::Text(concat_bytes(&x, &y))),
            (a, b) => Err(EvalError::TypeMismatch(Operator::Plus, a.kind(), b.kind())),
        }
    }

    /// Subtracts two values under the pairwise operator semantics.
    pub fn op_sub(self, rhs: DbValue) -> (r: Result<DbValue, EvalError>)
        ensures
            match r {
                Ok(v) => spec_value_sub(self@, rhs@) == Ok::<DbValueV, EvalError>(v@),
                Err(e) => spec_value_sub(self@, rhs@) == Err::<DbValueV, EvalError>(e),
            },
    {
        match (self, rhs) {
            (DbValue::Integer(x), DbValue::Integer(y)) => Ok(
                DbValue::Integer(x.wrapping_sub(y)),
            ),
            (a, b) => Err(EvalError::TypeMismatch(Operator::Minus, a.kind(), b.kind())),
        }
    }

    /// Multiplies two values under the pairwise operator semantics.
    pub fn op_mul(self, rhs: DbValue) -> (r: Result<DbValue, EvalError>)
        ensures
            match r {
                Ok(v) => spec_value_mul(self@, rhs@) == Ok::<DbValueV, EvalError>(v@),
                Err(e) => spec_value_mul(self@, rhs@) == Err::<DbValueV, EvalError>(e),
            },
    {
        match (self, rhs) {
            (DbValue::Integer(x), DbValue::Integer(y)) => Ok(
                DbValue::Integer(x.wrapping_mul(y)),
            ),
            (a, b) => Err(EvalError::TypeMismatch(Operator::Asterisk, a.kind(), b.kind())),
        }
    }

    /// Divides two values under the pairwise operator semantics.
    pub fn op_div(self, rhs: DbValue) -> (r: Result<DbValue, EvalError>)
        ensures
            match r {
                Ok(v) => spec_value_div(self@, rhs@) == Ok::<DbValueV, EvalError>(v@),
                Err(e) => spec_value_div(self@, rhs@) == Err::<DbValueV, EvalError>(e),
            },
    {
        match (self, rhs) {
            (DbValue::Integer(x), DbValue::Integer(y)) => {
                if y == 0 {
                    Err(EvalError::DivisionByZero)
                } else if x == i64::MIN && y == -1 {
                    Ok(DbValue::Integer(i64::MIN))
                } else {
                    // divide the magnitudes, then put the sign back
                    let xa: u64 = if x >= 0 {
                        x as u64
                    } else {
                        (-(x as i128)) as u64
                    };
                    let ya: u64 = if y >= 0 {
                        y as u64
                    } else {
                        (-(y as i128)) as u64
                    };
                    let q = xa / ya;
                    let r = if (x >= 0) == (y >= 0) {
                        proof {
                            assert(xa < 0x8000000000000000 || ya >= 2);
                            assert(q <= i64::MAX) by (nonlinear_arith)
                                requires
                                    q == xa as int / ya as int && ya >= 1 && (xa <= i64::MAX || ya
                                        >= 2) && xa <= 0x8000000000000000,
                            ;
                        }
                        q as i64
                    } else if q >= 0x8000000000000000 {
                        i64::MIN
                    } else {
                        -(q as i64)
                    };
                    Ok(DbValue::Integer(r))
                }
            },
            (a, b) => Err(EvalError::TypeMismatch(Operator::Slash, a.kind(), b.kind())),
        }
    }

    /// Negates a value under the unary operator semantics.
    pub fn op_neg(self) -> (r: Result<DbValue, EvalError>)
        ensures
            match r {
                Ok(v) => spec_value_neg(self@) == Ok::<DbValueV, EvalError>(v@),
                Err(e) => spec_value_neg(self@) == Err::<DbValueV, EvalError>(e),
            },
    {
        match self {
            DbValue::Integer(x) => Ok(DbValue::Integer((0i64).wrapping_sub(x))),
            a => Err(EvalError::TypeMismatch(Operator::Minus, a.kind(), a.kind())),
        }
    }

    /// Complements a value under the unary operator semantics.
    pub fn op_not(self) -> (r: Result<DbValue, EvalError>)
        ensures
            match r {
                Ok(v) => spec_value_not(self@) == Ok::<DbValueV, EvalError>(v@),
                Err(e) => spec_value_not(self@) == Err::<DbValueV, EvalError>(e),
            },
    {
        match self {
            DbValue::Bool(x) => Ok(DbValue::Bool(!x)),
            DbValue::Integer(x) => Ok(DbValue::Integer(!x)),
            a => Err(EvalError::TypeMismatch(Operator::Bang, a.kind(), a.kind())),
        }
    }

    /// Whether two values are equal under the value semantics.
    pub fn value_eq(&self, rhs: &DbValue) -> (r: bool)
        ensures
            r == spec_value_eq(self@, rhs@),
    {
        match (self, rhs) {
            (DbValue::Bool(x), DbValue::Bool(y)) => x == y,
            (DbValue::Null, DbValue::Null) => true,
            (DbValue::Integer(x), DbValue::Integer(y)) => x == y,
            (DbValue::Float(x), DbValue::Float(y)) => float_eq(*x, *y),
            (DbValue::Text(x), DbValue::Text(y)) => crate::util::bytes_eq(
                x.as_slice(),
                y.as_slice(),
            ),
            (DbValue::Blob(x), DbValue::Blob(y)) => crate::util::bytes_eq(
                x.as_slice(),
                y.as_slice(),
            ),
            _ => false,
        }
    }

    /// Whether this value is strictly below `rhs`, where defined.
    pub fn value_lt(&self, rhs: &DbValue) -> (r: Result<bool, EvalError>)
        ensures
            r == spec_value_lt(self@, rhs@),
    {
        match (self, rhs) {
            (DbValue::Bool(x), DbValue::Bool(y)) => Ok(!*x && *y),
            (DbValue::Null, DbValue::Null) => Ok(false),
            (DbValue::Integer(x), DbValue::Integer(y)) => Ok(*x < *y),
            (DbValue::Float(x), DbValue::Float(y)) => Ok(float_lt(*x, *y)),
            (DbValue::Text(x), DbValue::Text(y)) => Ok(bytes_lt(x.as_slice(), y.as_slice())),
            (DbValue::Blob(x), DbValue::Blob(y)) => Ok(bytes_lt(x.as_slice(), y.as_slice())),
            (a, b) => Err(EvalError::TypeMismatch(Operator::Less, a.kind(), b.kind())),
        }
    }

    /// Whether this value is below or equal to `rhs`, where defined.
    pub fn value_le(&self, rhs: &DbValue) -> (r: Result<bool, EvalError>)
        ensures
            r == spec_value_le(self@, rhs@),
    {
        match self.value_lt(rhs) {
            Ok(lt) => Ok(lt || self.value_eq(rhs)),
            Err(e) => Err(e),
        }
    }
}

impl Clone for DbValue {
    /// A clone carries the same value.
    fn clone(&self) -> (r: Self)
        ensures
            r@ == self@,
    {
        match self {
            DbValue::Bool(b) => DbValue::Bool(*b),
            DbValue::Null => DbValue::Null,
            DbValue::Integer(v) => DbValue::Integer(*v),
            DbValue::Float(v) => DbValue::Float(*v),
            DbValue::Text(s) => DbValue::Text(crate::util::clone_bytes(s)),
            DbValue::Blob(s) => DbValue::Blob(crate::util::clone_bytes(s)),
        }
    }
}

impl Clone for ColumnDefinition {
    /// A clone carries the same column definition.
    fn clone(&self) -> (r: Self)
        ensures
            r@ == self@,
    {
        let mut constraint: Vec<ColumnConstraint> = Vec::new();
        let mut i: usize = 0;
        let n = self.constraint.len();
        while i < n
            invariant
                n == self.constraint@.len(),
                i <= n,
                constraint@ == self.constraint@.subrange(0, i as int),
            decreases n - i,
        {
            constraint.push(self.constraint[i]);
            proof {
                assert(self.constraint@.subrange(0, i + 1) =~= self.constraint@.subrange(
                    0,
                    i as int,
                ).push(self.constraint@[i as int]));
            }
            i += 1;
        }
        proof {
            assert(self.constraint@.subrange(0, n as int) =~= self.constraint@);
        }
        ColumnDefinition {
            name: crate::util::clone_bytes(&self.name),
            position: self.position,
            typ: self.typ,
            constraint,
        }
    }
}

/// Whether a float bit pattern encodes a NaN.
fn f64_is_nan(bits: u64) -> (r: bool)
    ensures
        r == spec_f64_is_nan(bits),
{
    (bits >> 52) & 0x7ff == 0x7ff && bits & 0xfffffffffffff != 0
}

/// Floating-point equality on bit patterns.
fn float_eq(a: u64, b: u64) -> (r: bool)
    ensures
        r == spec_float_eq(a, b),
{
    if f64_is_nan(a) || f64_is_nan(b) {
        false
    } else {
        a == b || (a & 0x7fffffffffffffff == 0 && b & 0x7fffffffffffffff == 0)
    }
}

/// Floating-point strict order on bit patterns.
fn float_lt(a: u64, b: u64) -> (r: bool)
    ensures
        r == spec_float_lt(a, b),
{
    if f64_is_nan(a) || f64_is_nan(b) {
        return false;
    }
    let sa = a >> 63;
    let sb = b >> 63;
    let ma = a & 0x7fffffffffffffff;
    let mb = b & 0x7fffffffffffffff;
    proof {
        assert(a >> 63 == 0 || a >> 63 == 1) by (bit_vector);
        assert(b >> 63 == 0 || b >> 63 == 1) by (bit_vector);
    }
    if sa != sb {
        sa == 1 && !(ma == 0 && mb == 0)
    } else if sa == 0 {
        ma < mb
    } else {
        mb < ma
    }
}

/// Lexicographic strict order on byte slices.
fn bytes_lt(a: &[u8], b: &[u8]) -> (r: bool)
    ensures
        r == spec_bytes_lt(a@, b@),
{
    let na = a.len();
    let nb = b.len();
    let mut i: usize = 0;
    proof {
        assert(a@.skip(0) =~= a@);
        assert(b@.skip(0) =~= b@);
    }
    while i < na && i < nb
        invariant
            i <= na,
            i <= nb,
            na == a@.len(),
            nb == b@.len(),
            spec_bytes_lt(a@, b@) == spec_bytes_lt(a@.skip(i as int), b@.skip(i as int)),
        decreases na - i,
    {
        if a[i] < b[i] {
            proof {
                assert(a@.skip(i as int)[0] == a@[i as int]);
                assert(b@.skip(i as int)[0] == b@[i as int]);
            }
            return true;
        }
        if a[i] > b[i] {
            proof {
                assert(a@.skip(i as int)[0] == a@[i as int]);
                assert(b@.skip(i as int)[0] == b@[i as int]);
            }
            return false;
        }
        proof {
            assert(a@.skip(i as int)[0] == a@[i as int]);
            assert(b@.skip(i as int)[0] == b@[i as int]);
            assert(a@.skip(i as int).drop_first() =~= a@.skip(i + 1));
            assert(b@.skip(i as int).drop_first() =~= b@.skip(i + 1));
        }
        i += 1;
    }
    proof {
        assert(a@.skip(i as int).len() == na - i);
        assert(b@.skip(i as int).len() == nb - i);
    }
    i >= na && i < nb
}

/// The concatenation of two byte vectors.
pub fn concat_bytes(a: &Vec<u8>, b: &Vec<u8>) -> (r: Vec<u8>)
    ensures
        r@ == a@ + b@,
{
    let mut out = crate::util::copy_range(a.as_slice(), 0, a.len());
    let mut i: usize = 0;
    let nb = b.len();
    while i < nb
        invariant
            nb == b@.len(),
            i <= nb,
            out@ == a@ + b@.subrange(0, i as int),
        decreases nb - i,
    {
        out.push(b[i]);
        proof {
            assert(a@ + b@.subrange(0, i + 1) =~= (a@ + b@.subrange(0, i as int)).push(
                b@[i as int],
            ));
        }
        i += 1;
    }
    proof {
        assert(b@.subrange(0, nb as int) =~= b@);
    }
    out
}

} // verus!
