//! Expression evaluation over one row: identifiers resolve through the
//! column list with the rowid-aliasing rule, operators apply the
//! pairwise value semantics, and a function call or bare NOT is
//! reported as unsupported.

use vstd::prelude::*;
use crate::query::{Column, ColumnV, Row, RowV};
use crate::syntax::{
    spec_value_add, spec_value_div, spec_value_eq, spec_value_le, spec_value_logic, spec_value_lt,
    spec_value_mul, spec_value_neg, spec_value_not, spec_value_sub, ColType, ColumnConstraint,
    DbValue, DbValueV, EvalError, Expr, ExprV, Operator,
};

verus! {

/// Whether a column carries a PRIMARY KEY constraint.
pub open spec fn spec_is_pk(constraint: Seq<ColumnConstraint>) -> bool {
    exists|i: int| 0 <= i < constraint.len() && constraint[i] is Pk
}

/// The value an identifier resolves to: the first column of that name;
/// an INTEGER PRIMARY KEY column stands for the rowid, any other column
/// for its positional value, and an unknown name for null. A position
/// outside the row also yields null.
pub open spec fn spec_lookup(cols: Seq<ColumnV>, row: RowV, name: Seq<u8>) -> DbValueV
    decreases cols.len(),
{
    if cols.len() == 0 {
        DbValueV::Null
    } else if cols[0].col.name == name {
        if cols[0].col.typ == ColType::INTEGER && spec_is_pk(cols[0].col.constraint) {
            row.id
        } else if 0 <= cols[0].col.position < row.row.len() {
            row.row[cols[0].col.position]
        } else {
            DbValueV::Null
        }
    } else {
        spec_lookup(cols.drop_first(), row, name)
    }
}

/// The result of one binary operator on two evaluated operands.
pub open spec fn spec_apply_binary(op: Operator, l: DbValueV, r: DbValueV) -> Result<
    DbValueV,
    EvalError,
> {
    match op {
        Operator::Plus => spec_value_add(l, r),
        Operator::Minus => spec_value_sub(l, r),
        Operator::Asterisk => spec_value_mul(l, r),
        Operator::Slash => spec_value_div(l, r),
        Operator::Equals => Ok(DbValueV::Bool(spec_value_eq(l, r))),
        Operator::Notequals => Ok(DbValueV::Bool(!spec_value_eq(l, r))),
        Operator::Less => match spec_value_lt(l, r) {
            Ok(b) => Ok(DbValueV::Bool(b)),
            Err(e) => Err(e),
        },
        Operator::Greater => match spec_value_lt(r, l) {
            Ok(b) => Ok(DbValueV::Bool(b)),
            Err(e) => Err(e),
        },
        Operator::LessEq => match spec_value_le(l, r) {
            Ok(b) => Ok(DbValueV::Bool(b)),
            Err(e) => Err(e),
        },
        Operator::GreaterEq => match spec_value_le(r, l) {
            Ok(b) => Ok(DbValueV::Bool(b)),
            Err(e) => Err(e),
        },
        Operator::Or => spec_value_logic(Operator::Or, l, r),
        Operator::And => spec_value_logic(Operator::And, l, r),
        _ => Err(EvalError::Unsupported),
    }
}

/// What evaluating an expression against one row yields.
pub open spec fn spec_eval(e: ExprV, cols: Seq<ColumnV>, row: RowV) -> Result<DbValueV, EvalError>
    decreases e,
{
    match e {
        ExprV::Identifier { value } => Ok(spec_lookup(cols, row, value)),
        ExprV::Literal { value } => Ok(value),
        ExprV::Binary { left, right, operator } => match spec_eval(*left, cols, row) {
            Err(err) => Err(err),
            Ok(l) => match spec_eval(*right, cols, row) {
                Err(err) => Err(err),
                Ok(r) => spec_apply_binary(operator, l, r),
            },
        },
        ExprV::Unary { operator, expr } => match spec_eval(*expr, cols, row) {
            Err(err) => Err(err),
            Ok(v) => if operator == Operator::Minus {
                spec_value_neg(v)
            } else if operator == Operator::Bang {
                spec_value_not(v)
            } else {
                Err(EvalError::Unsupported)
            },
        },
        ExprV::Function { .. } => Err(EvalError::Unsupported),
        ExprV::Grouping { expr } => spec_eval(*expr, cols, row),
    }
}

/// Rowid aliasing: when column `k` is an INTEGER PRIMARY KEY column and
/// no earlier column shares its name, selecting it by name yields the
/// row's id on every row.
pub proof fn lemma_rowid_aliasing(cols: Seq<ColumnV>, row: RowV, k: int)
    requires
        0 <= k < cols.len(),
        cols[k].col.typ == ColType::INTEGER,
        spec_is_pk(cols[k].col.constraint),
        forall|j: int| 0 <= j < k ==> cols[j].col.name != cols[k].col.name,
    ensures
        spec_lookup(cols, row, cols[k].col.name) == row.id,
        spec_eval(
            ExprV::Identifier { value: cols[k].col.name },
            cols,
            row,
        ) == Ok::<DbValueV, EvalError>(row.id),
    decreases k,
{
    if k > 0 {
        lemma_rowid_aliasing(cols.drop_first(), row, k - 1);
        assert(cols.drop_first()[k - 1] == cols[k]);
    }
}

/// A view of one row through a table's column list: the one capability
/// expressions need.
pub struct RowEntry<'a> {
    pub row: &'a Row,
    pub cols: &'a [Column],
}

impl<'a> RowEntry<'a> {
    /// Resolves an identifier to a value, following the rowid-aliasing
    /// rule: an INTEGER PRIMARY KEY column yields the row's id.
    pub fn column(&self, name: &[u8]) -> (r: DbValue)
        ensures
            r@ == spec_lookup(self.cols.deep_view(), self.row@, name@),
    {
        let n = self.cols.len();
        let mut i: usize = 0;
        proof {
            assert(self.cols.deep_view().skip(0) =~= self.cols.deep_view());
        }
        while i < n
            invariant
                n == self.cols@.len(),
                i <= n,
                spec_lookup(self.cols.deep_view(), self.row@, name@) == spec_lookup(
                    self.cols.deep_view().skip(i as int),
                    self.row@,
                    name@,
                ),
            decreases n - i,
        {
            let c = &self.cols[i];
            proof {
                assert(self.cols.deep_view().skip(i as int)[0] == self.cols@[i as int].deep_view());
                assert(self.cols.deep_view().skip(i as int).drop_first() =~= self.cols.deep_view()
                    .skip(i + 1));
            }
            if crate::util::bytes_eq(c.col.name.as_slice(), name) {
                if matches!(c.col.typ, ColType::INTEGER) && has_pk(&c.col.constraint) {
                    return self.row.id.clone();
                } else if c.col.position < self.row.row.len() {
                    return self.row.row[c.col.position].clone();
                } else {
                    return DbValue::Null;
                }
            }
            i += 1;
        }
        DbValue::Null
    }
}

/// Whether a constraint list carries a PRIMARY KEY.
pub fn has_pk(constraint: &Vec<ColumnConstraint>) -> (r: bool)
    ensures
        r == spec_is_pk(constraint@),
{
    let n = constraint.len();
    let mut i: usize = 0;
    while i < n
        invariant
            n == constraint@.len(),
            i <= n,
            forall|j: int| 0 <= j < i ==> !(constraint@[j] is Pk),
        decreases n - i,
    {
        if matches!(constraint[i], ColumnConstraint::Pk { .. }) {
            return true;
        }
        i += 1;
    }
    false
}

/// Evaluates an expression against one row seen through a column list.
pub fn eval_expr(e: &Expr, entry: &RowEntry) -> (r: Result<DbValue, EvalError>)
    ensures
        match r {
            Ok(v) => spec_eval(e@, entry.cols.deep_view(), entry.row@) == Ok::<
                DbValueV,
                EvalError,
            >(v@),
            Err(err) => spec_eval(e@, entry.cols.deep_view(), entry.row@) == Err::<
                DbValueV,
                EvalError,
            >(err),
        },
    decreases e,
{
    match e {
        Expr::Identifier { value } => Ok(entry.column(value.as_slice())),
        Expr::Literal { value } => Ok(value.clone()),
        Expr::Binary { left, right, operator } => {
            let l = match eval_expr(left, entry) {
                Ok(v) => v,
                Err(err) => {
                    return Err(err);
                },
            };
            let r = match eval_expr(right, entry) {
                Ok(v) => v,
                Err(err) => {
                    return Err(err);
                },
            };
            apply_binary(*operator, l, r)
        },
        Expr::Unary { operator, expr } => {
            let v = match eval_expr(expr, entry) {
                Ok(v) => v,
                Err(err) => {
                    return Err(err);
                },
            };
            if matches!(operator, Operator::Minus) {
                v.op_neg()
            } else if matches!(operator, Operator::Bang) {
                v.op_not()
            } else {
                Err(EvalError::Unsupported)
            }
        },
        Expr::Function { .. } => Err(EvalError::Unsupported),
        Expr::Grouping { expr } => eval_expr(expr, entry),
    }
}

/// Applies one binary operator to two evaluated operands.
pub fn apply_binary(op: Operator, l: DbValue, r: DbValue) -> (res: Result<DbValue, EvalError>)
    ensures
        match res {
            Ok(v) => spec_apply_binary(op, l@, r@) == Ok::<DbValueV, EvalError>(v@),
            Err(err) => spec_apply_binary(op, l@, r@) == Err::<DbValueV, EvalError>(err),
        },
{
    match op {
        Operator::Plus => l.op_add(r),
        Operator::Minus => l.op_sub(r),
        Operator::Asterisk => l.op_mul(r),
        Operator::Slash => l.op_div(r),
        Operator::Equals => Ok(DbValue::Bool(l.value_eq(&r))),
        Operator::Notequals => Ok(DbValue::Bool(!l.value_eq(&r))),
        Operator::Less => match l.value_lt(&r) {
            Ok(b) => Ok(DbValue::Bool(b)),
            Err(e) => Err(e),
        },
        Operator::Greater => match r.value_lt(&l) {
            Ok(b) => Ok(DbValue::Bool(b)),
            Err(e) => Err(e),
        },
        Operator::LessEq => match l.value_le(&r) {
            Ok(b) => Ok(DbValue::Bool(b)),
            Err(e) => Err(e),
        },
        Operator::GreaterEq => match r.value_le(&l) {
            Ok(b) => Ok(DbValue::Bool(b)),
            Err(e) => Err(e),
        },
        Operator::Or => match (l, r) {
            (DbValue::Bool(a), DbValue::Bool(b)) => Ok(DbValue::Bool(a || b)),
            (a, b) => Err(EvalError::TypeMismatch(Operator::Or, a.kind(), b.kind())),
        },
        Operator::And => match (l, r) {
            (DbValue::Bool(a), DbValue::Bool(b)) => Ok(DbValue::Bool(a && b)),
            (a, b) => Err(EvalError::TypeMismatch(Operator::And, a.kind(), b.kind())),
        },
        _ => Err(EvalError::Unsupported),
    }
}

} // verus!
