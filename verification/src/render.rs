//! Textual names for literal values, used to label projected columns,
//! and a plain-text rendering of parsed statements, one node per line
//! with tab indentation.

use vstd::prelude::*;
use vstd::string::StringSliceAdditionalSpecFns;
use crate::syntax::{
    ColType, ColumnConstraint, ColumnDefinition, ColumnDefinitionV, CreateStatement,
    CreateStatementV, DbValue, DbValueV, Expr, ExprV, FunctionArg, FunctionArgV, Operator,
    SelectStatement, SelectStatementV, Statement, StatementV,
};

verus! {

broadcast use vstd::std_specs::vec::axiom_vec_index_decreases, vstd::std_specs::vec::axiom_vec_decreases_to_view, vstd::seq::axiom_seq_index_decreases, vstd::seq::axiom_seq_subrange_decreases;

/// The decimal digits of an unsigned value, most significant first.
pub open spec fn spec_udigits(n: nat) -> Seq<u8>
    decreases n,
{
    if n < 10 {
        seq![(48 + n) as u8]
    } else {
        spec_udigits(n / 10).push((48 + n % 10) as u8)
    }
}

/// The decimal text of a signed value.
pub open spec fn spec_int_name(v: i64) -> Seq<u8> {
    if v >= 0 {
        spec_udigits(v as nat)
    } else {
        seq![45u8] + spec_udigits((-(v as int)) as nat)
    }
}

/// The name a literal value prints as: booleans and null by keyword,
/// integers in decimal, text by its own bytes, and the remaining kinds
/// by a tag.
pub open spec fn spec_value_name(v: DbValueV) -> Seq<u8> {
    match v {
        DbValueV::Bool(b) => if b {
            "TRUE".spec_bytes()
        } else {
            "FALSE".spec_bytes()
        },
        DbValueV::Null => "NULL".spec_bytes(),
        DbValueV::Integer(x) => spec_int_name(x),
        DbValueV::Float(_) => "FLOAT".spec_bytes(),
        DbValueV::Text(s) => s,
        DbValueV::Blob(_) => "BLOB".spec_bytes(),
    }
}

/// The decimal text of a signed value.
pub fn render_int(v: i64) -> (r: Vec<u8>)
    ensures
        r@ == spec_int_name(v),
{
    let neg = v < 0;
    let mut u: u64 = if v >= 0 {
        v as u64
    } else {
        (-(v as i128)) as u64
    };
    let ghost u0 = u;
    let mut rev: Vec<u8> = Vec::new();
    loop
        invariant_except_break
            spec_udigits(u0 as nat) == spec_udigits(u as nat) + rev@.reverse(),
        ensures
            spec_udigits(u0 as nat) == rev@.reverse(),
        decreases u,
    {
        proof {
            assert(spec_udigits(u as nat) == if u < 10 {
                seq![(48 + u) as u8]
            } else {
                spec_udigits((u / 10) as nat).push((48 + u % 10) as u8)
            });
        }
        if u < 10 {
            let ghost prev = rev@;
            rev.push(48 + (u % 10) as u8);
            proof {
                assert(rev@.reverse() =~= seq![(48 + u) as u8] + prev.reverse());
            }
            break ;
        }
        let d = (u % 10) as u8;
        let ghost prev = rev@;
        rev.push(48 + d);
        proof {
            assert(rev@.reverse() =~= seq![(48u64 + u % 10) as u8] + prev.reverse());
            assert(spec_udigits((u / 10) as nat).push((48 + u % 10) as u8) + prev.reverse()
                =~= spec_udigits((u / 10) as nat) + (seq![(48u64 + u % 10) as u8]
                + prev.reverse()));
        }
        u = u / 10;
    }
    let mut out: Vec<u8> = Vec::new();
    if neg {
        out.push(45);
    }
    let ghost sign: Seq<u8> = if neg {
        seq![45u8]
    } else {
        Seq::empty()
    };
    proof {
        assert(out@ =~= sign);
    }
    let m = rev.len();
    let mut i: usize = 0;
    while i < m
        invariant
            m == rev@.len(),
            i <= m,
            out@ == sign + rev@.reverse().subrange(0, i as int),
        decreases m - i,
    {
        proof {
            assert(rev@.reverse()[i as int] == rev@[m - 1 - i]);
            assert(sign + rev@.reverse().subrange(0, i + 1) =~= (sign + rev@.reverse().subrange(
                0,
                i as int,
            )).push(rev@.reverse()[i as int]));
        }
        out.push(rev[m - 1 - i]);
        i += 1;
    }
    proof {
        assert(rev@.reverse().subrange(0, m as int) =~= rev@.reverse());
        assert(v >= 0 ==> u0 == v as nat);
        assert(v < 0 ==> u0 == -(v as int));
    }
    out
}

/// The name a literal value prints as.
pub fn value_name(v: &DbValue) -> (r: Vec<u8>)
    ensures
        r@ == spec_value_name(v@),
{
    match v {
        DbValue::Bool(b) => {
            if *b {
                vstd::slice::slice_to_vec("TRUE".as_bytes())
            } else {
                vstd::slice::slice_to_vec("FALSE".as_bytes())
            }
        },
        DbValue::Null => vstd::slice::slice_to_vec("NULL".as_bytes()),
        DbValue::Integer(x) => render_int(*x),
        DbValue::Float(_) => vstd::slice::slice_to_vec("FLOAT".as_bytes()),
        DbValue::Text(s) => crate::util::clone_bytes(s),
        DbValue::Blob(_) => vstd::slice::slice_to_vec("BLOB".as_bytes()),
    }
}

/// The name an operator prints as.
pub open spec fn spec_op_name(op: Operator) -> Seq<u8> {
    match op {
        Operator::Plus => "Plus".spec_bytes(),
        Operator::Minus => "Minus".spec_bytes(),
        Operator::Equals => "Equals".spec_bytes(),
        Operator::Bang => "Bang".spec_bytes(),
        Operator::Notequals => "Notequals".spec_bytes(),
        Operator::Less => "Less".spec_bytes(),
        Operator::Greater => "Greater".spec_bytes(),
        Operator::LessEq => "LessEq".spec_bytes(),
        Operator::GreaterEq => "GreaterEq".spec_bytes(),
        Operator::Asterisk => "Asterisk".spec_bytes(),
        Operator::Slash => "Slash".spec_bytes(),
        Operator::Or => "Or".spec_bytes(),
        Operator::And => "And".spec_bytes(),
        Operator::Not => "Not".spec_bytes(),
    }
}

/// The text an expression prints as under an indent prefix: operands
/// one level deeper than their operator, groupings in their own
/// parenthesis lines.
pub open spec fn spec_render_expr(e: ExprV, ind: Seq<u8>) -> Seq<u8>
    decreases e,
{
    match e {
        ExprV::Identifier { value } => ind + "val:[".spec_bytes() + value + "]\n".spec_bytes(),
        ExprV::Literal { value } => ind + "val:[".spec_bytes() + spec_value_name(value)
            + "]\n".spec_bytes(),
        ExprV::Binary { left, right, operator } => spec_render_expr(*left, ind + "\t".spec_bytes())
            + ind + "op:".spec_bytes() + spec_op_name(operator) + "\n".spec_bytes()
            + spec_render_expr(*right, ind + "\t".spec_bytes()),
        ExprV::Unary { operator, expr } => ind + "op:".spec_bytes() + spec_op_name(operator)
            + "\n".spec_bytes() + spec_render_expr(*expr, ind + "\t".spec_bytes()),
        ExprV::Function { name, args } => ind + "function: ".spec_bytes() + name
            + "\n".spec_bytes() + (match args {
            FunctionArgV::Star => "*\n".spec_bytes(),
            FunctionArgV::Args(es) => spec_render_exprs(es, ind + "\t".spec_bytes()),
        }),
        ExprV::Grouping { expr } => ind + "(\n".spec_bytes() + spec_render_expr(
            *expr,
            ind + "\t".spec_bytes(),
        ) + ind + ")\n".spec_bytes(),
    }
}

/// The texts of a run of expressions, in order.
pub open spec fn spec_render_exprs(es: Seq<ExprV>, ind: Seq<u8>) -> Seq<u8>
    decreases es,
{
    if es.len() == 0 {
        Seq::empty()
    } else {
        spec_render_expr(es[0], ind) + spec_render_exprs(es.drop_first(), ind)
    }
}

/// The text a column definition prints as: its name and type, then one
/// line per constraint.
pub open spec fn spec_render_col(c: ColumnDefinitionV, ind: Seq<u8>) -> Seq<u8> {
    ind + "column: ".spec_bytes() + c.name + " ".spec_bytes() + (if c.typ == ColType::INTEGER {
        "INTEGER".spec_bytes()
    } else {
        "TEXT".spec_bytes()
    }) + "\n".spec_bytes() + spec_render_constraints(c.constraint, ind)
}

/// The constraint lines of a column.
pub open spec fn spec_render_constraints(cs: Seq<ColumnConstraint>, ind: Seq<u8>) -> Seq<u8>
    decreases cs.len(),
{
    if cs.len() == 0 {
        Seq::empty()
    } else {
        ind + (match cs[0] {
            ColumnConstraint::Pk { .. } => "pk".spec_bytes(),
            ColumnConstraint::NotNull(_) => "NotNull".spec_bytes(),
            ColumnConstraint::Unique(_) => "Unique".spec_bytes(),
        }) + "\n".spec_bytes() + spec_render_constraints(cs.drop_first(), ind)
    }
}

/// The column lines of a CREATE TABLE.
pub open spec fn spec_render_cols(cs: Seq<ColumnDefinitionV>, ind: Seq<u8>) -> Seq<u8>
    decreases cs.len(),
{
    if cs.len() == 0 {
        Seq::empty()
    } else {
        spec_render_col(cs[0], ind) + spec_render_cols(cs.drop_first(), ind)
    }
}

/// The text a statement prints as: a CREATE TABLE header with its
/// columns, or a SELECT header with its fields (or an all-fields line)
/// and its filter, each child one level deeper.
pub open spec fn spec_render_statement(s: StatementV) -> Seq<u8> {
    match s {
        StatementV::Create(CreateStatementV::Table { name, cols }) => "create table ".spec_bytes()
            + name + "\n".spec_bytes() + spec_render_cols(cols, "\t".spec_bytes()),
        StatementV::Select(sel) => "select from ".spec_bytes() + sel.from + ":\n".spec_bytes() + (
        if sel.fields.len() == 0 {
            "\tall fields\n".spec_bytes()
        } else {
            spec_render_exprs(sel.fields, "\t".spec_bytes())
        }) + (match sel.filter {
            Some(f) => spec_render_expr(f, "\t".spec_bytes()),
            None => Seq::empty(),
        }),
    }
}

/// Appends a byte slice to the output being built.
fn push_all(out: &mut Vec<u8>, s: &[u8])
    ensures
        final(out)@ == old(out)@ + s@,
{
    let n = s.len();
    let mut i: usize = 0;
    while i < n
        invariant
            n == s@.len(),
            i <= n,
            out@ == old(out)@ + s@.subrange(0, i as int),
        decreases n - i,
    {
        out.push(s[i]);
        proof {
            assert(old(out)@ + s@.subrange(0, i + 1) =~= (old(out)@ + s@.subrange(0, i as int))
                .push(s@[i as int]));
        }
        i += 1;
    }
    proof {
        assert(s@.subrange(0, n as int) =~= s@);
    }
}

/// One indent level deeper.
fn deeper(ind: &Vec<u8>) -> (r: Vec<u8>)
    ensures
        r@ == ind@ + "\t".spec_bytes(),
{
    let mut r = crate::util::clone_bytes(ind);
    push_all(&mut r, "\t".as_bytes());
    r
}

/// The name an operator prints as.
fn op_name(op: &Operator) -> (r: &'static str)
    ensures
        r.spec_bytes() == spec_op_name(*op),
{
    match op {
        Operator::Plus => "Plus",
        Operator::Minus => "Minus",
        Operator::Equals => "Equals",
        Operator::Bang => "Bang",
        Operator::Notequals => "Notequals",
        Operator::Less => "Less",
        Operator::Greater => "Greater",
        Operator::LessEq => "LessEq",
        Operator::GreaterEq => "GreaterEq",
        Operator::Asterisk => "Asterisk",
        Operator::Slash => "Slash",
        Operator::Or => "Or",
        Operator::And => "And",
        Operator::Not => "Not",
    }
}

/// Renders one expression under an indent prefix.
fn render_expr(e: &Expr, ind: &Vec<u8>, out: &mut Vec<u8>)
    ensures
        final(out)@ == old(out)@ + spec_render_expr(e@, ind@),
    decreases e,
{
    match e {
        Expr::Identifier { value } => {
            push_all(out, ind.as_slice());
            push_all(out, "val:[".as_bytes());
            push_all(out, value.as_slice());
            push_all(out, "]\n".as_bytes());
        },
        Expr::Literal { value } => {
            push_all(out, ind.as_slice());
            push_all(out, "val:[".as_bytes());
            let name = value_name(value);
            push_all(out, name.as_slice());
            push_all(out, "]\n".as_bytes());
        },
        Expr::Binary { left, right, operator } => {
            let ind2 = deeper(ind);
            render_expr(left, &ind2, out);
            push_all(out, ind.as_slice());
            push_all(out, "op:".as_bytes());
            push_all(out, op_name(operator).as_bytes());
            push_all(out, "\n".as_bytes());
            render_expr(right, &ind2, out);
        },
        Expr::Unary { operator, expr } => {
            push_all(out, ind.as_slice());
            push_all(out, "op:".as_bytes());
            push_all(out, op_name(operator).as_bytes());
            push_all(out, "\n".as_bytes());
            let ind2 = deeper(ind);
            render_expr(expr, &ind2, out);
        },
        Expr::Function { name, args } => {
            push_all(out, ind.as_slice());
            push_all(out, "function: ".as_bytes());
            push_all(out, name.as_slice());
            push_all(out, "\n".as_bytes());
            match args {
                FunctionArg::Star => {
                    proof {
                        assert(crate::syntax::arg_view(FunctionArg::Star) == FunctionArgV::Star);
                    }
                    push_all(out, "*\n".as_bytes());
                },
                FunctionArg::Args(es) => {
                    let ind2 = deeper(ind);
                    proof {
                        crate::syntax::lemma_exprs_view(es@);
                        assert(crate::syntax::arg_view(FunctionArg::Args(*es))
                            == FunctionArgV::Args(crate::syntax::exprs_view(es@)));
                        assert(crate::syntax::exprs_view(es@).skip(0) =~= crate::syntax::exprs_view(
                            es@,
                        ));
                    }
                    render_args(es, 0, &ind2, out);
                },
            }
        },
        Expr::Grouping { expr } => {
            push_all(out, ind.as_slice());
            push_all(out, "(\n".as_bytes());
            let ind2 = deeper(ind);
            render_expr(expr, &ind2, out);
            push_all(out, ind.as_slice());
            push_all(out, ")\n".as_bytes());
        },
    }
    proof {
        assert(out@ =~= old(out)@ + spec_render_expr(e@, ind@));
    }
}

/// Renders the expressions from `i` onward, in order.
fn render_args(es: &Vec<Expr>, i: usize, ind: &Vec<u8>, out: &mut Vec<u8>)
    requires
        i <= es@.len(),
    ensures
        final(out)@ == old(out)@ + spec_render_exprs(
            crate::syntax::exprs_view(es@).skip(i as int),
            ind@,
        ),
    decreases es, es@.len() - i,
{
    proof {
        crate::syntax::lemma_exprs_view(es@);
    }
    if i >= es.len() {
        proof {
            assert(old(out)@ + spec_render_exprs(
                crate::syntax::exprs_view(es@).skip(i as int),
                ind@,
            ) =~= old(out)@);
        }
        return ;
    }
    proof {
        let ev = crate::syntax::exprs_view(es@);
        assert(ev.skip(i as int)[0] == ev[i as int]);
        assert(ev.skip(i as int).drop_first() =~= ev.skip(i + 1));
    }
    render_expr(&es[i], ind, out);
    render_args(es, i + 1, ind, out);
    proof {
        assert(out@ =~= old(out)@ + spec_render_exprs(
            crate::syntax::exprs_view(es@).skip(i as int),
            ind@,
        ));
    }
}

/// Renders the constraint lines of a column.
fn render_constraints(cs: &Vec<ColumnConstraint>, i: usize, ind: &Vec<u8>, out: &mut Vec<u8>)
    requires
        i <= cs@.len(),
    ensures
        final(out)@ == old(out)@ + spec_render_constraints(cs@.skip(i as int), ind@),
    decreases cs@.len() - i,
{
    if i >= cs.len() {
        proof {
            assert(old(out)@ + spec_render_constraints(cs@.skip(i as int), ind@) =~= old(out)@);
        }
        return ;
    }
    proof {
        assert(cs@.skip(i as int)[0] == cs@[i as int]);
        assert(cs@.skip(i as int).drop_first() =~= cs@.skip(i + 1));
    }
    push_all(out, ind.as_slice());
    match cs[i] {
        ColumnConstraint::Pk { .. } => push_all(out, "pk".as_bytes()),
        ColumnConstraint::NotNull(_) => push_all(out, "NotNull".as_bytes()),
        ColumnConstraint::Unique(_) => push_all(out, "Unique".as_bytes()),
    }
    push_all(out, "\n".as_bytes());
    render_constraints(cs, i + 1, ind, out);
    proof {
        assert(out@ =~= old(out)@ + spec_render_constraints(cs@.skip(i as int), ind@));
    }
}

/// Renders the column lines of a CREATE TABLE.
fn render_cols(cs: &Vec<ColumnDefinition>, i: usize, ind: &Vec<u8>, out: &mut Vec<u8>)
    requires
        i <= cs@.len(),
    ensures
        final(out)@ == old(out)@ + spec_render_cols(cs.deep_view().skip(i as int), ind@),
    decreases cs@.len() - i,
{
    if i >= cs.len() {
        proof {
            assert(old(out)@ + spec_render_cols(cs.deep_view().skip(i as int), ind@) =~= old(
                out,
            )@);
        }
        return ;
    }
    proof {
        assert(cs.deep_view().skip(i as int)[0] == cs@[i as int].deep_view());
        assert(cs.deep_view().skip(i as int).drop_first() =~= cs.deep_view().skip(i + 1));
    }
    push_all(out, ind.as_slice());
    push_all(out, "column: ".as_bytes());
    push_all(out, cs[i].name.as_slice());
    push_all(out, " ".as_bytes());
    if matches!(cs[i].typ, ColType::INTEGER) {
        push_all(out, "INTEGER".as_bytes());
    } else {
        push_all(out, "TEXT".as_bytes());
    }
    push_all(out, "\n".as_bytes());
    proof {
        assert(cs@[i as int].constraint@.skip(0) =~= cs@[i as int].constraint@);
    }
    render_constraints(&cs[i].constraint, 0, ind, out);
    render_cols(cs, i + 1, ind, out);
    proof {
        assert(out@ =~= old(out)@ + spec_render_cols(cs.deep_view().skip(i as int), ind@));
    }
}

/// Renders one statement as plain text, one node per line with tab
/// indentation.
pub fn render_statement(s: &Statement) -> (r: Vec<u8>)
    ensures
        r@ == spec_render_statement(s@),
{
    let mut out: Vec<u8> = Vec::new();
    let tab = vstd::slice::slice_to_vec("\t".as_bytes());
    proof {
        assert(out@ + "create table ".spec_bytes() =~= "create table ".spec_bytes());
        assert(out@ + "select from ".spec_bytes() =~= "select from ".spec_bytes());
    }
    match s {
        Statement::Create(CreateStatement::Table { name, cols }) => {
            push_all(&mut out, "create table ".as_bytes());
            push_all(&mut out, name.as_slice());
            push_all(&mut out, "\n".as_bytes());
            proof {
                assert(cols.deep_view().skip(0) =~= cols.deep_view());
            }
            render_cols(cols, 0, &tab, &mut out);
        },
        Statement::Select(sel) => {
            push_all(&mut out, "select from ".as_bytes());
            push_all(&mut out, sel.from.as_slice());
            push_all(&mut out, ":\n".as_bytes());
            if sel.fields.len() == 0 {
                push_all(&mut out, "\tall fields\n".as_bytes());
            } else {
                proof {
                    crate::syntax::lemma_exprs_view(sel.fields@);
                    assert(crate::syntax::exprs_view(sel.fields@).skip(0)
                        =~= crate::syntax::exprs_view(sel.fields@));
                    assert(crate::syntax::exprs_view(sel.fields@) =~= sel@.fields);
                }
                render_args(&sel.fields, 0, &tab, &mut out);
            }
            match &sel.filter {
                Some(f) => {
                    render_expr(f, &tab, &mut out);
                },
                None => {
                },
            }
        },
    }
    proof {
        assert(out@ =~= spec_render_statement(s@));
    }
    out
}

} // verus!
