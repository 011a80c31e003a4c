//! The query runtime: tables of decoded rows, the WHERE filter, and the
//! SELECT projection.

use vstd::prelude::*;
use vstd::string::StringSliceAdditionalSpecFns;
use crate::expression::{eval_expr, spec_eval, RowEntry};
use crate::syntax::{
    ColType, ColumnDefinition, ColumnDefinitionV, DbValue, DbValueV, EvalError, Expr, ExprV,
};

verus! {

/// One column of a runtime table.
#[derive(Debug)]
pub struct Column {
    pub col: ColumnDefinition,
    pub active: bool,
}

/// The mathematical shape of a runtime column.
pub struct ColumnV {
    pub col: ColumnDefinitionV,
    pub active: bool,
}

impl View for Column {
    type V = ColumnV;

    open spec fn view(&self) -> ColumnV {
        ColumnV { col: self.col@, active: self.active }
    }
}

impl DeepView for Column {
    type V = ColumnV;

    open spec fn deep_view(&self) -> ColumnV {
        self.view()
    }
}

impl Column {
    /// The column's name.
    pub fn name(&self) -> (r: &Vec<u8>)
        ensures
            r@ == self.col.name@,
    {
        &self.col.name
    }
}

/// One row: its rowid and its decoded values.
#[derive(Debug)]
pub struct Row {
    pub id: DbValue,
    pub row: Vec<DbValue>,
}

/// The mathematical shape of a row.
pub struct RowV {
    pub id: DbValueV,
    pub row: Seq<DbValueV>,
}

impl View for Row {
    type V = RowV;

    open spec fn view(&self) -> RowV {
        RowV { id: self.id@, row: self.row.deep_view() }
    }
}

impl DeepView for Row {
    type V = RowV;

    open spec fn deep_view(&self) -> RowV {
        self.view()
    }
}

impl Row {
    /// A row from its id and values.
    pub fn new(id: DbValue, row: Vec<DbValue>) -> (r: Row)
        ensures
            r.id == id,
            r.row == row,
    {
        Row { id, row }
    }
}

/// A runtime table: its columns and its rows.
#[derive(Debug)]
pub struct Table {
    pub columns: Vec<Column>,
    pub rows: Vec<Row>,
}

/// The mathematical shape of a table.
pub struct TableV {
    pub columns: Seq<ColumnV>,
    pub rows: Seq<RowV>,
}

impl View for Table {
    type V = TableV;

    open spec fn view(&self) -> TableV {
        TableV { columns: self.columns.deep_view(), rows: self.rows.deep_view() }
    }
}

impl DeepView for Table {
    type V = TableV;

    open spec fn deep_view(&self) -> TableV {
        self.view()
    }
}

/// The columns a definition list makes, all active, in order.
pub open spec fn spec_columns_of(cols: Seq<ColumnDefinitionV>) -> Seq<ColumnV> {
    cols.map_values(|c: ColumnDefinitionV| ColumnV { col: c, active: true })
}

impl Table {
    /// A table over the given column definitions and rows.
    pub fn new(columns: &[ColumnDefinition], rows: Vec<Row>) -> (r: Table)
        ensures
            r@.columns == spec_columns_of(columns.deep_view()),
            r.rows == rows,
    {
        let n = columns.len();
        let mut cols: Vec<Column> = Vec::new();
        let mut i: usize = 0;
        while i < n
            invariant
                n == columns@.len(),
                i <= n,
                cols@.len() == i,
                forall|j: int|
                    0 <= j < i ==> cols.deep_view()[j] == (ColumnV {
                        col: columns@[j]@,
                        active: true,
                    }),
            decreases n - i,
        {
            let c2 = columns[i].clone();
            let ghost c2v = c2@;
            let ghost prevdeep = cols.deep_view();
            let ghost prevseq = cols@;
            cols.push(Column { col: c2, active: true });
            proof {
                assert forall|j: int| 0 <= j < i + 1 implies cols.deep_view()[j] == (ColumnV {
                    col: columns@[j]@,
                    active: true,
                }) by {
                    assert(cols.deep_view()[j] == cols@[j].deep_view());
                    if j < i {
                        assert(cols@[j] == prevseq[j]);
                        assert(prevdeep[j] == prevseq[j].deep_view());
                    } else {
                        assert(cols@[j].deep_view() == ColumnV { col: c2v, active: true });
                    }
                }
            }
            i += 1;
        }
        proof {
            assert(cols.deep_view() =~= spec_columns_of(columns.deep_view()));
        }
        Table { columns: cols, rows }
    }
}

/// The rows a filter keeps: those on which the expression evaluates to
/// true; a false, non-boolean or failing evaluation drops the row.
pub open spec fn spec_filter_rows(e: ExprV, cols: Seq<ColumnV>, rows: Seq<RowV>) -> Seq<RowV>
    decreases rows.len(),
{
    if rows.len() == 0 {
        Seq::empty()
    } else {
        let rest = spec_filter_rows(e, cols, rows.drop_first());
        if spec_eval(e, cols, rows[0]) == Ok::<DbValueV, EvalError>(DbValueV::Bool(true)) {
            seq![rows[0]] + rest
        } else {
            rest
        }
    }
}

/// The WHERE step of a query: one expression applied to every row.
pub struct QueryFilter<'a> {
    pub expr: &'a Expr,
}

impl<'a> QueryFilter<'a> {
    /// A filter from its expression.
    pub fn new(expr: &'a Expr) -> (r: Self)
        ensures
            r.expr == expr,
    {
        Self { expr }
    }

    /// Keeps the rows on which the expression evaluates to true.
    pub fn apply(&self, t: Table) -> (r: Table)
        ensures
            r@.columns == t@.columns,
            r@.rows == spec_filter_rows(self.expr@, t@.columns, t@.rows),
    {
        let Table { columns, rows } = t;
        let n = rows.len();
        let mut kept: Vec<Row> = Vec::new();
        let mut i: usize = 0;
        proof {
            assert(kept.deep_view() =~= Seq::<RowV>::empty());
            assert(rows.deep_view().skip(0) =~= rows.deep_view());
        }
        while i < n
            invariant
                n == rows@.len(),
                i <= n,
                spec_filter_rows(self.expr@, columns.deep_view(), rows.deep_view())
                    == kept.deep_view() + spec_filter_rows(
                    self.expr@,
                    columns.deep_view(),
                    rows.deep_view().skip(i as int),
                ),
            decreases n - i,
        {
            proof {
                assert(rows.deep_view().skip(i as int)[0] == rows@[i as int].deep_view());
                assert(rows.deep_view().skip(i as int).drop_first() =~= rows.deep_view().skip(
                    i + 1,
                ));
            }
            let entry = RowEntry { row: &rows[i], cols: columns.as_slice() };
            let keep = match eval_expr(self.expr, &entry) {
                Ok(DbValue::Bool(b)) => b,
                _ => false,
            };
            if keep {
                let ghost prev = kept.deep_view();
                kept.push(Row { id: rows[i].id.clone(), row: clone_values(&rows[i].row) });
                proof {
                    assert(kept.deep_view() =~= prev.push(rows@[i as int].deep_view()));
                    assert(prev.push(rows@[i as int].deep_view()) =~= prev + seq![
                        rows.deep_view().skip(i as int)[0],
                    ]);
                    assert(kept.deep_view() + spec_filter_rows(
                        self.expr@,
                        columns.deep_view(),
                        rows.deep_view().skip(i + 1),
                    ) =~= prev + (seq![rows.deep_view().skip(i as int)[0]] + spec_filter_rows(
                        self.expr@,
                        columns.deep_view(),
                        rows.deep_view().skip(i + 1),
                    )));
                }
            }
            i += 1;
        }
        proof {
            assert(rows.deep_view().skip(n as int) =~= Seq::<RowV>::empty());
            assert(kept.deep_view() + Seq::<RowV>::empty() =~= kept.deep_view());
        }
        Table { columns, rows: kept }
    }
}

/// An owned copy of a value vector.
fn clone_values(v: &Vec<DbValue>) -> (r: Vec<DbValue>)
    ensures
        r.deep_view() == v.deep_view(),
{
    let n = v.len();
    let mut out: Vec<DbValue> = Vec::new();
    let mut i: usize = 0;
    while i < n
        invariant
            n == v@.len(),
            i <= n,
            out@.len() == i,
            forall|j: int| 0 <= j < i ==> out.deep_view()[j] == v.deep_view()[j],
        decreases n - i,
    {
        out.push(v[i].clone());
        i += 1;
    }
    proof {
        assert(out.deep_view() =~= v.deep_view());
    }
    out
}

/// The name a projected expression gives its output column: an
/// identifier keeps its name, a literal its value's text, and any other
/// expression a tag naming its shape.
pub open spec fn spec_field_name(e: ExprV) -> Seq<u8> {
    match e {
        ExprV::Identifier { value } => value,
        ExprV::Literal { value } => crate::render::spec_value_name(value),
        ExprV::Binary { .. } => "Binary".spec_bytes(),
        ExprV::Unary { .. } => "unary".spec_bytes(),
        ExprV::Function { .. } => "Function".spec_bytes(),
        ExprV::Grouping { .. } => "Grouping".spec_bytes(),
    }
}

/// The values one row projects to under a field list; a failing
/// evaluation fails the projection.
pub open spec fn spec_project_row(fields: Seq<ExprV>, cols: Seq<ColumnV>, row: RowV) -> Result<
    Seq<DbValueV>,
    EvalError,
>
    decreases fields.len(),
{
    if fields.len() == 0 {
        Ok(Seq::empty())
    } else {
        match spec_eval(fields[0], cols, row) {
            Err(e) => Err(e),
            Ok(v) => match spec_project_row(fields.drop_first(), cols, row) {
                Err(e) => Err(e),
                Ok(rest) => Ok(seq![v] + rest),
            },
        }
    }
}

/// The rows a projection produces, keeping each row's id.
pub open spec fn spec_project_rows(fields: Seq<ExprV>, cols: Seq<ColumnV>, rows: Seq<RowV>)
    -> Result<Seq<RowV>, EvalError>
    decreases rows.len(),
{
    if rows.len() == 0 {
        Ok(Seq::empty())
    } else {
        match spec_project_row(fields, cols, rows[0]) {
            Err(e) => Err(e),
            Ok(vals) => match spec_project_rows(fields, cols, rows.drop_first()) {
                Err(e) => Err(e),
                Ok(rest) => Ok(seq![RowV { id: rows[0].id, row: vals }] + rest),
            },
        }
    }
}

/// The synthetic columns a projection names, all typed INTEGER as the
/// source leaves the output type unresolved.
pub open spec fn spec_project_columns(fields: Seq<ExprV>) -> Seq<ColumnV> {
    Seq::new(
        fields.len(),
        |i: int|
            ColumnV {
                col: ColumnDefinitionV {
                    name: spec_field_name(fields[i]),
                    position: i,
                    typ: ColType::INTEGER,
                    constraint: Seq::empty(),
                },
                active: true,
            },
    )
}

/// The SELECT projection step: one expression per output column.
pub struct QuerySelect<'a> {
    pub col_extractors: &'a [Expr],
}

impl<'a> QuerySelect<'a> {
    /// A projection from its field expressions.
    pub fn new(col_extractors: &'a [Expr]) -> (r: Self)
        ensures
            r.col_extractors == col_extractors,
    {
        Self { col_extractors }
    }

    /// Projects every row through the field list and renames the
    /// columns after the fields.
    pub fn apply(&self, t: Table) -> (r: Result<Table, EvalError>)
        ensures
            match r {
                Ok(out) => {
                    &&& spec_project_rows(self.col_extractors.deep_view(), t@.columns, t@.rows)
                        matches Ok(rs) && out@.rows == rs
                    &&& out@.columns == spec_project_columns(self.col_extractors.deep_view())
                },
                Err(e) => spec_project_rows(self.col_extractors.deep_view(), t@.columns, t@.rows)
                    == Err::<Seq<RowV>, EvalError>(e),
            },
    {
        let Table { columns, rows } = t;
        let n = rows.len();
        let mut out_rows: Vec<Row> = Vec::new();
        let mut i: usize = 0;
        proof {
            assert(out_rows.deep_view() =~= Seq::<RowV>::empty());
            assert(rows.deep_view().skip(0) =~= rows.deep_view());
        }
        while i < n
            invariant
                n == rows@.len(),
                i <= n,
                columns.deep_view() == t@.columns,
                rows.deep_view() == t@.rows,
                match spec_project_rows(
                    self.col_extractors.deep_view(),
                    columns.deep_view(),
                    rows.deep_view().skip(i as int),
                ) {
                    Ok(rest) => spec_project_rows(
                        self.col_extractors.deep_view(),
                        columns.deep_view(),
                        rows.deep_view(),
                    ) == Ok::<Seq<RowV>, EvalError>(out_rows.deep_view() + rest),
                    Err(e) => spec_project_rows(
                        self.col_extractors.deep_view(),
                        columns.deep_view(),
                        rows.deep_view(),
                    ) == Err::<Seq<RowV>, EvalError>(e),
                },
            decreases n - i,
        {
            proof {
                assert(rows.deep_view().skip(i as int)[0] == rows@[i as int].deep_view());
                assert(rows.deep_view().skip(i as int).drop_first() =~= rows.deep_view().skip(
                    i + 1,
                ));
            }
            let vals = match self.project_row(columns.as_slice(), &rows[i]) {
                Ok(v) => v,
                Err(e) => {
                    return Err(e);
                },
            };
            let ghost prev = out_rows.deep_view();
            let nr = Row { id: rows[i].id.clone(), row: vals };
            let ghost nrv = nr@;
            out_rows.push(nr);
            proof {
                assert(out_rows.deep_view() =~= prev.push(nrv));
                let rest1 = spec_project_rows(
                    self.col_extractors.deep_view(),
                    columns.deep_view(),
                    rows.deep_view().skip(i + 1),
                );
                if rest1 is Ok {
                    assert(prev + (seq![nrv] + rest1.unwrap()) =~= prev.push(nrv)
                        + rest1.unwrap());
                }
            }
            i += 1;
        }
        proof {
            assert(rows.deep_view().skip(n as int) =~= Seq::<RowV>::empty());
            assert(out_rows.deep_view() + Seq::<RowV>::empty() =~= out_rows.deep_view());
        }
        let out_cols = self.make_columns();
        Ok(Table { columns: out_cols, rows: out_rows })
    }

    /// The values one row projects to.
    fn project_row(&self, cols: &[Column], row: &Row) -> (r: Result<Vec<DbValue>, EvalError>)
        ensures
            match r {
                Ok(v) => spec_project_row(self.col_extractors.deep_view(), cols.deep_view(), row@)
                    == Ok::<Seq<DbValueV>, EvalError>(v.deep_view()),
                Err(e) => spec_project_row(self.col_extractors.deep_view(), cols.deep_view(), row@)
                    == Err::<Seq<DbValueV>, EvalError>(e),
            },
    {
        let n = self.col_extractors.len();
        let mut vals: Vec<DbValue> = Vec::new();
        let mut i: usize = 0;
        proof {
            assert(vals.deep_view() =~= Seq::<DbValueV>::empty());
            assert(self.col_extractors.deep_view().skip(0) =~= self.col_extractors.deep_view());
        }
        while i < n
            invariant
                n == self.col_extractors@.len(),
                i <= n,
                match spec_project_row(
                    self.col_extractors.deep_view().skip(i as int),
                    cols.deep_view(),
                    row@,
                ) {
                    Ok(rest) => spec_project_row(
                        self.col_extractors.deep_view(),
                        cols.deep_view(),
                        row@,
                    ) == Ok::<Seq<DbValueV>, EvalError>(vals.deep_view() + rest),
                    Err(e) => spec_project_row(
                        self.col_extractors.deep_view(),
                        cols.deep_view(),
                        row@,
                    ) == Err::<Seq<DbValueV>, EvalError>(e),
                },
            decreases n - i,
        {
            proof {
                assert(self.col_extractors.deep_view().skip(i as int)[0]
                    == self.col_extractors@[i as int].deep_view());
                assert(self.col_extractors.deep_view().skip(i as int).drop_first()
                    =~= self.col_extractors.deep_view().skip(i + 1));
            }
            let entry = RowEntry { row, cols };
            let v = match eval_expr(&self.col_extractors[i], &entry) {
                Ok(v) => v,
                Err(e) => {
                    return Err(e);
                },
            };
            let ghost prev = vals.deep_view();
            let ghost vv = v@;
            vals.push(v);
            proof {
                assert(vals.deep_view() =~= prev.push(vv));
                let rest1 = spec_project_row(
                    self.col_extractors.deep_view().skip(i + 1),
                    cols.deep_view(),
                    row@,
                );
                if rest1 is Ok {
                    assert(prev + (seq![vv] + rest1.unwrap()) =~= prev.push(vv) + rest1.unwrap());
                }
            }
            i += 1;
        }
        proof {
            assert(self.col_extractors.deep_view().skip(n as int) =~= Seq::<ExprV>::empty());
            assert(vals.deep_view() + Seq::<DbValueV>::empty() =~= vals.deep_view());
        }
        Ok(vals)
    }

    /// The synthetic output columns, named after the fields.
    fn make_columns(&self) -> (r: Vec<Column>)
        ensures
            r.deep_view() == spec_project_columns(self.col_extractors.deep_view()),
    {
        let n = self.col_extractors.len();
        let mut out: Vec<Column> = Vec::new();
        let mut i: usize = 0;
        while i < n
            invariant
                n == self.col_extractors@.len(),
                i <= n,
                out@.len() == i,
                forall|j: int|
                    0 <= j < i ==> out.deep_view()[j] == spec_project_columns(
                        self.col_extractors.deep_view(),
                    )[j],
            decreases n - i,
        {
            let name = field_name(&self.col_extractors[i]);
            let ghost namev = name@;
            let ghost prevdeep = out.deep_view();
            let ghost prevseq = out@;
            out.push(
                Column {
                    col: ColumnDefinition {
                        name,
                        position: i,
                        typ: ColType::INTEGER,
                        constraint: Vec::new(),
                    },
                    active: true,
                },
            );
            proof {
                assert(out@[i as int].col.constraint@ =~= Seq::<
                    crate::syntax::ColumnConstraint,
                >::empty());
                assert forall|j: int| 0 <= j < i + 1 implies out.deep_view()[j]
                    == spec_project_columns(self.col_extractors.deep_view())[j] by {
                    assert(out.deep_view()[j] == out@[j].deep_view());
                    if j < i {
                        assert(out@[j] == prevseq[j]);
                        assert(prevdeep[j] == prevseq[j].deep_view());
                    }
                }
            }
            i += 1;
        }
        proof {
            assert(out.deep_view() =~= spec_project_columns(self.col_extractors.deep_view()));
        }
        out
    }
}

/// The name a projected expression gives its output column.
fn field_name(e: &Expr) -> (r: Vec<u8>)
    ensures
        r@ == spec_field_name(e@),
{
    match e {
        Expr::Identifier { value } => crate::util::clone_bytes(value),
        Expr::Literal { value } => crate::render::value_name(value),
        Expr::Binary { .. } => vstd::slice::slice_to_vec("Binary".as_bytes()),
        Expr::Unary { .. } => vstd::slice::slice_to_vec("unary".as_bytes()),
        Expr::Function { .. } => vstd::slice::slice_to_vec("Function".as_bytes()),
        Expr::Grouping { .. } => vstd::slice::slice_to_vec("Grouping".as_bytes()),
    }
}

} // verus!
