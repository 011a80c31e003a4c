//! The database access object: it owns the file image, decodes the
//! header once, and runs SELECT queries over the table B-trees, looking
//! table roots and schemas up through the catalog.

use vstd::prelude::*;
use vstd::string::StringSliceAdditionalSpecFns;
use crate::header::{spec_header, Header, HeaderError};
use crate::lexer::LexError;
use crate::parser::{parse_sql, spec_parse_sql, ParseError, ParseErrorV};
use crate::query::{
    spec_columns_of, spec_filter_rows, spec_project_columns, spec_project_rows, QueryFilter,
    QuerySelect, Row, RowV, Table, TableV,
};
use crate::record::{spec_read_row, Record, RecordError, RecordV};
use crate::schema::{is_schema_alias, schema_sql, spec_is_schema_alias, spec_schema_sql};
use crate::syntax::{
    CreateStatement, CreateStatementV, DbValue, DbValueV, EvalError, Expr, ExprV,
    ColumnDefinitionV, SelectStatement, SelectStatementV, Statement, StatementV,
};
use crate::tree::{
    pairs_view, spec_fuel, spec_scan, BTreeTableReader, ScanError,
};

verus! {

/// What running a query can report.
#[derive(Debug)]
pub enum DbError {
    /// The B-tree scan failed.
    Scan(ScanError),
    /// A row payload would not decode.
    Record(RecordError),
    /// The query text would not lex.
    Lex(LexError),
    /// The query text would not parse.
    Parse(ParseError),
    /// An expression failed to evaluate outside a WHERE.
    Eval(EvalError),
    /// The statement parses but cannot be executed.
    NotSupported,
    /// No catalog row names the table.
    SchemaNotFound(Vec<u8>),
    /// A catalog row does not have the expected shape.
    InvalidSchema,
    /// Nested table lookups went deeper than the engine follows.
    DepthExceeded,
}

/// The mathematical shape of a query failure.
pub enum DbErrorV {
    Scan(ScanError),
    Record(RecordError),
    Lex(LexError),
    Parse(ParseErrorV),
    Eval(EvalError),
    NotSupported,
    SchemaNotFound(Seq<u8>),
    InvalidSchema,
    DepthExceeded,
}

impl View for DbError {
    type V = DbErrorV;

    open spec fn view(&self) -> DbErrorV {
        match self {
            DbError::Scan(e) => DbErrorV::Scan(*e),
            DbError::Record(e) => DbErrorV::Record(*e),
            DbError::Lex(e) => DbErrorV::Lex(*e),
            DbError::Parse(e) => DbErrorV::Parse(e@),
            DbError::Eval(e) => DbErrorV::Eval(*e),
            DbError::NotSupported => DbErrorV::NotSupported,
            DbError::SchemaNotFound(n) => DbErrorV::SchemaNotFound(n@),
            DbError::InvalidSchema => DbErrorV::InvalidSchema,
            DbError::DepthExceeded => DbErrorV::DepthExceeded,
        }
    }
}

impl DeepView for DbError {
    type V = DbErrorV;

    open spec fn deep_view(&self) -> DbErrorV {
        self.view()
    }
}

/// The value a decoded record stands for; a zero serial type stands for
/// the integer zero.
pub open spec fn spec_value_of_record(r: RecordV) -> DbValueV {
    match r {
        RecordV::Null => DbValueV::Null,
        RecordV::Integer(v) => DbValueV::Integer(v),
        RecordV::Float(v) => DbValueV::Float(v),
        RecordV::Blob(b) => DbValueV::Blob(b),
        RecordV::Text(s) => DbValueV::Text(s),
        RecordV::Zero => DbValueV::Integer(0),
    }
}

/// The rows a scan's cells decode to: each payload through the record
/// codec, each value mapped into the runtime value type, with the cell's
/// rowid as the row id.
pub open spec fn spec_rows_of(cells: Seq<(i64, Seq<u8>)>) -> Result<Seq<RowV>, RecordError>
    decreases cells.len(),
{
    if cells.len() == 0 {
        Ok(Seq::empty())
    } else {
        match spec_read_row(cells[0].1) {
            Err(e) => Err(e),
            Ok(vals) => match spec_rows_of(cells.drop_first()) {
                Err(e) => Err(e),
                Ok(rest) => Ok(
                    seq![
                        RowV {
                            id: DbValueV::Integer(cells[0].0),
                            row: vals.map_values(|r: RecordV| spec_value_of_record(r)),
                        },
                    ] + rest,
                ),
            },
        }
    }
}

/// The raw catalog rows of the file: a scan of page 1 with each payload
/// decoded.
pub open spec fn spec_schema_rows(cells: Seq<(i64, Seq<u8>)>) -> Result<
    Seq<Seq<RecordV>>,
    RecordError,
>
    decreases cells.len(),
{
    if cells.len() == 0 {
        Ok(Seq::empty())
    } else {
        match spec_read_row(cells[0].1) {
            Err(e) => Err(e),
            Ok(vals) => match spec_schema_rows(cells.drop_first()) {
                Err(e) => Err(e),
                Ok(rest) => Ok(seq![vals] + rest),
            },
        }
    }
}

/// The name column of each catalog row, when every row carries a text
/// name in its second field; the first row that does not stops the
/// listing with an invalid-schema error.
pub open spec fn spec_table_names(rows: Seq<Seq<RecordV>>) -> Result<Seq<Seq<u8>>, DbErrorV>
    decreases rows.len(),
{
    if rows.len() == 0 {
        Ok(Seq::empty())
    } else if rows[0].len() < 2 || !(rows[0][1] is Text) {
        Err(DbErrorV::InvalidSchema)
    } else {
        match spec_table_names(rows.drop_first()) {
            Err(e) => Err(e),
            Ok(rest) => Ok(seq![rows[0][1]->Text_0] + rest),
        }
    }
}

/// The identifier list a star projection stands for: every column, in
/// positional order.
pub open spec fn spec_star_fields(cols: Seq<ColumnDefinitionV>) -> Seq<ExprV> {
    cols.map_values(|c: ColumnDefinitionV| ExprV::Identifier { value: c.name })
}

/// The self-query a table lookup runs through the driver:
/// SELECT rootpage, sql FROM sqlite_schema WHERE name = '<from>'.
pub open spec fn spec_self_query(from: Seq<u8>) -> SelectStatementV {
    SelectStatementV {
        from: "sqlite_schema".spec_bytes(),
        fields: seq![
            ExprV::Identifier { value: "rootpage".spec_bytes() },
            ExprV::Identifier { value: "sql".spec_bytes() },
        ],
        filter: Some(
            ExprV::Binary {
                left: Box::new(ExprV::Identifier { value: "name".spec_bytes() }),
                right: Box::new(ExprV::Literal { value: DbValueV::Text(from) }),
                operator: crate::syntax::Operator::Equals,
            },
        ),
    }
}

/// The root page and CREATE text a table name resolves to: a catalog
/// alias resolves to page 1 with the built-in CREATE text, and any other
/// name through the self-query, taking the first row's (Integer, Text)
/// pair. A name no catalog row carries is not found.
pub open spec fn spec_get_table_def(data: Seq<u8>, ps: int, from: Seq<u8>, depth: int) -> Result<
    (i64, Seq<u8>),
    DbErrorV,
>
    decreases depth, 0int,
{
    if spec_is_schema_alias(from) {
        Ok((1, spec_schema_sql()))
    } else if depth <= 0 {
        Err(DbErrorV::DepthExceeded)
    } else {
        match spec_exec_select(data, ps, spec_self_query(from), depth - 1) {
            Err(e) => Err(e),
            Ok(t) => if t.rows.len() == 0 {
                Err(DbErrorV::SchemaNotFound(from))
            } else if t.rows[0].row.len() >= 2 && (t.rows[0].row[0] is Integer) && (
            t.rows[0].row[1] is Text) {
                Ok((t.rows[0].row[0]->Integer_0, t.rows[0].row[1]->Text_0))
            } else {
                Err(DbErrorV::InvalidSchema)
            },
        }
    }
}

/// The decoded rows of the table B-tree rooted at `rp`.
pub open spec fn spec_load_rows(data: Seq<u8>, ps: int, rp: i64) -> Result<Seq<RowV>, DbErrorV> {
    if rp < 0 || rp > usize::MAX {
        Err(DbErrorV::Scan(ScanError::PageOutOfRange))
    } else {
        match spec_scan(data, ps, rp as int, spec_fuel(data.len() as int, ps)) {
            Err(e) => Err(DbErrorV::Scan(e)),
            Ok(cells) => match spec_rows_of(cells) {
                Err(e) => Err(DbErrorV::Record(e)),
                Ok(rows) => Ok(rows),
            },
        }
    }
}

/// The filter and projection steps of a SELECT over decoded rows: a
/// star stands for the positional identifier list, the filter keeps the
/// rows it accepts, and the fields are projected and name the output
/// columns.
pub open spec fn spec_shape_table(
    sel: SelectStatementV,
    cols: Seq<ColumnDefinitionV>,
    rows: Seq<RowV>,
) -> Result<TableV, DbErrorV> {
    let tcols = spec_columns_of(cols);
    let fields = if sel.fields.len() == 0 {
        spec_star_fields(cols)
    } else {
        sel.fields
    };
    let filtered = match sel.filter {
        Some(f) => spec_filter_rows(f, tcols, rows),
        None => rows,
    };
    match spec_project_rows(fields, tcols, filtered) {
        Err(e) => Err(DbErrorV::Eval(e)),
        Ok(prows) => Ok(TableV { columns: spec_project_columns(fields), rows: prows }),
    }
}

/// What one SELECT yields: the source resolved through the catalog, its
/// CREATE text parsed for the column list, the table B-tree scanned and
/// decoded, the WHERE filter applied, and the field list projected.
pub open spec fn spec_exec_select(data: Seq<u8>, ps: int, sel: SelectStatementV, depth: int)
    -> Result<TableV, DbErrorV>
    decreases depth, 1int,
{
    match spec_get_table_def(data, ps, sel.from, depth) {
        Err(e) => Err(e),
        Ok((rp, sqlbytes)) => match spec_parse_sql(sqlbytes) {
            Err(le) => Err(DbErrorV::Lex(le)),
            Ok((stmts, _)) => if stmts.len() == 0 || !(stmts[0] is Create) {
                Err(DbErrorV::InvalidSchema)
            } else {
                let cols = match stmts[0]->Create_0 {
                    CreateStatementV::Table { name, cols } => cols,
                };
                match spec_load_rows(data, ps, rp) {
                    Err(e) => Err(e),
                    Ok(rows) => spec_shape_table(sel, cols, rows),
                }
            },
        },
    }
}

/// What one statement yields: a SELECT runs, and anything else is not
/// supported.
pub open spec fn spec_exec_statement(data: Seq<u8>, ps: int, stmt: StatementV, depth: int)
    -> Result<TableV, DbErrorV> {
    match stmt {
        StatementV::Create(_) => Err(DbErrorV::NotSupported),
        StatementV::Select(sel) => spec_exec_select(data, ps, sel, depth),
    }
}

/// The tables the statements from `i` onward produce, stopping at the
/// first failure.
pub open spec fn spec_run_stmts(data: Seq<u8>, ps: int, stmts: Seq<StatementV>, i: int, depth: int)
    -> (Seq<TableV>, Option<DbErrorV>)
    decreases stmts.len() - i,
{
    if i < 0 || i >= stmts.len() {
        (Seq::empty(), None)
    } else {
        match spec_exec_statement(data, ps, stmts[i], depth) {
            Err(e) => (Seq::empty(), Some(e)),
            Ok(t) => {
                let rest = spec_run_stmts(data, ps, stmts, i + 1, depth);
                (seq![t] + rest.0, rest.1)
            },
        }
    }
}

/// What a whole query text yields: the statements parsed and run in
/// order; the first failure ends the run, and a parse failure is
/// reported after the statements that did parse have run.
pub open spec fn spec_run_query(data: Seq<u8>, ps: int, sql: Seq<u8>, depth: int) -> (
    Seq<TableV>,
    Option<DbErrorV>,
) {
    match spec_parse_sql(sql) {
        Err(le) => (Seq::empty(), Some(DbErrorV::Lex(le))),
        Ok((stmts, perr)) => {
            let run = spec_run_stmts(data, ps, stmts, 0, depth);
            if run.1 is Some {
                run
            } else {
                match perr {
                    Some(pe) => (run.0, Some(DbErrorV::Parse(pe))),
                    None => (run.0, None),
                }
            }
        },
    }
}

/// Schema alias idempotence: each of the four catalog aliases resolves
/// to root page 1 with the built-in CREATE text, whatever the file
/// holds.
pub proof fn lemma_schema_alias_idempotence(data: Seq<u8>, ps: int, name: Seq<u8>, depth: int)
    requires
        spec_is_schema_alias(name),
    ensures
        spec_get_table_def(data, ps, name, depth) == Ok::<(i64, Seq<u8>), DbErrorV>(
            (1, spec_schema_sql()),
        ),
{
}

/// Projection stability: when a source resolves to a column list whose
/// positional identifier list is `fields`, selecting `*` and selecting
/// `fields` yield the same table.
pub proof fn lemma_projection_stability(
    data: Seq<u8>,
    ps: int,
    from: Seq<u8>,
    filter: Option<ExprV>,
    fields: Seq<ExprV>,
    depth: int,
)
    requires
        spec_get_table_def(data, ps, from, depth) matches Ok(p) && (spec_parse_sql(p.1)
            matches Ok(q) && (q.0.len() > 0 && (q.0[0] matches StatementV::Create(
            CreateStatementV::Table { name, cols },
        ) && fields == spec_star_fields(cols)))),
        fields.len() > 0,
    ensures
        spec_exec_select(data, ps, SelectStatementV { from, fields: Seq::empty(), filter }, depth)
            == spec_exec_select(data, ps, SelectStatementV { from, fields, filter }, depth),
{
}

/// How many nested table lookups the driver follows: a user query and
/// the one self-query it may need.
pub open spec fn spec_depth() -> int {
    1
}

/// The database access object: the decoded file header and the file
/// image it came from.
pub struct DbAccess {
    pub header: Header,
    pub data: Vec<u8>,
}

impl DbAccess {
    /// The file image the object reads.
    pub open spec fn spec_data(&self) -> Seq<u8> {
        self.data@
    }

    /// The page size the scans use.
    pub open spec fn spec_ps(&self) -> int {
        self.header.page_size as int
    }

    /// Opens a database over an in-memory file image: the header is
    /// decoded once and kept.
    pub fn new(data: Vec<u8>) -> (r: Result<DbAccess, HeaderError>)
        ensures
            match r {
                Ok(d) => spec_header(data@) matches Ok(h) && d.header == h && d.spec_data()
                    == data@,
                Err(e) => spec_header(data@) == Err::<Header, HeaderError>(e),
            },
    {
        let header = match Header::new(data.as_slice()) {
            Ok(h) => h,
            Err(e) => {
                return Err(e);
            },
        };
        Ok(DbAccess { header, data })
    }

    /// The raw catalog rows: a scan of page 1 with each payload decoded.
    #[verifier::rlimit(100)]
    #[verifier::spinoff_prover]
    pub fn read_schema(&self) -> (r: Result<Vec<Vec<Record>>, DbError>)
        ensures
            ({
                let scan = spec_scan(
                    self.spec_data(),
                    self.spec_ps(),
                    1,
                    spec_fuel(self.spec_data().len() as int, self.spec_ps()),
                );
                match r {
                    Ok(v) => scan matches Ok(cells) && spec_schema_rows(cells) == Ok::<
                        Seq<Seq<RecordV>>,
                        RecordError,
                    >(v.deep_view()),
                    Err(e) => match e@ {
                        DbErrorV::Scan(se) => scan == Err::<Seq<(i64, Seq<u8>)>, ScanError>(se),
                        DbErrorV::Record(re) => scan matches Ok(cells) && spec_schema_rows(cells)
                            == Err::<Seq<Seq<RecordV>>, RecordError>(re),
                        _ => false,
                    },
                }
            }),
    {
        let reader = BTreeTableReader {  };
        let cells = match reader.find_all_in_table(1, self.data.as_slice(), self.page_size()) {
            Ok(c) => c,
            Err(e) => {
                return Err(DbError::Scan(e));
            },
        };
        let n = cells.len();
        let mut out: Vec<Vec<Record>> = Vec::new();
        let mut i: usize = 0;
        let ghost cellsv = pairs_view(cells@);
        proof {
            assert(out.deep_view() =~= Seq::<Seq<RecordV>>::empty());
            assert(cellsv.skip(0) =~= cellsv);
        }
        while i < n
            invariant
                n == cells@.len(),
                i <= n,
                cellsv == pairs_view(cells@),
                cellsv.len() == n,
                spec_scan(
                    self.spec_data(),
                    self.spec_ps(),
                    1,
                    spec_fuel(self.spec_data().len() as int, self.spec_ps()),
                ) == Ok::<Seq<(i64, Seq<u8>)>, ScanError>(cellsv),
                match spec_schema_rows(cellsv.skip(i as int)) {
                    Ok(rest) => spec_schema_rows(cellsv) == Ok::<
                        Seq<Seq<RecordV>>,
                        RecordError,
                    >(out.deep_view() + rest),
                    Err(e) => spec_schema_rows(cellsv) == Err::<Seq<Seq<RecordV>>, RecordError>(e),
                },
            decreases n - i,
        {
            proof {
                assert(cellsv.skip(i as int)[0] == (cells@[i as int].0, cells@[i as int].1@));
                assert(cellsv.skip(i as int).drop_first() =~= cellsv.skip(i + 1));
            }
            let vals = match Record::read_row(cells[i].1.as_slice()) {
                Ok(v) => v,
                Err(e) => {
                    return Err(DbError::Record(e));
                },
            };
            let ghost prev = out.deep_view();
            let ghost vv = vals.deep_view();
            out.push(vals);
            proof {
                assert(out.deep_view() =~= prev.push(vv));
                let rest1 = spec_schema_rows(cellsv.skip(i + 1));
                if rest1 is Ok {
                    assert(prev + (seq![vv] + rest1.unwrap()) =~= prev.push(vv) + rest1.unwrap());
                }
            }
            i += 1;
        }
        proof {
            assert(cellsv.skip(n as int) =~= Seq::<(i64, Seq<u8>)>::empty());
            assert(out.deep_view() + Seq::<Seq<RecordV>>::empty() =~= out.deep_view());
        }
        Ok(out)
    }

    /// The number of catalog rows, which is the number of tables.
    #[verifier::rlimit(100)]
    #[verifier::spinoff_prover]
    pub fn number_of_tables(&self) -> (r: Result<usize, DbError>)
        ensures
            ({
                let scan = spec_scan(
                    self.spec_data(),
                    self.spec_ps(),
                    1,
                    spec_fuel(self.spec_data().len() as int, self.spec_ps()),
                );
                match r {
                    Ok(c) => scan matches Ok(cells) && spec_schema_rows(cells) is Ok && c
                        == spec_schema_rows(cells).unwrap().len(),
                    Err(e) => match e@ {
                        DbErrorV::Scan(se) => scan == Err::<Seq<(i64, Seq<u8>)>, ScanError>(se),
                        DbErrorV::Record(re) => scan matches Ok(cells) && spec_schema_rows(cells)
                            == Err::<Seq<Seq<RecordV>>, RecordError>(re),
                        _ => false,
                    },
                }
            }),
    {
        let rows = self.read_schema()?;
        Ok(rows.len())
    }

    /// The `name` column of every catalog row.
    #[verifier::rlimit(100)]
    #[verifier::spinoff_prover]
    pub fn table_names(&self) -> (r: Result<Vec<Vec<u8>>, DbError>)
        ensures
            ({
                let scan = spec_scan(
                    self.spec_data(),
                    self.spec_ps(),
                    1,
                    spec_fuel(self.spec_data().len() as int, self.spec_ps()),
                );
                match r {
                    Ok(v) => scan matches Ok(cells) && (spec_schema_rows(cells) matches Ok(rows)
                        && spec_table_names(rows) == Ok::<Seq<Seq<u8>>, DbErrorV>(v.deep_view())),
                    Err(e) => match e@ {
                        DbErrorV::Scan(se) => scan == Err::<Seq<(i64, Seq<u8>)>, ScanError>(se),
                        DbErrorV::Record(re) => scan matches Ok(cells) && spec_schema_rows(cells)
                            == Err::<Seq<Seq<RecordV>>, RecordError>(re),
                        DbErrorV::InvalidSchema => scan matches Ok(cells) && (spec_schema_rows(
                            cells,
                        ) matches Ok(rows) && spec_table_names(rows) == Err::<
                            Seq<Seq<u8>>,
                            DbErrorV,
                        >(DbErrorV::InvalidSchema)),
                        _ => false,
                    },
                }
            }),
    {
        let rows = match self.read_schema() {
            Ok(r) => r,
            Err(e) => {
                return Err(e);
            },
        };
        let n = rows.len();
        let ghost rowsv = rows.deep_view();
        let mut names: Vec<Vec<u8>> = Vec::new();
        let mut i: usize = 0;
        proof {
            assert(names.deep_view() =~= Seq::<Seq<u8>>::empty());
            assert(rowsv.skip(0) =~= rowsv);
        }
        while i < n
            invariant
                n == rows@.len(),
                rowsv == rows.deep_view(),
                rowsv.len() == n,
                i <= n,
                ({
                    let scan = spec_scan(
                        self.spec_data(),
                        self.spec_ps(),
                        1,
                        spec_fuel(self.spec_data().len() as int, self.spec_ps()),
                    );
                    scan matches Ok(cells) && spec_schema_rows(cells) == Ok::<
                        Seq<Seq<RecordV>>,
                        RecordError,
                    >(rowsv)
                }),
                match spec_table_names(rowsv.skip(i as int)) {
                    Ok(rest) => spec_table_names(rowsv) == Ok::<Seq<Seq<u8>>, DbErrorV>(
                        names.deep_view() + rest,
                    ),
                    Err(e) => spec_table_names(rowsv) == Err::<Seq<Seq<u8>>, DbErrorV>(e),
                },
            decreases n - i,
        {
            proof {
                assert(rowsv.skip(i as int)[0] == rowsv[i as int]);
                assert(rowsv.skip(i as int).drop_first() =~= rowsv.skip(i + 1));
                assert(rowsv[i as int] == rows@[i as int].deep_view());
                assert(rowsv[i as int].len() == rows@[i as int]@.len());
            }
            let row = &rows[i];
            if row.len() < 2 {
                return Err(DbError::InvalidSchema);
            }
            proof {
                assert(rowsv[i as int][1] == rows@[i as int]@[1].deep_view());
            }
            let name = match &row[1] {
                Record::Text(s) => crate::util::clone_bytes(s),
                _ => {
                    return Err(DbError::InvalidSchema);
                },
            };
            let ghost nv = name@;
            let ghost prev = names.deep_view();
            let ghost prevseq = names@;
            names.push(name);
            proof {
                assert forall|j: int| 0 <= j < names@.len() implies names.deep_view()[j]
                    == prev.push(nv)[j] by {
                    assert(names.deep_view()[j] == names@[j].deep_view());
                    if j < prevseq.len() {
                        assert(names@[j] == prevseq[j]);
                        assert(prev[j] == prevseq[j].deep_view());
                    }
                }
                assert(names.deep_view() =~= prev.push(nv));
                let rest1 = spec_table_names(rowsv.skip(i + 1));
                if rest1 is Ok {
                    assert(prev + (seq![nv] + rest1->Ok_0) =~= prev.push(nv) + rest1->Ok_0);
                }
            }
            i += 1;
        }
        proof {
            assert(rowsv.skip(n as int) =~= Seq::<Seq<RecordV>>::empty());
            assert(names.deep_view() + Seq::<Seq<u8>>::empty() =~= names.deep_view());
        }
        Ok(names)
    }

    /// The page size as a machine word.
    fn page_size(&self) -> (r: usize)
        ensures
            r == self.spec_ps(),
    {
        self.header.page_size as usize
    }

    /// Resolves a table name to its root page and CREATE text: a catalog
    /// alias directly, any other name through the self-query.
    #[verifier::rlimit(100)]
    #[verifier::spinoff_prover]
    pub fn get_table_def(&self, from: &[u8], depth: usize) -> (r: Result<(i64, Vec<u8>), DbError>)
        ensures
            match r {
                Ok(p) => spec_get_table_def(self.spec_data(), self.spec_ps(), from@, depth as int)
                    == Ok::<(i64, Seq<u8>), DbErrorV>((p.0, p.1@)),
                Err(e) => spec_get_table_def(self.spec_data(), self.spec_ps(), from@, depth as int)
                    == Err::<(i64, Seq<u8>), DbErrorV>(e@),
            },
        decreases depth, 0int,
    {
        if is_schema_alias(from) {
            return Ok((1, schema_sql()));
        }
        if depth == 0 {
            return Err(DbError::DepthExceeded);
        }
        let query = self_query_ast(from);
        let t = match self.exec_select(&query, depth - 1) {
            Ok(t) => t,
            Err(e) => {
                return Err(e);
            },
        };
        if t.rows.len() == 0 {
            return Err(DbError::SchemaNotFound(vstd::slice::slice_to_vec(from)));
        }
        let first = &t.rows[0];
        if first.row.len() < 2 {
            return Err(DbError::InvalidSchema);
        }
        proof {
            assert(t@.rows[0] == t.rows@[0].deep_view());
            assert(t@.rows[0].row[0] == t.rows@[0].row@[0].deep_view());
            assert(t@.rows[0].row[1] == t.rows@[0].row@[1].deep_view());
        }
        match (&first.row[0], &first.row[1]) {
            (DbValue::Integer(rp), DbValue::Text(sql)) => Ok(
                (*rp, crate::util::clone_bytes(sql)),
            ),
            _ => Err(DbError::InvalidSchema),
        }
    }

    /// Runs one SELECT: resolve the source, parse its CREATE text, scan
    /// and decode its B-tree, filter, then project.
    #[verifier::rlimit(100)]
    #[verifier::spinoff_prover]
    pub fn exec_select(&self, sel: &SelectStatement, depth: usize) -> (r: Result<Table, DbError>)
        ensures
            match r {
                Ok(t) => spec_exec_select(self.spec_data(), self.spec_ps(), sel@, depth as int)
                    matches Ok(tv) && t@.columns == tv.columns && t@.rows == tv.rows,
                Err(e) => spec_exec_select(self.spec_data(), self.spec_ps(), sel@, depth as int)
                    == Err::<TableV, DbErrorV>(e@),
            },
        decreases depth, 1int,
    {
        let (rp, sqlbytes) = match self.get_table_def(sel.from.as_slice(), depth) {
            Ok(p) => p,
            Err(e) => {
                return Err(e);
            },
        };
        let (stmts, _perr) = match parse_sql(sqlbytes.as_slice()) {
            Ok(p) => p,
            Err(le) => {
                return Err(DbError::Lex(le));
            },
        };
        if stmts.len() == 0 {
            return Err(DbError::InvalidSchema);
        }
        let cols = match &stmts[0] {
            Statement::Create(CreateStatement::Table { name: _, cols }) => cols,
            _ => {
                return Err(DbError::InvalidSchema);
            },
        };
        proof {
            assert(stmts.deep_view()[0] == stmts@[0].deep_view());
        }
        let rows = match self.load_rows(rp) {
            Ok(r) => r,
            Err(e) => {
                return Err(e);
            },
        };
        self.shape_table(sel, cols, rows)
    }

    /// Loads and decodes every row of the table B-tree rooted at `rp`.
    #[verifier::rlimit(100)]
    #[verifier::spinoff_prover]
    fn load_rows(&self, rp: i64) -> (r: Result<Vec<Row>, DbError>)
        ensures
            match r {
                Ok(v) => spec_load_rows(self.spec_data(), self.spec_ps(), rp) == Ok::<
                    Seq<RowV>,
                    DbErrorV,
                >(v.deep_view()),
                Err(e) => spec_load_rows(self.spec_data(), self.spec_ps(), rp) == Err::<
                    Seq<RowV>,
                    DbErrorV,
                >(e@),
            },
    {
        if rp < 0 || (rp as u64) > (usize::MAX as u64) {
            return Err(DbError::Scan(ScanError::PageOutOfRange));
        }
        let reader = BTreeTableReader {  };
        let cells = match reader.find_all_in_table(
            rp as usize,
            self.data.as_slice(),
            self.page_size(),
        ) {
            Ok(c) => c,
            Err(e) => {
                return Err(DbError::Scan(e));
            },
        };
        match rows_of(&cells) {
            Ok(r) => Ok(r),
            Err(e) => Err(DbError::Record(e)),
        }
    }

    /// Filters and projects decoded rows as one SELECT asks.
    #[verifier::rlimit(100)]
    #[verifier::spinoff_prover]
    fn shape_table(
        &self,
        sel: &SelectStatement,
        cols: &Vec<crate::syntax::ColumnDefinition>,
        rows: Vec<Row>,
    ) -> (r: Result<Table, DbError>)
        ensures
            match r {
                Ok(t) => spec_shape_table(sel@, cols.deep_view(), rows.deep_view()) matches Ok(tv)
                    && t@.columns == tv.columns && t@.rows == tv.rows,
                Err(e) => spec_shape_table(sel@, cols.deep_view(), rows.deep_view()) == Err::<
                    TableV,
                    DbErrorV,
                >(e@),
            },
    {
        let table = Table::new(cols.as_slice(), rows);
        // SELECT *: synthesize the identifier list in positional order
        let star: Vec<Expr>;
        let fields: &[Expr] = if sel.fields.len() == 0 {
            star = star_fields(cols.as_slice());
            star.as_slice()
        } else {
            sel.fields.as_slice()
        };
        let filtered = match &sel.filter {
            Some(f) => QueryFilter::new(f).apply(table),
            None => table,
        };
        match QuerySelect::new(fields).apply(filtered) {
            Ok(t) => Ok(t),
            Err(e) => Err(DbError::Eval(e)),
        }
    }

    /// Runs one statement: a SELECT produces a table, anything else is
    /// not supported.
    #[verifier::rlimit(100)]
    #[verifier::spinoff_prover]
    pub fn visit_statement(&self, e: &Statement, depth: usize) -> (r: Result<Table, DbError>)
        ensures
            match r {
                Ok(t) => spec_exec_statement(self.spec_data(), self.spec_ps(), e@, depth as int)
                    matches Ok(tv) && t@.columns == tv.columns && t@.rows == tv.rows,
                Err(err) => spec_exec_statement(self.spec_data(), self.spec_ps(), e@, depth as int)
                    == Err::<TableV, DbErrorV>(err@),
            },
    {
        match e {
            Statement::Create(_) => Err(DbError::NotSupported),
            Statement::Select(sel) => self.exec_select(sel, depth),
        }
    }

    /// Runs the statements from `i` onward, in order, stopping at the
    /// first failure.
    #[verifier::rlimit(100)]
    #[verifier::spinoff_prover]
    fn run_stmts_from(&self, stmts: &[Statement], i: usize) -> (r: (Vec<Table>, Option<DbError>))
        requires
            i <= stmts@.len(),
        ensures
            ({
                let s = spec_run_stmts(
                    self.spec_data(),
                    self.spec_ps(),
                    stmts.deep_view(),
                    i as int,
                    1,
                );
                &&& r.0.deep_view() == s.0
                &&& match (r.1, s.1) {
                    (Some(e), Some(ev)) => e@ == ev,
                    (None, None) => true,
                    _ => false,
                }
            }),
        decreases stmts@.len() - i,
    {
        if i >= stmts.len() {
            let out: Vec<Table> = Vec::new();
            proof {
                assert(out.deep_view() =~= Seq::<TableV>::empty());
            }
            return (out, None);
        }
        proof {
            assert(stmts.deep_view()[i as int] == stmts@[i as int].deep_view());
        }
        match self.visit_statement(&stmts[i], 1) {
            Err(e) => {
                let out: Vec<Table> = Vec::new();
                proof {
                    assert(out.deep_view() =~= Seq::<TableV>::empty());
                }
                (out, Some(e))
            },
            Ok(t) => {
                let ghost tv = t@;
                let (rest, err) = self.run_stmts_from(stmts, i + 1);
                let ghost restv = rest.deep_view();
                let mut out: Vec<Table> = Vec::new();
                out.push(t);
                let mut rest2 = rest;
                out.append(&mut rest2);
                proof {
                    assert forall|j: int| 0 <= j < out@.len() implies out.deep_view()[j] == (seq![
                        tv,
                    ] + restv)[j] by {
                        assert(out.deep_view()[j] == out@[j].deep_view());
                        if j > 0 {
                            assert(out@[j] == rest@[j - 1]);
                            assert(restv[j - 1] == rest@[j - 1].deep_view());
                        }
                    }
                    assert(out.deep_view() =~= seq![tv] + restv);
                }
                (out, err)
            },
        }
    }

    /// Runs a whole query text: every statement in order, stopping at
    /// the first failure; a parse failure is reported after the
    /// statements that did parse have run.
    #[verifier::rlimit(100)]
    #[verifier::spinoff_prover]
    pub fn run_query(&self, sql: &[u8]) -> (r: (Vec<Table>, Option<DbError>))
        ensures
            ({
                let s = spec_run_query(self.spec_data(), self.spec_ps(), sql@, spec_depth());
                &&& r.0.deep_view() == s.0
                &&& match (r.1, s.1) {
                    (Some(e), Some(ev)) => e@ == ev,
                    (None, None) => true,
                    _ => false,
                }
            }),
    {
        let (stmts, perr) = match parse_sql(sql) {
            Ok(p) => p,
            Err(le) => {
                let out: Vec<Table> = Vec::new();
                proof {
                    assert(out.deep_view() =~= Seq::<TableV>::empty());
                }
                return (out, Some(DbError::Lex(le)));
            },
        };
        let (out, run_err) = self.run_stmts_from(stmts.as_slice(), 0);
        proof {
            let pr = spec_parse_sql(sql@);
            assert(pr is Ok);
            assert(pr->Ok_0.0 == stmts.deep_view());
            assert(pr->Ok_0.1 == perr.deep_view());
            let run = spec_run_stmts(
                self.spec_data(),
                self.spec_ps(),
                stmts.deep_view(),
                0,
                1,
            );
            assert(out.deep_view() == run.0);
        }
        let err = match run_err {
            Some(e) => Some(e),
            None => match perr {
                Some(pe) => Some(DbError::Parse(pe)),
                None => None,
            },
        };
        (out, err)
    }
}

/// The self-query a table lookup runs: SELECT rootpage, sql FROM
/// sqlite_schema WHERE name = '<from>'.
#[verifier::rlimit(100)]
#[verifier::spinoff_prover]
fn self_query_ast(from: &[u8]) -> (r: SelectStatement)
    ensures
        r@ == spec_self_query(from@),
{
    let name_id = Expr::Identifier { value: vstd::slice::slice_to_vec("name".as_bytes()) };
    let lit = Expr::Literal { value: DbValue::Text(vstd::slice::slice_to_vec(from)) };
    let ghost name_idv = name_id@;
    let ghost litv = lit@;
    let cond = Expr::Binary {
        left: Box::new(name_id),
        right: Box::new(lit),
        operator: crate::syntax::Operator::Equals,
    };
    proof {
        assert(cond@ == ExprV::Binary {
            left: Box::new(name_idv),
            right: Box::new(litv),
            operator: crate::syntax::Operator::Equals,
        });
    }
    let query = SelectStatement {
        from: vstd::slice::slice_to_vec("sqlite_schema".as_bytes()),
        fields: two_idents(),
        filter: Some(cond),
    };
    proof {
        assert(query@.fields =~= spec_self_query(from@).fields);
        assert(query@ == spec_self_query(from@));
    }
    query
}

/// The identifier pair the self-query projects: rootpage, then sql.
fn two_idents() -> (r: Vec<Expr>)
    ensures
        r.deep_view() =~= seq![
            ExprV::Identifier { value: "rootpage".spec_bytes() },
            ExprV::Identifier { value: "sql".spec_bytes() },
        ],
{
    let mut v: Vec<Expr> = Vec::new();
    v.push(Expr::Identifier { value: vstd::slice::slice_to_vec("rootpage".as_bytes()) });
    v.push(Expr::Identifier { value: vstd::slice::slice_to_vec("sql".as_bytes()) });
    proof {
        assert(v.deep_view() =~= seq![
            ExprV::Identifier { value: "rootpage".spec_bytes() },
            ExprV::Identifier { value: "sql".spec_bytes() },
        ]);
    }
    v
}

/// The rows a scan's cells decode to.
fn rows_of(cells: &Vec<(i64, Vec<u8>)>) -> (r: Result<Vec<Row>, RecordError>)
    ensures
        match r {
            Ok(v) => spec_rows_of(pairs_view(cells@)) == Ok::<Seq<RowV>, RecordError>(
                v.deep_view(),
            ),
            Err(e) => spec_rows_of(pairs_view(cells@)) == Err::<Seq<RowV>, RecordError>(e),
        },
{
    let n = cells.len();
    let ghost cellsv = pairs_view(cells@);
    let mut out: Vec<Row> = Vec::new();
    let mut i: usize = 0;
    proof {
        assert(out.deep_view() =~= Seq::<RowV>::empty());
        assert(cellsv.skip(0) =~= cellsv);
    }
    while i < n
        invariant
            n == cells@.len(),
            cellsv == pairs_view(cells@),
            i <= n,
            match spec_rows_of(cellsv.skip(i as int)) {
                Ok(rest) => spec_rows_of(cellsv) == Ok::<Seq<RowV>, RecordError>(
                    out.deep_view() + rest,
                ),
                Err(e) => spec_rows_of(cellsv) == Err::<Seq<RowV>, RecordError>(e),
            },
        decreases n - i,
    {
        proof {
            assert(cellsv.skip(i as int)[0] == (cells@[i as int].0, cells@[i as int].1@));
            assert(cellsv.skip(i as int).drop_first() =~= cellsv.skip(i + 1));
        }
        let recs = match Record::read_row(cells[i].1.as_slice()) {
            Ok(v) => v,
            Err(e) => {
                return Err(e);
            },
        };
        let vals = values_of(recs);
        let nr = Row { id: DbValue::Integer(cells[i].0), row: vals };
        let ghost nrv = nr@;
        let ghost prev = out.deep_view();
        out.push(nr);
        proof {
            assert(out.deep_view() =~= prev.push(nrv));
            let rest1 = spec_rows_of(cellsv.skip(i + 1));
            if rest1 is Ok {
                assert(prev + (seq![nrv] + rest1.unwrap()) =~= prev.push(nrv) + rest1.unwrap());
            }
        }
        i += 1;
    }
    proof {
        assert(cellsv.skip(n as int) =~= Seq::<(i64, Seq<u8>)>::empty());
        assert(out.deep_view() + Seq::<RowV>::empty() =~= out.deep_view());
    }
    Ok(out)
}

/// Maps decoded records into runtime values.
fn values_of(recs: Vec<Record>) -> (r: Vec<DbValue>)
    ensures
        r.deep_view() == recs.deep_view().map_values(|x: RecordV| spec_value_of_record(x)),
{
    let n = recs.len();
    let ghost recsv = recs.deep_view();
    let mut out: Vec<DbValue> = Vec::new();
    let mut i: usize = 0;
    let mut rest = recs;
    let mut k: usize = 0;
    proof {
        assert(out.deep_view() =~= Seq::<DbValueV>::empty());
    }
    while k < n
        invariant
            n == recsv.len(),
            rest.deep_view() == recsv,
            k <= n,
            out@.len() == k,
            forall|j: int| 0 <= j < k ==> out.deep_view()[j] == spec_value_of_record(recsv[j]),
        decreases n - k,
    {
        proof {
            assert(rest.deep_view()[k as int] == rest@[k as int].deep_view());
        }
        let v = match &rest[k] {
            Record::Null => DbValue::Null,
            Record::Integer(x) => DbValue::Integer(*x),
            Record::Float(x) => DbValue::Float(*x),
            Record::Blob(b) => DbValue::Blob(crate::util::clone_bytes(b)),
            Record::Text(s) => DbValue::Text(crate::util::clone_bytes(s)),
            Record::Zero => DbValue::Integer(0),
        };
        let ghost vv = v@;
        let ghost prevseq = out@;
        let ghost prevdeep = out.deep_view();
        out.push(v);
        proof {
            assert forall|j: int| 0 <= j < k + 1 implies out.deep_view()[j] == spec_value_of_record(
                recsv[j],
            ) by {
                assert(out.deep_view()[j] == out@[j].deep_view());
                if j < k {
                    assert(out@[j] == prevseq[j]);
                    assert(prevdeep[j] == prevseq[j].deep_view());
                }
            }
        }
        k += 1;
    }
    proof {
        assert(out.deep_view() =~= recsv.map_values(|x: RecordV| spec_value_of_record(x)));
    }
    out
}

/// The identifier list a star projection stands for.
fn star_fields(cols: &[crate::syntax::ColumnDefinition]) -> (r: Vec<Expr>)
    ensures
        r.deep_view() == spec_star_fields(cols.deep_view()),
{
    let n = cols.len();
    let mut out: Vec<Expr> = Vec::new();
    let mut i: usize = 0;
    while i < n
        invariant
            n == cols@.len(),
            i <= n,
            out@.len() == i,
            forall|j: int|
                0 <= j < i ==> out.deep_view()[j] == (ExprV::Identifier {
                    value: cols@[j].name@,
                }),
        decreases n - i,
    {
        let name = crate::util::clone_bytes(&cols[i].name);
        let ghost nv = name@;
        let ghost prevseq = out@;
        let ghost prevdeep = out.deep_view();
        out.push(Expr::Identifier { value: name });
        proof {
            assert forall|j: int| 0 <= j < i + 1 implies out.deep_view()[j] == (ExprV::Identifier {
                value: cols@[j].name@,
            }) by {
                assert(out.deep_view()[j] == out@[j].deep_view());
                if j < i {
                    assert(out@[j] == prevseq[j]);
                    assert(prevdeep[j] == prevseq[j].deep_view());
                }
            }
        }
        i += 1;
    }
    proof {
        assert(out.deep_view() =~= spec_star_fields(cols.deep_view()));
    }
    out
}

} // verus!
