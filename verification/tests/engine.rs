use sqlite_reader::database::{DbAccess, DbError};
use sqlite_reader::header::{Header, HeaderError};
use sqlite_reader::record::{Record, RecordError};
use sqlite_reader::syntax::DbValue;
use sqlite_reader::tree::BTreeTableReader;
use sqlite_reader::varint::Varint;

// --- helpers building a small database image ---

fn text_value(s: &[u8]) -> (i64, Vec<u8>) {
    ((13 + 2 * s.len()) as i64, s.to_vec())
}

fn int_value(v: i64) -> (i64, Vec<u8>) {
    (1, vec![v as u8])
}

fn null_value() -> (i64, Vec<u8>) {
    (0, Vec::new())
}

/// Encodes a record payload from (serial type, body bytes) pairs.
fn record(fields: &[(i64, Vec<u8>)]) -> Vec<u8> {
    let mut types: Vec<u8> = Vec::new();
    for (t, _) in fields {
        types.extend_from_slice(&Varint::encode(*t));
    }
    let hdr_len = types.len() + 1;
    assert!(hdr_len < 128);
    let mut out = vec![hdr_len as u8];
    out.extend_from_slice(&types);
    for (_, body) in fields {
        out.extend_from_slice(body);
    }
    out
}

/// Writes a leaf table page at `page_off`, with its B-tree header at
/// `hdr_off` within the page, holding the given (rowid, payload) cells.
fn write_leaf_page(img: &mut Vec<u8>, page_off: usize, hdr_off: usize, cells: &[(i64, Vec<u8>)]) {
    let page_size = 4096;
    let mut cell_bytes: Vec<Vec<u8>> = Vec::new();
    for (rowid, payload) in cells {
        let mut c = Varint::encode(payload.len() as i64);
        c.extend_from_slice(&Varint::encode(*rowid));
        c.extend_from_slice(payload);
        cell_bytes.push(c);
    }
    let mut pos = page_size;
    let mut ptrs: Vec<u16> = Vec::new();
    for c in &cell_bytes {
        pos -= c.len();
        img[page_off + pos..page_off + pos + c.len()].copy_from_slice(c);
        ptrs.push(pos as u16);
    }
    let h = page_off + hdr_off;
    img[h] = 13;
    img[h + 1..h + 3].copy_from_slice(&0u16.to_be_bytes());
    img[h + 3..h + 5].copy_from_slice(&(cells.len() as u16).to_be_bytes());
    img[h + 5..h + 7].copy_from_slice(&(pos as u16).to_be_bytes());
    img[h + 7] = 0;
    for (k, p) in ptrs.iter().enumerate() {
        let at = h + 8 + 2 * k;
        img[at..at + 2].copy_from_slice(&p.to_be_bytes());
    }
}

const CREATE_APPLES: &[u8] = b"CREATE TABLE apples(id INTEGER PRIMARY KEY, name TEXT, color TEXT)";

fn build_db() -> Vec<u8> {
    let page_size = 4096;
    let mut img = vec![0u8; page_size * 2];
    img[0..16].copy_from_slice(b"SQLite format 3\0");
    img[16..18].copy_from_slice(&4096u16.to_be_bytes());
    img[21] = 64;
    img[22] = 32;
    img[23] = 32;
    img[44..48].copy_from_slice(&1u32.to_be_bytes());
    img[56..60].copy_from_slice(&1u32.to_be_bytes());
    let schema_row = record(&[
        text_value(b"table"),
        text_value(b"apples"),
        text_value(b"apples"),
        int_value(2),
        text_value(CREATE_APPLES),
    ]);
    write_leaf_page(&mut img, 0, 100, &[(1, schema_row)]);
    let r1 = record(&[null_value(), text_value(b"Granny Smith"), text_value(b"green")]);
    let r2 = record(&[null_value(), text_value(b"Honeycrisp"), text_value(b"red")]);
    write_leaf_page(&mut img, page_size, 0, &[(1, r1), (2, r2)]);
    img
}

fn text_cell(row: &sqlite_reader::query::Row, i: usize) -> &[u8] {
    match &row.row[i] {
        DbValue::Text(s) => s.as_slice(),
        other => panic!("expected text, got {other:?}"),
    }
}

// --- header rejection ---

#[test]
fn test_header_rejects_bad_magic() {
    let mut img = build_db();
    img[0] = b'X';
    assert_eq!(Header::new(&img), Err(HeaderError::InvalidFile));
    assert!(matches!(DbAccess::new(img), Err(HeaderError::InvalidFile)));
}

#[test]
fn test_header_rejects_bad_fractions() {
    let mut img = build_db();
    img[21] = 63;
    assert_eq!(Header::new(&img), Err(HeaderError::InvalidFractionError));
}

// --- record decoding ---

#[test]
fn test_record_decode_widths() {
    let payload = record(&[
        (0, Vec::new()),
        (1, vec![0x7f]),
        (2, vec![0xff, 0xfe]),
        (8, Vec::new()),
        (9, Vec::new()),
        text_value(b"hi"),
    ]);
    let vals = Record::read_row(&payload).unwrap();
    assert_eq!(vals.len(), 6);
    assert!(matches!(vals[0], Record::Null));
    assert!(matches!(vals[1], Record::Integer(127)));
    assert!(matches!(vals[2], Record::Integer(-2)));
    assert!(matches!(vals[3], Record::Integer(0)));
    assert!(matches!(vals[4], Record::Integer(1)));
    assert!(matches!(&vals[5], Record::Text(s) if s.as_slice() == b"hi"));
}

#[test]
fn test_record_reserved_serial_type() {
    let payload = vec![2u8, 10u8];
    assert!(matches!(Record::read_row(&payload), Err(RecordError::ReservedSerialType(10))));
}

#[test]
fn test_record_invalid_utf8() {
    let payload = record(&[(15, vec![0xff])]);
    assert!(matches!(Record::read_row(&payload), Err(RecordError::InvalidUtf8)));
}

// --- scan ordering ---

#[test]
fn test_scan_rowids_ascending() {
    let img = build_db();
    let reader = BTreeTableReader {};
    let cells = reader.find_all_in_table(2, &img, 4096).unwrap();
    let ids: Vec<i64> = cells.iter().map(|c| c.0).collect();
    assert_eq!(ids, vec![1, 2]);
    for w in ids.windows(2) {
        assert!(w[0] < w[1]);
    }
}

#[test]
fn test_scan_table_applies_predicate() {
    let img = build_db();
    let reader = BTreeTableReader {};
    let kept = reader.scan_table(2, &img, 4096, &|id: i64, _pl: &[u8]| id == 2).unwrap();
    assert_eq!(kept.len(), 1);
    assert_eq!(kept[0].0, 2);
    let none = reader.scan_table(2, &img, 4096, &|_id: i64, _pl: &[u8]| false).unwrap();
    assert!(none.is_empty());
    let all = reader.scan_table(2, &img, 4096, &|_id: i64, _pl: &[u8]| true).unwrap();
    assert_eq!(all.len(), 2);
}

// --- end-to-end scenarios ---

#[test]
fn test_dbinfo_counts() {
    let db = DbAccess::new(build_db()).unwrap();
    assert_eq!(db.header.page_size, 4096);
    assert_eq!(db.number_of_tables().unwrap(), 1);
}

#[test]
fn test_tables_lists_apples() {
    let db = DbAccess::new(build_db()).unwrap();
    let names = db.table_names().unwrap();
    assert_eq!(names.len(), 1);
    assert_eq!(names[0].as_slice(), b"apples");
}

#[test]
fn test_select_names_in_rowid_order() {
    let db = DbAccess::new(build_db()).unwrap();
    let (tables, err) = db.run_query(b"SELECT name FROM apples");
    assert!(err.is_none(), "{err:?}");
    assert_eq!(tables.len(), 1);
    let t = &tables[0];
    assert_eq!(t.rows.len(), 2);
    assert_eq!(text_cell(&t.rows[0], 0), b"Granny Smith");
    assert_eq!(text_cell(&t.rows[1], 0), b"Honeycrisp");
}

#[test]
fn test_select_where_color_red() {
    let db = DbAccess::new(build_db()).unwrap();
    let (tables, err) = db.run_query(b"SELECT name, color FROM apples WHERE color = 'red'");
    assert!(err.is_none(), "{err:?}");
    let t = &tables[0];
    assert_eq!(t.rows.len(), 1);
    assert_eq!(text_cell(&t.rows[0], 0), b"Honeycrisp");
    assert_eq!(text_cell(&t.rows[0], 1), b"red");
}

#[test]
fn test_rowid_aliasing_select_id() {
    let db = DbAccess::new(build_db()).unwrap();
    let (tables, err) = db.run_query(b"SELECT id FROM apples WHERE id = 2");
    assert!(err.is_none(), "{err:?}");
    let t = &tables[0];
    assert_eq!(t.rows.len(), 1);
    assert!(matches!(t.rows[0].row[0], DbValue::Integer(2)));
}

#[test]
fn test_select_star_schema() {
    let db = DbAccess::new(build_db()).unwrap();
    let (tables, err) = db.run_query(b"SELECT * FROM sqlite_schema");
    assert!(err.is_none(), "{err:?}");
    let t = &tables[0];
    assert_eq!(t.rows.len(), 1);
    assert!(matches!(t.rows[0].row[3], DbValue::Integer(2)));
    assert_eq!(text_cell(&t.rows[0], 4), CREATE_APPLES);
}

#[test]
fn test_projection_stability_concrete() {
    let db = DbAccess::new(build_db()).unwrap();
    let (star, e1) = db.run_query(b"SELECT * FROM apples");
    let (named, e2) = db.run_query(b"SELECT id, name, color FROM apples");
    assert!(e1.is_none() && e2.is_none());
    let (s, n) = (&star[0], &named[0]);
    assert_eq!(s.rows.len(), n.rows.len());
    for (a, b) in s.rows.iter().zip(n.rows.iter()) {
        assert_eq!(a.row.len(), b.row.len());
        for (x, y) in a.row.iter().zip(b.row.iter()) {
            assert!(x.value_eq(y), "{x:?} vs {y:?}");
        }
    }
    for (c, expected) in s.columns.iter().zip(["id", "name", "color"]) {
        assert_eq!(c.name().as_slice(), expected.as_bytes());
    }
}

#[test]
fn test_schema_aliases_resolve() {
    let db = DbAccess::new(build_db()).unwrap();
    for alias in ["sqlite_schema", "sqlite_master", "sqlite_temp_schema", "sqlite_temp_master"] {
        let (rp, sql) = db.get_table_def(alias.as_bytes(), 1).unwrap();
        assert_eq!(rp, 1);
        assert!(sql.starts_with(b"CREATE TABLE sqlite_schema"));
    }
}

#[test]
fn test_unknown_table_not_found() {
    let db = DbAccess::new(build_db()).unwrap();
    let (tables, err) = db.run_query(b"SELECT * FROM pears");
    assert!(tables.is_empty());
    assert!(matches!(err, Some(DbError::SchemaNotFound(_))));
}

#[test]
fn test_create_statement_not_supported() {
    let db = DbAccess::new(build_db()).unwrap();
    let (tables, err) = db.run_query(b"CREATE TABLE pears(id INTEGER)");
    assert!(tables.is_empty());
    assert!(matches!(err, Some(DbError::NotSupported)));
}
