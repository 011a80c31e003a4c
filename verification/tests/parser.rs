use sqlite_reader::lexer::{scan, Token, TokenType};
use sqlite_reader::parser::Parser;
use sqlite_reader::syntax::{
    ColType, ColumnConstraint, CreateStatement, Statement,
};

fn tok(typ: TokenType, lexeme: &str) -> Token {
    Token { typ, lexeme: lexeme.as_bytes().to_vec() }
}

#[test]
fn test_parse() {
    let toks = vec![
        tok(TokenType::CREATE, "CREATE"),
        tok(TokenType::TABLE, "TABLE"),
        tok(TokenType::IDENTIFIER, "gatto"),
        tok(TokenType::OPENP, "("),
        tok(TokenType::IDENTIFIER, "miao"),
        tok(TokenType::TEXT, "TEXT"),
        tok(TokenType::COMMA, ","),
        tok(TokenType::IDENTIFIER, "id"),
        tok(TokenType::INTEGER, "INTEGER"),
        tok(TokenType::PRIMARY, "PRIMARY"),
        tok(TokenType::KEY, "KEY"),
        tok(TokenType::CLOSEP, ")"),
        tok(TokenType::SEMICOLON, ";"),
        tok(TokenType::EOF, ""),
    ];
    let mut p = Parser::new(toks.as_slice());
    let (r, err) = p.scan();
    println!("{r:?}");
    assert!(err.is_none());
    assert_eq!(r.len(), 1);
    match &r[0] {
        Statement::Create(CreateStatement::Table { name, cols }) => {
            assert_eq!(name.as_slice(), b"gatto");
            assert_eq!(cols.len(), 2);
            assert_eq!(cols[0].name.as_slice(), b"miao");
            assert_eq!(cols[0].position, 0);
            assert_eq!(cols[0].typ, ColType::TEXT);
            assert!(cols[0].constraint.is_empty());
            assert_eq!(cols[1].name.as_slice(), b"id");
            assert_eq!(cols[1].position, 1);
            assert_eq!(cols[1].typ, ColType::INTEGER);
            assert_eq!(
                cols[1].constraint,
                vec![ColumnConstraint::Pk { asc: true, autoinc: false, conflict: None }]
            );
        },
        other => panic!("expected a CREATE TABLE, got {other:?}"),
    }
}

#[test]
fn test_simple_select() {
    let select = "SELECT * FROM gatito";
    let p = Parser::new(&scan(select.as_bytes()).unwrap()).scan();
    println!("{select}\n{p:?}");
    let count = "SELECT COUNT(*) FROM gatito";
    let p = Parser::new(&scan(count.as_bytes()).unwrap()).scan();
    println!("{count}\n{p:?}");
    let cols = "SELECT colore, nome FROM gatito";
    let p = Parser::new(&scan(cols.as_bytes()).unwrap()).scan();
    println!("{cols}\n{p:?}");
    let filter = "SELECT colore, nome FROM gatito WHERE colore = 'black'";
    let p = Parser::new(&scan(filter.as_bytes()).unwrap()).scan();
    println!("{filter}\n{p:?}");
    let filter_expr = "SELECT colore, nome FROM gatito WHERE colore = TRUE ";
    let p = Parser::new(&scan(filter_expr.as_bytes()).unwrap()).scan();
    println!("{filter_expr}\n{p:?}");
    let filter_expr_2 = "SELECT colore, nome FROM gatito WHERE colore = 12 + 2 ";
    let p = Parser::new(&scan(filter_expr_2.as_bytes()).unwrap()).scan();
    println!("{filter_expr_2}\n{p:?}");
    let filter_expr_3 = "SELECT colore, nome FROM gatito WHERE colore = 12 + 2 + (12 *2)/4 ";
    let p = Parser::new(&scan(filter_expr_3.as_bytes()).unwrap()).scan();
    println!("{filter_expr_3}\n{p:?}");
}

#[test]
fn test_schema_table() {
    let schema_def = "CREATE TABLE sqlite_schema(
  type text,
  name text,
  tbl_name text,
  rootpage integer,
  sql text
);";
    let p = Parser::new(&scan(schema_def.as_bytes()).unwrap()).scan();
    println!("{schema_def}\n{p:?}");
    let schema_def = "CREATE TABLE sqlite_schema(
  type text,
  name text,
  tbl_name text,
  rootpage integer,
  sql text
);
CREATE TABLE sqlite_schema(
  type text,
  name text,
  tbl_name text,
  rootpage integer,
  sql text
);";
    let p = Parser::new(&scan(schema_def.as_bytes()).unwrap()).scan();
    println!("{schema_def}\n{p:?}");
    let (stmts, err) = Parser::new(&scan(schema_def.as_bytes()).unwrap()).scan();
    assert_eq!(stmts.len(), 2);
    assert!(err.is_none());
}

#[test]
fn test_number_overflow_is_error() {
    let q = "SELECT 99999999999999999999 FROM t";
    let (stmts, err) = Parser::new(&scan(q.as_bytes()).unwrap()).scan();
    assert!(stmts.is_empty());
    assert!(err.is_some());
}
