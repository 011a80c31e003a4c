use sqlite_reader::lexer::scan;
use sqlite_reader::parser::Parser;
use sqlite_reader::render::render_statement;

#[test]
fn test_print() {
    let stmt = "CREATE TABLE ciao ( id INTEGER PRIMARY KEY, name TEXT)";
    let (tree, err) = Parser::new(&scan(stmt.as_bytes()).unwrap()).scan();
    assert!(err.is_none());
    for s in &tree {
        let text = render_statement(s);
        println!("{}", String::from_utf8_lossy(&text));
    }
    let stmt = "SELECT name, sum(gatito, id), id from kitty where age * 2 - (15 - 3) >= 10";
    let (tree, err) = Parser::new(&scan(stmt.as_bytes()).unwrap()).scan();
    assert!(err.is_none());
    for s in &tree {
        let text = render_statement(s);
        println!("{}", String::from_utf8_lossy(&text));
    }
}

#[test]
fn test_render_select_exact() {
    let q = "SELECT a FROM t WHERE b = 1";
    let (tree, err) = Parser::new(&scan(q.as_bytes()).unwrap()).scan();
    assert!(err.is_none());
    assert_eq!(tree.len(), 1);
    let text = render_statement(&tree[0]);
    assert_eq!(
        String::from_utf8_lossy(&text),
        "select from t:\n\tval:[a]\n\t\tval:[b]\n\top:Equals\n\t\tval:[1]\n"
    );
}

#[test]
fn test_render_create_exact() {
    let q = "CREATE TABLE t(id INTEGER PRIMARY KEY, name TEXT)";
    let (tree, err) = Parser::new(&scan(q.as_bytes()).unwrap()).scan();
    assert!(err.is_none());
    let text = render_statement(&tree[0]);
    assert_eq!(
        String::from_utf8_lossy(&text),
        "create table t\n\tcolumn: id INTEGER\n\tpk\n\tcolumn: name TEXT\n"
    );
}

#[test]
fn test_literal_names() {
    let q = "SELECT -5, 'hi', TRUE, NULL FROM t";
    let (tree, _err) = Parser::new(&scan(q.as_bytes()).unwrap()).scan();
    let text = render_statement(&tree[0]);
    let printed = String::from_utf8_lossy(&text).into_owned();
    assert!(printed.contains("val:[5]\n"));
    assert!(printed.contains("val:[hi]"));
    assert!(printed.contains("val:[TRUE]"));
    assert!(printed.contains("val:[NULL]"));
}
