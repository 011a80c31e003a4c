use sqlite_reader::lexer::{scan, LexError, Token, TokenType};

fn tok(typ: TokenType, lexeme: &str) -> Token {
    Token { typ, lexeme: lexeme.as_bytes().to_vec() }
}

#[test]
fn test_tokenize() {
    assert_eq!(
        vec![
            tok(TokenType::SELECT, "SELECT"),
            tok(TokenType::IDENTIFIER, "miao"),
            tok(TokenType::FROM, "FROM"),
            tok(TokenType::IDENTIFIER, "gatto"),
            tok(TokenType::EOF, "EOF"),
        ],
        scan(b"SELECT miao FROM gatto").unwrap()
    );
    assert_eq!(
        vec![
            tok(TokenType::CREATE, "CREATE"),
            tok(TokenType::TABLE, "TABLE"),
            tok(TokenType::IDENTIFIER, "gatto"),
            tok(TokenType::OPENP, "("),
            tok(TokenType::IDENTIFIER, "miao"),
            tok(TokenType::TEXT, "TEXT"),
            tok(TokenType::COMMA, ","),
            tok(TokenType::IDENTIFIER, "id"),
            tok(TokenType::INTEGER, "INTEGER"),
            tok(TokenType::PRIMARY, "PRIMARY"),
            tok(TokenType::KEY, "KEY"),
            tok(TokenType::CLOSEP, ")"),
            tok(TokenType::SEMICOLON, ";"),
            tok(TokenType::EOF, "EOF"),
        ],
        scan(b"CREATE TABLE gatto(\n miao TEXT,\n id INTEGER PRIMARY KEY \n);").unwrap()
    );
}

#[test]
fn test_numbers() {
    let nums = "12 * 13 * (18 - 10 )/ 7 + 501 != 10";
    let nums = scan(nums.as_bytes()).unwrap();
    println!("{nums:?}");
}

#[test]
fn test_schema() {
    let schema = "CREATE TABLE sqlite_schema(
  type text,
  name text,
  tbl_name text,
  rootpage integer,
  sql text
);";
    let schema = scan(schema.as_bytes()).unwrap();
    println!("{schema:?}");
}

#[test]
fn test_where() {
    let query = "WHERE 10 = 10 AND 9 != 10 AND 'CIAO' != 'ciao'";
    let schema = scan(query.as_bytes()).unwrap();
    println!("{schema:?}");
}

#[test]
fn test_unknown_character() {
    assert_eq!(scan(b"SELECT ~"), Err(LexError::UnexpectedChar(126)));
}
