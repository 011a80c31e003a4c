//! The SQL lexer: a single pass over the query bytes producing a token
//! stream terminated by an end-of-input token. Whitespace is skipped,
//! keywords match case-insensitively, string literals use single quotes
//! and quoted identifiers double quotes, both without escapes.

use vstd::prelude::*;
use vstd::string::StringSliceAdditionalSpecFns;
use crate::util::{bytes_eq, copy_range};

verus! {

/// The classes of tokens the lexer produces.
#[derive(PartialEq, Eq, Structural, Debug, Clone, Copy)]
pub enum TokenType {
    OPENP,
    CLOSEP,
    PLUS,
    MINUS,
    NEWLINE,
    EOF,
    COMMA,
    DOT,
    SEMICOLON,
    ASTERISK,
    SLASH,
    LESS,
    GREATER,
    ASSIGN,
    BANG,
    IDENTIFIER,
    NUMBER,
    LESSEQ,
    GREATEREQ,
    NOTEQUALS,
    EQUALS,
    CREATE,
    PRIMARY,
    ASC,
    DESC,
    AUTOINCREMENT,
    UNIQUE,
    KEY,
    SELECT,
    FROM,
    WHERE,
    TABLE,
    INTEGER,
    TEXT,
    OR,
    AND,
    NOT,
    NULL,
    TRUE,
    FALSE,
    STRING,
    ON,
    CONFLICT,
    ROLLBACK,
    ABORT,
    FAIL,
    IGNORE,
    REPLACE,
}

/// One token: its class and the bytes it covers.
#[derive(PartialEq, Eq, Debug)]
pub struct Token {
    pub typ: TokenType,
    pub lexeme: Vec<u8>,
}

/// The mathematical shape of a token.
pub struct TokenV {
    pub typ: TokenType,
    pub lexeme: Seq<u8>,
}

impl View for Token {
    type V = TokenV;

    open spec fn view(&self) -> TokenV {
        TokenV { typ: self.typ, lexeme: self.lexeme@ }
    }
}

impl DeepView for Token {
    type V = TokenV;

    open spec fn deep_view(&self) -> TokenV {
        self.view()
    }
}

/// What the lexer can report.
#[derive(PartialEq, Eq, Structural, Debug, Clone, Copy)]
pub enum LexError {
    /// A byte no token starts with.
    UnexpectedChar(u8),
    /// The input ended inside a two-byte operator.
    UnexpectedEnd,
}

/// The byte folded to upper case when it is an ASCII letter.
pub open spec fn spec_upper_byte(b: u8) -> u8 {
    if 97 <= b <= 122 {
        (b - 32) as u8
    } else {
        b
    }
}

/// The byte string folded to ASCII upper case.
pub open spec fn spec_upper(s: Seq<u8>) -> Seq<u8> {
    s.map_values(|b: u8| spec_upper_byte(b))
}

/// The keyword class of an upper-cased word, if it is one.
pub open spec fn spec_keyword(u: Seq<u8>) -> Option<TokenType> {
    if u == "CREATE".spec_bytes() {
        Some(TokenType::CREATE)
    } else if u == "SELECT".spec_bytes() {
        Some(TokenType::SELECT)
    } else if u == "TABLE".spec_bytes() {
        Some(TokenType::TABLE)
    } else if u == "FROM".spec_bytes() {
        Some(TokenType::FROM)
    } else if u == "WHERE".spec_bytes() {
        Some(TokenType::WHERE)
    } else if u == "PRIMARY".spec_bytes() {
        Some(TokenType::PRIMARY)
    } else if u == "KEY".spec_bytes() {
        Some(TokenType::KEY)
    } else if u == "INTEGER".spec_bytes() {
        Some(TokenType::INTEGER)
    } else if u == "TEXT".spec_bytes() {
        Some(TokenType::TEXT)
    } else if u == "OR".spec_bytes() {
        Some(TokenType::OR)
    } else if u == "AND".spec_bytes() {
        Some(TokenType::AND)
    } else if u == "NOT".spec_bytes() {
        Some(TokenType::NOT)
    } else if u == "NULL".spec_bytes() {
        Some(TokenType::NULL)
    } else if u == "TRUE".spec_bytes() {
        Some(TokenType::TRUE)
    } else if u == "FALSE".spec_bytes() {
        Some(TokenType::FALSE)
    } else if u == "ASC".spec_bytes() {
        Some(TokenType::ASC)
    } else if u == "DESC".spec_bytes() {
        Some(TokenType::DESC)
    } else if u == "AUTOINCREMENT".spec_bytes() {
        Some(TokenType::AUTOINCREMENT)
    } else if u == "UNIQUE".spec_bytes() {
        Some(TokenType::UNIQUE)
    } else if u == "ON".spec_bytes() {
        Some(TokenType::ON)
    } else if u == "CONFLICT".spec_bytes() {
        Some(TokenType::CONFLICT)
    } else if u == "ROLLBACK".spec_bytes() {
        Some(TokenType::ROLLBACK)
    } else if u == "ABORT".spec_bytes() {
        Some(TokenType::ABORT)
    } else if u == "FAIL".spec_bytes() {
        Some(TokenType::FAIL)
    } else if u == "IGNORE".spec_bytes() {
        Some(TokenType::IGNORE)
    } else if u == "REPLACE".spec_bytes() {
        Some(TokenType::REPLACE)
    } else {
        None
    }
}

/// Whether a byte is skipped as whitespace.
pub open spec fn spec_is_ws(b: u8) -> bool {
    b == 32 || b == 10 || b == 9 || b == 13
}

/// Whether a byte may start an identifier.
pub open spec fn spec_is_alpha(b: u8) -> bool {
    (65 <= b <= 90) || (97 <= b <= 122)
}

/// Whether a byte may continue an identifier.
pub open spec fn spec_is_ident(b: u8) -> bool {
    spec_is_alpha(b) || (48 <= b <= 57) || b == 95
}

/// Whether a byte is a decimal digit.
pub open spec fn spec_is_digit(b: u8) -> bool {
    48 <= b <= 57
}

/// Whether a byte may continue a numeric literal.
pub open spec fn spec_is_num(b: u8) -> bool {
    spec_is_digit(b) || b == 46
}

/// The index of the first occurrence of `b` at or after `from`, or the
/// input's length when there is none.
pub open spec fn spec_find(s: Seq<u8>, from: int, b: u8) -> int
    decreases s.len() - from,
{
    if from < 0 || from >= s.len() {
        s.len() as int
    } else if s[from] == b {
        from
    } else {
        spec_find(s, from + 1, b)
    }
}

/// The index just past the run of bytes satisfying `ident` (true) or
/// numeric (false) continuation, starting at `from`.
pub open spec fn spec_run_end(s: Seq<u8>, from: int, ident: bool) -> int
    decreases s.len() - from,
{
    if from < 0 || from >= s.len() {
        s.len() as int
    } else if (ident && spec_is_ident(s[from])) || (!ident && spec_is_num(s[from])) {
        spec_run_end(s, from + 1, ident)
    } else {
        from
    }
}

/// The token starting at the non-whitespace byte `s[i]`, and the index
/// just past it.
pub open spec fn spec_token_at(s: Seq<u8>, i: int) -> Result<(TokenV, int), LexError> {
    let c = s[i];
    if c == 42 {
        Ok((TokenV { typ: TokenType::ASTERISK, lexeme: s.subrange(i, i + 1) }, i + 1))
    } else if c == 43 {
        Ok((TokenV { typ: TokenType::PLUS, lexeme: s.subrange(i, i + 1) }, i + 1))
    } else if c == 45 {
        Ok((TokenV { typ: TokenType::MINUS, lexeme: s.subrange(i, i + 1) }, i + 1))
    } else if c == 40 {
        Ok((TokenV { typ: TokenType::OPENP, lexeme: s.subrange(i, i + 1) }, i + 1))
    } else if c == 41 {
        Ok((TokenV { typ: TokenType::CLOSEP, lexeme: s.subrange(i, i + 1) }, i + 1))
    } else if c == 44 {
        Ok((TokenV { typ: TokenType::COMMA, lexeme: s.subrange(i, i + 1) }, i + 1))
    } else if c == 59 {
        Ok((TokenV { typ: TokenType::SEMICOLON, lexeme: s.subrange(i, i + 1) }, i + 1))
    } else if c == 46 {
        Ok((TokenV { typ: TokenType::DOT, lexeme: s.subrange(i, i + 1) }, i + 1))
    } else if c == 61 {
        Ok((TokenV { typ: TokenType::EQUALS, lexeme: s.subrange(i, i + 1) }, i + 1))
    } else if c == 47 {
        Ok((TokenV { typ: TokenType::SLASH, lexeme: s.subrange(i, i + 1) }, i + 1))
    } else if c == 33 {
        if i + 1 >= s.len() {
            Err(LexError::UnexpectedEnd)
        } else if s[i + 1] == 61 {
            Ok((TokenV { typ: TokenType::NOTEQUALS, lexeme: s.subrange(i, i + 2) }, i + 2))
        } else {
            Ok((TokenV { typ: TokenType::BANG, lexeme: s.subrange(i, i + 1) }, i + 1))
        }
    } else if c == 60 {
        if i + 1 >= s.len() {
            Err(LexError::UnexpectedEnd)
        } else if s[i + 1] == 61 {
            Ok((TokenV { typ: TokenType::LESSEQ, lexeme: s.subrange(i, i + 2) }, i + 2))
        } else {
            Ok((TokenV { typ: TokenType::LESS, lexeme: s.subrange(i, i + 1) }, i + 1))
        }
    } else if c == 62 {
        if i + 1 >= s.len() {
            Err(LexError::UnexpectedEnd)
        } else if s[i + 1] == 61 {
            Ok((TokenV { typ: TokenType::GREATEREQ, lexeme: s.subrange(i, i + 2) }, i + 2))
        } else {
            Ok((TokenV { typ: TokenType::GREATER, lexeme: s.subrange(i, i + 1) }, i + 1))
        }
    } else if c == 39 {
        let q = spec_find(s, i + 1, 39);
        Ok(
            (
                TokenV { typ: TokenType::STRING, lexeme: s.subrange(i + 1, q) },
                if q < s.len() {
                    q + 1
                } else {
                    s.len() as int
                },
            ),
        )
    } else if c == 34 {
        let q = spec_find(s, i + 1, 34);
        Ok(
            (
                TokenV { typ: TokenType::IDENTIFIER, lexeme: s.subrange(i + 1, q) },
                if q < s.len() {
                    q + 1
                } else {
                    s.len() as int
                },
            ),
        )
    } else if spec_is_alpha(c) {
        let j = spec_run_end(s, i + 1, true);
        let word = s.subrange(i, j);
        let typ = match spec_keyword(spec_upper(word)) {
            Some(t) => t,
            None => TokenType::IDENTIFIER,
        };
        Ok((TokenV { typ, lexeme: word }, j))
    } else if spec_is_digit(c) {
        let j = spec_run_end(s, i + 1, false);
        Ok((TokenV { typ: TokenType::NUMBER, lexeme: s.subrange(i, j) }, j))
    } else {
        Err(LexError::UnexpectedChar(c))
    }
}

/// The end-of-input token that closes every token stream.
pub open spec fn spec_eof_token() -> TokenV {
    TokenV { typ: TokenType::EOF, lexeme: "EOF".spec_bytes() }
}

/// The token stream of `s` from position `i` on: whitespace skipped,
/// one token per step, ending with the end-of-input token.
pub open spec fn spec_lex(s: Seq<u8>, i: int) -> Result<Seq<TokenV>, LexError>
    decreases s.len() - i,
{
    if i < 0 || i >= s.len() {
        Ok(seq![spec_eof_token()])
    } else if spec_is_ws(s[i]) {
        spec_lex(s, i + 1)
    } else {
        match spec_token_at(s, i) {
            Err(e) => Err(e),
            Ok((tok, j)) => if j <= i || j > s.len() {
                Err(LexError::UnexpectedEnd)
            } else {
                match spec_lex(s, j) {
                    Err(e) => Err(e),
                    Ok(rest) => Ok(seq![tok] + rest),
                }
            },
        }
    }
}

/// The keyword class of a word, compared without case.
pub fn map_token(s: &[u8]) -> (r: Option<TokenType>)
    ensures
        r == spec_keyword(spec_upper(s@)),
{
    let upper = ascii_upper(s);
    if bytes_eq(upper.as_slice(), "CREATE".as_bytes()) {
        return Some(TokenType::CREATE);
    }
    if bytes_eq(upper.as_slice(), "SELECT".as_bytes()) {
        return Some(TokenType::SELECT);
    }
    if bytes_eq(upper.as_slice(), "TABLE".as_bytes()) {
        return Some(TokenType::TABLE);
    }
    if bytes_eq(upper.as_slice(), "FROM".as_bytes()) {
        return Some(TokenType::FROM);
    }
    if bytes_eq(upper.as_slice(), "WHERE".as_bytes()) {
        return Some(TokenType::WHERE);
    }
    if bytes_eq(upper.as_slice(), "PRIMARY".as_bytes()) {
        return Some(TokenType::PRIMARY);
    }
    if bytes_eq(upper.as_slice(), "KEY".as_bytes()) {
        return Some(TokenType::KEY);
    }
    if bytes_eq(upper.as_slice(), "INTEGER".as_bytes()) {
        return Some(TokenType::INTEGER);
    }
    if bytes_eq(upper.as_slice(), "TEXT".as_bytes()) {
        return Some(TokenType::TEXT);
    }
    if bytes_eq(upper.as_slice(), "OR".as_bytes()) {
        return Some(TokenType::OR);
    }
    if bytes_eq(upper.as_slice(), "AND".as_bytes()) {
        return Some(TokenType::AND);
    }
    if bytes_eq(upper.as_slice(), "NOT".as_bytes()) {
        return Some(TokenType::NOT);
    }
    if bytes_eq(upper.as_slice(), "NULL".as_bytes()) {
        return Some(TokenType::NULL);
    }
    if bytes_eq(upper.as_slice(), "TRUE".as_bytes()) {
        return Some(TokenType::TRUE);
    }
    if bytes_eq(upper.as_slice(), "FALSE".as_bytes()) {
        return Some(TokenType::FALSE);
    }
    if bytes_eq(upper.as_slice(), "ASC".as_bytes()) {
        return Some(TokenType::ASC);
    }
    if bytes_eq(upper.as_slice(), "DESC".as_bytes()) {
        return Some(TokenType::DESC);
    }
    if bytes_eq(upper.as_slice(), "AUTOINCREMENT".as_bytes()) {
        return Some(TokenType::AUTOINCREMENT);
    }
    if bytes_eq(upper.as_slice(), "UNIQUE".as_bytes()) {
        return Some(TokenType::UNIQUE);
    }
    if bytes_eq(upper.as_slice(), "ON".as_bytes()) {
        return Some(TokenType::ON);
    }
    if bytes_eq(upper.as_slice(), "CONFLICT".as_bytes()) {
        return Some(TokenType::CONFLICT);
    }
    if bytes_eq(upper.as_slice(), "ROLLBACK".as_bytes()) {
        return Some(TokenType::ROLLBACK);
    }
    if bytes_eq(upper.as_slice(), "ABORT".as_bytes()) {
        return Some(TokenType::ABORT);
    }
    if bytes_eq(upper.as_slice(), "FAIL".as_bytes()) {
        return Some(TokenType::FAIL);
    }
    if bytes_eq(upper.as_slice(), "IGNORE".as_bytes()) {
        return Some(TokenType::IGNORE);
    }
    if bytes_eq(upper.as_slice(), "REPLACE".as_bytes()) {
        return Some(TokenType::REPLACE);
    }
    None
}

/// The index of the first occurrence of `b` at or after `from`, or the
/// input's length when there is none.
pub fn find_byte(s: &[u8], from: usize, b: u8) -> (r: usize)
    requires
        from <= s@.len(),
    ensures
        r == spec_find(s@, from as int, b),
        from <= r <= s@.len(),
{
    let n = s.len();
    let mut cur = from;
    while cur < n
        invariant
            from <= cur <= n,
            n == s@.len(),
            spec_find(s@, from as int, b) == spec_find(s@, cur as int, b),
        decreases n - cur,
    {
        if s[cur] == b {
            return cur;
        }
        cur += 1;
    }
    n
}

/// The index just past the identifier or numeric run starting at `from`.
fn run_end(s: &[u8], from: usize, ident: bool) -> (r: usize)
    requires
        from <= s@.len(),
    ensures
        r == spec_run_end(s@, from as int, ident),
        from <= r <= s@.len(),
{
    let n = s.len();
    let mut cur = from;
    while cur < n
        invariant
            from <= cur <= n,
            n == s@.len(),
            spec_run_end(s@, from as int, ident) == spec_run_end(s@, cur as int, ident),
        decreases n - cur,
    {
        let b = s[cur];
        let cont = if ident {
            (65 <= b && b <= 90) || (97 <= b && b <= 122) || (48 <= b && b <= 57) || b == 95
        } else {
            (48 <= b && b <= 57) || b == 46
        };
        if !cont {
            return cur;
        }
        cur += 1;
    }
    n
}

/// Reads the token starting at the non-whitespace byte `s[i]`.
fn token_at(s: &[u8], i: usize) -> (r: Result<(Token, usize), LexError>)
    requires
        i < s@.len(),
        !spec_is_ws(s@[i as int]),
    ensures
        match r {
            Ok(p) => spec_token_at(s@, i as int) matches Ok(q) && q.0 == p.0@ && q.1 == p.1 && i
                < p.1 <= s@.len(),
            Err(e) => spec_token_at(s@, i as int) == Err::<(TokenV, int), LexError>(e),
        },
{
    let n = s.len();
    let c = s[i];
    match c {
        42 => Ok((Token { typ: TokenType::ASTERISK, lexeme: copy_range(s, i, i + 1) }, i + 1)),
        43 => Ok((Token { typ: TokenType::PLUS, lexeme: copy_range(s, i, i + 1) }, i + 1)),
        45 => Ok((Token { typ: TokenType::MINUS, lexeme: copy_range(s, i, i + 1) }, i + 1)),
        40 => Ok((Token { typ: TokenType::OPENP, lexeme: copy_range(s, i, i + 1) }, i + 1)),
        41 => Ok((Token { typ: TokenType::CLOSEP, lexeme: copy_range(s, i, i + 1) }, i + 1)),
        44 => Ok((Token { typ: TokenType::COMMA, lexeme: copy_range(s, i, i + 1) }, i + 1)),
        59 => Ok((Token { typ: TokenType::SEMICOLON, lexeme: copy_range(s, i, i + 1) }, i + 1)),
        46 => Ok((Token { typ: TokenType::DOT, lexeme: copy_range(s, i, i + 1) }, i + 1)),
        61 => Ok((Token { typ: TokenType::EQUALS, lexeme: copy_range(s, i, i + 1) }, i + 1)),
        47 => Ok((Token { typ: TokenType::SLASH, lexeme: copy_range(s, i, i + 1) }, i + 1)),
        33 => {
            if i + 1 >= n {
                Err(LexError::UnexpectedEnd)
            } else if s[i + 1] == 61 {
                Ok((Token { typ: TokenType::NOTEQUALS, lexeme: copy_range(s, i, i + 2) }, i + 2))
            } else {
                Ok((Token { typ: TokenType::BANG, lexeme: copy_range(s, i, i + 1) }, i + 1))
            }
        },
        60 => {
            if i + 1 >= n {
                Err(LexError::UnexpectedEnd)
            } else if s[i + 1] == 61 {
                Ok((Token { typ: TokenType::LESSEQ, lexeme: copy_range(s, i, i + 2) }, i + 2))
            } else {
                Ok((Token { typ: TokenType::LESS, lexeme: copy_range(s, i, i + 1) }, i + 1))
            }
        },
        62 => {
            if i + 1 >= n {
                Err(LexError::UnexpectedEnd)
            } else if s[i + 1] == 61 {
                Ok((Token { typ: TokenType::GREATEREQ, lexeme: copy_range(s, i, i + 2) }, i + 2))
            } else {
                Ok((Token { typ: TokenType::GREATER, lexeme: copy_range(s, i, i + 1) }, i + 1))
            }
        },
        39 => {
            let q = find_byte(s, i + 1, 39);
            let lexeme = copy_range(s, i + 1, q);
            let j = if q < n {
                q + 1
            } else {
                n
            };
            Ok((Token { typ: TokenType::STRING, lexeme }, j))
        },
        34 => {
            let q = find_byte(s, i + 1, 34);
            let lexeme = copy_range(s, i + 1, q);
            let j = if q < n {
                q + 1
            } else {
                n
            };
            Ok((Token { typ: TokenType::IDENTIFIER, lexeme }, j))
        },
        _ => {
            if (65 <= c && c <= 90) || (97 <= c && c <= 122) {
                let j = run_end(s, i + 1, true);
                let word = copy_range(s, i, j);
                let typ = match map_token(word.as_slice()) {
                    Some(t) => t,
                    None => TokenType::IDENTIFIER,
                };
                Ok((Token { typ, lexeme: word }, j))
            } else if 48 <= c && c <= 57 {
                let j = run_end(s, i + 1, false);
                Ok((Token { typ: TokenType::NUMBER, lexeme: copy_range(s, i, j) }, j))
            } else {
                Err(LexError::UnexpectedChar(c))
            }
        },
    }
}

/// Lexes the whole input into a token stream ending with the
/// end-of-input token.
pub fn scan(s: &[u8]) -> (r: Result<Vec<Token>, LexError>)
    ensures
        match r {
            Ok(v) => spec_lex(s@, 0) matches Ok(ts) && v.deep_view() == ts,
            Err(e) => spec_lex(s@, 0) == Err::<Seq<TokenV>, LexError>(e),
        },
{
    let n = s.len();
    let mut toks: Vec<Token> = Vec::new();
    let mut i: usize = 0;
    proof {
        assert(toks.deep_view() =~= Seq::<TokenV>::empty());
    }
    loop
        invariant_except_break
            n == s@.len(),
            i <= n,
            match spec_lex(s@, i as int) {
                Ok(rest) => spec_lex(s@, 0) == Ok::<Seq<TokenV>, LexError>(
                    toks.deep_view() + rest,
                ),
                Err(e) => spec_lex(s@, 0) == Err::<Seq<TokenV>, LexError>(e),
            },
        ensures
            spec_lex(s@, 0) == Ok::<Seq<TokenV>, LexError>(
                toks.deep_view() + seq![spec_eof_token()],
            ),
        decreases n - i,
    {
        if i >= n {
            break ;
        }
        let c = s[i];
        if c == 32 || c == 10 || c == 9 || c == 13 {
            i += 1;
            continue ;
        }
        let (tok, j) = match token_at(s, i) {
            Ok(p) => p,
            Err(e) => {
                return Err(e);
            },
        };
        proof {
            let rest1 = spec_lex(s@, j as int);
            if rest1 is Ok {
                assert(toks.deep_view() + (seq![tok@] + rest1.unwrap()) =~= toks.deep_view().push(
                    tok@,
                ) + rest1.unwrap());
            }
        }
        let ghost prev = toks.deep_view();
        toks.push(tok);
        proof {
            assert(toks.deep_view() =~= prev.push(toks@.last().deep_view()));
        }
        i = j;
    }
    let ghost prev = toks.deep_view();
    toks.push(Token { typ: TokenType::EOF, lexeme: eof_lexeme() });
    proof {
        assert(toks.deep_view() =~= prev.push(spec_eof_token()));
        assert(prev.push(spec_eof_token()) =~= prev + seq![spec_eof_token()]);
    }
    Ok(toks)
}

/// The lexeme the end-of-input token carries.
fn eof_lexeme() -> (r: Vec<u8>)
    ensures
        r@ == spec_eof_token().lexeme,
{
    vstd::slice::slice_to_vec("EOF".as_bytes())
}

/// A copy of `s` with its ASCII letters folded to upper case.
fn ascii_upper(s: &[u8]) -> (r: Vec<u8>)
    ensures
        r@ == spec_upper(s@),
{
    let n = s.len();
    let mut out: Vec<u8> = Vec::new();
    let mut i: usize = 0;
    while i < n
        invariant
            n == s@.len(),
            i <= n,
            out@.len() == i,
            forall|j: int| 0 <= j < i ==> out@[j] == spec_upper_byte(s@[j]),
        decreases n - i,
    {
        let b = s[i];
        if 97 <= b && b <= 122 {
            out.push(b - 32);
        } else {
            out.push(b);
        }
        i += 1;
    }
    proof {
        assert(out@ =~= spec_upper(s@));
    }
    out
}

} // verus!
