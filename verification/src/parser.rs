//! The recursive-descent SQL parser: statement lists of CREATE TABLE and
//! SELECT, and expressions with the precedence ladder OR, AND, equality,
//! comparison, additive, multiplicative, unary, call, primary.

use vstd::prelude::*;
use vstd::string::StringSliceAdditionalSpecFns;
use crate::lexer::{spec_lex, LexError, Token, TokenType, TokenV};
use crate::syntax::{
    ColType, ColumnConstraint, ColumnDefinition, ColumnDefinitionV, ConflictClause,
    CreateStatement, CreateStatementV, DbValue, DbValueV, Expr, ExprV, FunctionArg, FunctionArgV,
    Operator, SelectStatement, SelectStatementV, Statement, StatementV,
};

verus! {

/// What the parser can report.
#[derive(Debug)]
pub enum ParseError {
    /// The input ended where a token was needed.
    NoInput,
    /// A token that cannot start or continue the construct here.
    InvalidKeyword(Vec<u8>),
    /// A specific token was required and something else stood there.
    ExpectedToken(TokenType),
    /// A failure the grammar describes in words.
    CustomError(&'static str),
}

/// The mathematical shape of a parser failure.
pub enum ParseErrorV {
    NoInput,
    InvalidKeyword(Seq<u8>),
    ExpectedToken(TokenType),
    CustomError(Seq<char>),
}

impl View for ParseError {
    type V = ParseErrorV;

    open spec fn view(&self) -> ParseErrorV {
        match self {
            ParseError::NoInput => ParseErrorV::NoInput,
            ParseError::InvalidKeyword(s) => ParseErrorV::InvalidKeyword(s@),
            ParseError::ExpectedToken(t) => ParseErrorV::ExpectedToken(*t),
            ParseError::CustomError(m) => ParseErrorV::CustomError(m@),
        }
    }
}

impl DeepView for ParseError {
    type V = ParseErrorV;

    open spec fn deep_view(&self) -> ParseErrorV {
        self.view()
    }
}

/// The value of a run of decimal digits.
pub open spec fn spec_digits_val(s: Seq<u8>) -> int
    decreases s.len(),
{
    if s.len() == 0 {
        0
    } else {
        spec_digits_val(s.drop_last()) * 10 + (s.last() - 48)
    }
}

/// The signed 64-bit integer a digit run denotes, when it is all digits
/// and fits.
pub open spec fn spec_parse_i64(s: Seq<u8>) -> Option<i64> {
    if s.len() > 0 && (forall|i: int|
        0 <= i < s.len() ==> crate::lexer::spec_is_digit(s[i])) && spec_digits_val(s) <= i64::MAX {
        Some(spec_digits_val(s) as i64)
    } else {
        None
    }
}

/// The token a specific class is demanded of: the token and the next
/// index, or the error naming the class.
pub open spec fn spec_expect(toks: Seq<TokenV>, i: int, typ: TokenType) -> Result<
    (TokenV, int),
    ParseErrorV,
> {
    if 0 <= i < toks.len() && toks[i].typ == typ {
        Ok((toks[i], i + 1))
    } else {
        Err(ParseErrorV::ExpectedToken(typ))
    }
}

/// One statement parsed at `i`: CREATE or SELECT.
pub open spec fn spec_statement(toks: Seq<TokenV>, i: int) -> Result<(StatementV, int), ParseErrorV>
    decreases toks.len() - i, 30int,
{
    if i < 0 || i >= toks.len() {
        Err(ParseErrorV::NoInput)
    } else if toks[i].typ == TokenType::CREATE {
        spec_create(toks, i + 1)
    } else if toks[i].typ == TokenType::SELECT {
        match spec_select(toks, i + 1) {
            Ok((sel, j)) => Ok((StatementV::Select(sel), j)),
            Err(e) => Err(e),
        }
    } else {
        Err(ParseErrorV::InvalidKeyword(toks[i].lexeme))
    }
}

/// The rest of a CREATE statement: only TABLE is understood.
pub open spec fn spec_create(toks: Seq<TokenV>, i: int) -> Result<(StatementV, int), ParseErrorV>
    decreases toks.len() - i, 29int,
{
    if i < 0 || i >= toks.len() {
        Err(ParseErrorV::NoInput)
    } else if toks[i].typ == TokenType::TABLE {
        match spec_create_table(toks, i + 1) {
            Ok((c, j)) => Ok((StatementV::Create(c), j)),
            Err(e) => Err(e),
        }
    } else {
        Err(ParseErrorV::InvalidKeyword(toks[i].lexeme))
    }
}

/// The rest of a SELECT statement: a star or an expression list, FROM,
/// the source name, and an optional WHERE filter.
pub open spec fn spec_select(toks: Seq<TokenV>, i: int) -> Result<
    (SelectStatementV, int),
    ParseErrorV,
>
    decreases toks.len() - i, 28int,
{
    if i < 0 || i >= toks.len() {
        Err(ParseErrorV::NoInput)
    } else {
        let fields = if toks[i].typ == TokenType::ASTERISK {
            match spec_expect(toks, i + 1, TokenType::FROM) {
                Ok((_, j)) => Ok((Seq::<ExprV>::empty(), j)),
                Err(e) => Err(e),
            }
        } else {
            spec_select_fields(toks, i, Seq::empty())
        };
        match fields {
            Err(e) => Err(e),
            Ok((fs, j)) => if j >= toks.len() {
                Err(ParseErrorV::NoInput)
            } else {
                let from = toks[j].lexeme;
                let k = j + 1;
                if k >= toks.len() {
                    Err(ParseErrorV::NoInput)
                } else if toks[k].typ == TokenType::WHERE {
                    match spec_expression(toks, k + 1) {
                        Ok((f, m)) => Ok(
                            (SelectStatementV { from, fields: fs, filter: Some(f) }, m),
                        ),
                        Err(e) => Err(e),
                    }
                } else {
                    Ok((SelectStatementV { from, fields: fs, filter: None }, k))
                }
            },
        }
    }
}

/// The comma-separated projection list of a SELECT, ending at FROM.
pub open spec fn spec_select_fields(toks: Seq<TokenV>, i: int, acc: Seq<ExprV>) -> Result<
    (Seq<ExprV>, int),
    ParseErrorV,
>
    decreases toks.len() - i, 27int,
{
    match spec_expression(toks, i) {
        Err(e) => Err(e),
        Ok((e, j)) => if j >= toks.len() {
            Err(ParseErrorV::NoInput)
        } else if toks[j].typ == TokenType::FROM {
            Ok((acc.push(e), j + 1))
        } else if toks[j].typ == TokenType::COMMA {
            if j + 1 <= i {
                Err(ParseErrorV::NoInput)
            } else {
                spec_select_fields(toks, j + 1, acc.push(e))
            }
        } else {
            Err(ParseErrorV::InvalidKeyword(toks[j].lexeme))
        },
    }
}

/// The rest of a CREATE TABLE: the table name and its column list.
pub open spec fn spec_create_table(toks: Seq<TokenV>, i: int) -> Result<
    (CreateStatementV, int),
    ParseErrorV,
>
    decreases toks.len() - i, 28int,
{
    if i < 0 || i >= toks.len() {
        Err(ParseErrorV::NoInput)
    } else if toks[i].typ != TokenType::IDENTIFIER {
        Err(ParseErrorV::InvalidKeyword(toks[i].lexeme))
    } else {
        let name = toks[i].lexeme;
        match spec_expect(toks, i + 1, TokenType::OPENP) {
            Err(e) => Err(e),
            Ok((_, j)) => match spec_col_defs(toks, j, 0, Seq::empty()) {
                Err(e) => Err(e),
                Ok((cols, k)) => Ok((CreateStatementV::Table { name, cols }, k)),
            },
        }
    }
}

/// The comma-separated column definitions, ending at the closing
/// parenthesis.
pub open spec fn spec_col_defs(
    toks: Seq<TokenV>,
    i: int,
    pos: int,
    acc: Seq<ColumnDefinitionV>,
) -> Result<(Seq<ColumnDefinitionV>, int), ParseErrorV>
    decreases toks.len() - i, 27int,
{
    match spec_col_def(toks, i, pos) {
        Err(e) => Err(e),
        Ok((col, j)) => if j >= toks.len() {
            Err(ParseErrorV::NoInput)
        } else if toks[j].typ == TokenType::CLOSEP {
            Ok((acc.push(col), j + 1))
        } else if toks[j].typ == TokenType::COMMA {
            if j + 1 <= i {
                Err(ParseErrorV::NoInput)
            } else {
                spec_col_defs(toks, j + 1, pos + 1, acc.push(col))
            }
        } else {
            Err(ParseErrorV::InvalidKeyword(toks[j].lexeme))
        },
    }
}

/// One column definition: a name, INTEGER or TEXT, then constraints.
pub open spec fn spec_col_def(toks: Seq<TokenV>, i: int, pos: int) -> Result<
    (ColumnDefinitionV, int),
    ParseErrorV,
>
    decreases toks.len() - i, 26int,
{
    match spec_expect(toks, i, TokenType::IDENTIFIER) {
        Err(e) => Err(e),
        Ok((name_tok, j)) => if !(j < toks.len() && (toks[j].typ == TokenType::INTEGER || toks[j].typ
            == TokenType::TEXT)) {
            Err(ParseErrorV::CustomError("invalid column type (expected INTEGER or TEXT)"@))
        } else {
            let typ = if toks[j].typ == TokenType::INTEGER {
                ColType::INTEGER
            } else {
                ColType::TEXT
            };
            match spec_constraints(toks, j + 1, Seq::empty()) {
                Err(e) => Err(e),
                Ok((cs, k)) => Ok(
                    (
                        ColumnDefinitionV {
                            name: name_tok.lexeme,
                            position: pos,
                            typ,
                            constraint: cs,
                        },
                        k,
                    ),
                ),
            }
        },
    }
}

/// The run of column constraints at `i`.
pub open spec fn spec_constraints(toks: Seq<TokenV>, i: int, acc: Seq<ColumnConstraint>) -> Result<
    (Seq<ColumnConstraint>, int),
    ParseErrorV,
>
    decreases toks.len() - i, 25int,
{
    match spec_column_constraint(toks, i) {
        Err(e) => Err(e),
        Ok((None, j)) => Ok((acc, j)),
        Ok((Some(c), j)) => if j <= i || j > toks.len() {
            Err(ParseErrorV::NoInput)
        } else {
            spec_constraints(toks, j, acc.push(c))
        },
    }
}

/// One optional column constraint: PRIMARY KEY with its decorations,
/// NOT NULL, or UNIQUE, each with an optional conflict clause.
pub open spec fn spec_column_constraint(toks: Seq<TokenV>, i: int) -> Result<
    (Option<ColumnConstraint>, int),
    ParseErrorV,
>
    decreases toks.len() - i, 24int,
{
    if i < 0 || i >= toks.len() || !(toks[i].typ == TokenType::PRIMARY || toks[i].typ
        == TokenType::NOT || toks[i].typ == TokenType::UNIQUE) {
        Ok((None, i))
    } else if toks[i].typ == TokenType::PRIMARY {
        match spec_expect(toks, i + 1, TokenType::KEY) {
            Err(e) => Err(e),
            Ok((_, j)) => {
                let asc_parsed: (bool, int) = if j < toks.len() && (toks[j].typ == TokenType::ASC
                    || toks[j].typ == TokenType::DESC) {
                    (toks[j].typ == TokenType::ASC, j + 1)
                } else {
                    (true, j)
                };
                match spec_conflict_clause(toks, asc_parsed.1) {
                    Err(e) => Err(e),
                    Ok((conflict, k)) => {
                        let auto_parsed: (bool, int) = if k < toks.len() && toks[k].typ
                            == TokenType::AUTOINCREMENT {
                            (true, k + 1)
                        } else {
                            (false, k)
                        };
                        Ok(
                            (
                                Some(
                                    ColumnConstraint::Pk {
                                        asc: asc_parsed.0,
                                        autoinc: auto_parsed.0,
                                        conflict,
                                    },
                                ),
                                auto_parsed.1,
                            ),
                        )
                    },
                }
            },
        }
    } else if toks[i].typ == TokenType::NOT {
        match spec_expect(toks, i + 1, TokenType::NULL) {
            Err(e) => Err(e),
            Ok((_, j)) => match spec_conflict_clause(toks, j) {
                Err(e) => Err(e),
                Ok((conflict, k)) => Ok((Some(ColumnConstraint::NotNull(conflict)), k)),
            },
        }
    } else {
        match spec_conflict_clause(toks, i + 1) {
            Err(e) => Err(e),
            Ok((conflict, k)) => Ok((Some(ColumnConstraint::Unique(conflict)), k)),
        }
    }
}

/// An optional ON CONFLICT clause with its resolution word.
pub open spec fn spec_conflict_clause(toks: Seq<TokenV>, i: int) -> Result<
    (Option<ConflictClause>, int),
    ParseErrorV,
> {
    if i < 0 || i >= toks.len() || toks[i].typ != TokenType::ON {
        Ok((None, i))
    } else {
        match spec_expect(toks, i + 1, TokenType::CONFLICT) {
            Err(e) => Err(e),
            Ok((_, j)) => if j < toks.len() && toks[j].typ == TokenType::ROLLBACK {
                Ok((Some(ConflictClause::Rollback), j + 1))
            } else if j < toks.len() && toks[j].typ == TokenType::ABORT {
                Ok((Some(ConflictClause::Abort), j + 1))
            } else if j < toks.len() && toks[j].typ == TokenType::FAIL {
                Ok((Some(ConflictClause::Fail), j + 1))
            } else if j < toks.len() && toks[j].typ == TokenType::IGNORE {
                Ok((Some(ConflictClause::Ignore), j + 1))
            } else if j < toks.len() && toks[j].typ == TokenType::REPLACE {
                Ok((Some(ConflictClause::Replace), j + 1))
            } else {
                Ok((None, j))
            },
        }
    }
}

/// A full expression: the lowest rung of the precedence ladder.
pub open spec fn spec_expression(toks: Seq<TokenV>, i: int) -> Result<(ExprV, int), ParseErrorV>
    decreases toks.len() - i, 20int,
{
    spec_logic_or(toks, i)
}

/// OR-chains over AND-level expressions.
pub open spec fn spec_logic_or(toks: Seq<TokenV>, i: int) -> Result<(ExprV, int), ParseErrorV>
    decreases toks.len() - i, 19int,
{
    match spec_logic_and(toks, i) {
        Err(e) => Err(e),
        Ok((left, j)) => if j < i || j > toks.len() {
            Err(ParseErrorV::NoInput)
        } else {
            spec_or_chain(toks, j, left)
        },
    }
}

/// The OR continuations after a parsed left operand.
pub open spec fn spec_or_chain(toks: Seq<TokenV>, i: int, left: ExprV) -> Result<
    (ExprV, int),
    ParseErrorV,
>
    decreases toks.len() - i, 18int,
{
    if 0 <= i < toks.len() && toks[i].typ == TokenType::OR {
        match spec_logic_and(toks, i + 1) {
            Err(e) => Err(e),
            Ok((right, j)) => if j <= i || j > toks.len() {
                Err(ParseErrorV::NoInput)
            } else {
                spec_or_chain(
                    toks,
                    j,
                    ExprV::Binary {
                        left: Box::new(left),
                        right: Box::new(right),
                        operator: Operator::Or,
                    },
                )
            },
        }
    } else {
        Ok((left, i))
    }
}

/// AND-chains over equality-level expressions.
pub open spec fn spec_logic_and(toks: Seq<TokenV>, i: int) -> Result<(ExprV, int), ParseErrorV>
    decreases toks.len() - i, 17int,
{
    match spec_equality(toks, i) {
        Err(e) => Err(e),
        Ok((left, j)) => if j < i || j > toks.len() {
            Err(ParseErrorV::NoInput)
        } else {
            spec_and_chain(toks, j, left)
        },
    }
}

/// The AND continuations after a parsed left operand.
pub open spec fn spec_and_chain(toks: Seq<TokenV>, i: int, left: ExprV) -> Result<
    (ExprV, int),
    ParseErrorV,
>
    decreases toks.len() - i, 16int,
{
    if 0 <= i < toks.len() && toks[i].typ == TokenType::AND {
        match spec_equality(toks, i + 1) {
            Err(e) => Err(e),
            Ok((right, j)) => if j <= i || j > toks.len() {
                Err(ParseErrorV::NoInput)
            } else {
                spec_and_chain(
                    toks,
                    j,
                    ExprV::Binary {
                        left: Box::new(left),
                        right: Box::new(right),
                        operator: Operator::And,
                    },
                )
            },
        }
    } else {
        Ok((left, i))
    }
}

/// The operator an equality token denotes.
pub open spec fn spec_eq_op(t: TokenType) -> Operator {
    if t == TokenType::EQUALS {
        Operator::Equals
    } else {
        Operator::Notequals
    }
}

/// Equality chains over comparison-level expressions.
pub open spec fn spec_equality(toks: Seq<TokenV>, i: int) -> Result<(ExprV, int), ParseErrorV>
    decreases toks.len() - i, 15int,
{
    match spec_comparison(toks, i) {
        Err(e) => Err(e),
        Ok((left, j)) => if j < i || j > toks.len() {
            Err(ParseErrorV::NoInput)
        } else {
            spec_eq_chain(toks, j, left)
        },
    }
}

/// The equality continuations after a parsed left operand.
pub open spec fn spec_eq_chain(toks: Seq<TokenV>, i: int, left: ExprV) -> Result<
    (ExprV, int),
    ParseErrorV,
>
    decreases toks.len() - i, 14int,
{
    if 0 <= i < toks.len() && (toks[i].typ == TokenType::EQUALS || toks[i].typ
        == TokenType::NOTEQUALS) {
        match spec_comparison(toks, i + 1) {
            Err(e) => Err(e),
            Ok((right, j)) => if j <= i || j > toks.len() {
                Err(ParseErrorV::NoInput)
            } else {
                spec_eq_chain(
                    toks,
                    j,
                    ExprV::Binary {
                        left: Box::new(left),
                        right: Box::new(right),
                        operator: spec_eq_op(toks[i].typ),
                    },
                )
            },
        }
    } else {
        Ok((left, i))
    }
}

/// The operator a comparison token denotes.
pub open spec fn spec_cmp_op(t: TokenType) -> Operator {
    if t == TokenType::LESS {
        Operator::Less
    } else if t == TokenType::LESSEQ {
        Operator::LessEq
    } else if t == TokenType::GREATER {
        Operator::Greater
    } else {
        Operator::GreaterEq
    }
}

/// Comparison chains over additive expressions.
pub open spec fn spec_comparison(toks: Seq<TokenV>, i: int) -> Result<(ExprV, int), ParseErrorV>
    decreases toks.len() - i, 13int,
{
    match spec_term(toks, i) {
        Err(e) => Err(e),
        Ok((left, j)) => if j < i || j > toks.len() {
            Err(ParseErrorV::NoInput)
        } else {
            spec_cmp_chain(toks, j, left)
        },
    }
}

/// The comparison continuations after a parsed left operand.
pub open spec fn spec_cmp_chain(toks: Seq<TokenV>, i: int, left: ExprV) -> Result<
    (ExprV, int),
    ParseErrorV,
>
    decreases toks.len() - i, 12int,
{
    if 0 <= i < toks.len() && (toks[i].typ == TokenType::LESS || toks[i].typ == TokenType::LESSEQ
        || toks[i].typ == TokenType::GREATER || toks[i].typ == TokenType::GREATEREQ) {
        match spec_term(toks, i + 1) {
            Err(e) => Err(e),
            Ok((right, j)) => if j <= i || j > toks.len() {
                Err(ParseErrorV::NoInput)
            } else {
                spec_cmp_chain(
                    toks,
                    j,
                    ExprV::Binary {
                        left: Box::new(left),
                        right: Box::new(right),
                        operator: spec_cmp_op(toks[i].typ),
                    },
                )
            },
        }
    } else {
        Ok((left, i))
    }
}

/// The operator an additive token denotes.
pub open spec fn spec_add_op(t: TokenType) -> Operator {
    if t == TokenType::PLUS {
        Operator::Plus
    } else {
        Operator::Minus
    }
}

/// Additive chains over multiplicative expressions.
pub open spec fn spec_term(toks: Seq<TokenV>, i: int) -> Result<(ExprV, int), ParseErrorV>
    decreases toks.len() - i, 11int,
{
    match spec_factor(toks, i) {
        Err(e) => Err(e),
        Ok((left, j)) => if j < i || j > toks.len() {
            Err(ParseErrorV::NoInput)
        } else {
            spec_term_chain(toks, j, left)
        },
    }
}

/// The additive continuations after a parsed left operand.
pub open spec fn spec_term_chain(toks: Seq<TokenV>, i: int, left: ExprV) -> Result<
    (ExprV, int),
    ParseErrorV,
>
    decreases toks.len() - i, 10int,
{
    if 0 <= i < toks.len() && (toks[i].typ == TokenType::PLUS || toks[i].typ == TokenType::MINUS) {
        match spec_factor(toks, i + 1) {
            Err(e) => Err(e),
            Ok((right, j)) => if j <= i || j > toks.len() {
                Err(ParseErrorV::NoInput)
            } else {
                spec_term_chain(
                    toks,
                    j,
                    ExprV::Binary {
                        left: Box::new(left),
                        right: Box::new(right),
                        operator: spec_add_op(toks[i].typ),
                    },
                )
            },
        }
    } else {
        Ok((left, i))
    }
}

/// The operator a multiplicative token denotes.
pub open spec fn spec_mul_op(t: TokenType) -> Operator {
    if t == TokenType::SLASH {
        Operator::Slash
    } else {
        Operator::Asterisk
    }
}

/// Multiplicative chains over unary expressions.
pub open spec fn spec_factor(toks: Seq<TokenV>, i: int) -> Result<(ExprV, int), ParseErrorV>
    decreases toks.len() - i, 9int,
{
    match spec_unary(toks, i) {
        Err(e) => Err(e),
        Ok((left, j)) => if j < i || j > toks.len() {
            Err(ParseErrorV::NoInput)
        } else {
            spec_factor_chain(toks, j, left)
        },
    }
}

/// The multiplicative continuations after a parsed left operand.
pub open spec fn spec_factor_chain(toks: Seq<TokenV>, i: int, left: ExprV) -> Result<
    (ExprV, int),
    ParseErrorV,
>
    decreases toks.len() - i, 8int,
{
    if 0 <= i < toks.len() && (toks[i].typ == TokenType::SLASH || toks[i].typ
        == TokenType::ASTERISK) {
        match spec_unary(toks, i + 1) {
            Err(e) => Err(e),
            Ok((right, j)) => if j <= i || j > toks.len() {
                Err(ParseErrorV::NoInput)
            } else {
                spec_factor_chain(
                    toks,
                    j,
                    ExprV::Binary {
                        left: Box::new(left),
                        right: Box::new(right),
                        operator: spec_mul_op(toks[i].typ),
                    },
                )
            },
        }
    } else {
        Ok((left, i))
    }
}

/// A unary expression: bang or minus applied to a unary expression, or a
/// call expression.
pub open spec fn spec_unary(toks: Seq<TokenV>, i: int) -> Result<(ExprV, int), ParseErrorV>
    decreases toks.len() - i, 7int,
{
    if 0 <= i < toks.len() && (toks[i].typ == TokenType::BANG || toks[i].typ == TokenType::MINUS) {
        let op = if toks[i].typ == TokenType::MINUS {
            Operator::Minus
        } else {
            Operator::Bang
        };
        match spec_unary(toks, i + 1) {
            Err(e) => Err(e),
            Ok((inner, j)) => Ok((ExprV::Unary { operator: op, expr: Box::new(inner) }, j)),
        }
    } else {
        spec_call(toks, i)
    }
}

/// A call expression: a primary followed by parenthesized argument lists.
pub open spec fn spec_call(toks: Seq<TokenV>, i: int) -> Result<(ExprV, int), ParseErrorV>
    decreases toks.len() - i, 6int,
{
    match spec_primary(toks, i) {
        Err(e) => Err(e),
        Ok((e, j)) => if j <= i || j > toks.len() {
            Err(ParseErrorV::NoInput)
        } else {
            spec_call_chain(toks, j, e)
        },
    }
}

/// The call continuations after a parsed callee.
pub open spec fn spec_call_chain(toks: Seq<TokenV>, i: int, callee: ExprV) -> Result<
    (ExprV, int),
    ParseErrorV,
>
    decreases toks.len() - i, 5int,
{
    if 0 <= i < toks.len() && toks[i].typ == TokenType::OPENP {
        match spec_finish_call(toks, i + 1, callee) {
            Err(e) => Err(e),
            Ok((e, j)) => if j <= i || j > toks.len() {
                Err(ParseErrorV::NoInput)
            } else {
                spec_call_chain(toks, j, e)
            },
        }
    } else {
        Ok((callee, i))
    }
}

/// The argument list of a call after its opening parenthesis: only an
/// identifier can be called, with a star or comma-separated expressions.
pub open spec fn spec_finish_call(toks: Seq<TokenV>, i: int, callee: ExprV) -> Result<
    (ExprV, int),
    ParseErrorV,
>
    decreases toks.len() - i, 22int,
{
    if callee matches ExprV::Identifier { value } {
        if i < 0 || i >= toks.len() {
            Err(ParseErrorV::NoInput)
        } else if toks[i].typ == TokenType::ASTERISK {
            match spec_expect(toks, i + 1, TokenType::CLOSEP) {
                Err(e) => Err(e),
                Ok((_, j)) => Ok(
                    (ExprV::Function { name: callee->Identifier_value, args: FunctionArgV::Star }, j),
                ),
            }
        } else {
            match spec_call_args(toks, i, Seq::empty()) {
                Err(e) => Err(e),
                Ok((args, j)) => match spec_expect(toks, j, TokenType::CLOSEP) {
                    Err(e) => Err(e),
                    Ok((_, k)) => Ok(
                        (
                            ExprV::Function {
                                name: callee->Identifier_value,
                                args: FunctionArgV::Args(args),
                            },
                            k,
                        ),
                    ),
                },
            }
        }
    } else {
        match spec_expect(toks, i, TokenType::CLOSEP) {
            Err(e) => Err(e),
            Ok(_) => Err(ParseErrorV::CustomError("function name cannot be expression"@)),
        }
    }
}

/// The comma-separated call arguments, stopping before the token that is
/// not a comma.
pub open spec fn spec_call_args(toks: Seq<TokenV>, i: int, acc: Seq<ExprV>) -> Result<
    (Seq<ExprV>, int),
    ParseErrorV,
>
    decreases toks.len() - i, 21int,
{
    match spec_expression(toks, i) {
        Err(e) => Err(e),
        Ok((e, j)) => if 0 <= j < toks.len() && toks[j].typ == TokenType::COMMA {
            if j + 1 <= i {
                Err(ParseErrorV::NoInput)
            } else {
                spec_call_args(toks, j + 1, acc.push(e))
            }
        } else {
            Ok((acc.push(e), j))
        },
    }
}

/// A primary expression: an identifier, a literal, or a parenthesized
/// expression. A numeric literal with a decimal point is refused: the
/// engine does not evaluate floating-point literals.
pub open spec fn spec_primary(toks: Seq<TokenV>, i: int) -> Result<(ExprV, int), ParseErrorV>
    decreases toks.len() - i, 2int,
{
    if i < 0 || i >= toks.len() {
        Err(ParseErrorV::NoInput)
    } else if toks[i].typ == TokenType::IDENTIFIER {
        Ok((ExprV::Identifier { value: toks[i].lexeme }, i + 1))
    } else if toks[i].typ == TokenType::TRUE {
        Ok((ExprV::Literal { value: DbValueV::Bool(true) }, i + 1))
    } else if toks[i].typ == TokenType::FALSE {
        Ok((ExprV::Literal { value: DbValueV::Bool(false) }, i + 1))
    } else if toks[i].typ == TokenType::NULL {
        Ok((ExprV::Literal { value: DbValueV::Null }, i + 1))
    } else if toks[i].typ == TokenType::NUMBER {
        if crate::lexer::spec_find(toks[i].lexeme, 0, 46) < toks[i].lexeme.len() {
            Err(ParseErrorV::CustomError("floating-point literals are not supported"@))
        } else {
            match spec_parse_i64(toks[i].lexeme) {
                Some(v) => Ok((ExprV::Literal { value: DbValueV::Integer(v) }, i + 1)),
                None => Err(ParseErrorV::CustomError("could not parse number into i64"@)),
            }
        }
    } else if toks[i].typ == TokenType::STRING {
        Ok((ExprV::Literal { value: DbValueV::Text(toks[i].lexeme) }, i + 1))
    } else if toks[i].typ == TokenType::OPENP {
        match spec_expression(toks, i + 1) {
            Err(e) => Err(e),
            Ok((e, j)) => match spec_expect(toks, j, TokenType::CLOSEP) {
                Err(e2) => Err(e2),
                Ok((_, k)) => Ok((ExprV::Grouping { expr: Box::new(e) }, k)),
            },
        }
    } else {
        Err(ParseErrorV::InvalidKeyword(toks[i].lexeme))
    }
}

/// The statement list of a whole input: statements separated by
/// semicolons, ending at the end-of-input token. A failed statement
/// stops parsing; the statements already parsed stand.
pub open spec fn spec_stmt_list(toks: Seq<TokenV>, i: int, acc: Seq<StatementV>) -> (
    Seq<StatementV>,
    Option<ParseErrorV>,
)
    decreases toks.len() - i,
{
    if i < 0 || i >= toks.len() || toks[i].typ == TokenType::EOF {
        (acc, None)
    } else {
        match spec_statement(toks, i) {
            Err(e) => (acc, Some(e)),
            Ok((stmt, j)) => if j >= toks.len() {
                (acc, Some(ParseErrorV::CustomError("invalid statement termination"@)))
            } else if toks[j].typ == TokenType::SEMICOLON {
                if j + 1 <= i {
                    (acc, Some(ParseErrorV::NoInput))
                } else {
                    spec_stmt_list(toks, j + 1, acc.push(stmt))
                }
            } else if toks[j].typ == TokenType::EOF {
                (acc.push(stmt), None)
            } else {
                (
                    acc,
                    Some(
                        ParseErrorV::CustomError("invalid statement terminating character"@),
                    ),
                )
            },
        }
    }
}

/// What parsing a whole SQL text yields: the lexed tokens run through
/// the statement list.
pub open spec fn spec_parse_sql(s: Seq<u8>) -> Result<
    (Seq<StatementV>, Option<ParseErrorV>),
    LexError,
> {
    match spec_lex(s, 0) {
        Err(e) => Err(e),
        Ok(toks) => Ok(spec_stmt_list(toks, 0, Seq::empty())),
    }
}


/// The recursive-descent parser state: the token stream and a cursor.
#[derive(Debug)]
pub struct Parser<'a> {
    pub tokens: &'a [Token],
    pub idx: usize,
}

impl<'a> Parser<'a> {
    /// The shapes of the tokens being parsed.
    pub open spec fn toks(&self) -> Seq<TokenV> {
        Seq::new(self.tokens@.len(), |i: int| self.tokens@[i]@)
    }

    /// The cursor never passes the end of the stream.
    pub open spec fn wf(&self) -> bool {
        self.idx <= self.tokens@.len()
    }

    /// A parser at the start of a token stream.
    pub fn new(tokens: &'a [Token]) -> (r: Self)
        ensures
            r.tokens == tokens,
            r.idx == 0,
            r.wf(),
    {
        Self { tokens, idx: 0 }
    }

    /// The next token, consumed.
    pub fn step(&mut self) -> (r: Option<&'a Token>)
        requires
            old(self).wf(),
        ensures
            final(self).wf(),
            final(self).tokens == old(self).tokens,
            match r {
                Some(t) => old(self).idx < old(self).tokens@.len() && t@ == old(self).toks()[
                    old(self).idx as int
                ] && final(self).idx == old(self).idx + 1,
                None => old(self).idx >= old(self).tokens@.len() && final(self).idx == old(self).idx,
            },
    {
        if self.idx < self.tokens.len() {
            let t = &self.tokens[self.idx];
            self.bump();
            Some(t)
        } else {
            None
        }
    }

    /// Advances past the token the caller has already examined.
    fn bump(&mut self)
        requires
            old(self).wf(),
            old(self).idx < old(self).tokens@.len(),
        ensures
            final(self).wf(),
            final(self).tokens == old(self).tokens,
            final(self).idx == old(self).idx + 1,
    {
        let n = self.tokens.len();
        self.idx = self.idx + 1;
    }

    /// The next token, left in place.
    pub fn peek(&self) -> (r: Option<&'a Token>)
        ensures
            match r {
                Some(t) => self.idx < self.tokens@.len() && t@ == self.toks()[self.idx as int],
                None => self.idx >= self.tokens@.len(),
            },
    {
        if self.idx < self.tokens.len() {
            Some(&self.tokens[self.idx])
        } else {
            None
        }
    }

    /// Demands the next token to be of class `typ` and consumes it.
    pub fn expect(&mut self, typ: TokenType) -> (r: Result<&'a Token, ParseError>)
        requires
            old(self).wf(),
        ensures
            final(self).wf(),
            final(self).tokens == old(self).tokens,
            match r {
                Ok(t) => spec_expect(old(self).toks(), old(self).idx as int, typ) matches Ok(p)
                    && p.0 == t@ && p.1 == final(self).idx as int && final(self).idx == old(self).idx + 1,
                Err(pe) => spec_expect(old(self).toks(), old(self).idx as int, typ) == Err::<
                    (TokenV, int),
                    ParseErrorV,
                >(pe@),
            },
    {
        match self.step() {
            Some(tok) => {
                if tok.typ == typ {
                    Ok(tok)
                } else {
                    Err(ParseError::ExpectedToken(typ))
                }
            },
            None => Err(ParseError::ExpectedToken(typ)),
        }
    }

    /// One statement: CREATE or SELECT.
    #[verifier::rlimit(80)]
    #[verifier::spinoff_prover]
    pub fn statement(&mut self) -> (r: Result<Statement, ParseError>)
        requires
            old(self).wf(),
        ensures
            final(self).wf(),
            final(self).tokens == old(self).tokens,
            match r {
                Ok(s) => spec_statement(old(self).toks(), old(self).idx as int) matches Ok(p)
                    && p.0 == s@ && p.1 == final(self).idx as int && old(self).idx < final(self).idx,
                Err(pe) => spec_statement(old(self).toks(), old(self).idx as int) == Err::<
                    (StatementV, int),
                    ParseErrorV,
                >(pe@),
            },
        decreases old(self).tokens@.len() - old(self).idx, 30int,
    {
        let first = match self.step() {
            Some(t) => t,
            None => {
                return Err(ParseError::NoInput);
            },
        };
        match first.typ {
            TokenType::CREATE => self.create(),
            TokenType::SELECT => match self.select() {
                Ok(sel) => Ok(Statement::Select(sel)),
                Err(e) => Err(e),
            },
            _ => Err(ParseError::InvalidKeyword(crate::util::clone_bytes(&first.lexeme))),
        }
    }

    /// The rest of a CREATE statement.
    #[verifier::rlimit(80)]
    #[verifier::spinoff_prover]
    pub fn create(&mut self) -> (r: Result<Statement, ParseError>)
        requires
            old(self).wf(),
        ensures
            final(self).wf(),
            final(self).tokens == old(self).tokens,
            match r {
                Ok(s) => spec_create(old(self).toks(), old(self).idx as int) matches Ok(p) && p.0
                    == s@ && p.1 == final(self).idx as int && old(self).idx < final(self).idx,
                Err(pe) => spec_create(old(self).toks(), old(self).idx as int) == Err::<
                    (StatementV, int),
                    ParseErrorV,
                >(pe@),
            },
        decreases old(self).tokens@.len() - old(self).idx, 29int,
    {
        let first = match self.step() {
            Some(t) => t,
            None => {
                return Err(ParseError::NoInput);
            },
        };
        match first.typ {
            TokenType::TABLE => match self.create_table() {
                Ok(c) => Ok(Statement::Create(c)),
                Err(e) => Err(e),
            },
            _ => Err(ParseError::InvalidKeyword(crate::util::clone_bytes(&first.lexeme))),
        }
    }

    /// The rest of a SELECT statement: fields, FROM, the source name,
    /// and an optional WHERE filter.
    #[verifier::rlimit(80)]
    #[verifier::spinoff_prover]
    pub fn select(&mut self) -> (r: Result<SelectStatement, ParseError>)
        requires
            old(self).wf(),
        ensures
            final(self).wf(),
            final(self).tokens == old(self).tokens,
            match r {
                Ok(s) => spec_select(old(self).toks(), old(self).idx as int) matches Ok(p) && p.0
                    == s@ && p.1 == final(self).idx as int && old(self).idx < final(self).idx,
                Err(pe) => spec_select(old(self).toks(), old(self).idx as int) == Err::<
                    (SelectStatementV, int),
                    ParseErrorV,
                >(pe@),
            },
        decreases old(self).tokens@.len() - old(self).idx, 28int,
    {
        let ghost t = self.toks();
        let ghost i0 = self.idx as int;
        let toks0 = self.tokens;
        let mut fields: Vec<Expr> = Vec::new();
        proof {
            assert(fields.deep_view() =~= Seq::<ExprV>::empty());
        }
        let p0 = match self.peek() {
            Some(tok) => tok,
            None => {
                return Err(ParseError::NoInput);
            },
        };
        if p0.typ == TokenType::ASTERISK {
            self.bump();
            match self.expect(TokenType::FROM) {
                Ok(_) => {
                },
                Err(e) => {
                    return Err(e);
                },
            }
        } else {
            match self.select_fields(&mut fields) {
                Ok(u) => u,
                Err(e) => {
                    return Err(e);
                },
            }
        }
        let from_tok = match self.step() {
            Some(tok) => tok,
            None => {
                return Err(ParseError::NoInput);
            },
        };
        let from = crate::util::clone_bytes(&from_tok.lexeme);
        let pk = match self.peek() {
            Some(tok) => tok,
            None => {
                return Err(ParseError::NoInput);
            },
        };
        let filter = if pk.typ == TokenType::WHERE {
            self.bump();
            match self.expression() {
                Ok(e) => Some(e),
                Err(err) => {
                    return Err(err);
                },
            }
        } else {
            None
        };
        Ok(SelectStatement { from, fields, filter })
    }

    /// Parses the comma-separated projection list into `fields`,
    /// consuming the FROM that ends it.
    #[verifier::rlimit(80)]
    #[verifier::spinoff_prover]
    fn select_fields(&mut self, fields: &mut Vec<Expr>) -> (r: Result<(), ParseError>)
        requires
            old(self).wf(),
        ensures
            final(self).wf(),
            final(self).tokens == old(self).tokens,
            match r {
                Ok(u) => spec_select_fields(
                    old(self).toks(),
                    old(self).idx as int,
                    old(fields).deep_view(),
                ) matches Ok(p) && p.0 == final(fields).deep_view() && p.1 == final(self).idx as int
                    && old(self).idx < final(self).idx,
                Err(pe) => spec_select_fields(
                    old(self).toks(),
                    old(self).idx as int,
                    old(fields).deep_view(),
                ) == Err::<(Seq<ExprV>, int), ParseErrorV>(pe@),
            },
        decreases old(self).tokens@.len() - old(self).idx, 27int,
    {
        let e = match self.expression() {
            Ok(e) => e,
            Err(err) => {
                return Err(err);
            },
        };
        let nxt = match self.step() {
            Some(tok) => tok,
            None => {
                return Err(ParseError::NoInput);
            },
        };
        let ghost prev = fields.deep_view();
        if nxt.typ == TokenType::FROM {
            fields.push(e);
            proof {
                assert(fields.deep_view() =~= prev.push(fields@.last().deep_view()));
            }
            Ok(())
        } else if nxt.typ == TokenType::COMMA {
            fields.push(e);
            proof {
                assert(fields.deep_view() =~= prev.push(fields@.last().deep_view()));
            }
            self.select_fields(fields)
        } else {
            Err(ParseError::InvalidKeyword(crate::util::clone_bytes(&nxt.lexeme)))
        }
    }

    /// The rest of a CREATE TABLE: name and column list.
    #[verifier::rlimit(80)]
    #[verifier::spinoff_prover]
    pub fn create_table(&mut self) -> (r: Result<CreateStatement, ParseError>)
        requires
            old(self).wf(),
        ensures
            final(self).wf(),
            final(self).tokens == old(self).tokens,
            match r {
                Ok(s) => spec_create_table(old(self).toks(), old(self).idx as int) matches Ok(p)
                    && p.0 == s@ && p.1 == final(self).idx as int && old(self).idx < final(self).idx,
                Err(pe) => spec_create_table(old(self).toks(), old(self).idx as int) == Err::<
                    (CreateStatementV, int),
                    ParseErrorV,
                >(pe@),
            },
        decreases old(self).tokens@.len() - old(self).idx, 28int,
    {
        let ghost t = self.toks();
        let ghost i0 = self.idx as int;
        let toks0 = self.tokens;
        let name_tok = match self.step() {
            Some(tok) => tok,
            None => {
                return Err(ParseError::NoInput);
            },
        };
        if name_tok.typ != TokenType::IDENTIFIER {
            return Err(ParseError::InvalidKeyword(crate::util::clone_bytes(&name_tok.lexeme)));
        }
        let name = crate::util::clone_bytes(&name_tok.lexeme);
        let ghost namev = name_tok.lexeme@;
        match self.expect(TokenType::OPENP) {
            Ok(_) => {
            },
            Err(e) => {
                return Err(e);
            },
        }
        let ghost j0 = self.idx as int;
        let mut cols: Vec<ColumnDefinition> = Vec::new();
        let mut pos: usize = 0;
        proof {
            assert(cols.deep_view() =~= Seq::<ColumnDefinitionV>::empty());
        }
        loop
            invariant_except_break
                self.wf(),
                self.tokens == toks0,
                toks0 == old(self).tokens,
                i0 == old(self).idx as int,
                t == self.toks(),
                j0 <= self.idx as int <= self.tokens@.len(),
                pos == cols@.len(),
                pos <= self.idx,
                match spec_col_defs(t, self.idx as int, pos as int, cols.deep_view()) {
                    Ok(p) => spec_col_defs(t, j0, 0, Seq::empty()) == Ok::<
                        (Seq<ColumnDefinitionV>, int),
                        ParseErrorV,
                    >(p),
                    Err(pe) => spec_col_defs(t, j0, 0, Seq::empty()) == Err::<
                        (Seq<ColumnDefinitionV>, int),
                        ParseErrorV,
                    >(pe),
                },
                match spec_col_defs(t, j0, 0, Seq::empty()) {
                    Ok(p) => spec_create_table(t, i0) == Ok::<(CreateStatementV, int), ParseErrorV>(
                        (CreateStatementV::Table { name: namev, cols: p.0 }, p.1),
                    ),
                    Err(pe) => spec_create_table(t, i0) == Err::<
                        (CreateStatementV, int),
                        ParseErrorV,
                    >(pe),
                },
            ensures
                self.wf(),
                self.tokens == toks0,
                toks0 == old(self).tokens,
                i0 == old(self).idx as int,
                t == self.toks(),
                j0 < self.idx as int,
                spec_col_defs(t, j0, 0, Seq::empty()) == Ok::<
                    (Seq<ColumnDefinitionV>, int),
                    ParseErrorV,
                >((cols.deep_view(), self.idx as int)),
            decreases self.tokens@.len() - self.idx,
        {
            let col = match self.col_def(pos) {
                Ok(c) => c,
                Err(e) => {
                    return Err(e);
                },
            };
            let nxt = match self.step() {
                Some(tok) => tok,
                None => {
                    return Err(ParseError::NoInput);
                },
            };
            let ghost prev = cols.deep_view();
            if nxt.typ == TokenType::CLOSEP {
                cols.push(col);
                proof {
                    assert(cols.deep_view() =~= prev.push(cols@.last().deep_view()));
                }
                break ;
            } else if nxt.typ == TokenType::COMMA {
                cols.push(col);
                pos = pos + 1;
                proof {
                    assert(cols.deep_view() =~= prev.push(cols@.last().deep_view()));
                }
            } else {
                return Err(ParseError::InvalidKeyword(crate::util::clone_bytes(&nxt.lexeme)));
            }
        }
        Ok(CreateStatement::Table { name, cols })
    }

    /// One column definition at ordinal `pos`.
    #[verifier::rlimit(80)]
    #[verifier::spinoff_prover]
    pub fn col_def(&mut self, pos: usize) -> (r: Result<ColumnDefinition, ParseError>)
        requires
            old(self).wf(),
        ensures
            final(self).wf(),
            final(self).tokens == old(self).tokens,
            match r {
                Ok(c) => spec_col_def(old(self).toks(), old(self).idx as int, pos as int)
                    matches Ok(p) && p.0 == c@ && p.1 == final(self).idx as int && old(self).idx
                    < final(self).idx,
                Err(pe) => spec_col_def(old(self).toks(), old(self).idx as int, pos as int)
                    == Err::<(ColumnDefinitionV, int), ParseErrorV>(pe@),
            },
        decreases old(self).tokens@.len() - old(self).idx, 26int,
    {
        let ghost t = self.toks();
        let ghost i0 = self.idx as int;
        let toks0 = self.tokens;
        let name_tok = match self.expect(TokenType::IDENTIFIER) {
            Ok(tok) => tok,
            Err(e) => {
                return Err(e);
            },
        };
        let name = crate::util::clone_bytes(&name_tok.lexeme);
        let tk = match self.peek() {
            Some(tok) => tok,
            None => {
                return Err(ParseError::CustomError(
                    "invalid column type (expected INTEGER or TEXT)",
                ));
            },
        };
        let typ = if tk.typ == TokenType::INTEGER {
            self.bump();
            ColType::INTEGER
        } else if tk.typ == TokenType::TEXT {
            self.bump();
            ColType::TEXT
        } else {
            return Err(ParseError::CustomError("invalid column type (expected INTEGER or TEXT)"));
        };
        let ghost j0 = self.idx as int;
        let ghost namev = name_tok.lexeme@;
        let ghost typv = typ;
        let mut constraint: Vec<ColumnConstraint> = Vec::new();
        loop
            invariant_except_break
                self.wf(),
                self.tokens == toks0,
                toks0 == old(self).tokens,
                i0 == old(self).idx as int,
                t == self.toks(),
                j0 <= self.idx as int <= self.tokens@.len(),
                match spec_constraints(t, self.idx as int, constraint@) {
                    Ok(p) => spec_constraints(t, j0, Seq::empty()) == Ok::<
                        (Seq<ColumnConstraint>, int),
                        ParseErrorV,
                    >(p),
                    Err(pe) => spec_constraints(t, j0, Seq::empty()) == Err::<
                        (Seq<ColumnConstraint>, int),
                        ParseErrorV,
                    >(pe),
                },
                match spec_constraints(t, j0, Seq::empty()) {
                    Ok(p) => spec_col_def(t, i0, pos as int) == Ok::<
                        (ColumnDefinitionV, int),
                        ParseErrorV,
                    >(
                        (
                            ColumnDefinitionV {
                                name: namev,
                                position: pos as int,
                                typ: typv,
                                constraint: p.0,
                            },
                            p.1,
                        ),
                    ),
                    Err(pe) => spec_col_def(t, i0, pos as int) == Err::<
                        (ColumnDefinitionV, int),
                        ParseErrorV,
                    >(pe),
                },
            ensures
                self.wf(),
                self.tokens == toks0,
                toks0 == old(self).tokens,
                i0 == old(self).idx as int,
                t == self.toks(),
                j0 <= self.idx as int,
                spec_constraints(t, j0, Seq::empty()) == Ok::<
                    (Seq<ColumnConstraint>, int),
                    ParseErrorV,
                >((constraint@, self.idx as int)),
            decreases self.tokens@.len() - self.idx,
        {
            match self.column_constraint() {
                Ok(Some(c)) => {
                    let ghost prev = constraint@;
                    constraint.push(c);
                    proof {
                        assert(constraint@ =~= prev.push(c));
                    }
                },
                Ok(None) => {
                    break ;
                },
                Err(e) => {
                    return Err(e);
                },
            }
        }
        Ok(ColumnDefinition { name, position: pos, typ, constraint })
    }

    /// One optional column constraint.
    #[verifier::rlimit(80)]
    #[verifier::spinoff_prover]
    pub fn column_constraint(&mut self) -> (r: Result<Option<ColumnConstraint>, ParseError>)
        requires
            old(self).wf(),
        ensures
            final(self).wf(),
            final(self).tokens == old(self).tokens,
            match r {
                Ok(o) => spec_column_constraint(old(self).toks(), old(self).idx as int)
                    matches Ok(p) && p.0 == o && p.1 == final(self).idx as int && (o is Some
                    ==> old(self).idx < final(self).idx) && (o is None ==> final(self).idx == old(self).idx),
                Err(pe) => spec_column_constraint(old(self).toks(), old(self).idx as int) == Err::<
                    (Option<ColumnConstraint>, int),
                    ParseErrorV,
                >(pe@),
            },
        decreases old(self).tokens@.len() - old(self).idx, 24int,
    {
        let pk = match self.peek() {
            Some(tok) => tok,
            None => {
                return Ok(None);
            },
        };
        if pk.typ == TokenType::PRIMARY {
            self.bump();
            match self.expect(TokenType::KEY) {
                Ok(_) => {
                },
                Err(e) => {
                    return Err(e);
                },
            }
            let mut asc = true;
            match self.peek() {
                Some(tok) => {
                    if tok.typ == TokenType::ASC || tok.typ == TokenType::DESC {
                        asc = tok.typ == TokenType::ASC;
                        self.bump();
                    }
                },
                None => {
                },
            }
            let conflict = match self.conflict_clause() {
                Ok(c) => c,
                Err(e) => {
                    return Err(e);
                },
            };
            let mut autoinc = false;
            match self.peek() {
                Some(tok) => {
                    if tok.typ == TokenType::AUTOINCREMENT {
                        autoinc = true;
                        self.bump();
                    }
                },
                None => {
                },
            }
            Ok(Some(ColumnConstraint::Pk { asc, autoinc, conflict }))
        } else if pk.typ == TokenType::NOT {
            self.bump();
            match self.expect(TokenType::NULL) {
                Ok(_) => {
                },
                Err(e) => {
                    return Err(e);
                },
            }
            let conflict = match self.conflict_clause() {
                Ok(c) => c,
                Err(e) => {
                    return Err(e);
                },
            };
            Ok(Some(ColumnConstraint::NotNull(conflict)))
        } else if pk.typ == TokenType::UNIQUE {
            self.bump();
            let conflict = match self.conflict_clause() {
                Ok(c) => c,
                Err(e) => {
                    return Err(e);
                },
            };
            Ok(Some(ColumnConstraint::Unique(conflict)))
        } else {
            Ok(None)
        }
    }

    /// An optional ON CONFLICT clause.
    #[verifier::rlimit(80)]
    #[verifier::spinoff_prover]
    pub fn conflict_clause(&mut self) -> (r: Result<Option<ConflictClause>, ParseError>)
        requires
            old(self).wf(),
        ensures
            final(self).wf(),
            final(self).tokens == old(self).tokens,
            match r {
                Ok(o) => spec_conflict_clause(old(self).toks(), old(self).idx as int) matches Ok(p)
                    && p.0 == o && p.1 == final(self).idx as int && old(self).idx <= final(self).idx,
                Err(pe) => spec_conflict_clause(old(self).toks(), old(self).idx as int) == Err::<
                    (Option<ConflictClause>, int),
                    ParseErrorV,
                >(pe@),
            },
    {
        let pk = match self.peek() {
            Some(tok) => tok,
            None => {
                return Ok(None);
            },
        };
        if pk.typ != TokenType::ON {
            return Ok(None);
        }
        self.bump();
        match self.expect(TokenType::CONFLICT) {
            Ok(_) => {
            },
            Err(e) => {
                return Err(e);
            },
        }
        match self.peek() {
            Some(tok) => {
                let c = match tok.typ {
                    TokenType::ROLLBACK => Some(ConflictClause::Rollback),
                    TokenType::ABORT => Some(ConflictClause::Abort),
                    TokenType::FAIL => Some(ConflictClause::Fail),
                    TokenType::IGNORE => Some(ConflictClause::Ignore),
                    TokenType::REPLACE => Some(ConflictClause::Replace),
                    _ => None,
                };
                if c.is_some() {
                    self.bump();
                }
                Ok(c)
            },
            None => Ok(None),
        }
    }

    /// A full expression.
    #[verifier::rlimit(80)]
    #[verifier::spinoff_prover]
    pub fn expression(&mut self) -> (r: Result<Expr, ParseError>)
        requires
            old(self).wf(),
        ensures
            final(self).wf(),
            final(self).tokens == old(self).tokens,
            match r {
                Ok(e) => spec_expression(old(self).toks(), old(self).idx as int) matches Ok(p)
                    && p.0 == e@ && p.1 == final(self).idx as int && old(self).idx < final(self).idx,
                Err(pe) => spec_expression(old(self).toks(), old(self).idx as int) == Err::<
                    (ExprV, int),
                    ParseErrorV,
                >(pe@),
            },
        decreases old(self).tokens@.len() - old(self).idx, 20int,
    {
        self.logic_or()
    }

    /// OR-chains over AND-level expressions.
    #[verifier::rlimit(80)]
    #[verifier::spinoff_prover]
    pub fn logic_or(&mut self) -> (r: Result<Expr, ParseError>)
        requires
            old(self).wf(),
        ensures
            final(self).wf(),
            final(self).tokens == old(self).tokens,
            match r {
                Ok(e) => spec_logic_or(old(self).toks(), old(self).idx as int) matches Ok(p) && p.0 == e@
                    && p.1 == final(self).idx as int && old(self).idx < final(self).idx,
                Err(pe) => spec_logic_or(old(self).toks(), old(self).idx as int) == Err::<
                    (ExprV, int),
                    ParseErrorV,
                >(pe@),
            },
        decreases old(self).tokens@.len() - old(self).idx, 19int,
    {
        let ghost t = self.toks();
        let ghost i0 = self.idx as int;
        let toks0 = self.tokens;
        let mut expr = match self.logic_and() {
            Ok(e) => e,
            Err(e) => {
                return Err(e);
            },
        };
        loop
            invariant_except_break
                self.wf(),
                self.tokens == toks0,
                toks0 == old(self).tokens,
                i0 == old(self).idx as int,
                t == self.toks(),
                i0 < self.idx as int <= self.tokens@.len(),
                match spec_or_chain(t, self.idx as int, expr@) {
                    Ok(p) => spec_logic_or(t, i0) == Ok::<(ExprV, int), ParseErrorV>(p),
                    Err(pe) => spec_logic_or(t, i0) == Err::<(ExprV, int), ParseErrorV>(pe),
                },
            ensures
                self.wf(),
                self.tokens == toks0,
                i0 < self.idx as int,
                spec_logic_or(t, i0) == Ok::<(ExprV, int), ParseErrorV>((expr@, self.idx as int)),
            decreases self.tokens@.len() - self.idx,
        {
            if self.idx >= self.tokens.len() {
                break ;
            }
            let tt = self.tokens[self.idx].typ;
            if !(tt == TokenType::OR) {
                break ;
            }
            self.bump();
            let right = match self.logic_and() {
                Ok(e) => e,
                Err(e) => {
                    return Err(e);
                },
            };
            expr = Expr::Binary {
                left: Box::new(expr),
                right: Box::new(right),
                operator: Operator::Or,
            };
        }
        Ok(expr)
    }

    /// AND-chains over equality-level expressions.
    #[verifier::rlimit(80)]
    #[verifier::spinoff_prover]
    pub fn logic_and(&mut self) -> (r: Result<Expr, ParseError>)
        requires
            old(self).wf(),
        ensures
            final(self).wf(),
            final(self).tokens == old(self).tokens,
            match r {
                Ok(e) => spec_logic_and(old(self).toks(), old(self).idx as int) matches Ok(p) && p.0 == e@
                    && p.1 == final(self).idx as int && old(self).idx < final(self).idx,
                Err(pe) => spec_logic_and(old(self).toks(), old(self).idx as int) == Err::<
                    (ExprV, int),
                    ParseErrorV,
                >(pe@),
            },
        decreases old(self).tokens@.len() - old(self).idx, 17int,
    {
        let ghost t = self.toks();
        let ghost i0 = self.idx as int;
        let toks0 = self.tokens;
        let mut expr = match self.equality() {
            Ok(e) => e,
            Err(e) => {
                return Err(e);
            },
        };
        loop
            invariant_except_break
                self.wf(),
                self.tokens == toks0,
                toks0 == old(self).tokens,
                i0 == old(self).idx as int,
                t == self.toks(),
                i0 < self.idx as int <= self.tokens@.len(),
                match spec_and_chain(t, self.idx as int, expr@) {
                    Ok(p) => spec_logic_and(t, i0) == Ok::<(ExprV, int), ParseErrorV>(p),
                    Err(pe) => spec_logic_and(t, i0) == Err::<(ExprV, int), ParseErrorV>(pe),
                },
            ensures
                self.wf(),
                self.tokens == toks0,
                i0 < self.idx as int,
                spec_logic_and(t, i0) == Ok::<(ExprV, int), ParseErrorV>((expr@, self.idx as int)),
            decreases self.tokens@.len() - self.idx,
        {
            if self.idx >= self.tokens.len() {
                break ;
            }
            let tt = self.tokens[self.idx].typ;
            if !(tt == TokenType::AND) {
                break ;
            }
            self.bump();
            let right = match self.equality() {
                Ok(e) => e,
                Err(e) => {
                    return Err(e);
                },
            };
            expr = Expr::Binary {
                left: Box::new(expr),
                right: Box::new(right),
                operator: Operator::And,
            };
        }
        Ok(expr)
    }

    /// Equality chains over comparison-level expressions.
    #[verifier::rlimit(80)]
    #[verifier::spinoff_prover]
    pub fn equality(&mut self) -> (r: Result<Expr, ParseError>)
        requires
            old(self).wf(),
        ensures
            final(self).wf(),
            final(self).tokens == old(self).tokens,
            match r {
                Ok(e) => spec_equality(old(self).toks(), old(self).idx as int) matches Ok(p) && p.0 == e@
                    && p.1 == final(self).idx as int && old(self).idx < final(self).idx,
                Err(pe) => spec_equality(old(self).toks(), old(self).idx as int) == Err::<
                    (ExprV, int),
                    ParseErrorV,
                >(pe@),
            },
        decreases old(self).tokens@.len() - old(self).idx, 15int,
    {
        let ghost t = self.toks();
        let ghost i0 = self.idx as int;
        let toks0 = self.tokens;
        let mut expr = match self.comparison() {
            Ok(e) => e,
            Err(e) => {
                return Err(e);
            },
        };
        loop
            invariant_except_break
                self.wf(),
                self.tokens == toks0,
                toks0 == old(self).tokens,
                i0 == old(self).idx as int,
                t == self.toks(),
                i0 < self.idx as int <= self.tokens@.len(),
                match spec_eq_chain(t, self.idx as int, expr@) {
                    Ok(p) => spec_equality(t, i0) == Ok::<(ExprV, int), ParseErrorV>(p),
                    Err(pe) => spec_equality(t, i0) == Err::<(ExprV, int), ParseErrorV>(pe),
                },
            ensures
                self.wf(),
                self.tokens == toks0,
                i0 < self.idx as int,
                spec_equality(t, i0) == Ok::<(ExprV, int), ParseErrorV>((expr@, self.idx as int)),
            decreases self.tokens@.len() - self.idx,
        {
            if self.idx >= self.tokens.len() {
                break ;
            }
            let tt = self.tokens[self.idx].typ;
            if !(tt == TokenType::EQUALS || tt == TokenType::NOTEQUALS) {
                break ;
            }
            self.bump();
            let right = match self.comparison() {
                Ok(e) => e,
                Err(e) => {
                    return Err(e);
                },
            };
            expr = Expr::Binary {
                left: Box::new(expr),
                right: Box::new(right),
                operator: if tt == TokenType::EQUALS {
                    Operator::Equals
                } else {
                    Operator::Notequals
                },
            };
        }
        Ok(expr)
    }

    /// Comparison chains over additive expressions.
    #[verifier::rlimit(80)]
    #[verifier::spinoff_prover]
    pub fn comparison(&mut self) -> (r: Result<Expr, ParseError>)
        requires
            old(self).wf(),
        ensures
            final(self).wf(),
            final(self).tokens == old(self).tokens,
            match r {
                Ok(e) => spec_comparison(old(self).toks(), old(self).idx as int) matches Ok(p) && p.0 == e@
                    && p.1 == final(self).idx as int && old(self).idx < final(self).idx,
                Err(pe) => spec_comparison(old(self).toks(), old(self).idx as int) == Err::<
                    (ExprV, int),
                    ParseErrorV,
                >(pe@),
            },
        decreases old(self).tokens@.len() - old(self).idx, 13int,
    {
        let ghost t = self.toks();
        let ghost i0 = self.idx as int;
        let toks0 = self.tokens;
        let mut expr = match self.term() {
            Ok(e) => e,
            Err(e) => {
                return Err(e);
            },
        };
        loop
            invariant_except_break
                self.wf(),
                self.tokens == toks0,
                toks0 == old(self).tokens,
                i0 == old(self).idx as int,
                t == self.toks(),
                i0 < self.idx as int <= self.tokens@.len(),
                match spec_cmp_chain(t, self.idx as int, expr@) {
                    Ok(p) => spec_comparison(t, i0) == Ok::<(ExprV, int), ParseErrorV>(p),
                    Err(pe) => spec_comparison(t, i0) == Err::<(ExprV, int), ParseErrorV>(pe),
                },
            ensures
                self.wf(),
                self.tokens == toks0,
                i0 < self.idx as int,
                spec_comparison(t, i0) == Ok::<(ExprV, int), ParseErrorV>((expr@, self.idx as int)),
            decreases self.tokens@.len() - self.idx,
        {
            if self.idx >= self.tokens.len() {
                break ;
            }
            let tt = self.tokens[self.idx].typ;
            if !(tt == TokenType::LESS || tt == TokenType::LESSEQ || tt == TokenType::GREATER || tt == TokenType::GREATEREQ) {
                break ;
            }
            self.bump();
            let right = match self.term() {
                Ok(e) => e,
                Err(e) => {
                    return Err(e);
                },
            };
            expr = Expr::Binary {
                left: Box::new(expr),
                right: Box::new(right),
                operator: if tt == TokenType::LESS {
                    Operator::Less
                } else if tt == TokenType::LESSEQ {
                    Operator::LessEq
                } else if tt == TokenType::GREATER {
                    Operator::Greater
                } else {
                    Operator::GreaterEq
                },
            };
        }
        Ok(expr)
    }

    /// Additive chains over multiplicative expressions.
    #[verifier::rlimit(80)]
    #[verifier::spinoff_prover]
    pub fn term(&mut self) -> (r: Result<Expr, ParseError>)
        requires
            old(self).wf(),
        ensures
            final(self).wf(),
            final(self).tokens == old(self).tokens,
            match r {
                Ok(e) => spec_term(old(self).toks(), old(self).idx as int) matches Ok(p) && p.0 == e@
                    && p.1 == final(self).idx as int && old(self).idx < final(self).idx,
                Err(pe) => spec_term(old(self).toks(), old(self).idx as int) == Err::<
                    (ExprV, int),
                    ParseErrorV,
                >(pe@),
            },
        decreases old(self).tokens@.len() - old(self).idx, 11int,
    {
        let ghost t = self.toks();
        let ghost i0 = self.idx as int;
        let toks0 = self.tokens;
        let mut expr = match self.factor() {
            Ok(e) => e,
            Err(e) => {
                return Err(e);
            },
        };
        loop
            invariant_except_break
                self.wf(),
                self.tokens == toks0,
                toks0 == old(self).tokens,
                i0 == old(self).idx as int,
                t == self.toks(),
                i0 < self.idx as int <= self.tokens@.len(),
                match spec_term_chain(t, self.idx as int, expr@) {
                    Ok(p) => spec_term(t, i0) == Ok::<(ExprV, int), ParseErrorV>(p),
                    Err(pe) => spec_term(t, i0) == Err::<(ExprV, int), ParseErrorV>(pe),
                },
            ensures
                self.wf(),
                self.tokens == toks0,
                i0 < self.idx as int,
                spec_term(t, i0) == Ok::<(ExprV, int), ParseErrorV>((expr@, self.idx as int)),
            decreases self.tokens@.len() - self.idx,
        {
            if self.idx >= self.tokens.len() {
                break ;
            }
            let tt = self.tokens[self.idx].typ;
            if !(tt == TokenType::PLUS || tt == TokenType::MINUS) {
                break ;
            }
            self.bump();
            let right = match self.factor() {
                Ok(e) => e,
                Err(e) => {
                    return Err(e);
                },
            };
            expr = Expr::Binary {
                left: Box::new(expr),
                right: Box::new(right),
                operator: if tt == TokenType::PLUS {
                    Operator::Plus
                } else {
                    Operator::Minus
                },
            };
        }
        Ok(expr)
    }

    /// Multiplicative chains over unary expressions.
    #[verifier::rlimit(80)]
    #[verifier::spinoff_prover]
    pub fn factor(&mut self) -> (r: Result<Expr, ParseError>)
        requires
            old(self).wf(),
        ensures
            final(self).wf(),
            final(self).tokens == old(self).tokens,
            match r {
                Ok(e) => spec_factor(old(self).toks(), old(self).idx as int) matches Ok(p) && p.0 == e@
                    && p.1 == final(self).idx as int && old(self).idx < final(self).idx,
                Err(pe) => spec_factor(old(self).toks(), old(self).idx as int) == Err::<
                    (ExprV, int),
                    ParseErrorV,
                >(pe@),
            },
        decreases old(self).tokens@.len() - old(self).idx, 9int,
    {
        let ghost t = self.toks();
        let ghost i0 = self.idx as int;
        let toks0 = self.tokens;
        let mut expr = match self.unary() {
            Ok(e) => e,
            Err(e) => {
                return Err(e);
            },
        };
        loop
            invariant_except_break
                self.wf(),
                self.tokens == toks0,
                toks0 == old(self).tokens,
                i0 == old(self).idx as int,
                t == self.toks(),
                i0 < self.idx as int <= self.tokens@.len(),
                match spec_factor_chain(t, self.idx as int, expr@) {
                    Ok(p) => spec_factor(t, i0) == Ok::<(ExprV, int), ParseErrorV>(p),
                    Err(pe) => spec_factor(t, i0) == Err::<(ExprV, int), ParseErrorV>(pe),
                },
            ensures
                self.wf(),
                self.tokens == toks0,
                i0 < self.idx as int,
                spec_factor(t, i0) == Ok::<(ExprV, int), ParseErrorV>((expr@, self.idx as int)),
            decreases self.tokens@.len() - self.idx,
        {
            if self.idx >= self.tokens.len() {
                break ;
            }
            let tt = self.tokens[self.idx].typ;
            if !(tt == TokenType::SLASH || tt == TokenType::ASTERISK) {
                break ;
            }
            self.bump();
            let right = match self.unary() {
                Ok(e) => e,
                Err(e) => {
                    return Err(e);
                },
            };
            expr = Expr::Binary {
                left: Box::new(expr),
                right: Box::new(right),
                operator: if tt == TokenType::SLASH {
                    Operator::Slash
                } else {
                    Operator::Asterisk
                },
            };
        }
        Ok(expr)
    }

    /// A unary expression: bang or minus over a unary expression, or a
    /// call expression.
    #[verifier::rlimit(80)]
    #[verifier::spinoff_prover]
    pub fn unary(&mut self) -> (r: Result<Expr, ParseError>)
        requires
            old(self).wf(),
        ensures
            final(self).wf(),
            final(self).tokens == old(self).tokens,
            match r {
                Ok(e) => spec_unary(old(self).toks(), old(self).idx as int) matches Ok(p) && p.0
                    == e@ && p.1 == final(self).idx as int && old(self).idx < final(self).idx,
                Err(pe) => spec_unary(old(self).toks(), old(self).idx as int) == Err::<
                    (ExprV, int),
                    ParseErrorV,
                >(pe@),
            },
        decreases old(self).tokens@.len() - old(self).idx, 7int,
    {
        let is_prefix = match self.peek() {
            Some(tok) => tok.typ == TokenType::BANG || tok.typ == TokenType::MINUS,
            None => false,
        };
        if is_prefix {
            let tt = self.tokens[self.idx].typ;
            let op = if tt == TokenType::MINUS {
                Operator::Minus
            } else {
                Operator::Bang
            };
            self.bump();
            let inner = match self.unary() {
                Ok(e) => e,
                Err(e) => {
                    return Err(e);
                },
            };
            Ok(Expr::Unary { operator: op, expr: Box::new(inner) })
        } else {
            self.call()
        }
    }

    /// A call expression: a primary with parenthesized argument lists.
    #[verifier::rlimit(80)]
    #[verifier::spinoff_prover]
    pub fn call(&mut self) -> (r: Result<Expr, ParseError>)
        requires
            old(self).wf(),
        ensures
            final(self).wf(),
            final(self).tokens == old(self).tokens,
            match r {
                Ok(e) => spec_call(old(self).toks(), old(self).idx as int) matches Ok(p) && p.0
                    == e@ && p.1 == final(self).idx as int && old(self).idx < final(self).idx,
                Err(pe) => spec_call(old(self).toks(), old(self).idx as int) == Err::<
                    (ExprV, int),
                    ParseErrorV,
                >(pe@),
            },
        decreases old(self).tokens@.len() - old(self).idx, 6int,
    {
        let ghost t = self.toks();
        let ghost i0 = self.idx as int;
        let toks0 = self.tokens;
        let mut expr = match self.primary() {
            Ok(e) => e,
            Err(e) => {
                return Err(e);
            },
        };
        loop
            invariant_except_break
                self.wf(),
                self.tokens == toks0,
                toks0 == old(self).tokens,
                i0 == old(self).idx as int,
                t == self.toks(),
                i0 < self.idx as int <= self.tokens@.len(),
                match spec_call_chain(t, self.idx as int, expr@) {
                    Ok(p) => spec_call(t, i0) == Ok::<(ExprV, int), ParseErrorV>(p),
                    Err(pe) => spec_call(t, i0) == Err::<(ExprV, int), ParseErrorV>(pe),
                },
            ensures
                self.wf(),
                self.tokens == toks0,
                i0 < self.idx as int,
                spec_call(t, i0) == Ok::<(ExprV, int), ParseErrorV>((expr@, self.idx as int)),
            decreases self.tokens@.len() - self.idx,
        {
            let opens = match self.peek() {
                Some(tok) => tok.typ == TokenType::OPENP,
                None => false,
            };
            if !opens {
                break ;
            }
            self.bump();
            expr = match self.finish_call(expr) {
                Ok(e) => e,
                Err(e) => {
                    return Err(e);
                },
            };
        }
        Ok(expr)
    }

    /// Parses the comma-separated call arguments into `args`, stopping
    /// before the first token that is not a comma.
    #[verifier::rlimit(80)]
    #[verifier::spinoff_prover]
    fn call_args(&mut self, args: &mut Vec<Expr>) -> (r: Result<(), ParseError>)
        requires
            old(self).wf(),
        ensures
            final(self).wf(),
            final(self).tokens == old(self).tokens,
            match r {
                Ok(u) => spec_call_args(
                    old(self).toks(),
                    old(self).idx as int,
                    old(args).deep_view(),
                ) matches Ok(p) && p.0 == final(args).deep_view() && p.1 == final(self).idx as int
                    && old(self).idx < final(self).idx,
                Err(pe) => spec_call_args(
                    old(self).toks(),
                    old(self).idx as int,
                    old(args).deep_view(),
                ) == Err::<(Seq<ExprV>, int), ParseErrorV>(pe@),
            },
        decreases old(self).tokens@.len() - old(self).idx, 21int,
    {
        let e = match self.expression() {
            Ok(e) => e,
            Err(err) => {
                return Err(err);
            },
        };
        let ghost prev = args.deep_view();
        args.push(e);
        proof {
            assert(args.deep_view() =~= prev.push(args@.last().deep_view()));
        }
        let comma = match self.peek() {
            Some(tok) => tok.typ == TokenType::COMMA,
            None => false,
        };
        if comma {
            self.bump();
            self.call_args(args)
        } else {
            Ok(())
        }
    }

    /// The rest of a call on a named function: a star or expression
    /// arguments, then the closing parenthesis.
    #[verifier::rlimit(100)]
    #[verifier::spinoff_prover]
    fn ident_call_tail(&mut self, value: Vec<u8>) -> (r: Result<Expr, ParseError>)
        requires
            old(self).wf(),
        ensures
            final(self).wf(),
            final(self).tokens == old(self).tokens,
            match r {
                Ok(e) => spec_finish_call(
                    old(self).toks(),
                    old(self).idx as int,
                    ExprV::Identifier { value: value@ },
                ) matches Ok(p) && p.0 == e@ && p.1 == final(self).idx as int && old(self).idx
                    < final(self).idx,
                Err(pe) => spec_finish_call(
                    old(self).toks(),
                    old(self).idx as int,
                    ExprV::Identifier { value: value@ },
                ) == Err::<(ExprV, int), ParseErrorV>(pe@),
            },
        decreases old(self).tokens@.len() - old(self).idx, 22int,
    {
        let p0 = match self.peek() {
            Some(tok) => tok,
            None => {
                return Err(ParseError::NoInput);
            },
        };
        if p0.typ == TokenType::ASTERISK {
            self.bump();
            match self.expect(TokenType::CLOSEP) {
                Ok(_) => {
                    let ghost nv = value@;
                    proof {
                        assert(crate::syntax::arg_view(FunctionArg::Star) == FunctionArgV::Star);
                    }
                    let out = Expr::Function { name: value, args: FunctionArg::Star };
                    proof {
                        assert(out@ == ExprV::Function { name: nv, args: FunctionArgV::Star });
                    }
                    Ok(out)
                },
                Err(e) => Err(e),
            }
        } else {
            let mut args: Vec<Expr> = Vec::new();
            proof {
                assert(args.deep_view() =~= Seq::<ExprV>::empty());
            }
            match self.call_args(&mut args) {
                Ok(u) => u,
                Err(e) => {
                    return Err(e);
                },
            }
            match self.expect(TokenType::CLOSEP) {
                Ok(_) => {
                    let ghost nv = value@;
                    let ghost argsv = args.deep_view();
                    proof {
                        crate::syntax::lemma_exprs_view(args@);
                        assert(crate::syntax::exprs_view(args@) =~= argsv);
                        assert(crate::syntax::arg_view(FunctionArg::Args(args))
                            == FunctionArgV::Args(argsv));
                    }
                    let out = Expr::Function { name: value, args: FunctionArg::Args(args) };
                    proof {
                        assert(out@ == ExprV::Function { name: nv, args: FunctionArgV::Args(argsv) });
                    }
                    Ok(out)
                },
                Err(e) => Err(e),
            }
        }
    }

    /// The argument list of a call after its opening parenthesis: only
    /// an identifier can be called.
    #[verifier::rlimit(100)]
    #[verifier::spinoff_prover]
    pub fn finish_call(&mut self, expr: Expr) -> (r: Result<Expr, ParseError>)
        requires
            old(self).wf(),
        ensures
            final(self).wf(),
            final(self).tokens == old(self).tokens,
            match r {
                Ok(e) => spec_finish_call(old(self).toks(), old(self).idx as int, expr@)
                    matches Ok(p) && p.0 == e@ && p.1 == final(self).idx as int && old(self).idx
                    < final(self).idx,
                Err(pe) => spec_finish_call(old(self).toks(), old(self).idx as int, expr@) == Err::<
                    (ExprV, int),
                    ParseErrorV,
                >(pe@),
            },
        decreases old(self).tokens@.len() - old(self).idx, 23int,
    {
        match expr {
            Expr::Identifier { value } => self.ident_call_tail(value),
            other => {
                match self.expect(TokenType::CLOSEP) {
                    Ok(_) => Err(ParseError::CustomError("function name cannot be expression")),
                    Err(e) => Err(e),
                }
            },
        }
    }

    /// A primary expression: an identifier, a literal, or a parenthesized
    /// expression.
    #[verifier::rlimit(80)]
    #[verifier::spinoff_prover]
    pub fn primary(&mut self) -> (r: Result<Expr, ParseError>)
        requires
            old(self).wf(),
        ensures
            final(self).wf(),
            final(self).tokens == old(self).tokens,
            match r {
                Ok(e) => spec_primary(old(self).toks(), old(self).idx as int) matches Ok(p) && p.0
                    == e@ && p.1 == final(self).idx as int && old(self).idx < final(self).idx,
                Err(pe) => spec_primary(old(self).toks(), old(self).idx as int) == Err::<
                    (ExprV, int),
                    ParseErrorV,
                >(pe@),
            },
        decreases old(self).tokens@.len() - old(self).idx, 2int,
    {
        let p = match self.step() {
            Some(tok) => tok,
            None => {
                return Err(ParseError::NoInput);
            },
        };
        match p.typ {
            TokenType::IDENTIFIER => Ok(
                Expr::Identifier {
                    value: crate::util::clone_bytes(&p.lexeme),
                },
            ),
            TokenType::TRUE => Ok(Expr::Literal { value: DbValue::Bool(true) }),
            TokenType::FALSE => Ok(Expr::Literal { value: DbValue::Bool(false) }),
            TokenType::NULL => Ok(Expr::Literal { value: DbValue::Null }),
            TokenType::NUMBER => {
                if crate::lexer::find_byte(p.lexeme.as_slice(), 0, 46) < p.lexeme.len() {
                    Err(ParseError::CustomError("floating-point literals are not supported"))
                } else {
                    match parse_decimal_i64(p.lexeme.as_slice()) {
                        Some(v) => Ok(Expr::Literal { value: DbValue::Integer(v) }),
                        None => Err(ParseError::CustomError("could not parse number into i64")),
                    }
                }
            },
            TokenType::STRING => Ok(
                Expr::Literal {
                    value: DbValue::Text(
                        crate::util::clone_bytes(&p.lexeme),
                    ),
                },
            ),
            TokenType::OPENP => {
                let e = match self.expression() {
                    Ok(e) => e,
                    Err(err) => {
                        return Err(err);
                    },
                };
                match self.expect(TokenType::CLOSEP) {
                    Ok(_) => Ok(Expr::Grouping { expr: Box::new(e) }),
                    Err(err) => Err(err),
                }
            },
            _ => Err(ParseError::InvalidKeyword(crate::util::clone_bytes(&p.lexeme))),
        }
    }

    /// The statements after the cursor, appended to `stmts`, and the
    /// failure that stopped the list if one did.
    #[verifier::rlimit(80)]
    #[verifier::spinoff_prover]
    fn scan_rest(&mut self, stmts: &mut Vec<Statement>) -> (r: Option<ParseError>)
        requires
            old(self).wf(),
        ensures
            final(self).wf(),
            final(self).tokens == old(self).tokens,
            ({
                let s = spec_stmt_list(
                    old(self).toks(),
                    old(self).idx as int,
                    old(stmts).deep_view(),
                );
                s.0 == final(stmts).deep_view() && s.1 == r.deep_view()
            }),
        decreases old(self).tokens@.len() - old(self).idx,
    {
        let at_end = match self.peek() {
            Some(tok) => tok.typ == TokenType::EOF,
            None => true,
        };
        if at_end {
            return None;
        }
        let stmt = match self.statement() {
            Ok(s) => s,
            Err(e) => {
                return Some(e);
            },
        };
        let nxt = match self.step() {
            Some(tok) => tok,
            None => {
                return Some(ParseError::CustomError("invalid statement termination"));
            },
        };
        let ghost prev = stmts.deep_view();
        if nxt.typ == TokenType::SEMICOLON {
            stmts.push(stmt);
            proof {
                assert(stmts.deep_view() =~= prev.push(stmts@.last().deep_view()));
            }
            self.scan_rest(stmts)
        } else if nxt.typ == TokenType::EOF {
            stmts.push(stmt);
            proof {
                assert(stmts.deep_view() =~= prev.push(stmts@.last().deep_view()));
            }
            None
        } else {
            Some(ParseError::CustomError("invalid statement terminating character"))
        }
    }

    /// The whole statement list: the statements parsed, and the failure
    /// that stopped parsing if one did.
    pub fn scan(&mut self) -> (r: (Vec<Statement>, Option<ParseError>))
        requires
            old(self).wf(),
        ensures
            final(self).wf(),
            final(self).tokens == old(self).tokens,
            ({
                let s = spec_stmt_list(old(self).toks(), old(self).idx as int, Seq::empty());
                r.0.deep_view() == s.0 && r.1.deep_view() == s.1
            }),
    {
        let mut stmts: Vec<Statement> = Vec::new();
        proof {
            assert(stmts.deep_view() =~= Seq::<StatementV>::empty());
        }
        let err = self.scan_rest(&mut stmts);
        (stmts, err)
    }
}

/// Parses a whole SQL text: the lexed tokens run through the statement
/// list, yielding the statements parsed and the parse failure that
/// stopped the list, if one did.
pub fn parse_sql(sql: &[u8]) -> (r: Result<(Vec<Statement>, Option<ParseError>), LexError>)
    ensures
        match r {
            Ok(p) => spec_parse_sql(sql@) matches Ok(q) && q.0 == p.0.deep_view() && q.1
                == p.1.deep_view(),
            Err(e) => spec_parse_sql(sql@) == Err::<
                (Seq<StatementV>, Option<ParseErrorV>),
                LexError,
            >(e),
        },
{
    let toks = match crate::lexer::scan(sql) {
        Ok(t) => t,
        Err(e) => {
            return Err(e);
        },
    };
    let mut p = Parser::new(toks.as_slice());
    proof {
        assert(p.toks() =~= toks.deep_view());
    }
    let out = p.scan();
    Ok(out)
}

/// The digit-string value of a numeric lexeme, when it is all digits
/// and fits a signed 64-bit integer.
pub fn parse_decimal_i64(s: &[u8]) -> (r: Option<i64>)
    ensures
        r == spec_parse_i64(s@),
{
    let n = s.len();
    if n == 0 {
        return None;
    }
    let mut acc: i64 = 0;
    let mut i: usize = 0;
    while i < n
        invariant
            n == s@.len(),
            i <= n,
            0 <= acc,
            acc == spec_digits_val(s@.subrange(0, i as int)),
            forall|j: int| 0 <= j < i ==> crate::lexer::spec_is_digit(s@[j]),
        decreases n - i,
    {
        let b = s[i];
        if !(48 <= b && b <= 57) {
            return None;
        }
        let d = (b - 48) as i64;
        if acc > (i64::MAX - d) / 10 {
            proof {
                assert(s@.subrange(0, i + 1).drop_last() =~= s@.subrange(0, i as int));
                assert(s@.subrange(0, i + 1).last() == s@[i as int]);
                assert(acc * 10 + d > i64::MAX) by (nonlinear_arith)
                    requires
                        acc > (i64::MAX - d) / 10 && 0 <= d <= 9 && acc >= 0,
                ;
                if forall|j: int| 0 <= j < s@.len() ==> crate::lexer::spec_is_digit(s@[j]) {
                    lemma_digits_overflow(s@, i + 1);
                }
            }
            return None;
        }
        proof {
            assert(acc * 10 + d <= i64::MAX) by (nonlinear_arith)
                requires
                    acc <= (i64::MAX - d) / 10 && 0 <= d <= 9 && acc >= 0,
            ;
            assert(s@.subrange(0, i + 1).drop_last() =~= s@.subrange(0, i as int));
        }
        acc = acc * 10 + d;
        i += 1;
    }
    proof {
        assert(s@.subrange(0, n as int) =~= s@);
    }
    Some(acc)
}

/// When a digit prefix already exceeds the signed range, the whole digit
/// string does too.
proof fn lemma_digits_overflow(s: Seq<u8>, i: int)
    requires
        0 <= i <= s.len(),
        forall|j: int| 0 <= j < s.len() ==> crate::lexer::spec_is_digit(s[j]),
        spec_digits_val(s.subrange(0, i)) > i64::MAX,
    ensures
        spec_digits_val(s) > i64::MAX,
    decreases s.len() - i,
{
    if i < s.len() {
        assert(s.subrange(0, i + 1).drop_last() =~= s.subrange(0, i));
        assert(s.subrange(0, i + 1).last() == s[i]);
        assert(spec_digits_val(s.subrange(0, i + 1)) == spec_digits_val(s.subrange(0, i)) * 10 + (
        s[i] - 48));
        assert(spec_digits_val(s.subrange(0, i)) * 10 >= spec_digits_val(s.subrange(0, i)))
            by (nonlinear_arith)
            requires
                spec_digits_val(s.subrange(0, i)) >= 0,
        ;
        lemma_digits_overflow(s, i + 1);
    } else {
        assert(s.subrange(0, s.len() as int) =~= s);
    }
}

} // verus!
