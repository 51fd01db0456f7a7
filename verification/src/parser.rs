//! The parser of the T-SQL subset: keywords are matched without regard to
//! case, statements are separated by `;`.
//!
//! ```text
//! batch      := { ';' } [ stmt { ';' { ';' } stmt } { ';' } ]
//! stmt       := select | set | exec | create | insert | update | delete
//!             | alter | transaction
//! select     := SELECT [ TOP ( '(' number ')' | number ) ]
//!               ( '*' | item { ',' item } ) [ FROM table ] [ where ]
//!               [ ORDER BY column [ ASC ] ]
//! item       := expr [ AS word ]
//! expr       := word '(' [ operand { ',' operand } ] ')' | operand
//! operand    := literal | column
//! column     := word [ '.' word ]
//! literal    := NULL | number | 'text' | N'text'
//! table      := name [ '(' ')' ] [ [ AS ] word ]
//! name       := word [ '.' word ]
//! where      := WHERE expr '=' expr { AND expr '=' expr }
//! set        := SET word [ word ] ( ON | OFF )
//! exec       := ( EXEC | EXECUTE ) word [ arg { ',' arg } ]
//! arg        := [ @word '=' ] literal
//! create     := CREATE TABLE name '(' coldef { ',' coldef } ')'
//! coldef     := word type { NULL | NOT NULL | PRIMARY KEY | DEFAULT expr }
//! type       := BIT | TINYINT | SMALLINT | INT | INTEGER | BIGINT | DATE
//!             | DATETIME | UNIQUEIDENTIFIER | SQL_VARIANT
//!             | ( DECIMAL | NUMERIC ) [ '(' number [ ',' number ] ')' ]
//!             | ( CHAR | NCHAR ) [ '(' number ')' ]
//!             | ( VARCHAR | NVARCHAR ) [ '(' ( number | MAX ) ')' ]
//! insert     := INSERT [ INTO ] name [ '(' word { ',' word } ')' ]
//!               VALUES '(' literal { ',' literal } ')'
//! update     := UPDATE name SET word '=' literal { ',' word '=' literal } [ where ]
//! delete     := DELETE [ FROM ] name [ where ]
//! alter      := ALTER TABLE name ( ADD coldef | DROP COLUMN word
//!               | ALTER COLUMN word type [ NULL | NOT NULL ] )
//! transaction := BEGIN ( TRAN | TRANSACTION )
//!             | ( COMMIT | ROLLBACK ) [ TRAN | TRANSACTION ]
//! ```

use vstd::prelude::*;

use crate::ast::{
    assignments_view, column_specs_view, exec_args_view, filter_view, items_view, literals_view,
    names_view, operands_view, statements_view, AlterAction, AlterActionModel, Assignment,
    AssignmentModel, ColumnRef, ColumnRefModel, ColumnSpec, ColumnSpecModel, Comparison,
    ComparisonModel, ExecArg, ExecArgModel, Expr, ExprModel, Literal, LiteralModel, ObjectName,
    ObjectNameModel, Operand, OperandModel, Select, SelectItem, SelectItemModel, SelectList,
    SelectListModel, SelectModel, Statement, StatementModel, TableRef, TableRefModel,
};
use crate::lexer::{law_literals_shorter_than_text, lex, token_fits, tokenize, tokens_view, Token, TokenModel};
use crate::text::{chars_of, copy_chars, decimal, digit_char, upper_eq, word_is, word_matches};
use crate::types::{DataType, DbError, DbErrorModel, MAX_LEN};

verus! {

// ---------------------------------------------------------------------------
// Words and punctuation
// ---------------------------------------------------------------------------

/// Token `i` is the keyword `kw`.
pub open spec fn kw_at(t: Seq<TokenModel>, i: int, kw: Seq<char>) -> bool {
    0 <= i < t.len() && match t[i] {
        TokenModel::Word(w) => word_is(w, kw),
        _ => false,
    }
}

/// Punctuation tokens.
pub enum Punct {
    LParen,
    RParen,
    Comma,
    Semicolon,
    Dot,
    Star,
    Eq,
}

pub open spec fn punct_token(p: Punct) -> TokenModel {
    match p {
        Punct::LParen => TokenModel::LParen,
        Punct::RParen => TokenModel::RParen,
        Punct::Comma => TokenModel::Comma,
        Punct::Semicolon => TokenModel::Semicolon,
        Punct::Dot => TokenModel::Dot,
        Punct::Star => TokenModel::Star,
        Punct::Eq => TokenModel::Eq,
    }
}

/// Token `i` is the punctuation `p`.
pub open spec fn punct_at(t: Seq<TokenModel>, i: int, p: Punct) -> bool {
    0 <= i < t.len() && t[i] == punct_token(p)
}

/// Words that cannot name a column or serve as an alias.
pub open spec fn is_reserved(w: Seq<char>) -> bool {
    ||| word_is(w, "SELECT"@)
    ||| word_is(w, "FROM"@)
    ||| word_is(w, "AS"@)
    ||| word_is(w, "WHERE"@)
    ||| word_is(w, "ORDER"@)
    ||| word_is(w, "GROUP"@)
    ||| word_is(w, "HAVING"@)
    ||| word_is(w, "UNION"@)
    ||| word_is(w, "JOIN"@)
    ||| word_is(w, "ON"@)
    ||| word_is(w, "AND"@)
    ||| word_is(w, "OR"@)
    ||| word_is(w, "TOP"@)
}

/// Token `i` is a word that is not reserved.
pub open spec fn name_at(t: Seq<TokenModel>, i: int) -> bool {
    0 <= i < t.len() && match t[i] {
        TokenModel::Word(w) => !is_reserved(w),
        _ => false,
    }
}

/// The spelling of word token `i` (meaningful when it is a word).
pub open spec fn word_of(t: Seq<TokenModel>, i: int) -> Seq<char> {
    match t[i] {
        TokenModel::Word(w) => w,
        _ => seq![],
    }
}

// ---------------------------------------------------------------------------
// Grammar
// ---------------------------------------------------------------------------

pub open spec fn digit_val(c: char) -> nat {
    if '0' as u32 <= c as u32 <= '9' as u32 {
        (c as u32 - '0' as u32) as nat
    } else {
        0
    }
}

/// The value of a run of decimal digits.
pub open spec fn digits_value(d: Seq<char>) -> nat
    decreases d.len(),
{
    if d.len() == 0 {
        0
    } else {
        digits_value(d.drop_last()) * 10 + digit_val(d.last())
    }
}

pub open spec fn parse_literal(t: Seq<TokenModel>, i: int) -> Option<(LiteralModel, int)> {
    if !(0 <= i < t.len()) {
        None
    } else {
        match t[i] {
            TokenModel::Number(d) => if digits_value(d) <= i64::MAX {
                Some((LiteralModel::Int(digits_value(d) as i64), i + 1))
            } else {
                None
            },
            TokenModel::Str(s) => Some((LiteralModel::Str(s), i + 1)),
            TokenModel::NStr(s) => Some((LiteralModel::NStr(s), i + 1)),
            TokenModel::Word(w) => if word_is(w, "NULL"@) {
                Some((LiteralModel::Null, i + 1))
            } else {
                None
            },
            _ => None,
        }
    }
}

/// Literals separated by commas and closed by `)`, starting at `i`.
pub open spec fn parse_literals_rest(t: Seq<TokenModel>, i: int) -> Option<
    (Seq<LiteralModel>, int),
>
    decreases t.len() - i,
{
    match parse_literal(t, i) {
        None => None,
        Some((l, e)) => if punct_at(t, e, Punct::Comma) && i < e {
            match parse_literals_rest(t, e + 1) {
                None => None,
                Some((ls, e2)) => Some((seq![l] + ls, e2)),
            }
        } else if punct_at(t, e, Punct::RParen) {
            Some((seq![l], e + 1))
        } else {
            None
        },
    }
}

/// A column reference at `i`: `name` or `qualifier.name`.
pub open spec fn parse_column_ref(t: Seq<TokenModel>, i: int) -> Option<(ColumnRefModel, int)> {
    if !name_at(t, i) {
        None
    } else if punct_at(t, i + 1, Punct::Dot) && name_at(t, i + 2) {
        Some((ColumnRefModel { qualifier: Some(word_of(t, i)), name: word_of(t, i + 2) }, i + 3))
    } else {
        Some((ColumnRefModel { qualifier: None, name: word_of(t, i) }, i + 1))
    }
}

/// An operand at `i`: a literal or a column reference.
pub open spec fn parse_operand(t: Seq<TokenModel>, i: int) -> Option<(OperandModel, int)> {
    if is_word_at(t, i) && !word_is(word_of(t, i), "NULL"@) {
        match parse_column_ref(t, i) {
            None => None,
            Some((c, e)) => Some((OperandModel::Column(c), e)),
        }
    } else {
        match parse_literal(t, i) {
            None => None,
            Some((l, e)) => Some((OperandModel::Literal(l), e)),
        }
    }
}

/// Operands separated by commas and closed by `)`, starting at `i`.
pub open spec fn parse_operands_rest(t: Seq<TokenModel>, i: int) -> Option<(Seq<OperandModel>, int)>
    decreases t.len() - i,
{
    match parse_operand(t, i) {
        None => None,
        Some((o, e)) => if punct_at(t, e, Punct::Comma) && i < e {
            match parse_operands_rest(t, e + 1) {
                None => None,
                Some((os, e2)) => Some((seq![o] + os, e2)),
            }
        } else if punct_at(t, e, Punct::RParen) {
            Some((seq![o], e + 1))
        } else {
            None
        },
    }
}

/// An argument list after its `(`.
pub open spec fn parse_call_args(t: Seq<TokenModel>, i: int) -> Option<(Seq<OperandModel>, int)> {
    if punct_at(t, i, Punct::RParen) {
        Some((seq![], i + 1))
    } else {
        parse_operands_rest(t, i)
    }
}

/// An expression at `i`: a call `word(args)`, or an operand.
pub open spec fn parse_expr(t: Seq<TokenModel>, i: int) -> Option<(ExprModel, int)> {
    if is_word_at(t, i) && !word_is(word_of(t, i), "NULL"@) && punct_at(t, i + 1, Punct::LParen) {
        match parse_call_args(t, i + 2) {
            None => None,
            Some((args, e)) => Some((ExprModel::Call(word_of(t, i), args), e)),
        }
    } else {
        match parse_operand(t, i) {
            None => None,
            Some((o, e)) => Some((ExprModel::Operand(o), e)),
        }
    }
}

pub open spec fn parse_item(t: Seq<TokenModel>, i: int) -> Option<(SelectItemModel, int)> {
    match parse_expr(t, i) {
        None => None,
        Some((x, e)) => if kw_at(t, e, "AS"@) {
            if name_at(t, e + 1) {
                Some((SelectItemModel { expr: x, alias: Some(word_of(t, e + 1)) }, e + 2))
            } else {
                None
            }
        } else {
            Some((SelectItemModel { expr: x, alias: None }, e))
        },
    }
}

/// Items separated by commas, starting at `i`.
pub open spec fn parse_items(t: Seq<TokenModel>, i: int) -> Option<(Seq<SelectItemModel>, int)>
    decreases t.len() - i,
{
    match parse_item(t, i) {
        None => None,
        Some((x, e)) => if punct_at(t, e, Punct::Comma) && i < e {
            match parse_items(t, e + 1) {
                None => None,
                Some((xs, e2)) => Some((seq![x] + xs, e2)),
            }
        } else {
            Some((seq![x], e))
        },
    }
}

pub open spec fn parse_select_list(t: Seq<TokenModel>, i: int) -> Option<(SelectListModel, int)> {
    if punct_at(t, i, Punct::Star) {
        Some((SelectListModel::Star, i + 1))
    } else {
        match parse_items(t, i) {
            None => None,
            Some((xs, e)) => Some((SelectListModel::Items(xs), e)),
        }
    }
}

/// The optional alias of a table source at `k`: `AS word`, or a bare
/// word that is not reserved.
pub open spec fn parse_alias(t: Seq<TokenModel>, k: int) -> Option<(Option<Seq<char>>, int)> {
    if kw_at(t, k, "AS"@) {
        if name_at(t, k + 1) {
            Some((Some(word_of(t, k + 1)), k + 2))
        } else {
            None
        }
    } else if name_at(t, k) {
        Some((Some(word_of(t, k)), k + 1))
    } else {
        Some((None, k))
    }
}

/// A table name at `i`: `name` or `schema.name`.
pub open spec fn parse_object_name(t: Seq<TokenModel>, i: int) -> Option<(ObjectNameModel, int)> {
    if !name_at(t, i) {
        None
    } else if punct_at(t, i + 1, Punct::Dot) && name_at(t, i + 2) {
        Some((ObjectNameModel { schema: Some(word_of(t, i)), name: word_of(t, i + 2) }, i + 3))
    } else {
        Some((ObjectNameModel { schema: None, name: word_of(t, i) }, i + 1))
    }
}

pub open spec fn parse_table(t: Seq<TokenModel>, i: int) -> Option<(TableRefModel, int)> {
    match parse_object_name(t, i) {
        None => None,
        Some((object, j)) => {
            let call = punct_at(t, j, Punct::LParen) && punct_at(t, j + 1, Punct::RParen);
            let k = if call {
                j + 2
            } else {
                j
            };
            match parse_alias(t, k) {
                None => None,
                Some((alias, e)) => Some((TableRefModel { object, call, alias }, e)),
            }
        },
    }
}

/// `left = right` at `i`.
pub open spec fn parse_comparison(t: Seq<TokenModel>, i: int) -> Option<(ComparisonModel, int)> {
    match parse_expr(t, i) {
        None => None,
        Some((l, e)) => if punct_at(t, e, Punct::Eq) {
            match parse_expr(t, e + 1) {
                None => None,
                Some((r, e2)) => Some((ComparisonModel { left: l, right: r }, e2)),
            }
        } else {
            None
        },
    }
}

/// Comparisons joined by `AND`, starting at `i`.
pub open spec fn parse_conditions(t: Seq<TokenModel>, i: int) -> Option<(Seq<ComparisonModel>, int)>
    decreases t.len() - i,
{
    match parse_comparison(t, i) {
        None => None,
        Some((c, e)) => if kw_at(t, e, "AND"@) && i < e {
            match parse_conditions(t, e + 1) {
                None => None,
                Some((cs, e2)) => Some((seq![c] + cs, e2)),
            }
        } else {
            Some((seq![c], e))
        },
    }
}

/// An optional `WHERE` condition at `i` (none: every row).
pub open spec fn parse_where(t: Seq<TokenModel>, i: int) -> Option<(Seq<ComparisonModel>, int)> {
    if kw_at(t, i, "WHERE"@) {
        parse_conditions(t, i + 1)
    } else {
        Some((seq![], i))
    }
}

/// An optional `TOP (n)` or `TOP n` at `i`.
pub open spec fn parse_top(t: Seq<TokenModel>, i: int) -> Option<(Option<i64>, int)> {
    if !kw_at(t, i, "TOP"@) {
        Some((None, i))
    } else if punct_at(t, i + 1, Punct::LParen) {
        match parse_literal(t, i + 2) {
            Some((LiteralModel::Int(n), e)) => if punct_at(t, e, Punct::RParen) {
                Some((Some(n), e + 1))
            } else {
                None
            },
            _ => None,
        }
    } else {
        match parse_literal(t, i + 1) {
            Some((LiteralModel::Int(n), e)) => Some((Some(n), e)),
            _ => None,
        }
    }
}

/// An optional `ORDER BY column [ASC]` at `i`.
pub open spec fn parse_order(t: Seq<TokenModel>, i: int) -> Option<(Option<ColumnRefModel>, int)> {
    if kw_at(t, i, "ORDER"@) && kw_at(t, i + 1, "BY"@) {
        match parse_column_ref(t, i + 2) {
            None => None,
            Some((c, e)) => if kw_at(t, e, "ASC"@) {
                Some((Some(c), e + 1))
            } else {
                Some((Some(c), e))
            },
        }
    } else {
        Some((None, i))
    }
}

/// An optional `FROM table` at `i`.
pub open spec fn parse_from(t: Seq<TokenModel>, i: int) -> Option<(Option<TableRefModel>, int)> {
    if kw_at(t, i, "FROM"@) {
        match parse_table(t, i + 1) {
            None => None,
            Some((r, e)) => Some((Some(r), e)),
        }
    } else {
        Some((None, i))
    }
}

pub open spec fn parse_select(t: Seq<TokenModel>, i: int) -> Option<(StatementModel, int)> {
    match parse_top(t, i + 1) {
        None => None,
        Some((top, e0)) => match parse_select_list(t, e0) {
            None => None,
            Some((list, e1)) => match parse_from(t, e1) {
                None => None,
                Some((from, e2)) => match parse_where(t, e2) {
                    None => None,
                    Some((filter, e3)) => match parse_order(t, e3) {
                        None => None,
                        Some((order_by, e4)) => Some(
                            (
                                StatementModel::Select(
                                    SelectModel { top, list, from, filter, order_by },
                                ),
                                e4,
                            ),
                        ),
                    },
                },
            },
        },
    }
}

/// `ON` is true, `OFF` false.
pub open spec fn on_off_at(t: Seq<TokenModel>, i: int) -> Option<bool> {
    if kw_at(t, i, "ON"@) {
        Some(true)
    } else if kw_at(t, i, "OFF"@) {
        Some(false)
    } else {
        None
    }
}

pub open spec fn is_word_at(t: Seq<TokenModel>, i: int) -> bool {
    0 <= i < t.len() && t[i] is Word
}

pub open spec fn parse_set(t: Seq<TokenModel>, i: int) -> Option<(StatementModel, int)> {
    if !is_word_at(t, i + 1) || on_off_at(t, i + 1) is Some {
        None
    } else if on_off_at(t, i + 2) is Some {
        Some(
            (
                StatementModel::SetOption {
                    words: seq![word_of(t, i + 1)],
                    on: on_off_at(t, i + 2)->0,
                },
                i + 3,
            ),
        )
    } else if is_word_at(t, i + 2) && on_off_at(t, i + 3) is Some {
        Some(
            (
                StatementModel::SetOption {
                    words: seq![word_of(t, i + 1), word_of(t, i + 2)],
                    on: on_off_at(t, i + 3)->0,
                },
                i + 4,
            ),
        )
    } else {
        None
    }
}

/// A parameter name `@word` followed by `=`.
pub open spec fn param_name_at(t: Seq<TokenModel>, i: int) -> bool {
    is_word_at(t, i) && word_of(t, i).len() > 0 && word_of(t, i)[0] == '@' && punct_at(
        t,
        i + 1,
        Punct::Eq,
    )
}

pub open spec fn parse_exec_arg(t: Seq<TokenModel>, i: int) -> Option<(ExecArgModel, int)> {
    if param_name_at(t, i) {
        match parse_literal(t, i + 2) {
            None => None,
            Some((v, e)) => Some((ExecArgModel { name: Some(word_of(t, i)), value: v }, e)),
        }
    } else {
        match parse_literal(t, i) {
            None => None,
            Some((v, e)) => Some((ExecArgModel { name: None, value: v }, e)),
        }
    }
}

pub open spec fn parse_exec_args(t: Seq<TokenModel>, i: int) -> Option<(Seq<ExecArgModel>, int)>
    decreases t.len() - i,
{
    match parse_exec_arg(t, i) {
        None => None,
        Some((a, e)) => if punct_at(t, e, Punct::Comma) && i < e {
            match parse_exec_args(t, e + 1) {
                None => None,
                Some((as_, e2)) => Some((seq![a] + as_, e2)),
            }
        } else {
            Some((seq![a], e))
        },
    }
}

/// Token `i` ends a statement: the end of the batch or a `;`.
pub open spec fn at_statement_end(t: Seq<TokenModel>, i: int) -> bool {
    i >= t.len() || punct_at(t, i, Punct::Semicolon)
}

pub open spec fn parse_exec(t: Seq<TokenModel>, i: int) -> Option<(StatementModel, int)> {
    if !is_word_at(t, i + 1) {
        None
    } else if at_statement_end(t, i + 2) {
        Some((StatementModel::Exec { procedure: word_of(t, i + 1), args: seq![] }, i + 2))
    } else {
        match parse_exec_args(t, i + 2) {
            None => None,
            Some((args, e)) => Some(
                (StatementModel::Exec { procedure: word_of(t, i + 1), args }, e),
            ),
        }
    }
}

/// The number a number token at `i` spells.
pub open spec fn number_at(t: Seq<TokenModel>, i: int) -> Option<nat> {
    if 0 <= i < t.len() {
        match t[i] {
            TokenModel::Number(d) => Some(digits_value(d)),
            _ => None,
        }
    } else {
        None
    }
}

/// An optional length `(n)` (or `(MAX)` where `max_ok`) at `i`, with `n`
/// between 1 and `limit`; 1 when it is left out.
pub open spec fn parse_length(t: Seq<TokenModel>, i: int, limit: nat, max_ok: bool) -> Option<(u16, int)> {
    if !punct_at(t, i, Punct::LParen) {
        Some((1, i))
    } else if max_ok && kw_at(t, i + 1, "MAX"@) && punct_at(t, i + 2, Punct::RParen) {
        Some((MAX_LEN, i + 3))
    } else {
        match number_at(t, i + 1) {
            Some(n) => if 1 <= n <= limit && punct_at(t, i + 2, Punct::RParen) {
                Some((n as u16, i + 3))
            } else {
                None
            },
            None => None,
        }
    }
}

/// Optional `(precision [, scale])` at `i`, with precision between 1 and 38
/// and scale at most the precision; `(18, 0)` when left out.
pub open spec fn parse_decimal_args(t: Seq<TokenModel>, i: int) -> Option<(u8, u8, int)> {
    if !punct_at(t, i, Punct::LParen) {
        Some((18, 0, i))
    } else {
        match number_at(t, i + 1) {
            None => None,
            Some(p) => if !(1 <= p <= 38) {
                None
            } else if punct_at(t, i + 2, Punct::RParen) {
                Some((p as u8, 0, i + 3))
            } else if punct_at(t, i + 2, Punct::Comma) && number_at(t, i + 3) is Some
                && number_at(t, i + 3)->0 <= p && punct_at(t, i + 4, Punct::RParen) {
                Some((p as u8, number_at(t, i + 3)->0 as u8, i + 5))
            } else {
                None
            },
        }
    }
}

/// A column type at `i`.
pub open spec fn parse_type(t: Seq<TokenModel>, i: int) -> Option<(DataType, int)> {
    if !is_word_at(t, i) {
        None
    } else {
        let w = word_of(t, i);
        if word_is(w, "BIT"@) {
            Some((DataType::Bit, i + 1))
        } else if word_is(w, "TINYINT"@) {
            Some((DataType::TinyInt, i + 1))
        } else if word_is(w, "SMALLINT"@) {
            Some((DataType::SmallInt, i + 1))
        } else if word_is(w, "INT"@) || word_is(w, "INTEGER"@) {
            Some((DataType::Int, i + 1))
        } else if word_is(w, "BIGINT"@) {
            Some((DataType::BigInt, i + 1))
        } else if word_is(w, "DATE"@) {
            Some((DataType::Date, i + 1))
        } else if word_is(w, "DATETIME"@) {
            Some((DataType::DateTime, i + 1))
        } else if word_is(w, "UNIQUEIDENTIFIER"@) {
            Some((DataType::UniqueIdentifier, i + 1))
        } else if word_is(w, "SQL_VARIANT"@) {
            Some((DataType::SqlVariant, i + 1))
        } else if word_is(w, "DECIMAL"@) || word_is(w, "NUMERIC"@) {
            match parse_decimal_args(t, i + 1) {
                None => None,
                Some((p, s, e)) => Some((DataType::Decimal { precision: p, scale: s }, e)),
            }
        } else if word_is(w, "CHAR"@) {
            match parse_length(t, i + 1, 8000, false) {
                None => None,
                Some((n, e)) => Some((DataType::Char { len: n }, e)),
            }
        } else if word_is(w, "VARCHAR"@) {
            match parse_length(t, i + 1, 8000, true) {
                None => None,
                Some((n, e)) => Some((DataType::VarChar { max_len: n }, e)),
            }
        } else if word_is(w, "NCHAR"@) {
            match parse_length(t, i + 1, 4000, false) {
                None => None,
                Some((n, e)) => Some((DataType::NChar { len: n }, e)),
            }
        } else if word_is(w, "NVARCHAR"@) {
            match parse_length(t, i + 1, 4000, true) {
                None => None,
                Some((n, e)) => Some((DataType::NVarChar { max_len: n }, e)),
            }
        } else {
            None
        }
    }
}

/// The constraints of a column definition from `i` on, applied to `acc`:
/// `NULL`, `NOT NULL`, `PRIMARY KEY`, `DEFAULT expr`.
pub open spec fn parse_constraints(t: Seq<TokenModel>, i: int, acc: ColumnSpecModel) -> Option<
    (ColumnSpecModel, int),
>
    decreases t.len() - i,
{
    if kw_at(t, i, "NULL"@) {
        parse_constraints(t, i + 1, ColumnSpecModel { nullable: true, ..acc })
    } else if kw_at(t, i, "NOT"@) && kw_at(t, i + 1, "NULL"@) {
        parse_constraints(t, i + 2, ColumnSpecModel { nullable: false, ..acc })
    } else if kw_at(t, i, "PRIMARY"@) && kw_at(t, i + 1, "KEY"@) {
        parse_constraints(t, i + 2, ColumnSpecModel { primary_key: true, ..acc })
    } else if kw_at(t, i, "DEFAULT"@) {
        match parse_expr(t, i + 1) {
            None => None,
            Some((x, e)) => if i < e <= t.len() {
                parse_constraints(t, e, ColumnSpecModel { default: Some(x), ..acc })
            } else {
                None
            },
        }
    } else {
        Some((acc, i))
    }
}

/// A column definition at `i`: `name type constraints`.
pub open spec fn parse_column_def(t: Seq<TokenModel>, i: int) -> Option<(ColumnSpecModel, int)> {
    if !name_at(t, i) {
        None
    } else {
        match parse_type(t, i + 1) {
            None => None,
            Some((dt, e)) => parse_constraints(
                t,
                e,
                ColumnSpecModel {
                    name: word_of(t, i),
                    data_type: dt,
                    nullable: true,
                    primary_key: false,
                    default: None,
                },
            ),
        }
    }
}

/// Column definitions separated by commas and closed by `)`, starting at `i`.
pub open spec fn parse_column_defs(t: Seq<TokenModel>, i: int) -> Option<(Seq<ColumnSpecModel>, int)>
    decreases t.len() - i,
{
    match parse_column_def(t, i) {
        None => None,
        Some((c, e)) => if punct_at(t, e, Punct::Comma) && i < e {
            match parse_column_defs(t, e + 1) {
                None => None,
                Some((cs, e2)) => Some((seq![c] + cs, e2)),
            }
        } else if punct_at(t, e, Punct::RParen) {
            Some((seq![c], e + 1))
        } else {
            None
        },
    }
}

/// `CREATE TABLE name (columns)` at `i`.
pub open spec fn parse_create(t: Seq<TokenModel>, i: int) -> Option<(StatementModel, int)> {
    if !kw_at(t, i + 1, "TABLE"@) {
        None
    } else {
        match parse_object_name(t, i + 2) {
            None => None,
            Some((table, e)) => if punct_at(t, e, Punct::LParen) {
                match parse_column_defs(t, e + 1) {
                    None => None,
                    Some((columns, e2)) => Some((StatementModel::CreateTable { table, columns }, e2)),
                }
            } else {
                None
            },
        }
    }
}

/// Names separated by commas and closed by `)`, starting at `i`.
pub open spec fn parse_names_rest(t: Seq<TokenModel>, i: int) -> Option<(Seq<Seq<char>>, int)>
    decreases t.len() - i,
{
    if !name_at(t, i) {
        None
    } else if punct_at(t, i + 1, Punct::Comma) {
        match parse_names_rest(t, i + 2) {
            None => None,
            Some((ns, e)) => Some((seq![word_of(t, i)] + ns, e)),
        }
    } else if punct_at(t, i + 1, Punct::RParen) {
        Some((seq![word_of(t, i)], i + 2))
    } else {
        None
    }
}

/// `INSERT [INTO] name [(columns)] VALUES (values)` at `i`.
pub open spec fn parse_insert(t: Seq<TokenModel>, i: int) -> Option<(StatementModel, int)> {
    let j = if kw_at(t, i + 1, "INTO"@) {
        i + 2
    } else {
        i + 1
    };
    match parse_object_name(t, j) {
        None => None,
        Some((table, e)) => {
            let cols: Option<(Seq<Seq<char>>, int)> = if punct_at(t, e, Punct::LParen) {
                parse_names_rest(t, e + 1)
            } else {
                Some((seq![], e))
            };
            match cols {
                None => None,
                Some((columns, e2)) => if kw_at(t, e2, "VALUES"@) && punct_at(t, e2 + 1, Punct::LParen) {
                    match parse_literals_rest(t, e2 + 2) {
                        None => None,
                        Some((values, e3)) => Some(
                            (StatementModel::Insert { table, columns, values }, e3),
                        ),
                    }
                } else {
                    None
                },
            }
        },
    }
}

/// `column = value` at `i`.
pub open spec fn parse_assignment(t: Seq<TokenModel>, i: int) -> Option<(AssignmentModel, int)> {
    if name_at(t, i) && punct_at(t, i + 1, Punct::Eq) {
        match parse_literal(t, i + 2) {
            None => None,
            Some((v, e)) => Some((AssignmentModel { column: word_of(t, i), value: v }, e)),
        }
    } else {
        None
    }
}

/// Assignments separated by commas, starting at `i`.
pub open spec fn parse_assignments(t: Seq<TokenModel>, i: int) -> Option<(Seq<AssignmentModel>, int)>
    decreases t.len() - i,
{
    match parse_assignment(t, i) {
        None => None,
        Some((a, e)) => if punct_at(t, e, Punct::Comma) && i < e {
            match parse_assignments(t, e + 1) {
                None => None,
                Some((as_, e2)) => Some((seq![a] + as_, e2)),
            }
        } else {
            Some((seq![a], e))
        },
    }
}

/// `UPDATE name SET assignments [WHERE condition]` at `i`.
pub open spec fn parse_update(t: Seq<TokenModel>, i: int) -> Option<(StatementModel, int)> {
    match parse_object_name(t, i + 1) {
        None => None,
        Some((table, e)) => if kw_at(t, e, "SET"@) {
            match parse_assignments(t, e + 1) {
                None => None,
                Some((assignments, e2)) => match parse_where(t, e2) {
                    None => None,
                    Some((filter, e3)) => Some(
                        (StatementModel::Update { table, assignments, filter }, e3),
                    ),
                },
            }
        } else {
            None
        },
    }
}

/// `DELETE [FROM] name [WHERE condition]` at `i`.
pub open spec fn parse_delete(t: Seq<TokenModel>, i: int) -> Option<(StatementModel, int)> {
    let j = if kw_at(t, i + 1, "FROM"@) {
        i + 2
    } else {
        i + 1
    };
    match parse_object_name(t, j) {
        None => None,
        Some((table, e)) => match parse_where(t, e) {
            None => None,
            Some((filter, e2)) => Some((StatementModel::Delete { table, filter }, e2)),
        },
    }
}

/// An optional `NULL` or `NOT NULL` at `i` (nullable when left out).
pub open spec fn parse_nullability(t: Seq<TokenModel>, i: int) -> (bool, int) {
    if kw_at(t, i, "NULL"@) {
        (true, i + 1)
    } else if kw_at(t, i, "NOT"@) && kw_at(t, i + 1, "NULL"@) {
        (false, i + 2)
    } else {
        (true, i)
    }
}

/// `ALTER TABLE name (ADD column | DROP COLUMN name | ALTER COLUMN name type
/// [[NOT] NULL])` at `i`.
pub open spec fn parse_alter(t: Seq<TokenModel>, i: int) -> Option<(StatementModel, int)> {
    if !kw_at(t, i + 1, "TABLE"@) {
        None
    } else {
        match parse_object_name(t, i + 2) {
            None => None,
            Some((table, e)) => if kw_at(t, e, "ADD"@) {
                match parse_column_def(t, e + 1) {
                    None => None,
                    Some((c, e2)) => Some(
                        (StatementModel::AlterTable { table, action: AlterActionModel::AddColumn(c) }, e2),
                    ),
                }
            } else if kw_at(t, e, "DROP"@) && kw_at(t, e + 1, "COLUMN"@) && name_at(t, e + 2) {
                Some(
                    (
                        StatementModel::AlterTable {
                            table,
                            action: AlterActionModel::DropColumn(word_of(t, e + 2)),
                        },
                        e + 3,
                    ),
                )
            } else if kw_at(t, e, "ALTER"@) && kw_at(t, e + 1, "COLUMN"@) && name_at(t, e + 2) {
                match parse_type(t, e + 3) {
                    None => None,
                    Some((dt, e2)) => {
                        let (nullable, e3) = parse_nullability(t, e2);
                        Some(
                            (
                                StatementModel::AlterTable {
                                    table,
                                    action: AlterActionModel::AlterColumn(
                                        ColumnSpecModel {
                                            name: word_of(t, e + 2),
                                            data_type: dt,
                                            nullable,
                                            primary_key: false,
                                            default: None,
                                        },
                                    ),
                                },
                                e3,
                            ),
                        )
                    },
                }
            } else {
                None
            },
        }
    }
}

/// `TRAN` or `TRANSACTION` at `i`.
pub open spec fn tran_at(t: Seq<TokenModel>, i: int) -> bool {
    kw_at(t, i, "TRAN"@) || kw_at(t, i, "TRANSACTION"@)
}

/// `BEGIN TRAN[SACTION]`, `COMMIT [TRAN[SACTION]]` or
/// `ROLLBACK [TRAN[SACTION]]` at `i`.
pub open spec fn parse_transaction(t: Seq<TokenModel>, i: int) -> Option<(StatementModel, int)> {
    if kw_at(t, i, "BEGIN"@) {
        if tran_at(t, i + 1) {
            Some((StatementModel::BeginTransaction, i + 2))
        } else {
            None
        }
    } else {
        let e = if tran_at(t, i + 1) {
            i + 2
        } else {
            i + 1
        };
        if kw_at(t, i, "COMMIT"@) {
            Some((StatementModel::CommitTransaction, e))
        } else if kw_at(t, i, "ROLLBACK"@) {
            Some((StatementModel::RollbackTransaction, e))
        } else {
            None
        }
    }
}

#[verifier::opaque]
pub open spec fn parse_statement(t: Seq<TokenModel>, i: int) -> Option<(StatementModel, int)> {
    if kw_at(t, i, "SELECT"@) {
        parse_select(t, i)
    } else if kw_at(t, i, "SET"@) {
        parse_set(t, i)
    } else if kw_at(t, i, "EXEC"@) || kw_at(t, i, "EXECUTE"@) {
        parse_exec(t, i)
    } else if kw_at(t, i, "CREATE"@) {
        parse_create(t, i)
    } else if kw_at(t, i, "INSERT"@) {
        parse_insert(t, i)
    } else if kw_at(t, i, "UPDATE"@) {
        parse_update(t, i)
    } else if kw_at(t, i, "DELETE"@) {
        parse_delete(t, i)
    } else if kw_at(t, i, "ALTER"@) {
        parse_alter(t, i)
    } else if kw_at(t, i, "BEGIN"@) || kw_at(t, i, "COMMIT"@) || kw_at(t, i, "ROLLBACK"@) {
        parse_transaction(t, i)
    } else {
        None
    }
}

/// The statements of a token list from position `i` on.
pub open spec fn parse_statements(t: Seq<TokenModel>, i: int) -> Option<Seq<StatementModel>>
    decreases t.len() - i,
{
    if i < 0 || i >= t.len() {
        Some(seq![])
    } else if punct_at(t, i, Punct::Semicolon) {
        parse_statements(t, i + 1)
    } else {
        match parse_statement(t, i) {
            None => None,
            Some((s, e)) => if i < e <= t.len() && at_statement_end(t, e) {
                match parse_statements(t, e) {
                    None => None,
                    Some(rest) => Some(seq![s] + rest),
                }
            } else {
                None
            },
        }
    }
}

/// Message of a text that does not split into tokens.
pub open spec fn msg_bad_token() -> Seq<char> {
    "Unclosed quotation mark or unexpected character"@
}

/// Message of a token list that is not a batch of the grammar.
pub open spec fn msg_bad_syntax() -> Seq<char> {
    "Incorrect syntax"@
}

pub open spec fn msg_not_single() -> Seq<char> {
    "Expected exactly one statement"@
}

/// The single statement of a text, or why there is none.
pub open spec fn spec_parse_sql(sql: Seq<char>) -> Result<StatementModel, DbErrorModel> {
    match spec_parse_batch(sql) {
        Err(e) => Err(e),
        Ok(s) => if s.len() == 1 {
            Ok(s[0])
        } else {
            Err(DbErrorModel::Parse(msg_not_single()))
        },
    }
}

/// The statements of a batch text, or the parse error.
pub open spec fn spec_parse_batch(sql: Seq<char>) -> Result<Seq<StatementModel>, DbErrorModel> {
    match lex(sql) {
        None => Err(DbErrorModel::Parse(msg_bad_token())),
        Some(t) => match parse_statements(t, 0) {
            None => Err(DbErrorModel::Parse(msg_bad_syntax())),
            Some(s) => Ok(s),
        },
    }
}

// ---------------------------------------------------------------------------
// Implementation
// ---------------------------------------------------------------------------

fn kw_at_exec(t: &Vec<Token>, i: usize, kw: &str) -> (b: bool)
    ensures
        b == kw_at(tokens_view(t@), i as int, kw@),
        b ==> i < t@.len() <= usize::MAX,
{
    if i >= t.len() {
        false
    } else {
        match &t[i] {
            Token::Word(w) => word_matches(w, kw),
            _ => false,
        }
    }
}

fn punct_at_exec(t: &Vec<Token>, i: usize, p: Punct) -> (b: bool)
    ensures
        b == punct_at(tokens_view(t@), i as int, p),
        b ==> i < t@.len() <= usize::MAX,
{
    if i >= t.len() {
        false
    } else {
        match (&t[i], p) {
            (Token::LParen, Punct::LParen) => true,
            (Token::RParen, Punct::RParen) => true,
            (Token::Comma, Punct::Comma) => true,
            (Token::Semicolon, Punct::Semicolon) => true,
            (Token::Dot, Punct::Dot) => true,
            (Token::Star, Punct::Star) => true,
            (Token::Eq, Punct::Eq) => true,
            _ => false,
        }
    }
}

fn is_reserved_exec(w: &Vec<char>) -> (b: bool)
    ensures
        b == is_reserved(w@),
{
    word_matches(w, "SELECT") || word_matches(w, "FROM") || word_matches(w, "AS")
        || word_matches(w, "WHERE") || word_matches(w, "ORDER") || word_matches(w, "GROUP")
        || word_matches(w, "HAVING") || word_matches(w, "UNION") || word_matches(w, "JOIN")
        || word_matches(w, "ON") || word_matches(w, "AND") || word_matches(w, "OR") || word_matches(
        w,
        "TOP",
    )
}

fn name_at_exec(t: &Vec<Token>, i: usize) -> (b: bool)
    ensures
        b == name_at(tokens_view(t@), i as int),
        b ==> i < t@.len() <= usize::MAX,
{
    if i >= t.len() {
        false
    } else {
        match &t[i] {
            Token::Word(w) => !is_reserved_exec(w),
            _ => false,
        }
    }
}

fn is_word_at_exec(t: &Vec<Token>, i: usize) -> (b: bool)
    ensures
        b == is_word_at(tokens_view(t@), i as int),
        b ==> i < t@.len() <= usize::MAX,
{
    if i >= t.len() {
        false
    } else {
        match &t[i] {
            Token::Word(_) => true,
            _ => false,
        }
    }
}

fn word_copy(t: &Vec<Token>, i: usize) -> (w: Vec<char>)
    requires
        is_word_at(tokens_view(t@), i as int),
    ensures
        w@ == word_of(tokens_view(t@), i as int),
{
    match &t[i] {
        Token::Word(w) => copy_chars(w),
        _ => Vec::new(),
    }
}

proof fn lemma_digits_value_prefix(d: Seq<char>, k: int)
    requires
        0 <= k <= d.len(),
    ensures
        digits_value(d.take(k)) <= digits_value(d),
    decreases d.len(),
{
    if k < d.len() {
        assert(d.drop_last().take(k) =~= d.take(k));
        lemma_digits_value_prefix(d.drop_last(), k);
    } else {
        assert(d.take(k) =~= d);
    }
}

fn digits_to_i64(d: &Vec<char>) -> (r: Option<i64>)
    ensures
        match r {
            None => digits_value(d@) > i64::MAX,
            Some(v) => digits_value(d@) <= i64::MAX && v == digits_value(d@),
        },
{
    let n = d.len();
    let mut acc: i64 = 0;
    let mut k: usize = 0;
    assert(d@.take(0) =~= Seq::<char>::empty());
    while k < n
        invariant
            n == d@.len(),
            k <= n,
            acc as int == digits_value(d@.take(k as int)),
            acc >= 0,
        decreases n - k,
    {
        let c = d[k];
        let cu = c as u32;
        let dv: i64 = if 48 <= cu && cu <= 57 {
            (cu - 48) as i64
        } else {
            0
        };
        assert(d@.take(k + 1).drop_last() =~= d@.take(k as int));
        assert(d@.take(k + 1).last() == c);
        if acc > 922337203685477580 || (acc == 922337203685477580 && dv > 7) {
            proof {
                lemma_digits_value_prefix(d@, k + 1);
            }
            return None;
        }
        acc = acc * 10 + dv;
        k = k + 1;
    }
    assert(d@.take(n as int) =~= d@);
    Some(acc)
}

fn parse_literal_exec(t: &Vec<Token>, i: usize) -> (r: Option<(Literal, usize)>)
    ensures
        match r {
            None => parse_literal(tokens_view(t@), i as int) is None,
            Some((l, e)) => parse_literal(tokens_view(t@), i as int) == Some((l@, e as int)) && i < e <= t@.len(),
        },
{
    if i >= t.len() {
        return None;
    }
    match &t[i] {
        Token::Number(d) => match digits_to_i64(d) {
            None => None,
            Some(v) => Some((Literal::Int(v), i + 1)),
        },
        Token::Str(s) => Some((Literal::Str(copy_chars(s)), i + 1)),
        Token::NStr(s) => Some((Literal::NStr(copy_chars(s)), i + 1)),
        Token::Word(w) => if word_matches(w, "NULL") {
            Some((Literal::Null, i + 1))
        } else {
            None
        },
        _ => None,
    }
}

fn parse_literals_rest_exec(t: &Vec<Token>, i: usize) -> (r: Option<(Vec<Literal>, usize)>)
    ensures
        match r {
            None => parse_literals_rest(tokens_view(t@), i as int) is None,
            Some((ls, e)) => parse_literals_rest(tokens_view(t@), i as int) == Some(
                (literals_view(ls@), e as int),
            ) && i < e <= t@.len(),
        },
    decreases t@.len() - i,
{
    match parse_literal_exec(t, i) {
        None => None,
        Some((l, e)) => {
            if punct_at_exec(t, e, Punct::Comma) && i < e {
                match parse_literals_rest_exec(t, e + 1) {
                    None => None,
                    Some((ls, e2)) => {
                        let ghost lv = l@;
                        let ghost rest = ls@;
                        let mut out: Vec<Literal> = Vec::new();
                        out.push(l);
                        let mut ls = ls;
                        out.append(&mut ls);
                        assert(literals_view(out@) =~= seq![lv] + literals_view(rest));
                        Some((out, e2))
                    },
                }
            } else if punct_at_exec(t, e, Punct::RParen) {
                let mut out: Vec<Literal> = Vec::new();
                let ghost lv = l@;
                out.push(l);
                assert(literals_view(out@) =~= seq![lv]);
                Some((out, e + 1))
            } else {
                None
            }
        },
    }
}

fn parse_column_ref_exec(t: &Vec<Token>, i: usize) -> (r: Option<(ColumnRef, usize)>)
    ensures
        match r {
            None => parse_column_ref(tokens_view(t@), i as int) is None,
            Some((x, e)) => parse_column_ref(tokens_view(t@), i as int) == Some((x@, e as int)) && i < e <= t@.len(),
        },
{
    if !name_at_exec(t, i) {
        return None;
    }
    if punct_at_exec(t, i + 1, Punct::Dot) && name_at_exec(t, i + 2) {
        Some((ColumnRef { qualifier: Some(word_copy(t, i)), name: word_copy(t, i + 2) }, i + 3))
    } else {
        Some((ColumnRef { qualifier: None, name: word_copy(t, i) }, i + 1))
    }
}

fn is_null_word_at(t: &Vec<Token>, i: usize) -> (b: bool)
    requires
        is_word_at(tokens_view(t@), i as int),
    ensures
        b == word_is(word_of(tokens_view(t@), i as int), "NULL"@),
{
    match &t[i] {
        Token::Word(w) => word_matches(w, "NULL"),
        _ => false,
    }
}

fn parse_operand_exec(t: &Vec<Token>, i: usize) -> (r: Option<(Operand, usize)>)
    ensures
        match r {
            None => parse_operand(tokens_view(t@), i as int) is None,
            Some((x, e)) => parse_operand(tokens_view(t@), i as int) == Some((x@, e as int)) && i < e <= t@.len(),
        },
{
    if is_word_at_exec(t, i) && !is_null_word_at(t, i) {
        match parse_column_ref_exec(t, i) {
            None => None,
            Some((c, e)) => Some((Operand::Column(c), e)),
        }
    } else {
        match parse_literal_exec(t, i) {
            None => None,
            Some((l, e)) => Some((Operand::Literal(l), e)),
        }
    }
}

fn parse_operands_rest_exec(t: &Vec<Token>, i: usize) -> (r: Option<(Vec<Operand>, usize)>)
    ensures
        match r {
            None => parse_operands_rest(tokens_view(t@), i as int) is None,
            Some((os, e)) => parse_operands_rest(tokens_view(t@), i as int) == Some(
                (operands_view(os@), e as int),
            ) && i < e <= t@.len(),
        },
    decreases t@.len() - i,
{
    match parse_operand_exec(t, i) {
        None => None,
        Some((o, e)) => {
            if punct_at_exec(t, e, Punct::Comma) && i < e {
                match parse_operands_rest_exec(t, e + 1) {
                    None => None,
                    Some((os, e2)) => {
                        let ghost ov = o@;
                        let ghost rest = os@;
                        let mut out: Vec<Operand> = Vec::new();
                        out.push(o);
                        let mut os = os;
                        out.append(&mut os);
                        assert(operands_view(out@) =~= seq![ov] + operands_view(rest));
                        Some((out, e2))
                    },
                }
            } else if punct_at_exec(t, e, Punct::RParen) {
                let ghost ov = o@;
                let mut out: Vec<Operand> = Vec::new();
                out.push(o);
                assert(operands_view(out@) =~= seq![ov]);
                Some((out, e + 1))
            } else {
                None
            }
        },
    }
}

fn parse_call_args_exec(t: &Vec<Token>, i: usize) -> (r: Option<(Vec<Operand>, usize)>)
    ensures
        match r {
            None => parse_call_args(tokens_view(t@), i as int) is None,
            Some((os, e)) => parse_call_args(tokens_view(t@), i as int) == Some(
                (operands_view(os@), e as int),
            ) && i < e <= t@.len(),
        },
{
    if punct_at_exec(t, i, Punct::RParen) {
        let out: Vec<Operand> = Vec::new();
        assert(operands_view(out@) =~= Seq::<OperandModel>::empty());
        Some((out, i + 1))
    } else {
        parse_operands_rest_exec(t, i)
    }
}

fn parse_expr_exec(t: &Vec<Token>, i: usize) -> (r: Option<(Expr, usize)>)
    ensures
        match r {
            None => parse_expr(tokens_view(t@), i as int) is None,
            Some((x, e)) => parse_expr(tokens_view(t@), i as int) == Some((x@, e as int)) && i < e <= t@.len(),
        },
{
    if is_word_at_exec(t, i) && !is_null_word_at(t, i) && punct_at_exec(t, i + 1, Punct::LParen) {
        match parse_call_args_exec(t, i + 2) {
            None => None,
            Some((args, e)) => Some((Expr::Call(word_copy(t, i), args), e)),
        }
    } else {
        match parse_operand_exec(t, i) {
            None => None,
            Some((o, e)) => Some((Expr::Operand(o), e)),
        }
    }
}

fn parse_item_exec(t: &Vec<Token>, i: usize) -> (r: Option<(SelectItem, usize)>)
    ensures
        match r {
            None => parse_item(tokens_view(t@), i as int) is None,
            Some((x, e)) => parse_item(tokens_view(t@), i as int) == Some((x@, e as int)) && i < e <= t@.len(),
        },
{
    match parse_expr_exec(t, i) {
        None => None,
        Some((x, e)) => {
            if kw_at_exec(t, e, "AS") {
                if name_at_exec(t, e + 1) {
                    let alias = word_copy(t, e + 1);
                    Some((SelectItem { expr: x, alias: Some(alias) }, e + 2))
                } else {
                    None
                }
            } else {
                Some((SelectItem { expr: x, alias: None }, e))
            }
        },
    }
}

fn parse_items_exec(t: &Vec<Token>, i: usize) -> (r: Option<(Vec<SelectItem>, usize)>)
    ensures
        match r {
            None => parse_items(tokens_view(t@), i as int) is None,
            Some((xs, e)) => parse_items(tokens_view(t@), i as int) == Some(
                (items_view(xs@), e as int),
            ) && i < e <= t@.len(),
        },
    decreases t@.len() - i,
{
    match parse_item_exec(t, i) {
        None => None,
        Some((x, e)) => {
            if punct_at_exec(t, e, Punct::Comma) && i < e {
                match parse_items_exec(t, e + 1) {
                    None => None,
                    Some((xs, e2)) => {
                        let ghost xv = x@;
                        let ghost rest = xs@;
                        let mut out: Vec<SelectItem> = Vec::new();
                        out.push(x);
                        let mut xs = xs;
                        out.append(&mut xs);
                        assert(items_view(out@) =~= seq![xv] + items_view(rest));
                        Some((out, e2))
                    },
                }
            } else {
                let ghost xv = x@;
                let mut out: Vec<SelectItem> = Vec::new();
                out.push(x);
                assert(items_view(out@) =~= seq![xv]);
                Some((out, e))
            }
        },
    }
}

fn parse_select_list_exec(t: &Vec<Token>, i: usize) -> (r: Option<(SelectList, usize)>)
    ensures
        match r {
            None => parse_select_list(tokens_view(t@), i as int) is None,
            Some((l, e)) => parse_select_list(tokens_view(t@), i as int) == Some((l@, e as int)) && i < e <= t@.len(),
        },
{
    if punct_at_exec(t, i, Punct::Star) {
        Some((SelectList::Star, i + 1))
    } else {
        match parse_items_exec(t, i) {
            None => None,
            Some((xs, e)) => Some((SelectList::Items(xs), e)),
        }
    }
}

fn parse_alias_exec(t: &Vec<Token>, k: usize) -> (r: Option<(Option<Vec<char>>, usize)>)
    requires
        k <= t@.len(),
    ensures
        match r {
            None => parse_alias(tokens_view(t@), k as int) is None,
            Some((a, e)) => parse_alias(tokens_view(t@), k as int) == Some(
                (crate::ast::opt_chars_view(a), e as int),
            ) && k <= e <= t@.len(),
        },
{
    if kw_at_exec(t, k, "AS") {
        if name_at_exec(t, k + 1) {
            Some((Some(word_copy(t, k + 1)), k + 2))
        } else {
            None
        }
    } else if name_at_exec(t, k) {
        Some((Some(word_copy(t, k)), k + 1))
    } else {
        Some((None, k))
    }
}

fn parse_object_name_exec(t: &Vec<Token>, i: usize) -> (r: Option<(ObjectName, usize)>)
    ensures
        match r {
            None => parse_object_name(tokens_view(t@), i as int) is None,
            Some((x, e)) => parse_object_name(tokens_view(t@), i as int) == Some((x@, e as int)) && i < e <= t@.len(),
        },
{
    if !name_at_exec(t, i) {
        return None;
    }
    if punct_at_exec(t, i + 1, Punct::Dot) && name_at_exec(t, i + 2) {
        Some((ObjectName { schema: Some(word_copy(t, i)), name: word_copy(t, i + 2) }, i + 3))
    } else {
        Some((ObjectName { schema: None, name: word_copy(t, i) }, i + 1))
    }
}

fn parse_table_exec(t: &Vec<Token>, i: usize) -> (r: Option<(TableRef, usize)>)
    ensures
        match r {
            None => parse_table(tokens_view(t@), i as int) is None,
            Some((x, e)) => parse_table(tokens_view(t@), i as int) == Some((x@, e as int)) && i < e <= t@.len(),
        },
{
    match parse_object_name_exec(t, i) {
        None => None,
        Some((object, j)) => {
            let call = punct_at_exec(t, j, Punct::LParen) && punct_at_exec(t, j + 1, Punct::RParen);
            let k = if call {
                j + 2
            } else {
                j
            };
            match parse_alias_exec(t, k) {
                None => None,
                Some((alias, e)) => Some((TableRef { object, call, alias }, e)),
            }
        },
    }
}

fn parse_comparison_exec(t: &Vec<Token>, i: usize) -> (r: Option<(Comparison, usize)>)
    ensures
        match r {
            None => parse_comparison(tokens_view(t@), i as int) is None,
            Some((x, e)) => parse_comparison(tokens_view(t@), i as int) == Some((x@, e as int)) && i < e <= t@.len(),
        },
{
    match parse_expr_exec(t, i) {
        None => None,
        Some((l, e)) => {
            if punct_at_exec(t, e, Punct::Eq) {
                match parse_expr_exec(t, e + 1) {
                    None => None,
                    Some((r, e2)) => Some((Comparison { left: l, right: r }, e2)),
                }
            } else {
                None
            }
        },
    }
}

fn parse_conditions_exec(t: &Vec<Token>, i: usize) -> (r: Option<(Vec<Comparison>, usize)>)
    ensures
        match r {
            None => parse_conditions(tokens_view(t@), i as int) is None,
            Some((cs, e)) => parse_conditions(tokens_view(t@), i as int) == Some(
                (filter_view(cs@), e as int),
            ) && i < e <= t@.len(),
        },
    decreases t@.len() - i,
{
    match parse_comparison_exec(t, i) {
        None => None,
        Some((c, e)) => {
            if kw_at_exec(t, e, "AND") && i < e {
                match parse_conditions_exec(t, e + 1) {
                    None => None,
                    Some((cs, e2)) => {
                        let ghost cv = c@;
                        let ghost rest = cs@;
                        let mut out: Vec<Comparison> = Vec::new();
                        out.push(c);
                        let mut cs = cs;
                        out.append(&mut cs);
                        assert(filter_view(out@) =~= seq![cv] + filter_view(rest));
                        Some((out, e2))
                    },
                }
            } else {
                let ghost cv = c@;
                let mut out: Vec<Comparison> = Vec::new();
                out.push(c);
                assert(filter_view(out@) =~= seq![cv]);
                Some((out, e))
            }
        },
    }
}

fn parse_where_exec(t: &Vec<Token>, i: usize) -> (r: Option<(Vec<Comparison>, usize)>)
    requires
        i <= t@.len(),
    ensures
        match r {
            None => parse_where(tokens_view(t@), i as int) is None,
            Some((cs, e)) => parse_where(tokens_view(t@), i as int) == Some(
                (filter_view(cs@), e as int),
            ) && i <= e <= t@.len(),
        },
{
    if kw_at_exec(t, i, "WHERE") {
        parse_conditions_exec(t, i + 1)
    } else {
        let out: Vec<Comparison> = Vec::new();
        assert(filter_view(out@) =~= Seq::<ComparisonModel>::empty());
        Some((out, i))
    }
}

fn parse_top_exec(t: &Vec<Token>, i: usize) -> (r: Option<(Option<i64>, usize)>)
    requires
        i <= t@.len(),
    ensures
        match r {
            None => parse_top(tokens_view(t@), i as int) is None,
            Some((x, e)) => parse_top(tokens_view(t@), i as int) == Some((x, e as int)) && i <= e
                <= t@.len(),
        },
{
    if !kw_at_exec(t, i, "TOP") {
        return Some((None, i));
    }
    if punct_at_exec(t, i + 1, Punct::LParen) {
        match parse_literal_exec(t, i + 2) {
            Some((Literal::Int(n), e)) => {
                if punct_at_exec(t, e, Punct::RParen) {
                    Some((Some(n), e + 1))
                } else {
                    None
                }
            },
            _ => None,
        }
    } else {
        match parse_literal_exec(t, i + 1) {
            Some((Literal::Int(n), e)) => Some((Some(n), e)),
            _ => None,
        }
    }
}

fn parse_order_exec(t: &Vec<Token>, i: usize) -> (r: Option<(Option<ColumnRef>, usize)>)
    requires
        i <= t@.len(),
    ensures
        match r {
            None => parse_order(tokens_view(t@), i as int) is None,
            Some((x, e)) => parse_order(tokens_view(t@), i as int) == Some(
                (crate::ast::opt_column_view(x), e as int),
            ) && i <= e <= t@.len(),
        },
{
    if kw_at_exec(t, i, "ORDER") && kw_at_exec(t, i + 1, "BY") {
        match parse_column_ref_exec(t, i + 2) {
            None => None,
            Some((c, e)) => {
                if kw_at_exec(t, e, "ASC") {
                    Some((Some(c), e + 1))
                } else {
                    Some((Some(c), e))
                }
            },
        }
    } else {
        Some((None, i))
    }
}

fn parse_from_exec(t: &Vec<Token>, i: usize) -> (r: Option<(Option<TableRef>, usize)>)
    requires
        i <= t@.len(),
    ensures
        match r {
            None => parse_from(tokens_view(t@), i as int) is None,
            Some((x, e)) => parse_from(tokens_view(t@), i as int) == Some(
                (crate::ast::opt_table_view(x), e as int),
            ) && i <= e <= t@.len(),
        },
{
    if kw_at_exec(t, i, "FROM") {
        match parse_table_exec(t, i + 1) {
            None => None,
            Some((r, e)) => Some((Some(r), e)),
        }
    } else {
        Some((None, i))
    }
}

fn parse_select_exec(t: &Vec<Token>, i: usize) -> (r: Option<(Statement, usize)>)
    requires
        i < t@.len(),
    ensures
        match r {
            None => parse_select(tokens_view(t@), i as int) is None,
            Some((x, e)) => parse_select(tokens_view(t@), i as int) == Some((x@, e as int)) && i < e <= t@.len(),
        },
{
    let _n = t.len();
    let (top, e0) = match parse_top_exec(t, i + 1) {
        None => {
            return None;
        },
        Some(x) => x,
    };
    let (list, e1) = match parse_select_list_exec(t, e0) {
        None => {
            return None;
        },
        Some(x) => x,
    };
    let (from, e2) = match parse_from_exec(t, e1) {
        None => {
            return None;
        },
        Some(x) => x,
    };
    let (filter, e3) = match parse_where_exec(t, e2) {
        None => {
            return None;
        },
        Some(x) => x,
    };
    let (order_by, e4) = match parse_order_exec(t, e3) {
        None => {
            return None;
        },
        Some(x) => x,
    };
    Some((Statement::Select(Select { top, list, from, filter, order_by }), e4))
}

fn on_off_at_exec(t: &Vec<Token>, i: usize) -> (r: Option<bool>)
    ensures
        r == on_off_at(tokens_view(t@), i as int),
{
    if kw_at_exec(t, i, "ON") {
        Some(true)
    } else if kw_at_exec(t, i, "OFF") {
        Some(false)
    } else {
        None
    }
}

fn parse_set_exec(t: &Vec<Token>, i: usize) -> (r: Option<(Statement, usize)>)
    requires
        i < t@.len(),
    ensures
        match r {
            None => parse_set(tokens_view(t@), i as int) is None,
            Some((x, e)) => parse_set(tokens_view(t@), i as int) == Some((x@, e as int)) && i < e <= t@.len(),
        },
{
    let _n = t.len();
    if !is_word_at_exec(t, i + 1) || on_off_at_exec(t, i + 1).is_some() {
        return None;
    }
    let w1 = word_copy(t, i + 1);
    match on_off_at_exec(t, i + 2) {
        Some(on) => {
            let ghost w1v = w1@;
            let words = vec![w1];
            assert(names_view(words@) =~= seq![w1v]);
            Some((Statement::SetOption { words, on }, i + 3))
        },
        None => {
            if is_word_at_exec(t, i + 2) {
                match on_off_at_exec(t, i + 3) {
                    Some(on) => {
                        let w2 = word_copy(t, i + 2);
                        let ghost w1v = w1@;
                        let ghost w2v = w2@;
                        let words = vec![w1, w2];
                        assert(names_view(words@) =~= seq![w1v, w2v]);
                        Some((Statement::SetOption { words, on }, i + 4))
                    },
                    None => None,
                }
            } else {
                None
            }
        },
    }
}

fn param_name_at_exec(t: &Vec<Token>, i: usize) -> (b: bool)
    ensures
        b == param_name_at(tokens_view(t@), i as int),
        b ==> i < t@.len() <= usize::MAX,
{
    if i >= t.len() {
        return false;
    }
    match &t[i] {
        Token::Word(w) => w.len() > 0 && w[0] == '@' && punct_at_exec(t, i + 1, Punct::Eq),
        _ => false,
    }
}

fn parse_exec_arg_exec(t: &Vec<Token>, i: usize) -> (r: Option<(ExecArg, usize)>)
    ensures
        match r {
            None => parse_exec_arg(tokens_view(t@), i as int) is None,
            Some((x, e)) => parse_exec_arg(tokens_view(t@), i as int) == Some((x@, e as int)) && i < e <= t@.len(),
        },
{
    if param_name_at_exec(t, i) {
        match parse_literal_exec(t, i + 2) {
            None => None,
            Some((v, e)) => Some((ExecArg { name: Some(word_copy(t, i)), value: v }, e)),
        }
    } else {
        match parse_literal_exec(t, i) {
            None => None,
            Some((v, e)) => Some((ExecArg { name: None, value: v }, e)),
        }
    }
}

fn parse_exec_args_exec(t: &Vec<Token>, i: usize) -> (r: Option<(Vec<ExecArg>, usize)>)
    ensures
        match r {
            None => parse_exec_args(tokens_view(t@), i as int) is None,
            Some((xs, e)) => parse_exec_args(tokens_view(t@), i as int) == Some(
                (exec_args_view(xs@), e as int),
            ) && i < e <= t@.len(),
        },
    decreases t@.len() - i,
{
    match parse_exec_arg_exec(t, i) {
        None => None,
        Some((a, e)) => {
            if punct_at_exec(t, e, Punct::Comma) && i < e {
                match parse_exec_args_exec(t, e + 1) {
                    None => None,
                    Some((xs, e2)) => {
                        let ghost av = a@;
                        let ghost rest = xs@;
                        let mut out: Vec<ExecArg> = Vec::new();
                        out.push(a);
                        let mut xs = xs;
                        out.append(&mut xs);
                        assert(exec_args_view(out@) =~= seq![av] + exec_args_view(rest));
                        Some((out, e2))
                    },
                }
            } else {
                let ghost av = a@;
                let mut out: Vec<ExecArg> = Vec::new();
                out.push(a);
                assert(exec_args_view(out@) =~= seq![av]);
                Some((out, e))
            }
        },
    }
}

fn at_statement_end_exec(t: &Vec<Token>, i: usize) -> (b: bool)
    ensures
        b == at_statement_end(tokens_view(t@), i as int),
{
    i >= t.len() || punct_at_exec(t, i, Punct::Semicolon)
}

fn parse_exec_exec(t: &Vec<Token>, i: usize) -> (r: Option<(Statement, usize)>)
    requires
        i < t@.len(),
    ensures
        match r {
            None => parse_exec(tokens_view(t@), i as int) is None,
            Some((x, e)) => parse_exec(tokens_view(t@), i as int) == Some((x@, e as int)) && i < e <= t@.len(),
        },
{
    let _n = t.len();
    if !is_word_at_exec(t, i + 1) {
        return None;
    }
    let procedure = word_copy(t, i + 1);
    if at_statement_end_exec(t, i + 2) {
        let args: Vec<ExecArg> = Vec::new();
        assert(exec_args_view(args@) =~= Seq::<ExecArgModel>::empty());
        Some((Statement::Exec { procedure, args }, i + 2))
    } else {
        match parse_exec_args_exec(t, i + 2) {
            None => None,
            Some((args, e)) => Some((Statement::Exec { procedure, args }, e)),
        }
    }
}

fn number_at_exec(t: &Vec<Token>, i: usize) -> (r: Option<u64>)
    ensures
        match r {
            None => number_at(tokens_view(t@), i as int) is None || number_at(tokens_view(t@), i as int)->0 > i64::MAX,
            Some(n) => number_at(tokens_view(t@), i as int) == Some(n as nat),
        },
{
    if i >= t.len() {
        return None;
    }
    match &t[i] {
        Token::Number(d) => match digits_to_i64(d) {
            None => None,
            Some(v) => Some(v as u64),
        },
        _ => None,
    }
}

fn parse_length_exec(t: &Vec<Token>, i: usize, limit: u64, max_ok: bool) -> (r: Option<(u16, usize)>)
    requires
        i <= t@.len(),
        limit <= 8000,
    ensures
        match r {
            None => parse_length(tokens_view(t@), i as int, limit as nat, max_ok) is None,
            Some((n, e)) => parse_length(tokens_view(t@), i as int, limit as nat, max_ok) == Some(
                (n, e as int),
            ) && i <= e <= t@.len(),
        },
{
    if !punct_at_exec(t, i, Punct::LParen) {
        return Some((1, i));
    }
    if max_ok && kw_at_exec(t, i + 1, "MAX") && punct_at_exec(t, i + 2, Punct::RParen) {
        return Some((MAX_LEN, i + 3));
    }
    match number_at_exec(t, i + 1) {
        Some(n) => {
            if 1 <= n && n <= limit && punct_at_exec(t, i + 2, Punct::RParen) {
                Some((n as u16, i + 3))
            } else {
                None
            }
        },
        None => None,
    }
}

fn parse_decimal_args_exec(t: &Vec<Token>, i: usize) -> (r: Option<(u8, u8, usize)>)
    requires
        i <= t@.len(),
    ensures
        match r {
            None => parse_decimal_args(tokens_view(t@), i as int) is None,
            Some((p, s, e)) => parse_decimal_args(tokens_view(t@), i as int) == Some(
                (p, s, e as int),
            ) && i <= e <= t@.len(),
        },
{
    if !punct_at_exec(t, i, Punct::LParen) {
        return Some((18, 0, i));
    }
    match number_at_exec(t, i + 1) {
        None => None,
        Some(p) => {
            if !(1 <= p && p <= 38) {
                None
            } else if punct_at_exec(t, i + 2, Punct::RParen) {
                Some((p as u8, 0, i + 3))
            } else if punct_at_exec(t, i + 2, Punct::Comma) {
                match number_at_exec(t, i + 3) {
                    Some(s) => {
                        if s <= p && punct_at_exec(t, i + 4, Punct::RParen) {
                            Some((p as u8, s as u8, i + 5))
                        } else {
                            None
                        }
                    },
                    None => None,
                }
            } else {
                None
            }
        },
    }
}

fn parse_type_exec(t: &Vec<Token>, i: usize) -> (r: Option<(DataType, usize)>)
    ensures
        match r {
            None => parse_type(tokens_view(t@), i as int) is None,
            Some((x, e)) => parse_type(tokens_view(t@), i as int) == Some((x, e as int)) && i < e <= t@.len(),
        },
{
    if !is_word_at_exec(t, i) {
        return None;
    }
    let w = match &t[i] {
        Token::Word(w) => w,
        _ => {
            return None;
        },
    };
    assert(w@ == word_of(tokens_view(t@), i as int));
    if word_matches(w, "BIT") {
        Some((DataType::Bit, i + 1))
    } else if word_matches(w, "TINYINT") {
        Some((DataType::TinyInt, i + 1))
    } else if word_matches(w, "SMALLINT") {
        Some((DataType::SmallInt, i + 1))
    } else if word_matches(w, "INT") || word_matches(w, "INTEGER") {
        Some((DataType::Int, i + 1))
    } else if word_matches(w, "BIGINT") {
        Some((DataType::BigInt, i + 1))
    } else if word_matches(w, "DATE") {
        Some((DataType::Date, i + 1))
    } else if word_matches(w, "DATETIME") {
        Some((DataType::DateTime, i + 1))
    } else if word_matches(w, "UNIQUEIDENTIFIER") {
        Some((DataType::UniqueIdentifier, i + 1))
    } else if word_matches(w, "SQL_VARIANT") {
        Some((DataType::SqlVariant, i + 1))
    } else if word_matches(w, "DECIMAL") || word_matches(w, "NUMERIC") {
        match parse_decimal_args_exec(t, i + 1) {
            None => None,
            Some((p, s, e)) => Some((DataType::Decimal { precision: p, scale: s }, e)),
        }
    } else if word_matches(w, "CHAR") {
        match parse_length_exec(t, i + 1, 8000, false) {
            None => None,
            Some((n, e)) => Some((DataType::Char { len: n }, e)),
        }
    } else if word_matches(w, "VARCHAR") {
        match parse_length_exec(t, i + 1, 8000, true) {
            None => None,
            Some((n, e)) => Some((DataType::VarChar { max_len: n }, e)),
        }
    } else if word_matches(w, "NCHAR") {
        match parse_length_exec(t, i + 1, 4000, false) {
            None => None,
            Some((n, e)) => Some((DataType::NChar { len: n }, e)),
        }
    } else if word_matches(w, "NVARCHAR") {
        match parse_length_exec(t, i + 1, 4000, true) {
            None => None,
            Some((n, e)) => Some((DataType::NVarChar { max_len: n }, e)),
        }
    } else {
        None
    }
}

fn parse_constraints_exec(t: &Vec<Token>, i: usize, acc: ColumnSpec) -> (r: Option<(ColumnSpec, usize)>)
    requires
        i <= t@.len(),
    ensures
        match r {
            None => parse_constraints(tokens_view(t@), i as int, acc@) is None,
            Some((x, e)) => parse_constraints(tokens_view(t@), i as int, acc@) == Some(
                (x@, e as int),
            ) && i <= e <= t@.len(),
        },
    decreases t@.len() - i,
{
    let mut acc = acc;
    if kw_at_exec(t, i, "NULL") {
        acc.nullable = true;
        parse_constraints_exec(t, i + 1, acc)
    } else if kw_at_exec(t, i, "NOT") && kw_at_exec(t, i + 1, "NULL") {
        acc.nullable = false;
        parse_constraints_exec(t, i + 2, acc)
    } else if kw_at_exec(t, i, "PRIMARY") && kw_at_exec(t, i + 1, "KEY") {
        acc.primary_key = true;
        parse_constraints_exec(t, i + 2, acc)
    } else if kw_at_exec(t, i, "DEFAULT") {
        match parse_expr_exec(t, i + 1) {
            None => None,
            Some((x, e)) => {
                acc.default = Some(x);
                parse_constraints_exec(t, e, acc)
            },
        }
    } else {
        Some((acc, i))
    }
}

fn parse_column_def_exec(t: &Vec<Token>, i: usize) -> (r: Option<(ColumnSpec, usize)>)
    ensures
        match r {
            None => parse_column_def(tokens_view(t@), i as int) is None,
            Some((x, e)) => parse_column_def(tokens_view(t@), i as int) == Some((x@, e as int)) && i < e <= t@.len(),
        },
{
    if !name_at_exec(t, i) {
        return None;
    }
    match parse_type_exec(t, i + 1) {
        None => None,
        Some((dt, e)) => parse_constraints_exec(
            t,
            e,
            ColumnSpec {
                name: word_copy(t, i),
                data_type: dt,
                nullable: true,
                primary_key: false,
                default: None,
            },
        ),
    }
}

fn parse_column_defs_exec(t: &Vec<Token>, i: usize) -> (r: Option<(Vec<ColumnSpec>, usize)>)
    ensures
        match r {
            None => parse_column_defs(tokens_view(t@), i as int) is None,
            Some((cs, e)) => parse_column_defs(tokens_view(t@), i as int) == Some(
                (column_specs_view(cs@), e as int),
            ) && i < e <= t@.len(),
        },
    decreases t@.len() - i,
{
    match parse_column_def_exec(t, i) {
        None => None,
        Some((c, e)) => {
            if punct_at_exec(t, e, Punct::Comma) && i < e {
                match parse_column_defs_exec(t, e + 1) {
                    None => None,
                    Some((cs, e2)) => {
                        let ghost cv = c@;
                        let ghost rest = cs@;
                        let mut out: Vec<ColumnSpec> = Vec::new();
                        out.push(c);
                        let mut cs = cs;
                        out.append(&mut cs);
                        assert(column_specs_view(out@) =~= seq![cv] + column_specs_view(rest));
                        Some((out, e2))
                    },
                }
            } else if punct_at_exec(t, e, Punct::RParen) {
                let ghost cv = c@;
                let mut out: Vec<ColumnSpec> = Vec::new();
                out.push(c);
                assert(column_specs_view(out@) =~= seq![cv]);
                Some((out, e + 1))
            } else {
                None
            }
        },
    }
}

fn parse_create_exec(t: &Vec<Token>, i: usize) -> (r: Option<(Statement, usize)>)
    requires
        i < t@.len(),
    ensures
        match r {
            None => parse_create(tokens_view(t@), i as int) is None,
            Some((x, e)) => parse_create(tokens_view(t@), i as int) == Some((x@, e as int)) && i < e <= t@.len(),
        },
{
    let _n = t.len();
    if !kw_at_exec(t, i + 1, "TABLE") {
        return None;
    }
    match parse_object_name_exec(t, i + 2) {
        None => None,
        Some((table, e)) => {
            if punct_at_exec(t, e, Punct::LParen) {
                match parse_column_defs_exec(t, e + 1) {
                    None => None,
                    Some((columns, e2)) => Some((Statement::CreateTable { table, columns }, e2)),
                }
            } else {
                None
            }
        },
    }
}

fn parse_names_rest_exec(t: &Vec<Token>, i: usize) -> (r: Option<(Vec<Vec<char>>, usize)>)
    ensures
        match r {
            None => parse_names_rest(tokens_view(t@), i as int) is None,
            Some((ns, e)) => parse_names_rest(tokens_view(t@), i as int) == Some(
                (names_view(ns@), e as int),
            ) && i < e <= t@.len(),
        },
    decreases t@.len() - i,
{
    if !name_at_exec(t, i) {
        return None;
    }
    if punct_at_exec(t, i + 1, Punct::Comma) {
        match parse_names_rest_exec(t, i + 2) {
            None => None,
            Some((ns, e)) => {
                let w = word_copy(t, i);
                let ghost wv = w@;
                let ghost rest = ns@;
                let mut out: Vec<Vec<char>> = Vec::new();
                out.push(w);
                let mut ns = ns;
                out.append(&mut ns);
                assert(names_view(out@) =~= seq![wv] + names_view(rest));
                Some((out, e))
            },
        }
    } else if punct_at_exec(t, i + 1, Punct::RParen) {
        let w = word_copy(t, i);
        let ghost wv = w@;
        let mut out: Vec<Vec<char>> = Vec::new();
        out.push(w);
        assert(names_view(out@) =~= seq![wv]);
        Some((out, i + 2))
    } else {
        None
    }
}

fn parse_insert_exec(t: &Vec<Token>, i: usize) -> (r: Option<(Statement, usize)>)
    requires
        i < t@.len(),
    ensures
        match r {
            None => parse_insert(tokens_view(t@), i as int) is None,
            Some((x, e)) => parse_insert(tokens_view(t@), i as int) == Some((x@, e as int)) && i < e <= t@.len(),
        },
{
    let _n = t.len();
    let j = if kw_at_exec(t, i + 1, "INTO") {
        i + 2
    } else {
        i + 1
    };
    let (table, e) = match parse_object_name_exec(t, j) {
        None => {
            return None;
        },
        Some(x) => x,
    };
    let (columns, e2) = if punct_at_exec(t, e, Punct::LParen) {
        match parse_names_rest_exec(t, e + 1) {
            None => {
                return None;
            },
            Some(x) => x,
        }
    } else {
        let none: Vec<Vec<char>> = Vec::new();
        assert(names_view(none@) =~= Seq::<Seq<char>>::empty());
        (none, e)
    };
    if kw_at_exec(t, e2, "VALUES") && punct_at_exec(t, e2 + 1, Punct::LParen) {
        match parse_literals_rest_exec(t, e2 + 2) {
            None => None,
            Some((values, e3)) => Some((Statement::Insert { table, columns, values }, e3)),
        }
    } else {
        None
    }
}

fn parse_assignment_exec(t: &Vec<Token>, i: usize) -> (r: Option<(Assignment, usize)>)
    ensures
        match r {
            None => parse_assignment(tokens_view(t@), i as int) is None,
            Some((x, e)) => parse_assignment(tokens_view(t@), i as int) == Some((x@, e as int)) && i < e <= t@.len(),
        },
{
    if name_at_exec(t, i) && punct_at_exec(t, i + 1, Punct::Eq) {
        match parse_literal_exec(t, i + 2) {
            None => None,
            Some((v, e)) => Some((Assignment { column: word_copy(t, i), value: v }, e)),
        }
    } else {
        None
    }
}

fn parse_assignments_exec(t: &Vec<Token>, i: usize) -> (r: Option<(Vec<Assignment>, usize)>)
    ensures
        match r {
            None => parse_assignments(tokens_view(t@), i as int) is None,
            Some((xs, e)) => parse_assignments(tokens_view(t@), i as int) == Some(
                (assignments_view(xs@), e as int),
            ) && i < e <= t@.len(),
        },
    decreases t@.len() - i,
{
    match parse_assignment_exec(t, i) {
        None => None,
        Some((a, e)) => {
            if punct_at_exec(t, e, Punct::Comma) && i < e {
                match parse_assignments_exec(t, e + 1) {
                    None => None,
                    Some((xs, e2)) => {
                        let ghost av = a@;
                        let ghost rest = xs@;
                        let mut out: Vec<Assignment> = Vec::new();
                        out.push(a);
                        let mut xs = xs;
                        out.append(&mut xs);
                        assert(assignments_view(out@) =~= seq![av] + assignments_view(rest));
                        Some((out, e2))
                    },
                }
            } else {
                let ghost av = a@;
                let mut out: Vec<Assignment> = Vec::new();
                out.push(a);
                assert(assignments_view(out@) =~= seq![av]);
                Some((out, e))
            }
        },
    }
}

fn parse_update_exec(t: &Vec<Token>, i: usize) -> (r: Option<(Statement, usize)>)
    requires
        i < t@.len(),
    ensures
        match r {
            None => parse_update(tokens_view(t@), i as int) is None,
            Some((x, e)) => parse_update(tokens_view(t@), i as int) == Some((x@, e as int)) && i < e <= t@.len(),
        },
{
    let _n = t.len();
    match parse_object_name_exec(t, i + 1) {
        None => None,
        Some((table, e)) => {
            if kw_at_exec(t, e, "SET") {
                match parse_assignments_exec(t, e + 1) {
                    None => None,
                    Some((assignments, e2)) => match parse_where_exec(t, e2) {
                        None => None,
                        Some((filter, e3)) => Some(
                            (Statement::Update { table, assignments, filter }, e3),
                        ),
                    },
                }
            } else {
                None
            }
        },
    }
}

fn parse_delete_exec(t: &Vec<Token>, i: usize) -> (r: Option<(Statement, usize)>)
    requires
        i < t@.len(),
    ensures
        match r {
            None => parse_delete(tokens_view(t@), i as int) is None,
            Some((x, e)) => parse_delete(tokens_view(t@), i as int) == Some((x@, e as int)) && i < e <= t@.len(),
        },
{
    let _n = t.len();
    let j = if kw_at_exec(t, i + 1, "FROM") {
        i + 2
    } else {
        i + 1
    };
    match parse_object_name_exec(t, j) {
        None => None,
        Some((table, e)) => match parse_where_exec(t, e) {
            None => None,
            Some((filter, e2)) => Some((Statement::Delete { table, filter }, e2)),
        },
    }
}

fn parse_nullability_exec(t: &Vec<Token>, i: usize) -> (r: (bool, usize))
    requires
        i <= t@.len(),
    ensures
        parse_nullability(tokens_view(t@), i as int) == (r.0, r.1 as int),
        i <= r.1 <= t@.len(),
{
    if kw_at_exec(t, i, "NULL") {
        (true, i + 1)
    } else if kw_at_exec(t, i, "NOT") && kw_at_exec(t, i + 1, "NULL") {
        (false, i + 2)
    } else {
        (true, i)
    }
}

fn parse_alter_exec(t: &Vec<Token>, i: usize) -> (r: Option<(Statement, usize)>)
    requires
        i < t@.len(),
    ensures
        match r {
            None => parse_alter(tokens_view(t@), i as int) is None,
            Some((x, e)) => parse_alter(tokens_view(t@), i as int) == Some((x@, e as int)) && i < e <= t@.len(),
        },
{
    let _n = t.len();
    if !kw_at_exec(t, i + 1, "TABLE") {
        return None;
    }
    let (table, e) = match parse_object_name_exec(t, i + 2) {
        None => {
            return None;
        },
        Some(x) => x,
    };
    if kw_at_exec(t, e, "ADD") {
        match parse_column_def_exec(t, e + 1) {
            None => None,
            Some((c, e2)) => Some((Statement::AlterTable { table, action: AlterAction::AddColumn(c) }, e2)),
        }
    } else if kw_at_exec(t, e, "DROP") && kw_at_exec(t, e + 1, "COLUMN") && name_at_exec(t, e + 2) {
        Some(
            (
                Statement::AlterTable { table, action: AlterAction::DropColumn(word_copy(t, e + 2)) },
                e + 3,
            ),
        )
    } else if kw_at_exec(t, e, "ALTER") && kw_at_exec(t, e + 1, "COLUMN") && name_at_exec(t, e + 2) {
        match parse_type_exec(t, e + 3) {
            None => None,
            Some((dt, e2)) => {
                let (nullable, e3) = parse_nullability_exec(t, e2);
                let c = ColumnSpec {
                    name: word_copy(t, e + 2),
                    data_type: dt,
                    nullable,
                    primary_key: false,
                    default: None,
                };
                Some((Statement::AlterTable { table, action: AlterAction::AlterColumn(c) }, e3))
            },
        }
    } else {
        None
    }
}

fn tran_at_exec(t: &Vec<Token>, i: usize) -> (b: bool)
    ensures
        b == tran_at(tokens_view(t@), i as int),
        b ==> i < t@.len(),
{
    kw_at_exec(t, i, "TRAN") || kw_at_exec(t, i, "TRANSACTION")
}

fn parse_transaction_exec(t: &Vec<Token>, i: usize) -> (r: Option<(Statement, usize)>)
    requires
        i < t@.len(),
    ensures
        match r {
            None => parse_transaction(tokens_view(t@), i as int) is None,
            Some((x, e)) => parse_transaction(tokens_view(t@), i as int) == Some((x@, e as int)) && i < e <= t@.len(),
        },
{
    let _n = t.len();
    if kw_at_exec(t, i, "BEGIN") {
        if tran_at_exec(t, i + 1) {
            Some((Statement::BeginTransaction, i + 2))
        } else {
            None
        }
    } else {
        let e = if tran_at_exec(t, i + 1) {
            i + 2
        } else {
            i + 1
        };
        if kw_at_exec(t, i, "COMMIT") {
            Some((Statement::CommitTransaction, e))
        } else if kw_at_exec(t, i, "ROLLBACK") {
            Some((Statement::RollbackTransaction, e))
        } else {
            None
        }
    }
}

fn parse_statement_exec(t: &Vec<Token>, i: usize) -> (r: Option<(Statement, usize)>)
    requires
        i < t@.len(),
    ensures
        match r {
            None => parse_statement(tokens_view(t@), i as int) is None,
            Some((x, e)) => parse_statement(tokens_view(t@), i as int) == Some((x@, e as int)) && i < e <= t@.len(),
        },
{
    reveal(parse_statement);
    if kw_at_exec(t, i, "SELECT") {
        parse_select_exec(t, i)
    } else if kw_at_exec(t, i, "SET") {
        parse_set_exec(t, i)
    } else if kw_at_exec(t, i, "EXEC") || kw_at_exec(t, i, "EXECUTE") {
        parse_exec_exec(t, i)
    } else if kw_at_exec(t, i, "CREATE") {
        parse_create_exec(t, i)
    } else if kw_at_exec(t, i, "INSERT") {
        parse_insert_exec(t, i)
    } else if kw_at_exec(t, i, "UPDATE") {
        parse_update_exec(t, i)
    } else if kw_at_exec(t, i, "DELETE") {
        parse_delete_exec(t, i)
    } else if kw_at_exec(t, i, "ALTER") {
        parse_alter_exec(t, i)
    } else if kw_at_exec(t, i, "BEGIN") || kw_at_exec(t, i, "COMMIT") || kw_at_exec(t, i, "ROLLBACK") {
        parse_transaction_exec(t, i)
    } else {
        None
    }
}

pub open spec fn prepend_statements(
    done: Seq<StatementModel>,
    rest: Option<Seq<StatementModel>>,
) -> Option<Seq<StatementModel>> {
    match rest {
        None => None,
        Some(r) => Some(done + r),
    }
}

/// Parses a token list into statements.
pub fn parse_tokens(t: &Vec<Token>) -> (r: Option<Vec<Statement>>)
    ensures
        match r {
            None => parse_statements(tokens_view(t@), 0) is None,
            Some(s) => parse_statements(tokens_view(t@), 0) == Some(statements_view(s@)),
        },
{
    let n = t.len();
    let mut out: Vec<Statement> = Vec::new();
    let mut i: usize = 0;
    while i < n
        invariant
            n == t@.len(),
            i <= n,
            parse_statements(tokens_view(t@), 0) == prepend_statements(
                statements_view(out@),
                parse_statements(tokens_view(t@), i as int),
            ),
        decreases n - i,
    {
        if punct_at_exec(t, i, Punct::Semicolon) {
            i = i + 1;
        } else {
            match parse_statement_exec(t, i) {
                None => {
                    return None;
                },
                Some((s, e)) => {
                    if i < e && e <= n && at_statement_end_exec(t, e) {
                        let ghost before = out@;
                        let ghost sv = s@;
                        out.push(s);
                        assert(prepend_statements(
                            statements_view(before),
                            parse_statements(tokens_view(t@), i as int),
                        ) == prepend_statements(
                            statements_view(out@),
                            parse_statements(tokens_view(t@), e as int),
                        )) by {
                            match parse_statements(tokens_view(t@), e as int) {
                                None => {},
                                Some(rest) => {
                                    assert(statements_view(before) + (seq![sv] + rest)
                                        =~= statements_view(out@) + rest);
                                },
                            }
                        }
                        i = e;
                    } else {
                        return None;
                    }
                },
            }
        }
    }
    assert(statements_view(out@) + Seq::<StatementModel>::empty() =~= statements_view(out@));
    Some(out)
}

/// Splits a batch into statements.
pub fn parse_batch(sql: &str) -> (r: Result<Vec<Statement>, DbError>)
    ensures
        match r {
            Ok(s) => spec_parse_batch(sql@) == Ok::<Seq<StatementModel>, DbErrorModel>(
                statements_view(s@),
            ),
            Err(e) => spec_parse_batch(sql@) == Err::<Seq<StatementModel>, DbErrorModel>(e@),
        },
{
    let chars = chars_of(sql);
    match tokenize(&chars) {
        None => Err(
            DbError::Parse(String::from_str("Unclosed quotation mark or unexpected character")),
        ),
        Some(toks) => match parse_tokens(&toks) {
            None => Err(DbError::Parse(String::from_str("Incorrect syntax"))),
            Some(stmts) => Ok(stmts),
        },
    }
}

/// Parses a text that holds exactly one statement.
pub fn parse_sql(sql: &str) -> (r: Result<Statement, DbError>)
    ensures
        match r {
            Ok(s) => spec_parse_sql(sql@) == Ok::<StatementModel, DbErrorModel>(s@),
            Err(e) => spec_parse_sql(sql@) == Err::<StatementModel, DbErrorModel>(e@),
        },
{
    match parse_batch(sql) {
        Err(e) => Err(e),
        Ok(stmts) => {
            if stmts.len() == 1 {
                let mut stmts = stmts;
                let s = stmts.pop().unwrap();
                Ok(s)
            } else {
                Err(DbError::Parse(String::from_str("Expected exactly one statement")))
            }
        },
    }
}

proof fn lemma_digit_val_of_digit_char(d: nat)
    requires
        d < 10,
    ensures
        digit_val(digit_char(d)) == d,
{
}

/// Reading back the decimal rendering of a number (as type names render
/// lengths, precisions and scales) gives the number: `decimal` and
/// `digits_value` are inverse.
pub proof fn law_decimal_reads_back(n: nat)
    ensures
        digits_value(decimal(n)) == n,
    decreases n,
{
    if n < 10 {
        lemma_digit_val_of_digit_char(n);
        assert(seq![digit_char(n)].drop_last() =~= Seq::<char>::empty());
        assert(digits_value(Seq::<char>::empty()) == 0);
    } else {
        law_decimal_reads_back(n / 10);
        lemma_digit_val_of_digit_char(n % 10);
        let d = decimal(n / 10).push(digit_char(n % 10));
        assert(d.drop_last() =~= decimal(n / 10));
        assert(d.last() == digit_char(n % 10));
        assert(digits_value(d) == digits_value(decimal(n / 10)) * 10 + digit_val(digit_char(n % 10)));
        assert((n / 10) * 10 + n % 10 == n) by (nonlinear_arith);
    }
}

/// The words a statement begins with.
pub open spec fn starts_statement(w: Seq<char>) -> bool {
    ||| word_is(w, "SELECT"@)
    ||| word_is(w, "SET"@)
    ||| word_is(w, "EXEC"@)
    ||| word_is(w, "EXECUTE"@)
    ||| word_is(w, "CREATE"@)
    ||| word_is(w, "INSERT"@)
    ||| word_is(w, "UPDATE"@)
    ||| word_is(w, "DELETE"@)
    ||| word_is(w, "ALTER"@)
    ||| word_is(w, "BEGIN"@)
    ||| word_is(w, "COMMIT"@)
    ||| word_is(w, "ROLLBACK"@)
}

/// The first token of a text, when it is a word.
pub open spec fn first_word(sql: Seq<char>) -> Option<Seq<char>> {
    match lex(sql) {
        Some(t) => if t.len() > 0 && t[0] is Word {
            Some(t[0]->Word_0)
        } else {
            None
        },
        None => None,
    }
}

/// A batch whose first word begins no statement of the subset (`BACKUP`,
/// `RESTORE`, `MERGE`, ...) is refused.
pub proof fn law_unknown_statement_refused(sql: Seq<char>)
    requires
        first_word(sql) is Some,
        !starts_statement(first_word(sql)->0),
    ensures
        spec_parse_batch(sql) is Err,
{
    reveal(parse_statement);
}

/// `CREATE` and `ALTER` take `TABLE` and nothing else: `CREATE DATABASE`,
/// `ALTER DATABASE`, `CREATE ASSEMBLY`, ... are refused.
pub proof fn law_create_and_alter_only_tables(sql: Seq<char>)
    requires
        first_word(sql) is Some,
        word_is(first_word(sql)->0, "CREATE"@) || word_is(first_word(sql)->0, "ALTER"@),
        !kw_at(lex(sql)->0, 1, "TABLE"@),
    ensures
        spec_parse_batch(sql) is Err,
{
    reveal(parse_statement);
    reveal_strlit("CREATE");
    reveal_strlit("ALTER");
    reveal_strlit("SELECT");
    reveal_strlit("SET");
    reveal_strlit("EXEC");
    reveal_strlit("EXECUTE");
    reveal_strlit("INSERT");
    reveal_strlit("UPDATE");
    reveal_strlit("DELETE");
    let t = lex(sql)->0;
    let w = t[0]->Word_0;
    if word_is(w, "CREATE"@) {
        assert(upper_eq(w[0], 'C'));
        assert(!word_is(w, "SELECT"@));
        assert(parse_create(t, 0) is None);
    } else {
        assert(!word_is(w, "SELECT"@) && !word_is(w, "INSERT"@) && !word_is(w, "UPDATE"@) && !word_is(w, "DELETE"@));
        assert(parse_alter(t, 0) is None);
    }
    assert(parse_statement(t, 0) is None);
    assert(!punct_at(t, 0, Punct::Semicolon));
}

/// A text literal holds fewer than `n` characters; other literals always
/// qualify.
pub open spec fn literal_fits(l: LiteralModel, n: nat) -> bool {
    match l {
        LiteralModel::Str(c) => c.len() < n,
        LiteralModel::NStr(c) => c.len() < n,
        _ => true,
    }
}

/// Every text argument of an `EXEC` holds fewer than `n` characters.
pub open spec fn statement_fits(st: StatementModel, n: nat) -> bool {
    match st {
        StatementModel::Exec { args, .. } => forall|k: int|
            0 <= k < args.len() ==> literal_fits(#[trigger] args[k].value, n),
        _ => true,
    }
}

pub open spec fn tokens_fit(t: Seq<TokenModel>, n: nat) -> bool {
    forall|k: int| 0 <= k < t.len() ==> token_fits(#[trigger] t[k], n)
}

proof fn lemma_parse_exec_args_fit(t: Seq<TokenModel>, i: int, n: nat)
    requires
        tokens_fit(t, n),
        parse_exec_args(t, i) is Some,
    ensures
        parse_exec_args(t, i) matches Some((args, e)) && forall|k: int|
            0 <= k < args.len() ==> literal_fits(#[trigger] args[k].value, n),
    decreases t.len() - i,
{
    let (a, e) = parse_exec_arg(t, i)->0;
    let j = if param_name_at(t, i) { i + 2 } else { i };
    assert(token_fits(t[j], n));
    assert(literal_fits(a.value, n));
    if punct_at(t, e, Punct::Comma) && i < e {
        lemma_parse_exec_args_fit(t, e + 1, n);
        let (rest, e2) = parse_exec_args(t, e + 1)->0;
        let args = seq![a] + rest;
        assert forall|k: int| 0 <= k < args.len() implies literal_fits(#[trigger] args[k].value, n) by {
            if k > 0 {
                assert(args[k] == rest[k - 1]);
            }
        }
    }
}

proof fn lemma_parse_statement_fits(t: Seq<TokenModel>, i: int, n: nat)
    requires
        tokens_fit(t, n),
        parse_statement(t, i) is Some,
    ensures
        parse_statement(t, i) matches Some((st, e)) && statement_fits(st, n),
{
    reveal(parse_statement);
    if kw_at(t, i, "SELECT"@) || kw_at(t, i, "SET"@) {
    } else if kw_at(t, i, "EXEC"@) || kw_at(t, i, "EXECUTE"@) {
        if is_word_at(t, i + 1) && !at_statement_end(t, i + 2) {
            lemma_parse_exec_args_fit(t, i + 2, n);
        }
    }
}

proof fn lemma_parse_statements_fit(t: Seq<TokenModel>, i: int, n: nat)
    requires
        tokens_fit(t, n),
        parse_statements(t, i) is Some,
    ensures
        forall|k: int|
            0 <= k < parse_statements(t, i)->0.len() ==> statement_fits(
                #[trigger] parse_statements(t, i)->0[k],
                n,
            ),
    decreases t.len() - i,
{
    if i < 0 || i >= t.len() {
    } else if punct_at(t, i, Punct::Semicolon) {
        lemma_parse_statements_fit(t, i + 1, n);
    } else {
        lemma_parse_statement_fits(t, i, n);
        let (st, e) = parse_statement(t, i)->0;
        lemma_parse_statements_fit(t, e, n);
        let rest = parse_statements(t, e)->0;
        let all = parse_statements(t, i)->0;
        assert(all == seq![st] + rest);
        assert forall|k: int| 0 <= k < all.len() implies statement_fits(#[trigger] all[k], n) by {
            if k > 0 {
                assert(all[k] == rest[k - 1]);
            }
        }
    }
}

/// The text arguments of every `EXEC` of a parsed batch are shorter than the
/// batch: a batch handed to `sp_describe_first_result_set` is always shorter
/// than the text it stands in.
pub proof fn law_parsed_arguments_shorter_than_batch(sql: Seq<char>)
    requires
        spec_parse_batch(sql) is Ok,
    ensures
        forall|k: int|
            0 <= k < spec_parse_batch(sql)->Ok_0.len() ==> statement_fits(
                #[trigger] spec_parse_batch(sql)->Ok_0[k],
                sql.len(),
            ),
{
    law_literals_shorter_than_text(sql);
    lemma_parse_statements_fit(lex(sql)->0, 0, sql.len());
}

} // verus!
