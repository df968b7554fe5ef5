//! The SQL adapters' own decisions: which adapter and dialect serve a database,
//! how a column's type name says it is read, how read texts and numbers become
//! values, and how insert and count results are shaped. Reading rows and running
//! statements is the driver's work.

use vstd::prelude::*;
use crate::error::{QuickDbError, ErrorView};
use crate::types::{DataValue, DataValueView, Entry, DatabaseType, QueryCondition, QueryConditionGroup,
    ConditionGroupView, LogicalOperator, to_ascii_lower, ascii_lower, entries_view, lemma_entries_view,
    values_view, lemma_values_view, conditions_view, groups_view, lemma_groups_view};
use crate::ddl::Dialect;
use crate::mongo::{doc_insert, insert_entry};
use crate::id_generator::{is_digit_char, digits_value};
use crate::text::{chars_of, nat_digits, push_u64, str_to_string, str_eq, str_starts_with};

verus! {

/// The SQLite adapter.
#[derive(Debug, Clone, Copy)]
pub struct SqliteAdapter;

/// The PostgreSQL adapter.
#[derive(Debug, Clone, Copy)]
pub struct PostgresAdapter;

/// The MySQL adapter.
#[derive(Debug, Clone)]
pub struct MysqlAdapter {
    pub name: String,
}

impl MysqlAdapter {
    /// The MySQL adapter, named `MySQL`.
    pub fn new() -> (r: MysqlAdapter)
        ensures
            r.name@ == "MySQL"@,
    {
        MysqlAdapter { name: str_to_string("MySQL") }
    }
}

impl Default for MysqlAdapter {
    fn default() -> (r: MysqlAdapter)
        ensures
            r.name@ == "MySQL"@,
    {
        MysqlAdapter::new()
    }
}

/// The SQL dialect of a database kind (none for MongoDB).
pub open spec fn dialect_of(t: DatabaseType) -> Option<Dialect> {
    match t {
        DatabaseType::SQLite => Some(Dialect::SQLite),
        DatabaseType::PostgreSQL => Some(Dialect::PostgreSQL),
        DatabaseType::MySQL => Some(Dialect::MySQL),
        DatabaseType::MongoDB => None,
    }
}

/// The SQL dialect of a database kind, if it is a SQL database.
pub fn dialect_for(t: DatabaseType) -> (r: Option<Dialect>)
    ensures
        r == dialect_of(t),
{
    match t {
        DatabaseType::SQLite => Some(Dialect::SQLite),
        DatabaseType::PostgreSQL => Some(Dialect::PostgreSQL),
        DatabaseType::MySQL => Some(Dialect::MySQL),
        DatabaseType::MongoDB => None,
    }
}

// ---------------------------------------------------------------------------
// Reading columns
// ---------------------------------------------------------------------------

/// How a column's value is read.
#[derive(Debug, Clone, Copy, PartialEq, Eq, Structural)]
pub enum ColumnRead {
    /// A signed integer.
    Integer,
    /// An unsigned integer ([`unsigned_value`] when above `i64::MAX`).
    UnsignedInteger,
    Float,
    Boolean,
    Text,
    Uuid,
    Json,
    DateTime,
    /// Anything else: read as text.
    Other,
}

/// How MySQL columns are read, by their type name.
pub open spec fn mysql_column_read(sql_type_name: Seq<char>) -> ColumnRead {
    if sql_type_name == "INT"@ || sql_type_name == "BIGINT"@ || sql_type_name == "SMALLINT"@ || sql_type_name == "TINYINT"@ {
        ColumnRead::Integer
    } else if sql_type_name == "INT UNSIGNED"@ || sql_type_name == "BIGINT UNSIGNED"@ || sql_type_name == "SMALLINT UNSIGNED"@
        || sql_type_name == "TINYINT UNSIGNED"@ {
        ColumnRead::UnsignedInteger
    } else if sql_type_name == "FLOAT"@ || sql_type_name == "DOUBLE"@ {
        ColumnRead::Float
    } else if sql_type_name == "BOOLEAN"@ || sql_type_name == "BOOL"@ {
        ColumnRead::Boolean
    } else if sql_type_name == "VARCHAR"@ || sql_type_name == "TEXT"@ || sql_type_name == "CHAR"@ {
        ColumnRead::Text
    } else if sql_type_name == "JSON"@ {
        ColumnRead::Json
    } else if sql_type_name == "DATETIME"@ || sql_type_name == "TIMESTAMP"@ {
        ColumnRead::DateTime
    } else {
        ColumnRead::Other
    }
}

/// How a MySQL column with type name `sql_type_name` is read.
pub fn mysql_column_kind(sql_type_name: &str) -> (r: ColumnRead)
    ensures
        r == mysql_column_read(sql_type_name@),
{
    if str_eq(sql_type_name, "INT") || str_eq(sql_type_name, "BIGINT") || str_eq(sql_type_name, "SMALLINT") || str_eq(
        sql_type_name,
        "TINYINT",
    ) {
        ColumnRead::Integer
    } else if str_eq(sql_type_name, "INT UNSIGNED") || str_eq(sql_type_name, "BIGINT UNSIGNED") || str_eq(
        sql_type_name,
        "SMALLINT UNSIGNED",
    ) || str_eq(sql_type_name, "TINYINT UNSIGNED") {
        ColumnRead::UnsignedInteger
    } else if str_eq(sql_type_name, "FLOAT") || str_eq(sql_type_name, "DOUBLE") {
        ColumnRead::Float
    } else if str_eq(sql_type_name, "BOOLEAN") || str_eq(sql_type_name, "BOOL") {
        ColumnRead::Boolean
    } else if str_eq(sql_type_name, "VARCHAR") || str_eq(sql_type_name, "TEXT") || str_eq(sql_type_name, "CHAR") {
        ColumnRead::Text
    } else if str_eq(sql_type_name, "JSON") {
        ColumnRead::Json
    } else if str_eq(sql_type_name, "DATETIME") || str_eq(sql_type_name, "TIMESTAMP") {
        ColumnRead::DateTime
    } else {
        ColumnRead::Other
    }
}

/// How PostgreSQL columns are read, by their type name.
pub open spec fn postgres_column_read(sql_type_name: Seq<char>) -> ColumnRead {
    if sql_type_name == "INT4"@ || sql_type_name == "INT8"@ {
        ColumnRead::Integer
    } else if sql_type_name == "FLOAT4"@ || sql_type_name == "FLOAT8"@ {
        ColumnRead::Float
    } else if sql_type_name == "BOOL"@ {
        ColumnRead::Boolean
    } else if sql_type_name == "TEXT"@ || sql_type_name == "VARCHAR"@ || sql_type_name == "CHAR"@ {
        ColumnRead::Text
    } else if sql_type_name == "UUID"@ {
        ColumnRead::Uuid
    } else if sql_type_name == "JSON"@ || sql_type_name == "JSONB"@ {
        ColumnRead::Json
    } else if sql_type_name == "TIMESTAMP"@ || sql_type_name == "TIMESTAMPTZ"@ {
        ColumnRead::DateTime
    } else {
        ColumnRead::Other
    }
}

/// How a PostgreSQL column with type name `sql_type_name` is read.
pub fn postgres_column_kind(sql_type_name: &str) -> (r: ColumnRead)
    ensures
        r == postgres_column_read(sql_type_name@),
{
    if str_eq(sql_type_name, "INT4") || str_eq(sql_type_name, "INT8") {
        ColumnRead::Integer
    } else if str_eq(sql_type_name, "FLOAT4") || str_eq(sql_type_name, "FLOAT8") {
        ColumnRead::Float
    } else if str_eq(sql_type_name, "BOOL") {
        ColumnRead::Boolean
    } else if str_eq(sql_type_name, "TEXT") || str_eq(sql_type_name, "VARCHAR") || str_eq(sql_type_name, "CHAR") {
        ColumnRead::Text
    } else if str_eq(sql_type_name, "UUID") {
        ColumnRead::Uuid
    } else if str_eq(sql_type_name, "JSON") || str_eq(sql_type_name, "JSONB") {
        ColumnRead::Json
    } else if str_eq(sql_type_name, "TIMESTAMP") || str_eq(sql_type_name, "TIMESTAMPTZ") {
        ColumnRead::DateTime
    } else {
        ColumnRead::Other
    }
}

// ---------------------------------------------------------------------------
// Numbers and flags read as text
// ---------------------------------------------------------------------------

/// The value of an unsigned integer: the number when it fits in `i64`, else its
/// decimal text.
pub open spec fn unsigned_value_spec(u: u64) -> DataValueView {
    if u <= i64::MAX {
        DataValueView::Int(u as i64)
    } else {
        DataValueView::String(nat_digits(u as nat))
    }
}

/// The value of an unsigned integer read from a column.
pub fn unsigned_value(u: u64) -> (r: DataValue)
    ensures
        r@ == unsigned_value_spec(u),
{
    if u <= 9223372036854775807u64 {
        DataValue::Int(u as i64)
    } else {
        let mut s = String::new();
        push_u64(&mut s, u);
        proof {
            assert(Seq::<char>::empty() + nat_digits(u as nat) =~= nat_digits(u as nat));
        }
        DataValue::String(s)
    }
}

/// One or more decimal digits.
pub open spec fn all_digits(d: Seq<char>) -> bool {
    d.len() > 0 && (forall|i: int| 0 <= i < d.len() ==> is_digit_char(#[trigger] d[i]))
}

/// The number that `str::parse::<i64>` reads from `s`, if any: an optional `+`
/// or `-`, then one or more decimal digits, within the range of `i64`.
pub open spec fn i64_text_value(s: Seq<char>) -> Option<i64> {
    let signed = s.len() > 0 && (s[0] == '-' || s[0] == '+');
    let d = if signed {
        s.drop_first()
    } else {
        s
    };
    let v = digits_value(d);
    if all_digits(d) {
        if s[0] == '-' {
            if v <= 9223372036854775808 {
                Some((-v) as i64)
            } else {
                None
            }
        } else if v <= i64::MAX {
            Some(v as i64)
        } else {
            None
        }
    } else {
        None
    }
}

/// The number that `str::parse::<u64>` reads from `s`, if any: an optional `+`,
/// then one or more decimal digits, within the range of `u64`.
pub open spec fn u64_text_value(s: Seq<char>) -> Option<u64> {
    let d = if s.len() > 0 && s[0] == '+' {
        s.drop_first()
    } else {
        s
    };
    if all_digits(d) && digits_value(d) <= u64::MAX {
        Some(digits_value(d) as u64)
    } else {
        None
    }
}

/// The value of the digits of `cs` from `start`, capped at 2^64 (`None` when a
/// non-digit occurs or there are no digits).
fn digits_from(cs: &Vec<char>, start: usize) -> (r: Option<u128>)
    requires
        start <= cs.len(),
    ensures
        ({
            let d = cs@.skip(start as int);
            match r {
                None => !all_digits(d),
                Some(v) => all_digits(d) && v == if digits_value(d) < 18446744073709551616 {
                    digits_value(d)
                } else {
                    18446744073709551616
                },
            }
        }),
{
    let ghost d = cs@.skip(start as int);
    if start >= cs.len() {
        return None;
    }
    let cap: u128 = 18446744073709551616u128;
    let mut v: u128 = 0;
    let mut i: usize = start;
    assert(d.take(0) =~= Seq::<char>::empty());
    while i < cs.len()
        invariant
            start <= i <= cs.len(),
            d == cs@.skip(start as int),
            cap == 18446744073709551616u128,
            v <= cap,
            v == if digits_value(d.take(i - start)) < cap { digits_value(d.take(i - start)) } else { cap as nat },
            forall|j: int| 0 <= j < i - start ==> is_digit_char(#[trigger] d[j]),
        decreases cs.len() - i,
    {
        let c = cs[i];
        assert(d[i - start] == c);
        if !('0' <= c && c <= '9') {
            assert(!is_digit_char(d[i - start]));
            return None;
        }
        let dv: u128 = ((c as u32) - ('0' as u32)) as u128;
        let ghost t = d.take(i - start + 1);
        assert(t.drop_last() =~= d.take(i - start));
        assert(t.last() == c);
        if v >= cap {
            v = cap;
        } else {
            let w = v * 10 + dv;
            v = if w >= cap {
                cap
            } else {
                w
            };
        }
        i = i + 1;
    }
    assert(d.take(i - start) =~= d);
    Some(v)
}

/// Reads an `i64` from a text as `str::parse::<i64>` does.
pub fn parse_i64(s: &str) -> (r: Option<i64>)
    ensures
        r == i64_text_value(s@),
{
    let cs = chars_of(s);
    let signed = cs.len() > 0 && (cs[0] == '-' || cs[0] == '+');
    let start: usize = if signed {
        1
    } else {
        0
    };
    proof {
        if signed {
            assert(s@.drop_first() =~= cs@.skip(1));
        } else {
            assert(s@ =~= cs@.skip(0));
        }
    }
    match digits_from(&cs, start) {
        None => None,
        Some(v) => {
            if cs[0] == '-' {
                if v <= 9223372036854775808u128 {
                    if v == 9223372036854775808u128 {
                        Some(i64::MIN)
                    } else {
                        let p: i64 = v as i64;
                        Some(-p)
                    }
                } else {
                    None
                }
            } else if v <= 9223372036854775807u128 {
                Some(v as i64)
            } else {
                None
            }
        },
    }
}

/// Reads a `u64` from a text as `str::parse::<u64>` does.
pub fn parse_u64(s: &str) -> (r: Option<u64>)
    ensures
        r == u64_text_value(s@),
{
    let cs = chars_of(s);
    let start: usize = if cs.len() > 0 && cs[0] == '+' {
        1
    } else {
        0
    };
    proof {
        if start == 1 {
            assert(s@.drop_first() =~= cs@.skip(1));
        } else {
            assert(s@ =~= cs@.skip(0));
        }
    }
    match digits_from(&cs, start) {
        None => None,
        Some(v) => if v <= 18446744073709551615u128 {
            Some(v as u64)
        } else {
            None
        },
    }
}

/// A signed integer column read as text: the number it holds, else the text.
pub open spec fn int_text_spec(s: Seq<char>) -> DataValueView {
    match i64_text_value(s) {
        Some(i) => DataValueView::Int(i),
        None => DataValueView::String(s),
    }
}

/// The value of a signed integer column read as text.
pub fn int_from_text(s: String) -> (r: DataValue)
    ensures
        r@ == int_text_spec(s@),
{
    match parse_i64(s.as_str()) {
        Some(i) => DataValue::Int(i),
        None => DataValue::String(s),
    }
}

/// An unsigned integer column read as text: as [`unsigned_value_spec`] when it
/// holds a `u64`, else the `i64` it holds, else the text.
pub open spec fn unsigned_text_spec(s: Seq<char>) -> DataValueView {
    match u64_text_value(s) {
        Some(u) => unsigned_value_spec(u),
        None => int_text_spec(s),
    }
}

/// The value of an unsigned integer column read as text.
pub fn unsigned_from_text(s: String) -> (r: DataValue)
    ensures
        r@ == unsigned_text_spec(s@),
{
    match parse_u64(s.as_str()) {
        Some(u) => unsigned_value(u),
        None => int_from_text(s),
    }
}

/// A boolean column read as text: `true`, `1`, `yes`, `on` and `false`, `0`, `no`,
/// `off` in any case give the flag; any other text is kept.
pub open spec fn bool_text_spec(s: Seq<char>) -> DataValueView {
    let l = ascii_lower(s);
    if l == "true"@ || l == "1"@ || l == "yes"@ || l == "on"@ {
        DataValueView::Bool(true)
    } else if l == "false"@ || l == "0"@ || l == "no"@ || l == "off"@ {
        DataValueView::Bool(false)
    } else {
        DataValueView::String(s)
    }
}

/// The value of a boolean column read as text.
///
/// Lowercasing only ASCII letters decides the same matches as full lowercasing:
/// no other character lowercases into these words.
pub fn bool_from_text(s: String) -> (r: DataValue)
    ensures
        r@ == bool_text_spec(s@),
{
    let l = to_ascii_lower(s.as_str());
    let ls = l.as_str();
    if str_eq(ls, "true") || str_eq(ls, "1") || str_eq(ls, "yes") || str_eq(ls, "on") {
        DataValue::Bool(true)
    } else if str_eq(ls, "false") || str_eq(ls, "0") || str_eq(ls, "no") || str_eq(ls, "off") {
        DataValue::Bool(false)
    } else {
        DataValue::String(s)
    }
}

/// How a column read that may be SQL NULL becomes a value: NULL is null, else `f`
/// of the value.
pub open spec fn or_null<T>(v: Option<T>, f: spec_fn(T) -> DataValueView) -> DataValueView {
    match v {
        None => DataValueView::Null,
        Some(x) => f(x),
    }
}

/// The error for an integer column that no read could decode.
pub open spec fn integer_read_error(column_name: Seq<char>) -> ErrorView {
    ErrorView::SerializationError { message: "无法读取整数字段 '"@ + column_name + "' 的值，所有类型转换都失败"@ }
}

/// A MySQL signed integer column, from the attempts to read it as `i64`, `i32`,
/// `u64`, `u32` and text, in that order (`None` for a failed attempt, `Some(None)`
/// for NULL): the first attempt that succeeded decides; a `u64` above `i64::MAX`
/// becomes its decimal text, and a text its `i64` value when it holds one.
pub open spec fn mysql_integer_spec(
    as_i64: Option<Option<i64>>,
    as_i32: Option<Option<i32>>,
    as_u64: Option<Option<u64>>,
    as_u32: Option<Option<u32>>,
    as_text: Option<Option<Seq<char>>>,
    column_name: Seq<char>,
) -> Result<DataValueView, ErrorView> {
    if as_i64 is Some {
        Ok(or_null(as_i64->0, |i: i64| DataValueView::Int(i)))
    } else if as_i32 is Some {
        Ok(or_null(as_i32->0, |i: i32| DataValueView::Int(i as i64)))
    } else if as_u64 is Some {
        Ok(or_null(as_u64->0, |u: u64| unsigned_value_spec(u)))
    } else if as_u32 is Some {
        Ok(or_null(as_u32->0, |u: u32| DataValueView::Int(u as i64)))
    } else if as_text is Some {
        Ok(or_null(as_text->0, |s: Seq<char>| int_text_spec(s)))
    } else {
        Err(integer_read_error(column_name))
    }
}

/// The text read of a column by its view.
pub open spec fn text_read_view(r: Option<Option<String>>) -> Option<Option<Seq<char>>> {
    match r {
        None => None,
        Some(None) => Some(None),
        Some(Some(s)) => Some(Some(s@)),
    }
}

/// The value of a MySQL signed integer column from its read attempts.
pub fn mysql_integer_read(
    as_i64: Option<Option<i64>>,
    as_i32: Option<Option<i32>>,
    as_u64: Option<Option<u64>>,
    as_u32: Option<Option<u32>>,
    as_text: Option<Option<String>>,
    column_name: &str,
) -> (r: Result<DataValue, QuickDbError>)
    ensures
        match mysql_integer_spec(as_i64, as_i32, as_u64, as_u32, text_read_view(as_text), column_name@) {
            Ok(v) => r is Ok && r->Ok_0@ == v,
            Err(e) => r is Err && r->Err_0@ == e,
        },
{
    match as_i64 {
        Some(v) => {
            return Ok(match v {
                Some(i) => DataValue::Int(i),
                None => DataValue::Null,
            });
        },
        None => {},
    }
    match as_i32 {
        Some(v) => {
            return Ok(match v {
                Some(i) => DataValue::Int(i as i64),
                None => DataValue::Null,
            });
        },
        None => {},
    }
    match as_u64 {
        Some(v) => {
            return Ok(match v {
                Some(u) => unsigned_value(u),
                None => DataValue::Null,
            });
        },
        None => {},
    }
    match as_u32 {
        Some(v) => {
            return Ok(match v {
                Some(u) => DataValue::Int(u as i64),
                None => DataValue::Null,
            });
        },
        None => {},
    }
    match as_text {
        Some(v) => Ok(match v {
            Some(s) => int_from_text(s),
            None => DataValue::Null,
        }),
        None => {
            let mut m = str_to_string("无法读取整数字段 '");
            m.append(column_name);
            m.append("' 的值，所有类型转换都失败");
            Err(QuickDbError::SerializationError { message: m })
        },
    }
}

/// A MySQL unsigned integer column, from the attempts to read it as `i64`, `u64`
/// and text: an `i64` read decides when it succeeded (a negative number is taken
/// from the `u64` read instead, wrapped into `i64`, or null without one); else the
/// `u64` read ([`unsigned_value_spec`]); else the text
/// ([`unsigned_text_spec`]); null when every attempt failed.
pub open spec fn mysql_unsigned_spec(
    as_i64: Option<Option<i64>>,
    as_u64: Option<Option<u64>>,
    as_text: Option<Option<Seq<char>>>,
) -> DataValueView {
    match as_i64 {
        Some(Some(i)) => if i < 0 {
            match as_u64 {
                Some(Some(u)) => DataValueView::Int(u as i64),
                _ => DataValueView::Null,
            }
        } else {
            DataValueView::Int(i)
        },
        Some(None) => DataValueView::Null,
        None => match as_u64 {
            Some(v) => or_null(v, |u: u64| unsigned_value_spec(u)),
            None => match as_text {
                Some(v) => or_null(v, |s: Seq<char>| unsigned_text_spec(s)),
                None => DataValueView::Null,
            },
        },
    }
}

/// The value of a MySQL unsigned integer column from its read attempts.
pub fn mysql_unsigned_read(
    as_i64: Option<Option<i64>>,
    as_u64: Option<Option<u64>>,
    as_text: Option<Option<String>>,
) -> (r: DataValue)
    ensures
        r@ == mysql_unsigned_spec(as_i64, as_u64, text_read_view(as_text)),
{
    match as_i64 {
        Some(Some(i)) => if i < 0 {
            match as_u64 {
                Some(Some(u)) => DataValue::Int(u as i64),
                _ => DataValue::Null,
            }
        } else {
            DataValue::Int(i)
        },
        Some(None) => DataValue::Null,
        None => match as_u64 {
            Some(Some(u)) => unsigned_value(u),
            Some(None) => DataValue::Null,
            None => match as_text {
                Some(Some(s)) => unsigned_from_text(s),
                Some(None) => DataValue::Null,
                None => DataValue::Null,
            },
        },
    }
}

/// The error for a boolean column that no read could decode.
pub open spec fn bool_read_error(column_name: Seq<char>) -> ErrorView {
    ErrorView::SerializationError { message: "无法读取布尔字段 '"@ + column_name + "'"@ }
}

/// A MySQL boolean column, from the attempts to read it as `bool`, `i8` and text,
/// in that order: a number is true when not zero, a text as [`bool_text_spec`].
pub open spec fn mysql_bool_spec(
    as_bool: Option<Option<bool>>,
    as_i8: Option<Option<i8>>,
    as_text: Option<Option<Seq<char>>>,
    column_name: Seq<char>,
) -> Result<DataValueView, ErrorView> {
    if as_bool is Some {
        Ok(or_null(as_bool->0, |b: bool| DataValueView::Bool(b)))
    } else if as_i8 is Some {
        Ok(or_null(as_i8->0, |i: i8| DataValueView::Bool(i != 0)))
    } else if as_text is Some {
        Ok(or_null(as_text->0, |s: Seq<char>| bool_text_spec(s)))
    } else {
        Err(bool_read_error(column_name))
    }
}

/// The value of a MySQL boolean column from its read attempts.
pub fn mysql_bool_read(
    as_bool: Option<Option<bool>>,
    as_i8: Option<Option<i8>>,
    as_text: Option<Option<String>>,
    column_name: &str,
) -> (r: Result<DataValue, QuickDbError>)
    ensures
        match mysql_bool_spec(as_bool, as_i8, text_read_view(as_text), column_name@) {
            Ok(v) => r is Ok && r->Ok_0@ == v,
            Err(e) => r is Err && r->Err_0@ == e,
        },
{
    match as_bool {
        Some(Some(b)) => Ok(DataValue::Bool(b)),
        Some(None) => Ok(DataValue::Null),
        None => match as_i8 {
            Some(Some(i)) => Ok(DataValue::Bool(i != 0)),
            Some(None) => Ok(DataValue::Null),
            None => match as_text {
                Some(Some(s)) => Ok(bool_from_text(s)),
                Some(None) => Ok(DataValue::Null),
                None => {
                    let mut m = str_to_string("无法读取布尔字段 '");
                    m.append(column_name);
                    m.append("'");
                    Err(QuickDbError::SerializationError { message: m })
                },
            },
        },
    }
}

/// A PostgreSQL integer column, from the attempts to read it as `i32` and `i64`:
/// the first that succeeded decides, null when neither did.
pub open spec fn postgres_integer_spec(as_i32: Option<Option<i32>>, as_i64: Option<Option<i64>>) -> DataValueView {
    match as_i32 {
        Some(v) => or_null(v, |i: i32| DataValueView::Int(i as i64)),
        None => match as_i64 {
            Some(v) => or_null(v, |i: i64| DataValueView::Int(i)),
            None => DataValueView::Null,
        },
    }
}

/// The value of a PostgreSQL integer column from its read attempts.
pub fn postgres_integer_read(as_i32: Option<Option<i32>>, as_i64: Option<Option<i64>>) -> (r: DataValue)
    ensures
        r@ == postgres_integer_spec(as_i32, as_i64),
{
    match as_i32 {
        Some(Some(i)) => DataValue::Int(i as i64),
        Some(None) => DataValue::Null,
        None => match as_i64 {
            Some(Some(i)) => DataValue::Int(i),
            _ => DataValue::Null,
        },
    }
}

/// A text column (and a column of unknown type, read as text): the text, or null
/// when it is NULL or could not be read.
pub open spec fn text_column_spec(as_text: Option<Option<Seq<char>>>) -> DataValueView {
    match as_text {
        Some(Some(s)) => DataValueView::String(s),
        _ => DataValueView::Null,
    }
}

/// The value of a text column from its read.
pub fn text_column_read(as_text: Option<Option<String>>) -> (r: DataValue)
    ensures
        r@ == text_column_spec(text_read_view(as_text)),
{
    match as_text {
        Some(Some(s)) => DataValue::String(s),
        _ => DataValue::Null,
    }
}

/// The record of a row's columns, in column order; a column named like an earlier
/// one replaces its value.
pub open spec fn row_record(cols: Seq<(Seq<char>, DataValueView)>) -> Seq<(Seq<char>, DataValueView)>
    decreases cols.len(),
{
    if cols.len() == 0 {
        Seq::empty()
    } else {
        doc_insert(row_record(cols.drop_last()), cols.last().0, cols.last().1)
    }
}

/// The record of a row, from its columns' names and values in column order.
pub fn row_to_record(columns: &Vec<Entry>) -> (r: Vec<Entry>)
    ensures
        entries_view(r@) == row_record(entries_view(columns@)),
{
    let mut out: Vec<Entry> = Vec::new();
    let mut i: usize = 0;
    proof {
        lemma_entries_view(columns@);
        assert(columns@.take(0) =~= Seq::<Entry>::empty());
    }
    while i < columns.len()
        invariant
            i <= columns.len(),
            entries_view(out@) == row_record(entries_view(columns@.take(i as int))),
        decreases columns.len() - i,
    {
        let key = columns[i].key.clone();
        let value = columns[i].value.deep_clone();
        insert_entry(&mut out, key, value);
        proof {
            let t = columns@.take(i + 1);
            assert(t.drop_last() =~= columns@.take(i as int));
            lemma_entries_view(t);
            assert(entries_view(t).drop_last() == entries_view(t.drop_last()));
            assert(entries_view(t).last() == (columns@[i as int].key@, columns@[i as int].value@));
        }
        i = i + 1;
    }
    proof {
        assert(columns@.take(i as int) =~= columns@);
    }
    out
}

/// The SQLite columns whose 0/1 integers are read as flags.
pub open spec fn flag_column(name: Seq<char>) -> bool {
    name == "is_active"@ || name == "active"@ || name == "enabled"@ || name == "disabled"@ || name == "verified"@
        || name == "is_admin"@ || name == "is_deleted"@
}

/// A SQLite integer: a flag when the column is a flag column and the number is 0
/// or 1, else the number.
pub open spec fn sqlite_int_spec(column: Seq<char>, i: i64) -> DataValueView {
    if flag_column(column) && (i == 0 || i == 1) {
        DataValueView::Bool(i == 1)
    } else {
        DataValueView::Int(i)
    }
}

/// The value of a SQLite integer read from `column`.
pub fn sqlite_int_value(column: &str, i: i64) -> (r: DataValue)
    ensures
        r@ == sqlite_int_spec(column@, i),
{
    let flag = str_eq(column, "is_active") || str_eq(column, "active") || str_eq(column, "enabled") || str_eq(
        column,
        "disabled",
    ) || str_eq(column, "verified") || str_eq(column, "is_admin") || str_eq(column, "is_deleted");
    if flag && (i == 0 || i == 1) {
        DataValue::Bool(i == 1)
    } else {
        DataValue::Int(i)
    }
}

/// A SQLite column, from the attempts to read it as text, `i64`, `f64` (by its bit
/// pattern), `bool` and bytes, in that order: the first that succeeded decides,
/// an integer as [`sqlite_int_spec`]; null when NULL or when every attempt failed.
pub open spec fn sqlite_column_spec(
    column: Seq<char>,
    as_text: Option<Option<Seq<char>>>,
    as_i64: Option<Option<i64>>,
    as_f64: Option<Option<u64>>,
    as_bool: Option<Option<bool>>,
    as_bytes: Option<Option<Seq<u8>>>,
) -> DataValueView {
    if as_text is Some {
        or_null(as_text->0, |t: Seq<char>| DataValueView::String(t))
    } else if as_i64 is Some {
        or_null(as_i64->0, |i: i64| sqlite_int_spec(column, i))
    } else if as_f64 is Some {
        or_null(as_f64->0, |f: u64| DataValueView::Float(f))
    } else if as_bool is Some {
        or_null(as_bool->0, |b: bool| DataValueView::Bool(b))
    } else if as_bytes is Some {
        or_null(as_bytes->0, |b: Seq<u8>| DataValueView::Bytes(b))
    } else {
        DataValueView::Null
    }
}

/// The bytes read of a column by its view.
pub open spec fn bytes_read_view(r: Option<Option<Vec<u8>>>) -> Option<Option<Seq<u8>>> {
    match r {
        None => None,
        Some(None) => Some(None),
        Some(Some(b)) => Some(Some(b@)),
    }
}

/// The value of a SQLite column from its read attempts.
pub fn sqlite_column_read(
    column: &str,
    as_text: Option<Option<String>>,
    as_i64: Option<Option<i64>>,
    as_f64: Option<Option<u64>>,
    as_bool: Option<Option<bool>>,
    as_bytes: Option<Option<Vec<u8>>>,
) -> (r: DataValue)
    ensures
        r@ == sqlite_column_spec(column@, text_read_view(as_text), as_i64, as_f64, as_bool, bytes_read_view(as_bytes)),
{
    match as_text {
        Some(Some(t)) => { return DataValue::String(t); },
        Some(None) => { return DataValue::Null; },
        None => {},
    }
    match as_i64 {
        Some(Some(i)) => { return sqlite_int_value(column, i); },
        Some(None) => { return DataValue::Null; },
        None => {},
    }
    match as_f64 {
        Some(Some(f)) => { return DataValue::Float(f); },
        Some(None) => { return DataValue::Null; },
        None => {},
    }
    match as_bool {
        Some(Some(b)) => { return DataValue::Bool(b); },
        Some(None) => { return DataValue::Null; },
        None => {},
    }
    match as_bytes {
        Some(Some(b)) => DataValue::Bytes(b),
        _ => DataValue::Null,
    }
}

// ---------------------------------------------------------------------------
// Results
// ---------------------------------------------------------------------------

/// The value under the first entry named `key`, if any.
pub open spec fn entry_value(es: Seq<(Seq<char>, DataValueView)>, key: Seq<char>) -> Option<DataValueView>
    decreases es.len(),
{
    if es.len() == 0 {
        None
    } else if es[0].0 == key {
        Some(es[0].1)
    } else {
        entry_value(es.drop_first(), key)
    }
}

/// The position of the first entry named `key`.
fn find_entry(es: &Vec<Entry>, key: &str) -> (r: Option<usize>)
    ensures
        match r {
            None => entry_value(entries_view(es@), key@) is None,
            Some(i) => i < es@.len() && entry_value(entries_view(es@), key@) == Some(es@[i as int].value@),
        },
{
    let ghost ev = entries_view(es@);
    proof {
        lemma_entries_view(es@);
    }
    let mut i: usize = 0;
    assert(ev.skip(0) =~= ev);
    while i < es.len()
        invariant
            i <= es.len(),
            ev == entries_view(es@),
            ev.len() == es.len(),
            forall|j: int| 0 <= j < es.len() ==> #[trigger] ev[j] == (es@[j].key@, es@[j].value@),
            entry_value(ev, key@) == entry_value(ev.skip(i as int), key@),
        decreases es.len() - i,
    {
        proof {
            assert(ev.skip(i as int)[0] == ev[i as int]);
            assert(ev.skip(i as int).drop_first() =~= ev.skip(i + 1));
        }
        if str_eq(es[i].key.as_str(), key) {
            return Some(i);
        }
        i = i + 1;
    }
    proof {
        assert(ev.skip(i as int) =~= Seq::<(Seq<char>, DataValueView)>::empty());
    }
    None
}

/// MySQL's insert result: `{id, affected_rows}`, the ID by [`unsigned_value_spec`]
/// and the count as `i64` (wrapping above `i64::MAX`).
pub open spec fn mysql_insert_spec(last_id: u64, affected_rows: u64) -> DataValueView {
    DataValueView::Object(
        seq![("id"@, unsigned_value_spec(last_id)), ("affected_rows"@, DataValueView::Int(affected_rows as i64))],
    )
}

fn pair_object(k1: &str, v1: DataValue, k2: &str, v2: DataValue) -> (r: DataValue)
    ensures
        r@ == DataValueView::Object(seq![(k1@, v1@), (k2@, v2@)]),
{
    let mut es: Vec<Entry> = Vec::new();
    es.push(Entry { key: str_to_string(k1), value: v1 });
    es.push(Entry { key: str_to_string(k2), value: v2 });
    proof {
        let s = es@;
        assert(s.drop_last().drop_last() =~= Seq::<Entry>::empty());
        assert(entries_view(s.drop_last().drop_last()) == Seq::<(Seq<char>, DataValueView)>::empty());
        assert(s.drop_last().last() == s[0]);
        assert(entries_view(s.drop_last()) =~= seq![(s[0].key@, s[0].value@)]);
        assert(entries_view(s) =~= seq![(k1@, v1@), (k2@, v2@)]);
    }
    DataValue::Object(es)
}

/// The result of a MySQL insert, from the inserted ID and the affected row count.
pub fn mysql_insert_result(last_id: u64, affected_rows: u64) -> (r: DataValue)
    ensures
        r@ == mysql_insert_spec(last_id, affected_rows),
{
    let id = unsigned_value(last_id);
    let n: i64 = affected_rows as i64;
    pair_object("id", id, "affected_rows", DataValue::Int(n))
}

/// SQLite's insert result: the record's own `id` (or else `_id`) value when it has
/// one; otherwise the new row ID when positive, else `{id, affected_rows}`.
pub open spec fn sqlite_insert_spec(data: Seq<(Seq<char>, DataValueView)>, rowid: i64, affected_rows: u64) -> DataValueView {
    match entry_value(data, "id"@) {
        Some(v) => v,
        None => match entry_value(data, "_id"@) {
            Some(v) => v,
            None => if rowid > 0 {
                DataValueView::Int(rowid)
            } else {
                DataValueView::Object(
                    seq![("id"@, DataValueView::Int(rowid)), ("affected_rows"@, DataValueView::Int(affected_rows as i64))],
                )
            },
        },
    }
}

/// The result of a SQLite insert of `data`, from the new row ID and the affected row count.
pub fn sqlite_insert_result(data: &Vec<Entry>, rowid: i64, affected_rows: u64) -> (r: DataValue)
    ensures
        r@ == sqlite_insert_spec(entries_view(data@), rowid, affected_rows),
{
    match find_entry(data, "id") {
        Some(i) => data[i].value.deep_clone(),
        None => match find_entry(data, "_id") {
            Some(i) => data[i].value.deep_clone(),
            None => if rowid > 0 {
                DataValue::Int(rowid)
            } else {
                let n: i64 = affected_rows as i64;
                pair_object("id", DataValue::Int(rowid), "affected_rows", DataValue::Int(n))
            },
        },
    }
}

/// Whether a PostgreSQL column default makes the column a serial one (it draws
/// from a sequence: `nextval...`).
pub fn postgres_serial_default(column_default: &str) -> (r: bool)
    ensures
        r == "nextval"@.is_prefix_of(column_default@),
{
    str_starts_with(column_default, "nextval")
}

/// The entries a PostgreSQL insert sends: the record's entries, without `id` when
/// the record has none or the table numbers its `id` itself.
pub open spec fn postgres_insert_entries(data: Seq<(Seq<char>, DataValueView)>, serial_id: bool) -> Seq<(Seq<char>, DataValueView)> {
    if entry_value(data, "id"@) is None || serial_id {
        data.filter(|e: (Seq<char>, DataValueView)| e.0 != "id"@)
    } else {
        data
    }
}

/// The entries of a record that a PostgreSQL insert sends.
pub fn postgres_insert_data(data: &Vec<Entry>, serial_id: bool) -> (r: Vec<Entry>)
    ensures
        entries_view(r@) == postgres_insert_entries(entries_view(data@), serial_id),
{
    let has_id = find_entry(data, "id").is_some();
    let drop_id = !has_id || serial_id;
    let ghost dv = entries_view(data@);
    let ghost keep = |e: (Seq<char>, DataValueView)| e.0 != "id"@;
    proof {
        lemma_entries_view(data@);
    }
    let mut out: Vec<Entry> = Vec::new();
    let mut i: usize = 0;
    proof {
        assert(dv.take(0) =~= Seq::<(Seq<char>, DataValueView)>::empty());
        reveal(Seq::filter);
        assert(dv.take(0).filter(keep) =~= Seq::<(Seq<char>, DataValueView)>::empty());
    }
    while i < data.len()
        invariant
            i <= data.len(),
            dv == entries_view(data@),
            dv.len() == data@.len(),
            forall|j: int| 0 <= j < data@.len() ==> #[trigger] dv[j] == (data@[j].key@, data@[j].value@),
            keep == (|e: (Seq<char>, DataValueView)| e.0 != "id"@),
            entries_view(out@) == if drop_id { dv.take(i as int).filter(keep) } else { dv.take(i as int) },
        decreases data.len() - i,
    {
        let ghost o0 = out@;
        let skip = drop_id && str_eq(data[i].key.as_str(), "id");
        if !skip {
            out.push(Entry { key: data[i].key.clone(), value: data[i].value.deep_clone() });
            proof {
                assert(out@.drop_last() =~= o0);
            }
        }
        proof {
            let t = dv.take(i + 1);
            assert(t.drop_last() =~= dv.take(i as int));
            assert(t.last() == dv[i as int]);
            reveal(Seq::filter);
            assert(t.filter(keep) == if keep(t.last()) { t.drop_last().filter(keep).push(t.last()) } else {
                t.drop_last().filter(keep)
            });
        }
        i = i + 1;
    }
    proof {
        assert(dv.take(i as int) =~= dv);
    }
    out
}

/// PostgreSQL's insert result: the first returned row, else `{affected_rows: 1}`.
pub open spec fn postgres_insert_spec(rows: Seq<DataValueView>) -> DataValueView {
    if rows.len() > 0 {
        rows[0]
    } else {
        DataValueView::Object(seq![("affected_rows"@, DataValueView::Int(1))])
    }
}

/// The result of a PostgreSQL insert, from the rows it returned.
pub fn postgres_insert_result(rows: Vec<DataValue>) -> (r: DataValue)
    ensures
        r@ == postgres_insert_spec(values_view(rows@)),
{
    proof {
        lemma_values_view(rows@);
    }
    if rows.len() > 0 {
        rows[0].deep_clone()
    } else {
        let mut es: Vec<Entry> = Vec::new();
        es.push(Entry { key: str_to_string("affected_rows"), value: DataValue::Int(1) });
        proof {
            lemma_entries_view(es@);
            assert(entries_view(es@) =~= seq![("affected_rows"@, DataValueView::Int(1))]);
        }
        DataValue::Object(es)
    }
}

/// The count that a `COUNT(*) AS count` query returned: the integer under `count`
/// in the first row (as `u64`, wrapping when negative), else 0.
pub open spec fn count_spec(rows: Seq<DataValueView>) -> u64 {
    if rows.len() > 0 && rows[0] is Object {
        match entry_value(rows[0]->Object_0, "count"@) {
            Some(DataValueView::Int(c)) => c as u64,
            _ => 0,
        }
    } else {
        0
    }
}

/// The count from the rows of a count query.
pub fn count_from_rows(rows: &Vec<DataValue>) -> (r: u64)
    ensures
        r == count_spec(values_view(rows@)),
{
    proof {
        lemma_values_view(rows@);
    }
    if rows.len() == 0 {
        return 0;
    }
    match &rows[0] {
        DataValue::Object(es) => match find_entry(es, "count") {
            Some(i) => match &es[i].value {
                DataValue::Int(c) => *c as u64,
                _ => 0,
            },
            None => 0,
        },
        _ => 0,
    }
}

/// The groups that plain conditions stand for: none for no conditions, else one
/// `And` group of the single conditions, in order.
pub open spec fn conditions_as_groups(cs: Seq<crate::types::QueryConditionView>) -> Seq<ConditionGroupView> {
    if cs.len() == 0 {
        Seq::empty()
    } else {
        seq![
            ConditionGroupView::Group {
                operator: LogicalOperator::And,
                conditions: cs.map_values(|c: crate::types::QueryConditionView| ConditionGroupView::Single(c)),
            },
        ]
    }
}

/// The condition groups of a list of plain conditions.
pub fn conditions_to_groups(conditions: &[QueryCondition]) -> (r: Vec<QueryConditionGroup>)
    ensures
        groups_view(r@) == conditions_as_groups(conditions_view(conditions@)),
{
    let mut out: Vec<QueryConditionGroup> = Vec::new();
    if conditions.len() == 0 {
        proof {
            assert(groups_view(out@) =~= Seq::<ConditionGroupView>::empty());
        }
        return out;
    }
    let mut singles: Vec<QueryConditionGroup> = Vec::new();
    let mut i: usize = 0;
    while i < conditions.len()
        invariant
            i <= conditions.len(),
            singles@.len() == i,
            forall|j: int| 0 <= j < i ==> (#[trigger] singles@[j])@ == ConditionGroupView::Single(conditions@[j]@),
        decreases conditions.len() - i,
    {
        singles.push(QueryConditionGroup::Single(conditions[i].deep_clone()));
        i = i + 1;
    }
    proof {
        lemma_groups_view(singles@);
        assert(groups_view(singles@) =~= conditions_view(conditions@).map_values(
            |c: crate::types::QueryConditionView| ConditionGroupView::Single(c),
        ));
    }
    let ghost gv = groups_view(singles@);
    let g = QueryConditionGroup::Group { operator: LogicalOperator::And, conditions: singles };
    assert(g@ == ConditionGroupView::Group { operator: LogicalOperator::And, conditions: gv });
    out.push(g);
    proof {
        assert(out@.drop_last() =~= Seq::<QueryConditionGroup>::empty());
        assert(groups_view(out@.drop_last()) == Seq::<ConditionGroupView>::empty());
        assert(out@.last()@ == ConditionGroupView::Group { operator: LogicalOperator::And, conditions: gv });
        assert(groups_view(out@) =~= conditions_as_groups(conditions_view(conditions@)));
    }
    out
}


/// The ID a create operation reports: for an object result, its `id` (else its
/// `_id`) value, and an error when it has neither; any other result is the ID itself.
pub open spec fn created_id_spec(result: DataValueView) -> Result<DataValueView, ErrorView> {
    match result {
        DataValueView::Object(es) => match entry_value(es, "id"@) {
            Some(v) => Ok(v),
            None => match entry_value(es, "_id"@) {
                Some(v) => Ok(v),
                None => Err(ErrorView::QueryError { message: "创建操作返回的数据中缺少id字段"@ }),
            },
        },
        other => Ok(other),
    }
}

/// The ID of a created record, from what the create operation returned.
pub fn created_id(result: DataValue) -> (r: Result<DataValue, QuickDbError>)
    ensures
        match created_id_spec(result@) {
            Ok(v) => r is Ok && r->Ok_0@ == v,
            Err(e) => r is Err && r->Err_0@ == e,
        },
{
    match result {
        DataValue::Object(es) => match find_entry(&es, "id") {
            Some(i) => Ok(es[i].value.deep_clone()),
            None => match find_entry(&es, "_id") {
                Some(i) => Ok(es[i].value.deep_clone()),
                None => Err(QuickDbError::QueryError { message: str_to_string("创建操作返回的数据中缺少id字段") }),
            },
        },
        other => Ok(other),
    }
}

} // verus!
