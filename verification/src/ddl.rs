//! Table and index DDL for SQLite, PostgreSQL and MySQL, and the field kinds
//! that an inferred schema's columns are created with.

use vstd::prelude::*;
use crate::text::{join_seqs, join_strings, string_views, str_to_string, str_eq, push_u64, nat_digits};
use crate::model::{FieldType, FloatBound};
use crate::schema::{ColumnType, ColumnDefinition};
use crate::types::DataValueView;

verus! {

/// SQL dialects.
#[derive(Debug, Clone, Copy, PartialEq, Eq, Structural)]
pub enum Dialect {
    SQLite,
    PostgreSQL,
    MySQL,
}

/// `VARCHAR(n)`.
pub open spec fn varchar(n: nat) -> Seq<char> {
    "VARCHAR("@ + nat_digits(n) + ")"@
}

/// `DECIMAL(p,s)`.
pub open spec fn decimal(p: nat, s: nat) -> Seq<char> {
    "DECIMAL("@ + nat_digits(p) + ","@ + nat_digits(s) + ")"@
}

/// The SQL column type of a field kind in a dialect.
pub open spec fn sql_type(d: Dialect, t: FieldType) -> Seq<char> {
    match t {
        FieldType::String { max_length, .. } => match max_length {
            Some(n) => varchar(n as nat),
            None => "TEXT"@,
        },
        FieldType::Integer { .. } => if d == Dialect::MySQL { "INT"@ } else { "INTEGER"@ },
        FieldType::BigInteger => if d == Dialect::SQLite { "INTEGER"@ } else { "BIGINT"@ },
        FieldType::Float { .. } => if d == Dialect::MySQL { "FLOAT"@ } else { "REAL"@ },
        FieldType::Double => match d {
            Dialect::SQLite => "REAL"@,
            Dialect::PostgreSQL => "DOUBLE PRECISION"@,
            Dialect::MySQL => "DOUBLE"@,
        },
        FieldType::Text => "TEXT"@,
        FieldType::Boolean => if d == Dialect::SQLite { "INTEGER"@ } else { "BOOLEAN"@ },
        FieldType::DateTime => match d {
            Dialect::SQLite => "TEXT"@,
            Dialect::PostgreSQL => "TIMESTAMPTZ"@,
            Dialect::MySQL => "DATETIME"@,
        },
        FieldType::Date => if d == Dialect::SQLite { "TEXT"@ } else { "DATE"@ },
        FieldType::Time => if d == Dialect::SQLite { "TEXT"@ } else { "TIME"@ },
        FieldType::Uuid => match d {
            Dialect::SQLite => "TEXT"@,
            Dialect::PostgreSQL => "UUID"@,
            Dialect::MySQL => "VARCHAR(36)"@,
        },
        FieldType::Json => match d {
            Dialect::SQLite => "TEXT"@,
            Dialect::PostgreSQL => "JSONB"@,
            Dialect::MySQL => "JSON"@,
        },
        FieldType::Binary => match d {
            Dialect::SQLite => "BLOB"@,
            Dialect::PostgreSQL => "BYTEA"@,
            Dialect::MySQL => "BLOB"@,
        },
        FieldType::Decimal { precision, scale } => if d == Dialect::SQLite {
            "REAL"@
        } else {
            decimal(precision as nat, scale as nat)
        },
        FieldType::Array { .. } => match d {
            Dialect::SQLite => "TEXT"@,
            Dialect::PostgreSQL => "JSONB"@,
            Dialect::MySQL => "JSON"@,
        },
        FieldType::Object { .. } => match d {
            Dialect::SQLite => "TEXT"@,
            Dialect::PostgreSQL => "JSONB"@,
            Dialect::MySQL => "JSON"@,
        },
        FieldType::Reference { .. } => if d == Dialect::MySQL { "VARCHAR(255)"@ } else { "TEXT"@ },
    }
}

/// The SQL column type of a field kind in a dialect.
pub fn sql_type_exec(d: Dialect, t: &FieldType) -> (r: String)
    ensures
        r@ == sql_type(d, *t),
{
    match t {
        FieldType::String { max_length, .. } => match max_length {
            Some(n) => {
                let mut s = str_to_string("VARCHAR(");
                push_u64(&mut s, *n as u64);
                s.append(")");
                s
            },
            None => str_to_string("TEXT"),
        },
        FieldType::Integer { .. } => str_to_string(if d == Dialect::MySQL { "INT" } else { "INTEGER" }),
        FieldType::BigInteger => str_to_string(if d == Dialect::SQLite { "INTEGER" } else { "BIGINT" }),
        FieldType::Float { .. } => str_to_string(if d == Dialect::MySQL { "FLOAT" } else { "REAL" }),
        FieldType::Double => str_to_string(match d {
            Dialect::SQLite => "REAL",
            Dialect::PostgreSQL => "DOUBLE PRECISION",
            Dialect::MySQL => "DOUBLE",
        }),
        FieldType::Text => str_to_string("TEXT"),
        FieldType::Boolean => str_to_string(if d == Dialect::SQLite { "INTEGER" } else { "BOOLEAN" }),
        FieldType::DateTime => str_to_string(match d {
            Dialect::SQLite => "TEXT",
            Dialect::PostgreSQL => "TIMESTAMPTZ",
            Dialect::MySQL => "DATETIME",
        }),
        FieldType::Date => str_to_string(if d == Dialect::SQLite { "TEXT" } else { "DATE" }),
        FieldType::Time => str_to_string(if d == Dialect::SQLite { "TEXT" } else { "TIME" }),
        FieldType::Uuid => str_to_string(match d {
            Dialect::SQLite => "TEXT",
            Dialect::PostgreSQL => "UUID",
            Dialect::MySQL => "VARCHAR(36)",
        }),
        FieldType::Json => str_to_string(match d {
            Dialect::SQLite => "TEXT",
            Dialect::PostgreSQL => "JSONB",
            Dialect::MySQL => "JSON",
        }),
        FieldType::Binary => str_to_string(match d {
            Dialect::SQLite => "BLOB",
            Dialect::PostgreSQL => "BYTEA",
            Dialect::MySQL => "BLOB",
        }),
        FieldType::Decimal { precision, scale } => {
            if d == Dialect::SQLite {
                str_to_string("REAL")
            } else {
                let mut s = str_to_string("DECIMAL(");
                push_u64(&mut s, *precision as u64);
                s.append(",");
                push_u64(&mut s, *scale as u64);
                s.append(")");
                s
            }
        },
        FieldType::Array { .. } => str_to_string(match d {
            Dialect::SQLite => "TEXT",
            Dialect::PostgreSQL => "JSONB",
            Dialect::MySQL => "JSON",
        }),
        FieldType::Object { .. } => str_to_string(match d {
            Dialect::SQLite => "TEXT",
            Dialect::PostgreSQL => "JSONB",
            Dialect::MySQL => "JSON",
        }),
        FieldType::Reference { .. } => str_to_string(if d == Dialect::MySQL { "VARCHAR(255)" } else { "TEXT" }),
    }
}

/// The column for the `id` field when the fields have none.
pub open spec fn default_id_def(d: Dialect) -> Seq<char> {
    match d {
        Dialect::SQLite => "id INTEGER PRIMARY KEY AUTOINCREMENT"@,
        Dialect::PostgreSQL => "id SERIAL PRIMARY KEY"@,
        Dialect::MySQL => "id BIGINT UNSIGNED NOT NULL AUTO_INCREMENT PRIMARY KEY"@,
    }
}

/// The column definition of a field: `<name> <type>`, and for the `id` field a
/// primary key (auto-incremented on MySQL; `SERIAL` for integers on PostgreSQL).
pub open spec fn column_def(d: Dialect, name: Seq<char>, t: FieldType) -> Seq<char> {
    if name == "id"@ {
        match d {
            Dialect::SQLite => name + " "@ + sql_type(d, t) + " PRIMARY KEY"@,
            Dialect::MySQL => name + " "@ + sql_type(d, t) + " AUTO_INCREMENT PRIMARY KEY"@,
            Dialect::PostgreSQL => if t is Integer {
                "id SERIAL PRIMARY KEY"@
            } else {
                name + " "@ + sql_type(d, t) + " PRIMARY KEY"@
            },
        }
    } else {
        name + " "@ + sql_type(d, t)
    }
}

/// Whether one of the fields is named `id`.
pub open spec fn fields_have_id(fields: Seq<(String, FieldType)>) -> bool {
    exists|i: int| 0 <= i < fields.len() && (#[trigger] fields[i]).0@ == "id"@
}

/// The column definitions of a table: the default `id` column first when the
/// fields have no `id`, then one per field in order.
pub open spec fn column_defs(d: Dialect, fields: Seq<(String, FieldType)>) -> Seq<Seq<char>> {
    let own = fields.map_values(|f: (String, FieldType)| column_def(d, f.0@, f.1));
    if fields_have_id(fields) {
        own
    } else {
        seq![default_id_def(d)] + own
    }
}

/// `CREATE TABLE IF NOT EXISTS <table> (<definitions>)`.
pub open spec fn create_table_sql(d: Dialect, table: Seq<char>, fields: Seq<(String, FieldType)>) -> Seq<char> {
    "CREATE TABLE IF NOT EXISTS "@ + table + " ("@ + join_seqs(column_defs(d, fields), ", "@) + ")"@
}

fn column_def_exec(d: Dialect, name: &String, t: &FieldType) -> (r: String)
    ensures
        r@ == column_def(d, name@, *t),
{
    if str_eq(name.as_str(), "id") {
        match d {
            Dialect::SQLite => {
                let mut s = name.clone();
                s.append(" ");
                let ty = sql_type_exec(d, t);
                s.append(ty.as_str());
                s.append(" PRIMARY KEY");
                s
            },
            Dialect::MySQL => {
                let mut s = name.clone();
                s.append(" ");
                let ty = sql_type_exec(d, t);
                s.append(ty.as_str());
                s.append(" AUTO_INCREMENT PRIMARY KEY");
                s
            },
            Dialect::PostgreSQL => {
                match t {
                    FieldType::Integer { .. } => str_to_string("id SERIAL PRIMARY KEY"),
                    _ => {
                        let mut s = name.clone();
                        s.append(" ");
                        let ty = sql_type_exec(d, t);
                        s.append(ty.as_str());
                        s.append(" PRIMARY KEY");
                        s
                    },
                }
            },
        }
    } else {
        let mut s = name.clone();
        s.append(" ");
        let ty = sql_type_exec(d, t);
        s.append(ty.as_str());
        s
    }
}

/// The table-creation statement for `fields` in a dialect.
pub fn create_table_sql_exec(d: Dialect, table: &str, fields: &Vec<(String, FieldType)>) -> (r: String)
    ensures
        r@ == create_table_sql(d, table@, fields@),
{
    let mut has_id = false;
    let mut i: usize = 0;
    while i < fields.len()
        invariant
            i <= fields.len(),
            has_id == exists|j: int| 0 <= j < i && (#[trigger] fields@[j]).0@ == "id"@,
        decreases fields.len() - i,
    {
        if str_eq(fields[i].0.as_str(), "id") {
            has_id = true;
        }
        i = i + 1;
    }
    let mut parts: Vec<String> = Vec::new();
    if !has_id {
        parts.push(str_to_string(match d {
            Dialect::SQLite => "id INTEGER PRIMARY KEY AUTOINCREMENT",
            Dialect::PostgreSQL => "id SERIAL PRIMARY KEY",
            Dialect::MySQL => "id BIGINT UNSIGNED NOT NULL AUTO_INCREMENT PRIMARY KEY",
        }));
    }
    let off: usize = parts.len();
    let mut k: usize = 0;
    while k < fields.len()
        invariant
            k <= fields.len(),
            off == (if has_id { 0usize } else { 1usize }),
            parts@.len() == off + k,
            !has_id ==> parts@[0]@ == default_id_def(d),
            forall|j: int| 0 <= j < k ==> (#[trigger] parts@[off + j])@ == column_def(d, fields@[j].0@, fields@[j].1),
        decreases fields.len() - k,
    {
        let c = column_def_exec(d, &fields[k].0, &fields[k].1);
        parts.push(c);
        k = k + 1;
    }
    let ghost own = fields@.map_values(|f: (String, FieldType)| column_def(d, f.0@, f.1));
    assert(string_views(parts@) =~= column_defs(d, fields@)) by {
        if has_id {
            assert forall|j: int| 0 <= j < parts@.len() implies string_views(parts@)[j] == own[j] by {
                assert(parts@[0 + j]@ == column_def(d, fields@[j].0@, fields@[j].1));
            }
        } else {
            assert forall|j: int| 1 <= j < parts@.len() implies string_views(parts@)[j] == own[j - 1] by {
                assert(parts@[1 + (j - 1)]@ == column_def(d, fields@[j - 1].0@, fields@[j - 1].1));
            }
        }
    }
    let mut sql = str_to_string("CREATE TABLE IF NOT EXISTS ");
    sql.append(table);
    sql.append(" (");
    let body = join_strings(&parts, ", ");
    sql.append(body.as_str());
    sql.append(")");
    sql
}


/// `CREATE [UNIQUE ]INDEX [IF NOT EXISTS ]<name> ON <table> (<fields>)`; MySQL has no
/// `IF NOT EXISTS`.
pub open spec fn create_index_sql(d: Dialect, table: Seq<char>, index_name: Seq<char>, fields: Seq<Seq<char>>, unique: bool) -> Seq<char> {
    "CREATE "@ + (if unique { "UNIQUE "@ } else { ""@ }) + "INDEX "@ + (if d == Dialect::MySQL {
        ""@
    } else {
        "IF NOT EXISTS "@
    }) + index_name + " ON "@ + table + " ("@ + join_seqs(fields, ", "@) + ")"@
}

/// The statement that creates index `index_name` on `fields` of `table`.
pub fn create_index_sql_exec(d: Dialect, table: &str, index_name: &str, fields: &Vec<String>, unique: bool) -> (r: String)
    ensures
        r@ == create_index_sql(d, table@, index_name@, string_views(fields@), unique),
{
    let mut sql = str_to_string("CREATE ");
    sql.append(if unique { "UNIQUE " } else { "" });
    sql.append("INDEX ");
    sql.append(if d == Dialect::MySQL { "" } else { "IF NOT EXISTS " });
    sql.append(index_name);
    sql.append(" ON ");
    sql.append(table);
    sql.append(" (");
    let cols = join_strings(fields, ", ");
    sql.append(cols.as_str());
    sql.append(")");
    sql
}

/// `DROP TABLE IF EXISTS <table>`, with `CASCADE` on PostgreSQL.
pub open spec fn drop_table_sql(d: Dialect, table: Seq<char>) -> Seq<char> {
    "DROP TABLE IF EXISTS "@ + table + if d == Dialect::PostgreSQL { " CASCADE"@ } else { ""@ }
}

/// The statement that drops `table`.
pub fn drop_table_sql_exec(d: Dialect, table: &str) -> (r: String)
    ensures
        r@ == drop_table_sql(d, table@),
{
    let mut sql = str_to_string("DROP TABLE IF EXISTS ");
    sql.append(table);
    sql.append(if d == Dialect::PostgreSQL { " CASCADE" } else { "" });
    sql
}

/// The query that tells whether a table exists; its one parameter is the table name.
pub open spec fn table_exists_sql(d: Dialect) -> Seq<char> {
    match d {
        Dialect::SQLite => "SELECT name FROM sqlite_master WHERE type='table' AND name=?"@,
        Dialect::PostgreSQL => "SELECT table_name FROM information_schema.tables WHERE table_schema = 'public' AND table_name = $1"@,
        Dialect::MySQL => "SELECT TABLE_NAME FROM INFORMATION_SCHEMA.TABLES WHERE TABLE_SCHEMA = DATABASE() AND TABLE_NAME = ?"@,
    }
}

/// The query that tells whether a table exists.
pub fn table_exists_sql_exec(d: Dialect) -> (r: &'static str)
    ensures
        r@ == table_exists_sql(d),
{
    match d {
        Dialect::SQLite => "SELECT name FROM sqlite_master WHERE type='table' AND name=?",
        Dialect::PostgreSQL => "SELECT table_name FROM information_schema.tables WHERE table_schema = 'public' AND table_name = $1",
        Dialect::MySQL => "SELECT TABLE_NAME FROM INFORMATION_SCHEMA.TABLES WHERE TABLE_SCHEMA = DATABASE() AND TABLE_NAME = ?",
    }
}

/// `SELECT * FROM <table> WHERE id = ? LIMIT 1`: SQLite's lookup by ID.
pub fn sqlite_find_by_id_sql(table: &str) -> (r: String)
    ensures
        r@ == "SELECT * FROM "@ + table@ + " WHERE id = ? LIMIT 1"@,
{
    let mut sql = str_to_string("SELECT * FROM ");
    sql.append(table);
    sql.append(" WHERE id = ? LIMIT 1");
    sql
}

/// The field kind that a column of an inferred schema is created with: text for
/// strings, texts and unknown kinds; integers, floats, booleans, date-times, UUIDs
/// and JSON as themselves (all without constraints).
pub open spec fn field_kind_of(c: ColumnType) -> FieldType {
    match c {
        ColumnType::Integer | ColumnType::SmallInteger | ColumnType::BigInteger => FieldType::Integer {
            min_value: None,
            max_value: None,
        },
        ColumnType::Float | ColumnType::Double => FieldType::Float { min_value: None, max_value: None },
        ColumnType::Boolean => FieldType::Boolean,
        ColumnType::DateTime | ColumnType::Date | ColumnType::Time | ColumnType::Timestamp => FieldType::DateTime,
        ColumnType::Uuid => FieldType::Uuid,
        ColumnType::Json => FieldType::Json,
        _ => FieldType::String { max_length: None, min_length: None, regex: None },
    }
}

/// The field kind a column of an inferred schema is created with.
pub fn field_kind_for_column(c: &ColumnType) -> (r: FieldType)
    ensures
        r == field_kind_of(*c),
{
    match c {
        ColumnType::Integer | ColumnType::SmallInteger | ColumnType::BigInteger => FieldType::Integer {
            min_value: None,
            max_value: None,
        },
        ColumnType::Float | ColumnType::Double => FieldType::Float { min_value: None, max_value: None },
        ColumnType::Boolean => FieldType::Boolean,
        ColumnType::DateTime | ColumnType::Date | ColumnType::Time | ColumnType::Timestamp => FieldType::DateTime,
        ColumnType::Uuid => FieldType::Uuid,
        ColumnType::Json => FieldType::Json,
        _ => FieldType::String { max_length: None, min_length: None, regex: None },
    }
}

/// The fields a table is auto-created with from inferred columns: each column's
/// name with [`field_kind_of`] its type, in order.
pub fn fields_for_columns(columns: &Vec<ColumnDefinition>) -> (r: Vec<(String, FieldType)>)
    ensures
        r@.len() == columns@.len(),
        forall|i: int| 0 <= i < columns@.len() ==> (#[trigger] r@[i]).0@ == columns@[i].name@ && r@[i].1 == field_kind_of(columns@[i].column_type),
{
    let mut out: Vec<(String, FieldType)> = Vec::new();
    let mut i: usize = 0;
    while i < columns.len()
        invariant
            i <= columns.len(),
            out@.len() == i,
            forall|j: int| 0 <= j < i ==> (#[trigger] out@[j]).0@ == columns@[j].name@ && out@[j].1 == field_kind_of(columns@[j].column_type),
        decreases columns.len() - i,
    {
        out.push((columns[i].name.clone(), field_kind_for_column(&columns[i].column_type)));
        i = i + 1;
    }
    out
}

/// A date-time column keeps the time of day: its type is `DATETIME` in MySQL,
/// `TIMESTAMPTZ` in PostgreSQL and text in SQLite, and in MySQL and PostgreSQL it
/// differs from the type of a date column. A non-key MySQL date-time column is
/// declared as its name followed by ` DATETIME`.
pub proof fn lemma_datetime_columns(d: Dialect, name: Seq<char>)
    ensures
        d == Dialect::MySQL ==> sql_type(d, FieldType::DateTime) == "DATETIME"@,
        d == Dialect::PostgreSQL ==> sql_type(d, FieldType::DateTime) == "TIMESTAMPTZ"@,
        d == Dialect::SQLite ==> sql_type(d, FieldType::DateTime) == "TEXT"@,
        d != Dialect::SQLite ==> sql_type(d, FieldType::DateTime) != sql_type(d, FieldType::Date),
        d == Dialect::MySQL && name != "id"@ ==> column_def(d, name, FieldType::DateTime) == name + " DATETIME"@,
{
    reveal_strlit("DATETIME");
    reveal_strlit("TIMESTAMPTZ");
    reveal_strlit("DATE");
    reveal_strlit(" ");
    reveal_strlit(" DATETIME");
    assert("DATETIME"@.len() != "DATE"@.len());
    assert("TIMESTAMPTZ"@[0] != "DATE"@[0]);
    assert(name + " "@ + "DATETIME"@ =~= name + " DATETIME"@);
}

/// Numbers keep their kind in every dialect: a double column is never typed as
/// an integer column, and a float column never as an integer column.
pub proof fn lemma_number_columns(d: Dialect, lo: Option<i64>, hi: Option<i64>, flo: Option<FloatBound>, fhi: Option<FloatBound>)
    ensures
        sql_type(d, FieldType::Double) != sql_type(d, FieldType::BigInteger),
        sql_type(d, FieldType::Double) != sql_type(d, FieldType::Integer { min_value: lo, max_value: hi }),
        sql_type(d, FieldType::Float { min_value: flo, max_value: fhi }) != sql_type(
            d,
            FieldType::Integer { min_value: lo, max_value: hi },
        ),
{
    reveal_strlit("REAL");
    reveal_strlit("INTEGER");
    reveal_strlit("BIGINT");
    reveal_strlit("INT");
    reveal_strlit("FLOAT");
    reveal_strlit("DOUBLE");
    reveal_strlit("DOUBLE PRECISION");
    assert("REAL"@[0] != "INTEGER"@[0] && "REAL"@[0] != "INT"@[0] && "REAL"@[0] != "BIGINT"@[0]);
    assert("DOUBLE"@[0] != "BIGINT"@[0] && "DOUBLE"@[0] != "INT"@[0]);
    assert("DOUBLE PRECISION"@[0] != "BIGINT"@[0] && "DOUBLE PRECISION"@[0] != "INTEGER"@[0]);
    assert("FLOAT"@[0] != "INT"@[0] && "FLOAT"@[0] != "INTEGER"@[0]);
}

/// A table auto-created from a record takes the record's values back: for every
/// value other than null, bytes and a UUID, the field that the value's inferred
/// column is created with accepts the value.
pub proof fn lemma_inferred_field_accepts(v: DataValueView)
    requires
        !(v is Null),
        !(v is Bytes),
        !(v is Uuid),
    ensures
        crate::model::validate_type_spec(field_kind_of(crate::schema::infer_type_spec(v)), v) is Ok,
{
}

} // verus!
