//! Database kinds, the backend-neutral value model, query descriptions,
//! connection/cache configuration and ID strategies.

use vstd::prelude::*;
use crate::error::{QuickDbError, ErrorView};
use crate::text::{chars_of, push_char, str_to_string, str_eq};

verus! {

/// The supported database kinds.
#[derive(Debug, Clone, Copy, PartialEq, Eq, Hash, Structural)]
pub enum DatabaseType {
    SQLite,
    PostgreSQL,
    MySQL,
    MongoDB,
}

/// The lowercase name of a database kind.
pub open spec fn db_type_name(t: DatabaseType) -> Seq<char> {
    match t {
        DatabaseType::SQLite => "sqlite"@,
        DatabaseType::PostgreSQL => "postgresql"@,
        DatabaseType::MySQL => "mysql"@,
        DatabaseType::MongoDB => "mongodb"@,
    }
}

/// ASCII lowercasing of one character.
pub open spec fn lower_char(c: char) -> char {
    if 'A' <= c && c <= 'Z' {
        ((c as u32) + 32) as char
    } else {
        c
    }
}

/// ASCII lowercasing of a character sequence.
pub open spec fn ascii_lower(s: Seq<char>) -> Seq<char> {
    s.map_values(|c: char| lower_char(c))
}

/// The database kind that a name denotes, case-insensitively, if any.
///
/// Accepted names: `sqlite`; `postgresql`, `postgres`, `pg`; `mysql`; `mongodb`, `mongo`.
pub open spec fn parse_db_type(s: Seq<char>) -> Option<DatabaseType> {
    let l = ascii_lower(s);
    if l == "sqlite"@ {
        Some(DatabaseType::SQLite)
    } else if l == "postgresql"@ || l == "postgres"@ || l == "pg"@ {
        Some(DatabaseType::PostgreSQL)
    } else if l == "mysql"@ {
        Some(DatabaseType::MySQL)
    } else if l == "mongodb"@ || l == "mongo"@ {
        Some(DatabaseType::MongoDB)
    } else {
        None
    }
}

fn lower_char_exec(c: char) -> (r: char)
    ensures
        r == lower_char(c),
{
    if 'A' <= c && c <= 'Z' {
        let u: u8 = c as u8;
        proof {
            assert(65 <= c as u32 <= 90);
            assert(u == c as u32);
        }
        let v: u8 = u + 32;
        v as char
    } else {
        c
    }
}

/// ASCII lowercasing of a string slice.
pub fn to_ascii_lower(s: &str) -> (r: String)
    ensures
        r@ == ascii_lower(s@),
{
    let cs = chars_of(s);
    let mut out = String::new();
    let mut i: usize = 0;
    while i < cs.len()
        invariant
            cs@ == s@,
            i <= cs.len(),
            out@ == ascii_lower(s@).take(i as int),
        decreases cs.len() - i,
    {
        let c = lower_char_exec(cs[i]);
        push_char(&mut out, c);
        i = i + 1;
        assert(out@ =~= ascii_lower(s@).take(i as int));
    }
    assert(ascii_lower(s@).take(i as int) =~= ascii_lower(s@));
    out
}

impl DatabaseType {
    /// The lowercase name of this kind.
    pub fn as_str(&self) -> (r: &'static str)
        ensures
            r@ == db_type_name(*self),
    {
        match self {
            DatabaseType::SQLite => "sqlite",
            DatabaseType::PostgreSQL => "postgresql",
            DatabaseType::MySQL => "mysql",
            DatabaseType::MongoDB => "mongodb",
        }
    }

    /// Parses a database kind from its name, ignoring case.
    ///
    /// Names are compared after lowercasing; only ASCII letters lowercase into the
    /// accepted names, so lowercasing the ASCII letters decides the same matches.
    pub fn from_str(s: &str) -> (r: Result<DatabaseType, QuickDbError>)
        ensures
            match parse_db_type(s@) {
                Some(t) => r == Ok::<DatabaseType, QuickDbError>(t),
                None => r is Err && r->Err_0@ == (ErrorView::UnsupportedDatabase { db_type: s@ }),
            },
    {
        let l = to_ascii_lower(s);
        let ls = l.as_str();
        if str_eq(ls, "sqlite") {
            Ok(DatabaseType::SQLite)
        } else if str_eq(ls, "postgresql") || str_eq(ls, "postgres") || str_eq(ls, "pg") {
            Ok(DatabaseType::PostgreSQL)
        } else if str_eq(ls, "mysql") {
            Ok(DatabaseType::MySQL)
        } else if str_eq(ls, "mongodb") || str_eq(ls, "mongo") {
            Ok(DatabaseType::MongoDB)
        } else {
            Err(QuickDbError::UnsupportedDatabase { db_type: str_to_string(s) })
        }
    }
}

/// Every kind's name parses back to that kind.
pub proof fn lemma_db_type_name_round_trip(t: DatabaseType)
    ensures
        parse_db_type(db_type_name(t)) == Some(t),
{
    reveal_strlit("sqlite");
    reveal_strlit("postgresql");
    reveal_strlit("mysql");
    reveal_strlit("mongodb");
    let n = db_type_name(t);
    assert(ascii_lower(n) =~= n);
    reveal_strlit("postgres");
    reveal_strlit("pg");
    reveal_strlit("mongo");
}

/// A point in time (UTC): seconds since the Unix epoch and the sub-second nanoseconds.
#[derive(Debug, Clone, Copy, PartialEq, Eq, Hash, Structural)]
pub struct Timestamp {
    pub secs: i64,
    pub nanos: u32,
}

/// A backend-neutral data value.
///
/// Floating-point numbers are held as their IEEE-754 bit pattern, date-times as a
/// [`Timestamp`], UUIDs as their 128-bit value, JSON documents as their text and
/// objects as their entries.
#[derive(Debug)]
pub enum DataValue {
    Null,
    Bool(bool),
    Int(i64),
    /// An `f64`, by its bit pattern.
    Float(u64),
    String(String),
    Bytes(Vec<u8>),
    DateTime(Timestamp),
    Uuid(u128),
    /// A JSON document, by its text.
    Json(String),
    Array(Vec<DataValue>),
    /// An object, by its entries.
    Object(Vec<Entry>),
}

/// One (key, value) entry of an object.
#[derive(Debug)]
pub struct Entry {
    pub key: String,
    pub value: DataValue,
}

/// The abstract value of a [`DataValue`].
pub enum DataValueView {
    Null,
    Bool(bool),
    Int(i64),
    Float(u64),
    String(Seq<char>),
    Bytes(Seq<u8>),
    DateTime(Timestamp),
    Uuid(u128),
    Json(Seq<char>),
    Array(Seq<DataValueView>),
    Object(Seq<(Seq<char>, DataValueView)>),
}

impl DataValue {
    /// The abstract value of this value.
    pub open spec fn spec_view(self) -> DataValueView
        decreases self,
    {
        match self {
            DataValue::Null => DataValueView::Null,
            DataValue::Bool(b) => DataValueView::Bool(b),
            DataValue::Int(i) => DataValueView::Int(i),
            DataValue::Float(f) => DataValueView::Float(f),
            DataValue::String(s) => DataValueView::String(s@),
            DataValue::Bytes(b) => DataValueView::Bytes(b@),
            DataValue::DateTime(t) => DataValueView::DateTime(t),
            DataValue::Uuid(u) => DataValueView::Uuid(u),
            DataValue::Json(s) => DataValueView::Json(s@),
            DataValue::Array(v) => DataValueView::Array(values_view(v@)),
            DataValue::Object(m) => DataValueView::Object(entries_view(m@)),
        }
    }
}

/// The abstract values of a sequence of values.
pub open spec fn values_view(s: Seq<DataValue>) -> Seq<DataValueView>
    decreases s,
{
    if s.len() == 0 {
        Seq::empty()
    } else {
        values_view(s.drop_last()).push(s.last().spec_view())
    }
}

/// The abstract entries of a sequence of (key, value) entries.
pub open spec fn entries_view(s: Seq<Entry>) -> Seq<(Seq<char>, DataValueView)>
    decreases s,
{
    if s.len() == 0 {
        Seq::empty()
    } else {
        entries_view(s.drop_last()).push((s.last().key@, s.last().value.spec_view()))
    }
}

impl View for DataValue {
    type V = DataValueView;

    open spec fn view(&self) -> DataValueView {
        self.spec_view()
    }
}

/// The name of a value's kind.
pub open spec fn type_name_of(v: DataValueView) -> Seq<char> {
    match v {
        DataValueView::Null => "null"@,
        DataValueView::Bool(_) => "bool"@,
        DataValueView::Int(_) => "int"@,
        DataValueView::Float(_) => "float"@,
        DataValueView::String(_) => "string"@,
        DataValueView::Bytes(_) => "bytes"@,
        DataValueView::DateTime(_) => "datetime"@,
        DataValueView::Uuid(_) => "uuid"@,
        DataValueView::Json(_) => "json"@,
        DataValueView::Array(_) => "array"@,
        DataValueView::Object(_) => "object"@,
    }
}

/// A copy of a byte vector.
pub fn clone_bytes(b: &Vec<u8>) -> (r: Vec<u8>)
    ensures
        r@ == b@,
{
    let mut out: Vec<u8> = Vec::new();
    let mut i: usize = 0;
    while i < b.len()
        invariant
            i <= b.len(),
            out@ == b@.take(i as int),
        decreases b.len() - i,
    {
        out.push(b[i]);
        i = i + 1;
        assert(out@ =~= b@.take(i as int));
    }
    assert(b@.take(i as int) =~= b@);
    out
}

/// A copy of a string.
pub fn clone_string(s: &String) -> (r: String)
    ensures
        r@ == s@,
{
    s.clone()
}

impl DataValue {
    /// A copy of this value.
    #[verifier::loop_isolation(false)]
    pub fn deep_clone(&self) -> (r: DataValue)
        ensures
            r@ == self@,
        decreases self,
    {
        match self {
            DataValue::Null => DataValue::Null,
            DataValue::Bool(b) => DataValue::Bool(*b),
            DataValue::Int(i) => DataValue::Int(*i),
            DataValue::Float(f) => DataValue::Float(*f),
            DataValue::String(s) => DataValue::String(s.clone()),
            DataValue::Bytes(b) => DataValue::Bytes(clone_bytes(b)),
            DataValue::DateTime(t) => DataValue::DateTime(*t),
            DataValue::Uuid(u) => DataValue::Uuid(*u),
            DataValue::Json(s) => DataValue::Json(s.clone()),
            DataValue::Array(v) => {
                let mut out: Vec<DataValue> = Vec::new();
                let mut i: usize = 0;
                while i < v.len()
                    invariant
                        i <= v.len(),
                        values_view(out@) == values_view(v@.take(i as int)),
                    decreases v.len() - i,
                {
                    assert(decreases_to!(*self => *v));
                    assert(decreases_to!(*v => v@));
                    assert(decreases_to!(v@ => v@[i as int]));
                    assert(decreases_to!(self => v@[i as int]));
                    let c = v[i].deep_clone();
                    let ghost prev = out@;
                    out.push(c);
                    assert(out@.drop_last() =~= prev);
                    assert(v@.take(i + 1).drop_last() =~= v@.take(i as int));
                    i = i + 1;
                }
                assert(v@.take(i as int) =~= v@);
                DataValue::Array(out)
            },
            DataValue::Object(m) => {
                let mut out: Vec<Entry> = Vec::new();
                let mut i: usize = 0;
                while i < m.len()
                    invariant
                        i <= m.len(),
                        entries_view(out@) == entries_view(m@.take(i as int)),
                    decreases m.len() - i,
                {
                    assert(decreases_to!(*self => *m));
                    assert(decreases_to!(*m => m@));
                    assert(decreases_to!(m@ => m@[i as int]));
                    assert(decreases_to!(m@[i as int] => m@[i as int].value));
                    assert(decreases_to!(self => m@[i as int].value));
                    let c = m[i].value.deep_clone();
                    let k = m[i].key.clone();
                    let ghost prev = out@;
                    out.push(Entry { key: k, value: c });
                    assert(out@.drop_last() =~= prev);
                    assert(m@.take(i + 1).drop_last() =~= m@.take(i as int));
                    i = i + 1;
                }
                assert(m@.take(i as int) =~= m@);
                DataValue::Object(out)
            },
        }
    }

    /// The name of this value's kind.
    pub fn kind_name(&self) -> (r: &'static str)
        ensures
            r@ == type_name_of(self@),
    {
        match self {
            DataValue::Null => "null",
            DataValue::Bool(_) => "bool",
            DataValue::Int(_) => "int",
            DataValue::Float(_) => "float",
            DataValue::String(_) => "string",
            DataValue::Bytes(_) => "bytes",
            DataValue::DateTime(_) => "datetime",
            DataValue::Uuid(_) => "uuid",
            DataValue::Json(_) => "json",
            DataValue::Array(_) => "array",
            DataValue::Object(_) => "object",
        }
    }

    /// Whether this is the null value.
    pub fn is_null(&self) -> (r: bool)
        ensures
            r == (self@ is Null),
    {
        match self {
            DataValue::Null => true,
            _ => false,
        }
    }
}

/// A filter on one field.
#[derive(Debug)]
pub struct QueryCondition {
    /// The field name.
    pub field: String,
    /// The comparison.
    pub operator: QueryOperator,
    /// The operand.
    pub value: DataValue,
}

/// Comparison operators of a [`QueryCondition`].
#[derive(Debug, Clone, Copy, PartialEq, Eq, Structural)]
pub enum QueryOperator {
    Eq,
    Ne,
    Gt,
    Gte,
    Lt,
    Lte,
    /// Substring match.
    Contains,
    StartsWith,
    EndsWith,
    /// Membership in a list.
    In,
    NotIn,
    Regex,
    /// The field is present.
    Exists,
    IsNull,
    IsNotNull,
}

/// The abstract value of a [`QueryCondition`].
pub struct QueryConditionView {
    pub field: Seq<char>,
    pub operator: QueryOperator,
    pub value: DataValueView,
}

impl View for QueryCondition {
    type V = QueryConditionView;

    open spec fn view(&self) -> QueryConditionView {
        QueryConditionView { field: self.field@, operator: self.operator, value: self.value@ }
    }
}

/// The abstract values of a sequence of conditions.
pub open spec fn conditions_view(s: Seq<QueryCondition>) -> Seq<QueryConditionView> {
    s.map_values(|c: QueryCondition| c@)
}

impl QueryCondition {
    /// A condition on `field` with operator `operator` and operand `value`.
    pub fn new(field: &str, operator: QueryOperator, value: DataValue) -> (r: QueryCondition)
        ensures
            r.field@ == field@,
            r.operator == operator,
            r.value == value,
    {
        QueryCondition { field: str_to_string(field), operator, value }
    }

    /// A copy of this condition.
    pub fn deep_clone(&self) -> (r: QueryCondition)
        ensures
            r@ == self@,
    {
        QueryCondition { field: self.field.clone(), operator: self.operator, value: self.value.deep_clone() }
    }
}

/// How the members of a condition group combine.
#[derive(Debug, Clone, Copy, PartialEq, Eq, Structural)]
pub enum LogicalOperator {
    And,
    Or,
}

/// A single condition, or a group of condition groups combined by a logical operator.
#[derive(Debug)]
pub enum QueryConditionGroup {
    Single(QueryCondition),
    Group { operator: LogicalOperator, conditions: Vec<QueryConditionGroup> },
}

/// The abstract value of a [`QueryConditionGroup`].
pub enum ConditionGroupView {
    Single(QueryConditionView),
    Group { operator: LogicalOperator, conditions: Seq<ConditionGroupView> },
}

impl QueryConditionGroup {
    /// The abstract value of this group.
    pub open spec fn spec_view(self) -> ConditionGroupView
        decreases self,
    {
        match self {
            QueryConditionGroup::Single(c) => ConditionGroupView::Single(c@),
            QueryConditionGroup::Group { operator, conditions } => ConditionGroupView::Group {
                operator,
                conditions: groups_view(conditions@),
            },
        }
    }
}

/// The abstract values of a sequence of groups.
pub open spec fn groups_view(s: Seq<QueryConditionGroup>) -> Seq<ConditionGroupView>
    decreases s,
{
    if s.len() == 0 {
        Seq::empty()
    } else {
        groups_view(s.drop_last()).push(s.last().spec_view())
    }
}

impl View for QueryConditionGroup {
    type V = ConditionGroupView;

    open spec fn view(&self) -> ConditionGroupView {
        self.spec_view()
    }
}

/// The views of a sequence of groups, element by element.
pub proof fn lemma_groups_view(s: Seq<QueryConditionGroup>)
    ensures
        groups_view(s).len() == s.len(),
        forall|i: int| 0 <= i < s.len() ==> #[trigger] groups_view(s)[i] == s[i]@,
    decreases s.len(),
{
    if s.len() > 0 {
        lemma_groups_view(s.drop_last());
    }
}

/// Copies of a slice of conditions.
pub fn clone_conditions(s: &[QueryCondition]) -> (r: Vec<QueryCondition>)
    ensures
        conditions_view(r@) == conditions_view(s@),
{
    let mut out: Vec<QueryCondition> = Vec::new();
    let mut i: usize = 0;
    while i < s.len()
        invariant
            i <= s.len(),
            out@.len() == i,
            forall|j: int| 0 <= j < i ==> (#[trigger] out@[j])@ == s@[j]@,
        decreases s.len() - i,
    {
        out.push(s[i].deep_clone());
        i = i + 1;
    }
    assert(conditions_view(out@) =~= conditions_view(s@));
    out
}

/// Sorting on one field.
#[derive(Debug)]
pub struct SortConfig {
    /// The field name.
    pub field: String,
    /// The direction.
    pub direction: SortDirection,
}

/// Sort directions.
#[derive(Debug, Clone, Copy, PartialEq, Eq, Structural)]
pub enum SortDirection {
    Asc,
    Desc,
}

/// Paging: how many records to skip and how many to return.
#[derive(Debug, Clone, Copy, PartialEq, Eq, Structural)]
pub struct PaginationConfig {
    pub skip: u64,
    pub limit: u64,
}

/// Options of a find: conditions, sorting, paging and projected fields.
#[derive(Debug)]
pub struct QueryOptions {
    pub conditions: Vec<QueryCondition>,
    pub sort: Vec<SortConfig>,
    pub pagination: Option<PaginationConfig>,
    /// The fields to return; empty means all fields.
    pub fields: Vec<String>,
}

impl QueryOptions {
    /// Options with no conditions, no sorting, no paging and all fields.
    pub fn new() -> (r: QueryOptions)
        ensures
            r.conditions@.len() == 0,
            r.sort@.len() == 0,
            r.pagination is None,
            r.fields@.len() == 0,
    {
        QueryOptions { conditions: Vec::new(), sort: Vec::new(), pagination: None, fields: Vec::new() }
    }

    /// These options with the given conditions.
    pub fn with_conditions(self, conditions: Vec<QueryCondition>) -> (r: QueryOptions)
        ensures
            r.conditions == conditions,
            r.sort == self.sort,
            r.pagination == self.pagination,
            r.fields == self.fields,
    {
        QueryOptions { conditions, ..self }
    }

    /// These options with the given sorting.
    pub fn with_sort(self, sort: Vec<SortConfig>) -> (r: QueryOptions)
        ensures
            r.conditions == self.conditions,
            r.sort == sort,
            r.pagination == self.pagination,
            r.fields == self.fields,
    {
        QueryOptions { sort, ..self }
    }

    /// These options with the given paging.
    pub fn with_pagination(self, pagination: PaginationConfig) -> (r: QueryOptions)
        ensures
            r.conditions == self.conditions,
            r.sort == self.sort,
            r.pagination == Some(pagination),
            r.fields == self.fields,
    {
        QueryOptions { pagination: Some(pagination), ..self }
    }

    /// These options with the given projected fields.
    pub fn with_fields(self, fields: Vec<String>) -> (r: QueryOptions)
        ensures
            r.conditions == self.conditions,
            r.sort == self.sort,
            r.pagination == self.pagination,
            r.fields == fields,
    {
        QueryOptions { fields, ..self }
    }
}

/// The abstract values of a sequence, element by element.
pub proof fn lemma_values_view(s: Seq<DataValue>)
    ensures
        values_view(s).len() == s.len(),
        forall|i: int| 0 <= i < s.len() ==> #[trigger] values_view(s)[i] == s[i]@,
    decreases s.len(),
{
    if s.len() > 0 {
        lemma_values_view(s.drop_last());
        assert forall|i: int| 0 <= i < s.len() implies #[trigger] values_view(s)[i] == s[i]@ by {
            if i < s.len() - 1 {
                assert(values_view(s.drop_last())[i] == s.drop_last()[i]@);
            }
        }
    }
}

/// The abstract entries of a sequence, entry by entry.
pub proof fn lemma_entries_view(s: Seq<Entry>)
    ensures
        entries_view(s).len() == s.len(),
        forall|i: int| 0 <= i < s.len() ==> #[trigger] entries_view(s)[i] == (s[i].key@, s[i].value@),
    decreases s.len(),
{
    if s.len() > 0 {
        lemma_entries_view(s.drop_last());
        assert forall|i: int| 0 <= i < s.len() implies #[trigger] entries_view(s)[i] == (s[i].key@, s[i].value@) by {
            if i < s.len() - 1 {
                assert(entries_view(s.drop_last())[i] == (s.drop_last()[i].key@, s.drop_last()[i].value@));
            }
        }
    }
}

/// Appends copies of `src` to `dst`.
pub fn append_values(dst: &mut Vec<DataValue>, src: &Vec<DataValue>)
    ensures
        values_view(final(dst)@) == values_view(old(dst)@) + values_view(src@),
{
    let ghost d0 = dst@;
    let mut i: usize = 0;
    proof {
        lemma_values_view(d0);
        lemma_values_view(src@);
    }
    while i < src.len()
        invariant
            i <= src.len(),
            dst@.len() == d0.len() + i,
            forall|j: int| 0 <= j < d0.len() ==> (#[trigger] dst@[j])@ == d0[j]@,
            forall|j: int| 0 <= j < i ==> (#[trigger] dst@[d0.len() + j])@ == src@[j]@,
        decreases src.len() - i,
    {
        dst.push(src[i].deep_clone());
        i = i + 1;
    }
    proof {
        lemma_values_view(dst@);
        let lhs = values_view(dst@);
        let rhs = values_view(d0) + values_view(src@);
        assert(lhs.len() == rhs.len());
        assert forall|k: int| 0 <= k < lhs.len() implies lhs[k] == rhs[k] by {
            if k < d0.len() {
                assert(lhs[k] == dst@[k]@);
                assert(rhs[k] == values_view(d0)[k]);
            } else {
                assert(lhs[k] == dst@[d0.len() + (k - d0.len())]@);
                assert(rhs[k] == values_view(src@)[k - d0.len()]);
            }
        }
        assert(lhs =~= rhs);
    }
}

/// Copies of a vector of values.
pub fn clone_values(src: &Vec<DataValue>) -> (r: Vec<DataValue>)
    ensures
        values_view(r@) == values_view(src@),
{
    let mut r: Vec<DataValue> = Vec::new();
    append_values(&mut r, src);
    assert(values_view(Seq::<DataValue>::empty()) + values_view(src@) =~= values_view(src@));
    r
}

/// How record IDs are generated.
#[derive(Debug, Clone)]
pub enum IdStrategy {
    /// Database auto-increment (numbers).
    AutoIncrement,
    /// Random UUIDs (text).
    Uuid,
    /// Snowflake IDs (text); machine 0..=1023, datacenter 0..=31.
    Snowflake { machine_id: u16, datacenter_id: u8 },
    /// MongoDB-style object IDs (text).
    ObjectId,
    /// A named custom generator (text).
    Custom(String),
}

impl Default for IdStrategy {
    /// The default strategy: auto-increment.
    fn default() -> (r: IdStrategy)
        ensures
            r is AutoIncrement,
    {
        IdStrategy::AutoIncrement
    }
}

impl IdStrategy {
    /// The UUID strategy.
    pub fn uuid() -> (r: IdStrategy)
        ensures
            r is Uuid,
    {
        IdStrategy::Uuid
    }

    /// The snowflake strategy for a machine and datacenter.
    pub fn snowflake(machine_id: u16, datacenter_id: u8) -> (r: IdStrategy)
        ensures
            r == (IdStrategy::Snowflake { machine_id, datacenter_id }),
    {
        IdStrategy::Snowflake { machine_id, datacenter_id }
    }

    /// The object-ID strategy.
    pub fn object_id() -> (r: IdStrategy)
        ensures
            r is ObjectId,
    {
        IdStrategy::ObjectId
    }

    /// A custom strategy by generator name.
    pub fn custom(generator: String) -> (r: IdStrategy)
        ensures
            r == IdStrategy::Custom(generator),
    {
        IdStrategy::Custom(generator)
    }
}

/// A record ID: a number or a text.
#[derive(Debug)]
pub enum IdType {
    Number(i64),
    String(String),
}

/// The display text of an ID.
pub open spec fn id_text(id: IdType) -> Seq<char> {
    match id {
        IdType::Number(n) => crate::text::int_digits(n as int),
        IdType::String(s) => s@,
    }
}

impl IdType {
    /// The ID's display text.
    pub fn to_string(&self) -> (r: String)
        ensures
            r@ == id_text(*self),
    {
        match self {
            IdType::Number(n) => crate::text::i64_to_string(*n),
            IdType::String(s) => s.clone(),
        }
    }

    /// A numeric ID.
    pub fn from_i64(value: i64) -> (r: IdType)
        ensures
            r == IdType::Number(value),
    {
        IdType::Number(value)
    }

    /// A text ID.
    pub fn from_string(value: String) -> (r: IdType)
        ensures
            r == IdType::String(value),
    {
        IdType::String(value)
    }

    /// A text ID from a slice.
    pub fn from_str(value: &str) -> (r: IdType)
        ensures
            r is String && r->String_0@ == value@,
    {
        IdType::String(str_to_string(value))
    }
}

} // verus!
