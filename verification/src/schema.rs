//! Table schemas: columns, indexes, constraints and options, their checks, and
//! schema inference from a record.

use vstd::prelude::*;
use crate::text::{str_to_string, str_eq};
use crate::types::{DataValue, DataValueView, Entry, Timestamp, entries_view, lemma_entries_view};
use crate::model::byte_len;
use crate::outside::now_or_epoch;

verus! {

/// Column types.
#[derive(Debug)]
pub enum ColumnType {
    Integer,
    BigInteger,
    SmallInteger,
    Float,
    Double,
    Decimal { precision: u32, scale: u32 },
    String { length: Option<u32> },
    Text,
    LongText,
    Boolean,
    Date,
    Time,
    DateTime,
    Timestamp,
    Binary { length: Option<u32> },
    Blob,
    Json,
    Uuid,
    Enum { values: Vec<String> },
    /// A database-specific type, by name.
    Custom { custom_name: String },
}

/// A column.
#[derive(Debug)]
pub struct ColumnDefinition {
    pub name: String,
    pub column_type: ColumnType,
    pub nullable: bool,
    pub default_value: Option<String>,
    pub primary_key: bool,
    pub auto_increment: bool,
    pub unique: bool,
    pub comment: Option<String>,
    pub length: Option<u32>,
    pub precision: Option<u32>,
    pub scale: Option<u32>,
}

/// Index kinds.
#[derive(Debug)]
pub enum IndexType {
    BTree,
    Hash,
    FullText,
    Spatial,
    Custom(String),
}

/// An index over table columns.
#[derive(Debug)]
pub struct IndexDefinition {
    pub name: String,
    pub index_type: IndexType,
    pub columns: Vec<String>,
    pub unique: bool,
    /// Options, one entry per key.
    pub options: Vec<(String, String)>,
}

/// Constraint kinds.
#[derive(Debug, Clone, Copy, PartialEq, Eq, Structural)]
pub enum ConstraintType {
    PrimaryKey,
    ForeignKey,
    Unique,
    Check,
    NotNull,
}

/// Referential actions of a foreign key.
#[derive(Debug, Clone, Copy, PartialEq, Eq, Structural)]
pub enum ReferentialAction {
    Cascade,
    SetNull,
    SetDefault,
    Restrict,
    NoAction,
}

/// A table constraint.
#[derive(Debug)]
pub struct ConstraintDefinition {
    pub name: String,
    pub constraint_type: ConstraintType,
    pub columns: Vec<String>,
    pub reference_table: Option<String>,
    pub reference_columns: Option<Vec<String>>,
    pub on_delete: Option<ReferentialAction>,
    pub on_update: Option<ReferentialAction>,
    pub check_condition: Option<String>,
}

/// Table options.
#[derive(Debug)]
pub struct TableOptions {
    pub engine: Option<String>,
    pub charset: Option<String>,
    pub collation: Option<String>,
    pub comment: Option<String>,
    pub auto_increment: Option<u64>,
    pub row_format: Option<String>,
    /// Further options, one entry per key.
    pub extra_options: Vec<(String, String)>,
}

/// A table's schema.
#[derive(Debug)]
pub struct TableSchema {
    pub name: String,
    pub columns: Vec<ColumnDefinition>,
    pub indexes: Vec<IndexDefinition>,
    pub constraints: Vec<ConstraintDefinition>,
    pub options: TableOptions,
    /// Schema version.
    pub version: u32,
    pub created_at: Option<Timestamp>,
    pub updated_at: Option<Timestamp>,
}

/// The default options: no engine, `utf8mb4` with `utf8mb4_unicode_ci`.
pub open spec fn default_options(o: TableOptions) -> bool {
    &&& o.engine is None
    &&& o.charset matches Some(c) && c@ == "utf8mb4"@
    &&& o.collation matches Some(c) && c@ == "utf8mb4_unicode_ci"@
    &&& o.comment is None
    &&& o.auto_increment is None
    &&& o.row_format is None
    &&& o.extra_options@.len() == 0
}

impl Default for TableOptions {
    /// The default options.
    fn default() -> (r: TableOptions)
        ensures
            default_options(r),
    {
        TableOptions {
            engine: None,
            charset: Some(str_to_string("utf8mb4")),
            collation: Some(str_to_string("utf8mb4_unicode_ci")),
            comment: None,
            auto_increment: None,
            row_format: None,
            extra_options: Vec::new(),
        }
    }
}

// ---------------------------------------------------------------------------
// Copies
// ---------------------------------------------------------------------------

/// `b` is a copy of `a`: the same kind with the same parameters, an
/// enumeration's values compared as strings.
pub open spec fn same_column_type(a: ColumnType, b: ColumnType) -> bool {
    match a {
        ColumnType::Enum { values } => b matches ColumnType::Enum { values: w } && w@ == values@,
        _ => b == a,
    }
}

/// `b` is a copy of column `a`.
pub open spec fn same_column(a: ColumnDefinition, b: ColumnDefinition) -> bool {
    &&& b.name == a.name
    &&& same_column_type(a.column_type, b.column_type)
    &&& b.nullable == a.nullable
    &&& b.default_value == a.default_value
    &&& b.primary_key == a.primary_key
    &&& b.auto_increment == a.auto_increment
    &&& b.unique == a.unique
    &&& b.comment == a.comment
    &&& b.length == a.length
    &&& b.precision == a.precision
    &&& b.scale == a.scale
}

/// `b` is a copy of index `a`.
pub open spec fn same_index(a: IndexDefinition, b: IndexDefinition) -> bool {
    &&& b.name == a.name
    &&& b.index_type == a.index_type
    &&& b.columns@ == a.columns@
    &&& b.unique == a.unique
    &&& b.options@ == a.options@
}

/// `b` is a copy of constraint `a`.
pub open spec fn same_constraint(a: ConstraintDefinition, b: ConstraintDefinition) -> bool {
    &&& b.name == a.name
    &&& b.constraint_type == a.constraint_type
    &&& b.columns@ == a.columns@
    &&& b.reference_table == a.reference_table
    &&& match a.reference_columns {
        Some(x) => b.reference_columns matches Some(y) && y@ == x@,
        None => b.reference_columns is None,
    }
    &&& b.on_delete == a.on_delete
    &&& b.on_update == a.on_update
    &&& b.check_condition == a.check_condition
}

/// `b` is a copy of the options `a`.
pub open spec fn same_options(a: TableOptions, b: TableOptions) -> bool {
    &&& b.engine == a.engine
    &&& b.charset == a.charset
    &&& b.collation == a.collation
    &&& b.comment == a.comment
    &&& b.auto_increment == a.auto_increment
    &&& b.row_format == a.row_format
    &&& b.extra_options@ == a.extra_options@
}

/// `b` is a copy of schema `a`: the same name, version and times, and each
/// column, index and constraint, in order, a copy of the one at its place.
pub open spec fn same_schema(a: TableSchema, b: TableSchema) -> bool {
    &&& b.name == a.name
    &&& b.columns@.len() == a.columns@.len()
    &&& forall|i: int| 0 <= i < a.columns@.len() ==> same_column(a.columns@[i], #[trigger] b.columns@[i])
    &&& b.indexes@.len() == a.indexes@.len()
    &&& forall|i: int| 0 <= i < a.indexes@.len() ==> same_index(a.indexes@[i], #[trigger] b.indexes@[i])
    &&& b.constraints@.len() == a.constraints@.len()
    &&& forall|i: int| 0 <= i < a.constraints@.len() ==> same_constraint(a.constraints@[i], #[trigger] b.constraints@[i])
    &&& same_options(a.options, b.options)
    &&& b.version == a.version
    &&& b.created_at == a.created_at
    &&& b.updated_at == a.updated_at
}

fn copy_strings(v: &Vec<String>) -> (r: Vec<String>)
    ensures
        r@ == v@,
{
    let r = v.clone();
    assert(r@ =~= v@);
    r
}

fn copy_pairs(v: &Vec<(String, String)>) -> (r: Vec<(String, String)>)
    ensures
        r@ == v@,
{
    let mut r: Vec<(String, String)> = Vec::new();
    let mut i: usize = 0;
    while i < v.len()
        invariant
            i <= v.len(),
            r@ == v@.take(i as int),
        decreases v.len() - i,
    {
        r.push((v[i].0.clone(), v[i].1.clone()));
        i = i + 1;
        assert(r@ =~= v@.take(i as int));
    }
    assert(v@.take(i as int) =~= v@);
    r
}

impl Clone for ColumnType {
    fn clone(&self) -> (r: ColumnType)
        ensures
            same_column_type(*self, r),
    {
        match self {
            ColumnType::Integer => ColumnType::Integer,
            ColumnType::BigInteger => ColumnType::BigInteger,
            ColumnType::SmallInteger => ColumnType::SmallInteger,
            ColumnType::Float => ColumnType::Float,
            ColumnType::Double => ColumnType::Double,
            ColumnType::Decimal { precision, scale } => ColumnType::Decimal { precision: *precision, scale: *scale },
            ColumnType::String { length } => ColumnType::String { length: *length },
            ColumnType::Text => ColumnType::Text,
            ColumnType::LongText => ColumnType::LongText,
            ColumnType::Boolean => ColumnType::Boolean,
            ColumnType::Date => ColumnType::Date,
            ColumnType::Time => ColumnType::Time,
            ColumnType::DateTime => ColumnType::DateTime,
            ColumnType::Timestamp => ColumnType::Timestamp,
            ColumnType::Binary { length } => ColumnType::Binary { length: *length },
            ColumnType::Blob => ColumnType::Blob,
            ColumnType::Json => ColumnType::Json,
            ColumnType::Uuid => ColumnType::Uuid,
            ColumnType::Enum { values } => ColumnType::Enum { values: copy_strings(values) },
            ColumnType::Custom { custom_name } => ColumnType::Custom { custom_name: custom_name.clone() },
        }
    }
}

impl Clone for ColumnDefinition {
    fn clone(&self) -> (r: ColumnDefinition)
        ensures
            same_column(*self, r),
    {
        ColumnDefinition {
            name: self.name.clone(),
            column_type: self.column_type.clone(),
            nullable: self.nullable,
            default_value: self.default_value.clone(),
            primary_key: self.primary_key,
            auto_increment: self.auto_increment,
            unique: self.unique,
            comment: self.comment.clone(),
            length: self.length,
            precision: self.precision,
            scale: self.scale,
        }
    }
}

impl Clone for IndexType {
    fn clone(&self) -> (r: IndexType)
        ensures
            r == *self,
    {
        match self {
            IndexType::BTree => IndexType::BTree,
            IndexType::Hash => IndexType::Hash,
            IndexType::FullText => IndexType::FullText,
            IndexType::Spatial => IndexType::Spatial,
            IndexType::Custom(s) => IndexType::Custom(s.clone()),
        }
    }
}

impl Clone for IndexDefinition {
    fn clone(&self) -> (r: IndexDefinition)
        ensures
            same_index(*self, r),
    {
        IndexDefinition {
            name: self.name.clone(),
            index_type: self.index_type.clone(),
            columns: copy_strings(&self.columns),
            unique: self.unique,
            options: copy_pairs(&self.options),
        }
    }
}

impl Clone for ConstraintDefinition {
    fn clone(&self) -> (r: ConstraintDefinition)
        ensures
            same_constraint(*self, r),
    {
        ConstraintDefinition {
            name: self.name.clone(),
            constraint_type: self.constraint_type,
            columns: copy_strings(&self.columns),
            reference_table: self.reference_table.clone(),
            reference_columns: match &self.reference_columns {
                Some(c) => Some(copy_strings(c)),
                None => None,
            },
            on_delete: self.on_delete,
            on_update: self.on_update,
            check_condition: self.check_condition.clone(),
        }
    }
}

impl Clone for TableOptions {
    fn clone(&self) -> (r: TableOptions)
        ensures
            same_options(*self, r),
    {
        TableOptions {
            engine: self.engine.clone(),
            charset: self.charset.clone(),
            collation: self.collation.clone(),
            comment: self.comment.clone(),
            auto_increment: self.auto_increment,
            row_format: self.row_format.clone(),
            extra_options: copy_pairs(&self.extra_options),
        }
    }
}

impl Clone for TableSchema {
    fn clone(&self) -> (r: TableSchema)
        ensures
            same_schema(*self, r),
    {
        let columns = self.columns.clone();
        let indexes = self.indexes.clone();
        let constraints = self.constraints.clone();
        let r = TableSchema {
            name: self.name.clone(),
            columns,
            indexes,
            constraints,
            options: self.options.clone(),
            version: self.version,
            created_at: self.created_at,
            updated_at: self.updated_at,
        };
        assert forall|i: int| 0 <= i < self.columns@.len() implies same_column(self.columns@[i], #[trigger] r.columns@[i]) by {
            assert(cloned(self.columns@[i], r.columns@[i]));
        }
        assert forall|i: int| 0 <= i < self.indexes@.len() implies same_index(self.indexes@[i], #[trigger] r.indexes@[i]) by {
            assert(cloned(self.indexes@[i], r.indexes@[i]));
        }
        assert forall|i: int| 0 <= i < self.constraints@.len() implies same_constraint(self.constraints@[i], #[trigger] r.constraints@[i]) by {
            assert(cloned(self.constraints@[i], r.constraints@[i]));
        }
        r
    }
}

/// Whether some column is named `name`.
pub open spec fn has_column_spec(cols: Seq<ColumnDefinition>, name: Seq<char>) -> bool {
    exists|i: int| 0 <= i < cols.len() && (#[trigger] cols[i]).name@ == name
}

/// Whether some index is named `name`.
pub open spec fn has_index_spec(idxs: Seq<IndexDefinition>, name: Seq<char>) -> bool {
    exists|i: int| 0 <= i < idxs.len() && (#[trigger] idxs[i]).name@ == name
}

/// The primary-key columns, in order.
pub open spec fn primary_keys(cols: Seq<ColumnDefinition>) -> Seq<ColumnDefinition>
    decreases cols.len(),
{
    if cols.len() == 0 {
        Seq::empty()
    } else if cols.last().primary_key {
        primary_keys(cols.drop_last()).push(cols.last())
    } else {
        primary_keys(cols.drop_last())
    }
}

/// The outcome of checking column names: the first repeated name fails.
pub open spec fn columns_check(cols: Seq<ColumnDefinition>) -> Result<(), Seq<char>>
    decreases cols.len(),
{
    if cols.len() == 0 {
        Ok(())
    } else {
        match columns_check(cols.drop_last()) {
            Err(e) => Err(e),
            Ok(()) => if has_column_spec(cols.drop_last(), cols.last().name@) {
                Err("列名 '"@ + cols.last().name@ + "' 重复"@)
            } else {
                Ok(())
            },
        }
    }
}

/// The outcome of checking that an object's columns exist: the first missing one fails.
pub open spec fn refs_check(kind: Seq<char>, owner: Seq<char>, refs: Seq<Seq<char>>, cols: Seq<ColumnDefinition>) -> Result<(), Seq<char>>
    decreases refs.len(),
{
    if refs.len() == 0 {
        Ok(())
    } else {
        match refs_check(kind, owner, refs.drop_last(), cols) {
            Err(e) => Err(e),
            Ok(()) => if has_column_spec(cols, refs.last()) {
                Ok(())
            } else {
                Err(kind + " '"@ + owner + "' 引用的列 '"@ + refs.last() + "' 不存在"@)
            },
        }
    }
}

/// The views of a vector of strings.
pub open spec fn strings_view(v: Seq<String>) -> Seq<Seq<char>> {
    v.map_values(|s: String| s@)
}

/// The outcome of checking indexes in order: a repeated name, then a missing column.
pub open spec fn indexes_check(idxs: Seq<IndexDefinition>, cols: Seq<ColumnDefinition>) -> Result<(), Seq<char>>
    decreases idxs.len(),
{
    if idxs.len() == 0 {
        Ok(())
    } else {
        match indexes_check(idxs.drop_last(), cols) {
            Err(e) => Err(e),
            Ok(()) => if has_index_spec(idxs.drop_last(), idxs.last().name@) {
                Err("索引名 '"@ + idxs.last().name@ + "' 重复"@)
            } else {
                refs_check("索引"@, idxs.last().name@, strings_view(idxs.last().columns@), cols)
            },
        }
    }
}

/// Whether some constraint is named `name`.
pub open spec fn has_constraint_spec(cs: Seq<ConstraintDefinition>, name: Seq<char>) -> bool {
    exists|i: int| 0 <= i < cs.len() && (#[trigger] cs[i]).name@ == name
}

/// The outcome of checking constraints in order: a repeated name, then a missing column.
pub open spec fn constraints_check(cs: Seq<ConstraintDefinition>, cols: Seq<ColumnDefinition>) -> Result<(), Seq<char>>
    decreases cs.len(),
{
    if cs.len() == 0 {
        Ok(())
    } else {
        match constraints_check(cs.drop_last(), cols) {
            Err(e) => Err(e),
            Ok(()) => if has_constraint_spec(cs.drop_last(), cs.last().name@) {
                Err("约束名 '"@ + cs.last().name@ + "' 重复"@)
            } else {
                refs_check("约束"@, cs.last().name@, strings_view(cs.last().columns@), cols)
            },
        }
    }
}

/// The outcome of checking a schema: at least one column, then the columns, the
/// indexes and the constraints.
pub open spec fn schema_check(s: TableSchema) -> Result<(), Seq<char>> {
    if s.columns@.len() == 0 {
        Err("表必须至少有一个列"@)
    } else {
        match columns_check(s.columns@) {
            Err(e) => Err(e),
            Ok(()) => match indexes_check(s.indexes@, s.columns@) {
                Err(e) => Err(e),
                Ok(()) => constraints_check(s.constraints@, s.columns@),
            },
        }
    }
}

/// The column type inferred for a value.
pub open spec fn infer_type_spec(v: DataValueView) -> ColumnType {
    match v {
        DataValueView::Null => ColumnType::String { length: Some(255) },
        DataValueView::Bool(_) => ColumnType::Boolean,
        DataValueView::Int(_) => ColumnType::BigInteger,
        DataValueView::Float(_) => ColumnType::Double,
        DataValueView::String(s) => if byte_len(s) > 65535 {
            ColumnType::LongText
        } else if byte_len(s) > 255 {
            ColumnType::Text
        } else {
            ColumnType::String { length: Some(255) }
        },
        DataValueView::Bytes(_) => ColumnType::Blob,
        DataValueView::DateTime(_) => ColumnType::DateTime,
        DataValueView::Uuid(_) => ColumnType::Uuid,
        DataValueView::Json(_) => ColumnType::Json,
        DataValueView::Array(_) => ColumnType::Json,
        DataValueView::Object(_) => ColumnType::Json,
    }
}

fn has_column_exec(cols: &Vec<ColumnDefinition>, n: usize, name: &str) -> (r: bool)
    requires
        n <= cols.len(),
    ensures
        r == has_column_spec(cols@.take(n as int), name@),
{
    let mut i: usize = 0;
    while i < n
        invariant
            i <= n <= cols.len(),
            forall|j: int| 0 <= j < i ==> cols@[j].name@ != name@,
        decreases n - i,
    {
        if str_eq(cols[i].name.as_str(), name) {
            assert(cols@.take(n as int)[i as int] == cols@[i as int]);
            return true;
        }
        i = i + 1;
    }
    assert forall|j: int| 0 <= j < n implies (#[trigger] cols@.take(n as int)[j]).name@ != name@ by {
        assert(cols@.take(n as int)[j] == cols@[j]);
    }
    false
}

fn has_index_exec(idxs: &Vec<IndexDefinition>, n: usize, name: &str) -> (r: bool)
    requires
        n <= idxs.len(),
    ensures
        r == has_index_spec(idxs@.take(n as int), name@),
{
    let mut i: usize = 0;
    while i < n
        invariant
            i <= n <= idxs.len(),
            forall|j: int| 0 <= j < i ==> idxs@[j].name@ != name@,
        decreases n - i,
    {
        if str_eq(idxs[i].name.as_str(), name) {
            assert(idxs@.take(n as int)[i as int] == idxs@[i as int]);
            return true;
        }
        i = i + 1;
    }
    assert forall|j: int| 0 <= j < n implies (#[trigger] idxs@.take(n as int)[j]).name@ != name@ by {
        assert(idxs@.take(n as int)[j] == idxs@[j]);
    }
    false
}

fn has_constraint_exec(cs: &Vec<ConstraintDefinition>, n: usize, name: &str) -> (r: bool)
    requires
        n <= cs.len(),
    ensures
        r == has_constraint_spec(cs@.take(n as int), name@),
{
    let mut i: usize = 0;
    while i < n
        invariant
            i <= n <= cs.len(),
            forall|j: int| 0 <= j < i ==> cs@[j].name@ != name@,
        decreases n - i,
    {
        if str_eq(cs[i].name.as_str(), name) {
            assert(cs@.take(n as int)[i as int] == cs@[i as int]);
            return true;
        }
        i = i + 1;
    }
    assert forall|j: int| 0 <= j < n implies (#[trigger] cs@.take(n as int)[j]).name@ != name@ by {
        assert(cs@.take(n as int)[j] == cs@[j]);
    }
    false
}

fn name_message(head: &str, a: &String, tail: &str) -> (r: String)
    ensures
        r@ == head@ + a@ + tail@,
{
    let mut s = str_to_string(head);
    s.append(a.as_str());
    s.append(tail);
    s
}

proof fn lemma_refs_error_persists(kind: Seq<char>, owner: Seq<char>, refs: Seq<Seq<char>>, cols: Seq<ColumnDefinition>, n: int, e: Seq<char>)
    requires
        0 <= n <= refs.len(),
        refs_check(kind, owner, refs.take(n), cols) == Err::<(), Seq<char>>(e),
    ensures
        refs_check(kind, owner, refs, cols) == Err::<(), Seq<char>>(e),
    decreases refs.len() - n,
{
    if n < refs.len() {
        assert(refs.take(n + 1).drop_last() =~= refs.take(n));
        lemma_refs_error_persists(kind, owner, refs, cols, n + 1, e);
    } else {
        assert(refs.take(n) =~= refs);
    }
}

/// Checks that the referenced columns exist.
fn refs_check_exec(kind: &str, owner: &String, refs: &Vec<String>, cols: &Vec<ColumnDefinition>) -> (r: Result<(), String>)
    ensures
        match (r, refs_check(kind@, owner@, strings_view(refs@), cols@)) {
            (Ok(()), Ok(())) => true,
            (Err(m), Err(e)) => m@ == e,
            _ => false,
        },
{
    let ghost rv = strings_view(refs@);
    let mut i: usize = 0;
    assert(rv.take(0) =~= Seq::<Seq<char>>::empty());
    while i < refs.len()
        invariant
            i <= refs.len(),
            rv == strings_view(refs@),
            refs_check(kind@, owner@, rv.take(i as int), cols@) is Ok,
        decreases refs.len() - i,
    {
        assert(rv.take(i + 1).drop_last() =~= rv.take(i as int));
        assert(cols@.take(cols.len() as int) =~= cols@);
        if !has_column_exec(cols, cols.len(), refs[i].as_str()) {
            let mut m = str_to_string(kind);
            m.append(" '");
            m.append(owner.as_str());
            m.append("' 引用的列 '");
            m.append(refs[i].as_str());
            m.append("' 不存在");
            proof {
                assert(rv[i as int] == refs@[i as int]@);
                lemma_refs_error_persists(kind@, owner@, rv, cols@, i + 1, m@);
            }
            return Err(m);
        }
        i = i + 1;
    }
    assert(rv.take(i as int) =~= rv);
    Ok(())
}

proof fn lemma_indexes_error_persists(idxs: Seq<IndexDefinition>, cols: Seq<ColumnDefinition>, n: int, e: Seq<char>)
    requires
        0 <= n <= idxs.len(),
        indexes_check(idxs.take(n), cols) == Err::<(), Seq<char>>(e),
    ensures
        indexes_check(idxs, cols) == Err::<(), Seq<char>>(e),
    decreases idxs.len() - n,
{
    if n < idxs.len() {
        assert(idxs.take(n + 1).drop_last() =~= idxs.take(n));
        lemma_indexes_error_persists(idxs, cols, n + 1, e);
    } else {
        assert(idxs.take(n) =~= idxs);
    }
}

proof fn lemma_constraints_error_persists(cs: Seq<ConstraintDefinition>, cols: Seq<ColumnDefinition>, n: int, e: Seq<char>)
    requires
        0 <= n <= cs.len(),
        constraints_check(cs.take(n), cols) == Err::<(), Seq<char>>(e),
    ensures
        constraints_check(cs, cols) == Err::<(), Seq<char>>(e),
    decreases cs.len() - n,
{
    if n < cs.len() {
        assert(cs.take(n + 1).drop_last() =~= cs.take(n));
        lemma_constraints_error_persists(cs, cols, n + 1, e);
    } else {
        assert(cs.take(n) =~= cs);
    }
}

proof fn lemma_columns_error_persists(cols: Seq<ColumnDefinition>, n: int, e: Seq<char>)
    requires
        0 <= n <= cols.len(),
        columns_check(cols.take(n)) == Err::<(), Seq<char>>(e),
    ensures
        columns_check(cols) == Err::<(), Seq<char>>(e),
    decreases cols.len() - n,
{
    if n < cols.len() {
        assert(cols.take(n + 1).drop_last() =~= cols.take(n));
        lemma_columns_error_persists(cols, n + 1, e);
    } else {
        assert(cols.take(n) =~= cols);
    }
}

/// Whether an executable check result is the specified one.
pub open spec fn check_result_is(r: Result<(), String>, s: Result<(), Seq<char>>) -> bool {
    match (r, s) {
        (Ok(()), Ok(())) => true,
        (Err(m), Err(e)) => m@ == e,
        _ => false,
    }
}

impl TableSchema {
    /// An empty schema (version 1, default options) created now.
    pub fn new(name: String) -> (r: TableSchema)
        ensures
            r.name == name,
            r.columns@.len() == 0,
            r.indexes@.len() == 0,
            r.constraints@.len() == 0,
            default_options(r.options),
            r.version == 1,
            r.created_at is Some,
            r.updated_at is Some,
    {
        TableSchema {
            name,
            columns: Vec::new(),
            indexes: Vec::new(),
            constraints: Vec::new(),
            options: TableOptions::default(),
            version: 1,
            created_at: Some(now_or_epoch()),
            updated_at: Some(now_or_epoch()),
        }
    }

    /// This schema with one more column (and a new modification time).
    pub fn add_column(self, column: ColumnDefinition) -> (r: TableSchema)
        ensures
            r.columns@ == self.columns@.push(column),
            r == (TableSchema { columns: r.columns, updated_at: r.updated_at, ..self }),
            r.updated_at is Some,
    {
        let mut t = self;
        t.columns.push(column);
        t.updated_at = Some(now_or_epoch());
        t
    }

    /// This schema with one more index (and a new modification time).
    pub fn add_index(self, index: IndexDefinition) -> (r: TableSchema)
        ensures
            r.indexes@ == self.indexes@.push(index),
            r == (TableSchema { indexes: r.indexes, updated_at: r.updated_at, ..self }),
            r.updated_at is Some,
    {
        let mut t = self;
        t.indexes.push(index);
        t.updated_at = Some(now_or_epoch());
        t
    }

    /// This schema with one more constraint (and a new modification time).
    pub fn add_constraint(self, constraint: ConstraintDefinition) -> (r: TableSchema)
        ensures
            r.constraints@ == self.constraints@.push(constraint),
            r == (TableSchema { constraints: r.constraints, updated_at: r.updated_at, ..self }),
            r.updated_at is Some,
    {
        let mut t = self;
        t.constraints.push(constraint);
        t.updated_at = Some(now_or_epoch());
        t
    }

    /// This schema with the given options (and a new modification time).
    pub fn with_options(self, options: TableOptions) -> (r: TableSchema)
        ensures
            r == (TableSchema { options, updated_at: r.updated_at, ..self }),
            r.updated_at is Some,
    {
        TableSchema { options, updated_at: Some(now_or_epoch()), ..self }
    }

    /// The primary-key columns, in order.
    pub fn get_primary_key_columns(&self) -> (r: Vec<&ColumnDefinition>)
        ensures
            r@.map_values(|c: &ColumnDefinition| *c) == primary_keys(self.columns@),
    {
        let mut out: Vec<&ColumnDefinition> = Vec::new();
        let mut i: usize = 0;
        while i < self.columns.len()
            invariant
                i <= self.columns.len(),
                out@.map_values(|c: &ColumnDefinition| *c) == primary_keys(self.columns@.take(i as int)),
            decreases self.columns.len() - i,
        {
            assert(self.columns@.take(i + 1).drop_last() =~= self.columns@.take(i as int));
            let ghost o0 = out@;
            if self.columns[i].primary_key {
                out.push(&self.columns[i]);
                assert(out@.map_values(|c: &ColumnDefinition| *c) =~= o0.map_values(|c: &ColumnDefinition| *c).push(self.columns@[i as int]));
            }
            i = i + 1;
        }
        assert(self.columns@.take(i as int) =~= self.columns@);
        out
    }

    /// Whether a column is named `column_name`.
    pub fn has_column(&self, column_name: &str) -> (r: bool)
        ensures
            r == has_column_spec(self.columns@, column_name@),
    {
        assert(self.columns@.take(self.columns.len() as int) =~= self.columns@);
        has_column_exec(&self.columns, self.columns.len(), column_name)
    }

    /// The first column named `column_name`.
    pub fn get_column(&self, column_name: &str) -> (r: Option<&ColumnDefinition>)
        ensures
            match r {
                Some(c) => exists|i: int| 0 <= i < self.columns@.len() && self.columns@[i] == *c && c.name@ == column_name@
                    && forall|j: int| 0 <= j < i ==> (#[trigger] self.columns@[j]).name@ != column_name@,
                None => !has_column_spec(self.columns@, column_name@),
            },
    {
        let mut i: usize = 0;
        while i < self.columns.len()
            invariant
                i <= self.columns.len(),
                forall|j: int| 0 <= j < i ==> (#[trigger] self.columns@[j]).name@ != column_name@,
            decreases self.columns.len() - i,
        {
            if str_eq(self.columns[i].name.as_str(), column_name) {
                return Some(&self.columns[i]);
            }
            i = i + 1;
        }
        None
    }

    /// Whether an index is named `index_name`.
    pub fn has_index(&self, index_name: &str) -> (r: bool)
        ensures
            r == has_index_spec(self.indexes@, index_name@),
    {
        assert(self.indexes@.take(self.indexes.len() as int) =~= self.indexes@);
        has_index_exec(&self.indexes, self.indexes.len(), index_name)
    }

    /// The first index named `index_name`.
    pub fn get_index(&self, index_name: &str) -> (r: Option<&IndexDefinition>)
        ensures
            match r {
                Some(x) => exists|i: int| 0 <= i < self.indexes@.len() && self.indexes@[i] == *x && x.name@ == index_name@
                    && forall|j: int| 0 <= j < i ==> (#[trigger] self.indexes@[j]).name@ != index_name@,
                None => !has_index_spec(self.indexes@, index_name@),
            },
    {
        let mut i: usize = 0;
        while i < self.indexes.len()
            invariant
                i <= self.indexes.len(),
                forall|j: int| 0 <= j < i ==> (#[trigger] self.indexes@[j]).name@ != index_name@,
            decreases self.indexes.len() - i,
        {
            if str_eq(self.indexes[i].name.as_str(), index_name) {
                return Some(&self.indexes[i]);
            }
            i = i + 1;
        }
        None
    }

    /// Checks the schema: at least one column; distinct column names; distinct
    /// index names, each index over existing columns; distinct constraint names,
    /// each constraint over existing columns. The first failure is reported.
    pub fn validate(&self) -> (r: Result<(), String>)
        ensures
            check_result_is(r, schema_check(*self)),
    {
        if self.columns.len() == 0 {
            return Err(str_to_string("表必须至少有一个列"));
        }
        let mut i: usize = 0;
        assert(self.columns@.take(0) =~= Seq::<ColumnDefinition>::empty());
        while i < self.columns.len()
            invariant
                i <= self.columns.len(),
                columns_check(self.columns@.take(i as int)) is Ok,
            decreases self.columns.len() - i,
        {
            assert(self.columns@.take(i + 1).drop_last() =~= self.columns@.take(i as int));
            if has_column_exec(&self.columns, i, self.columns[i].name.as_str()) {
                let m = name_message("列名 '", &self.columns[i].name, "' 重复");
                proof { lemma_columns_error_persists(self.columns@, i + 1, m@); }
                return Err(m);
            }
            i = i + 1;
        }
        assert(self.columns@.take(i as int) =~= self.columns@);
        let mut k: usize = 0;
        assert(self.indexes@.take(0) =~= Seq::<IndexDefinition>::empty());
        while k < self.indexes.len()
            invariant
                k <= self.indexes.len(),
                self.columns@.len() > 0,
                columns_check(self.columns@) is Ok,
                indexes_check(self.indexes@.take(k as int), self.columns@) is Ok,
            decreases self.indexes.len() - k,
        {
            assert(self.indexes@.take(k + 1).drop_last() =~= self.indexes@.take(k as int));
            let idx = &self.indexes[k];
            if has_index_exec(&self.indexes, k, idx.name.as_str()) {
                let m = name_message("索引名 '", &idx.name, "' 重复");
                proof { lemma_indexes_error_persists(self.indexes@, self.columns@, k + 1, m@); }
                return Err(m);
            }
            match refs_check_exec("索引", &idx.name, &idx.columns, &self.columns) {
                Err(m) => {
                    proof { lemma_indexes_error_persists(self.indexes@, self.columns@, k + 1, m@); }
                    return Err(m);
                },
                Ok(()) => {},
            }
            k = k + 1;
        }
        assert(self.indexes@.take(k as int) =~= self.indexes@);
        let mut c: usize = 0;
        assert(self.constraints@.take(0) =~= Seq::<ConstraintDefinition>::empty());
        while c < self.constraints.len()
            invariant
                c <= self.constraints.len(),
                self.columns@.len() > 0,
                columns_check(self.columns@) is Ok,
                indexes_check(self.indexes@, self.columns@) is Ok,
                constraints_check(self.constraints@.take(c as int), self.columns@) is Ok,
            decreases self.constraints.len() - c,
        {
            assert(self.constraints@.take(c + 1).drop_last() =~= self.constraints@.take(c as int));
            let con = &self.constraints[c];
            if has_constraint_exec(&self.constraints, c, con.name.as_str()) {
                let m = name_message("约束名 '", &con.name, "' 重复");
                proof { lemma_constraints_error_persists(self.constraints@, self.columns@, c + 1, m@); }
                return Err(m);
            }
            match refs_check_exec("约束", &con.name, &con.columns, &self.columns) {
                Err(m) => {
                    proof { lemma_constraints_error_persists(self.constraints@, self.columns@, c + 1, m@); }
                    return Err(m);
                },
                Ok(()) => {},
            }
            c = c + 1;
        }
        assert(self.constraints@.take(c as int) =~= self.constraints@);
        Ok(())
    }
}

/// The column inferred for a record field: the `id` field becomes a non-null,
/// unique primary key (auto-incremented when it is an integer); any other field
/// becomes a plain column, nullable when its value is null.
pub open spec fn inferred_column(c: ColumnDefinition, key: Seq<char>, v: DataValueView) -> bool {
    &&& c.name@ == key
    &&& c.column_type == infer_type_spec(v)
    &&& c.default_value is None
    &&& c.length is None
    &&& c.precision is None
    &&& c.scale is None
    &&& if key == "id"@ {
        &&& !c.nullable
        &&& c.primary_key
        &&& c.auto_increment == (v is Int)
        &&& c.unique
        &&& c.comment matches Some(m) && m@ == "主键ID"@
    } else {
        &&& c.nullable == (v is Null)
        &&& !c.primary_key
        &&& !c.auto_increment
        &&& !c.unique
        &&& c.comment is None
    }
}

/// The default `id` column: a non-null, unique, auto-incremented BIGINT primary key.
pub open spec fn default_id_column(c: ColumnDefinition) -> bool {
    &&& c.name@ == "id"@
    &&& c.column_type == ColumnType::BigInteger
    &&& !c.nullable
    &&& c.default_value is None
    &&& c.primary_key
    &&& c.auto_increment
    &&& c.unique
    &&& c.comment matches Some(m) && m@ == "主键ID"@
    &&& c.length is None
    &&& c.precision is None
    &&& c.scale is None
}

/// Whether a record has an `id` field.
pub open spec fn has_id_field(ev: Seq<(Seq<char>, DataValueView)>) -> bool {
    exists|i: int| 0 <= i < ev.len() && (#[trigger] ev[i]).0 == "id"@
}

fn infer_column_type(value: &DataValue) -> (r: ColumnType)
    ensures
        r == infer_type_spec(value@),
{
    match value {
        DataValue::Null => ColumnType::String { length: Some(255) },
        DataValue::Bool(_) => ColumnType::Boolean,
        DataValue::Int(_) => ColumnType::BigInteger,
        DataValue::Float(_) => ColumnType::Double,
        DataValue::String(s) => {
            let n = s.as_str().len();
            if n > 65535 {
                ColumnType::LongText
            } else if n > 255 {
                ColumnType::Text
            } else {
                ColumnType::String { length: Some(255) }
            }
        },
        DataValue::Bytes(_) => ColumnType::Blob,
        DataValue::DateTime(_) => ColumnType::DateTime,
        DataValue::Uuid(_) => ColumnType::Uuid,
        DataValue::Json(_) => ColumnType::Json,
        DataValue::Array(_) => ColumnType::Json,
        DataValue::Object(_) => ColumnType::Json,
    }
}

impl TableSchema {
    /// The schema of a table that stores `data`: one column per field, in order,
    /// typed by its value, with a default `id` primary key in front when the record
    /// has no `id` field.
    pub fn infer_from_data(table_name: String, data: &Vec<Entry>) -> (r: TableSchema)
        ensures
            r.name == table_name,
            ({
                let ev = entries_view(data@);
                let off: int = if has_id_field(ev) { 0 } else { 1 };
                &&& r.columns@.len() == ev.len() + off
                &&& !has_id_field(ev) ==> default_id_column(r.columns@[0])
                &&& forall|i: int| 0 <= i < ev.len() ==> inferred_column(#[trigger] r.columns@[i + off], ev[i].0, ev[i].1)
            }),
            r.indexes@.len() == 0,
            r.constraints@.len() == 0,
            default_options(r.options),
            r.version == 1,
            r.created_at is Some,
            r.updated_at is Some,
    {
        let ghost ev = entries_view(data@);
        proof { lemma_entries_view(data@); }
        let mut columns: Vec<ColumnDefinition> = Vec::new();
        let mut has_id = false;
        let mut i: usize = 0;
        while i < data.len()
            invariant
                i <= data.len(),
                ev == entries_view(data@),
                ev.len() == data@.len(),
                forall|j: int| 0 <= j < data@.len() ==> #[trigger] ev[j] == (data@[j].key@, data@[j].value@),
                columns@.len() == i,
                has_id == exists|j: int| 0 <= j < i && (#[trigger] ev[j]).0 == "id"@,
                forall|j: int| 0 <= j < i ==> inferred_column(#[trigger] columns@[j], ev[j].0, ev[j].1),
            decreases data.len() - i,
        {
            let e = &data[i];
            let column_type = infer_column_type(&e.value);
            if str_eq(e.key.as_str(), "id") {
                has_id = true;
                let is_int = match &e.value {
                    DataValue::Int(_) => true,
                    _ => false,
                };
                columns.push(ColumnDefinition {
                    name: e.key.clone(),
                    column_type,
                    nullable: false,
                    default_value: None,
                    primary_key: true,
                    auto_increment: is_int,
                    unique: true,
                    comment: Some(str_to_string("主键ID")),
                    length: None,
                    precision: None,
                    scale: None,
                });
            } else {
                columns.push(ColumnDefinition {
                    name: e.key.clone(),
                    column_type,
                    nullable: e.value.is_null(),
                    default_value: None,
                    primary_key: false,
                    auto_increment: false,
                    unique: false,
                    comment: None,
                    length: None,
                    precision: None,
                    scale: None,
                });
            }
            assert(ev[i as int] == (data@[i as int].key@, data@[i as int].value@));
            i = i + 1;
        }
        if !has_id {
            let ghost c0 = columns@;
            columns.insert(0, ColumnDefinition {
                name: str_to_string("id"),
                column_type: ColumnType::BigInteger,
                nullable: false,
                default_value: None,
                primary_key: true,
                auto_increment: true,
                unique: true,
                comment: Some(str_to_string("主键ID")),
                length: None,
                precision: None,
                scale: None,
            });
            assert forall|j: int| 0 <= j < ev.len() implies inferred_column(#[trigger] columns@[j + 1], ev[j].0, ev[j].1) by {
                assert(columns@[j + 1] == c0[j]);
            }
        }
        TableSchema {
            name: table_name,
            columns,
            indexes: Vec::new(),
            constraints: Vec::new(),
            options: TableOptions::default(),
            version: 1,
            created_at: Some(now_or_epoch()),
            updated_at: Some(now_or_epoch()),
        }
    }
}

impl ColumnDefinition {
    /// A nullable column of the given type with no other properties.
    pub fn new(name: String, column_type: ColumnType) -> (r: ColumnDefinition)
        ensures
            r == (ColumnDefinition {
                name,
                column_type,
                nullable: true,
                default_value: None,
                primary_key: false,
                auto_increment: false,
                unique: false,
                comment: None,
                length: None,
                precision: None,
                scale: None,
            }),
    {
        ColumnDefinition {
            name,
            column_type,
            nullable: true,
            default_value: None,
            primary_key: false,
            auto_increment: false,
            unique: false,
            comment: None,
            length: None,
            precision: None,
            scale: None,
        }
    }

    /// This column as a (non-null) primary key.
    pub fn primary_key(self) -> (r: ColumnDefinition)
        ensures
            r == (ColumnDefinition { primary_key: true, nullable: false, ..self }),
    {
        ColumnDefinition { primary_key: true, nullable: false, ..self }
    }

    /// This column, not null.
    pub fn not_null(self) -> (r: ColumnDefinition)
        ensures
            r == (ColumnDefinition { nullable: false, ..self }),
    {
        ColumnDefinition { nullable: false, ..self }
    }

    /// This column, unique.
    pub fn unique(self) -> (r: ColumnDefinition)
        ensures
            r == (ColumnDefinition { unique: true, ..self }),
    {
        ColumnDefinition { unique: true, ..self }
    }

    /// This column, auto-incremented (and so not null).
    pub fn auto_increment(self) -> (r: ColumnDefinition)
        ensures
            r == (ColumnDefinition { auto_increment: true, nullable: false, ..self }),
    {
        ColumnDefinition { auto_increment: true, nullable: false, ..self }
    }

    /// This column with a default value (as SQL text).
    pub fn default_value(self, value: &str) -> (r: ColumnDefinition)
        ensures
            r.default_value matches Some(d) && d@ == value@,
            r == (ColumnDefinition { default_value: r.default_value, ..self }),
    {
        ColumnDefinition { default_value: Some(str_to_string(value)), ..self }
    }

    /// This column with a comment.
    pub fn comment(self, comment: &str) -> (r: ColumnDefinition)
        ensures
            r.comment matches Some(d) && d@ == comment@,
            r == (ColumnDefinition { comment: r.comment, ..self }),
    {
        ColumnDefinition { comment: Some(str_to_string(comment)), ..self }
    }
}

/// The options after setting `key` to `value`: the entry under `key` is replaced,
/// or a new entry is added at the end.
pub open spec fn upsert(opts: Seq<(Seq<char>, Seq<char>)>, key: Seq<char>, value: Seq<char>) -> Seq<(Seq<char>, Seq<char>)> {
    if exists|i: int| 0 <= i < opts.len() && (#[trigger] opts[i]).0 == key {
        let i = choose|i: int| 0 <= i < opts.len() && (#[trigger] opts[i]).0 == key;
        opts.update(i, (key, value))
    } else {
        opts.push((key, value))
    }
}

/// The views of string pairs.
pub open spec fn pairs_view(s: Seq<(String, String)>) -> Seq<(Seq<char>, Seq<char>)> {
    s.map_values(|p: (String, String)| (p.0@, p.1@))
}

/// Whether no two entries share a key.
pub open spec fn keys_distinct(s: Seq<(Seq<char>, Seq<char>)>) -> bool {
    forall|i: int, j: int| 0 <= i < s.len() && 0 <= j < s.len() && i != j ==> (#[trigger] s[i]).0 != (#[trigger] s[j]).0
}

impl IndexDefinition {
    /// A non-unique B-tree index over the given columns, without options.
    pub fn new(name: String, columns: Vec<String>) -> (r: IndexDefinition)
        ensures
            r.name == name,
            r.index_type == IndexType::BTree,
            r.columns == columns,
            !r.unique,
            r.options@.len() == 0,
    {
        IndexDefinition { name, index_type: IndexType::BTree, columns, unique: false, options: Vec::new() }
    }

    /// This index, unique.
    pub fn unique(self) -> (r: IndexDefinition)
        ensures
            r == (IndexDefinition { unique: true, ..self }),
    {
        IndexDefinition { unique: true, ..self }
    }

    /// This index with the given kind.
    pub fn index_type(self, index_type: IndexType) -> (r: IndexDefinition)
        ensures
            r == (IndexDefinition { index_type, ..self }),
    {
        IndexDefinition { index_type, ..self }
    }

    /// This index with the option `key` set to `value`.
    #[verifier::loop_isolation(false)]
    pub fn option(self, key: &str, value: &str) -> (r: IndexDefinition)
        requires
            keys_distinct(pairs_view(self.options@)),
        ensures
            pairs_view(r.options@) == upsert(pairs_view(self.options@), key@, value@),
            keys_distinct(pairs_view(r.options@)),
            r == (IndexDefinition { options: r.options, ..self }),
    {
        let IndexDefinition { name, index_type, columns, unique, mut options } = self;
        let ghost ov = pairs_view(options@);
        let mut i: usize = 0;
        while i < options.len()
            invariant
                i <= options.len(),
                ov == pairs_view(options@),
                keys_distinct(ov),
                forall|j: int| 0 <= j < i ==> (#[trigger] ov[j]).0 != key@,
            decreases options.len() - i,
        {
            if str_eq(options[i].0.as_str(), key) {
                options.set(i, (str_to_string(key), str_to_string(value)));
                proof {
                    assert(ov[i as int].0 == key@);
                    let w = choose|w: int| 0 <= w < ov.len() && (#[trigger] ov[w]).0 == key@;
                    assert(w == i) by {
                        if w != i {
                            assert(ov[w].0 != ov[i as int].0);
                        }
                    }
                    assert(pairs_view(options@) =~= ov.update(i as int, (key@, value@)));
                }
                return IndexDefinition { name, index_type, columns, unique, options };
            }
            i = i + 1;
        }
        options.push((str_to_string(key), str_to_string(value)));
        assert(pairs_view(options@) =~= ov.push((key@, value@)));
        IndexDefinition { name, index_type, columns, unique, options }
    }
}

impl ConstraintDefinition {
    /// A primary-key constraint over the given columns.
    pub fn primary_key(name: String, columns: Vec<String>) -> (r: ConstraintDefinition)
        ensures
            r == (ConstraintDefinition {
                name,
                constraint_type: ConstraintType::PrimaryKey,
                columns,
                reference_table: None,
                reference_columns: None,
                on_delete: None,
                on_update: None,
                check_condition: None,
            }),
    {
        ConstraintDefinition {
            name,
            constraint_type: ConstraintType::PrimaryKey,
            columns,
            reference_table: None,
            reference_columns: None,
            on_delete: None,
            on_update: None,
            check_condition: None,
        }
    }

    /// A foreign key referencing `reference_table`, restricting deletes and updates.
    pub fn foreign_key(name: String, columns: Vec<String>, reference_table: String, reference_columns: Vec<String>) -> (r: ConstraintDefinition)
        ensures
            r == (ConstraintDefinition {
                name,
                constraint_type: ConstraintType::ForeignKey,
                columns,
                reference_table: Some(reference_table),
                reference_columns: Some(reference_columns),
                on_delete: Some(ReferentialAction::Restrict),
                on_update: Some(ReferentialAction::Restrict),
                check_condition: None,
            }),
    {
        ConstraintDefinition {
            name,
            constraint_type: ConstraintType::ForeignKey,
            columns,
            reference_table: Some(reference_table),
            reference_columns: Some(reference_columns),
            on_delete: Some(ReferentialAction::Restrict),
            on_update: Some(ReferentialAction::Restrict),
            check_condition: None,
        }
    }

    /// A unique constraint over the given columns.
    pub fn unique(name: String, columns: Vec<String>) -> (r: ConstraintDefinition)
        ensures
            r == (ConstraintDefinition {
                name,
                constraint_type: ConstraintType::Unique,
                columns,
                reference_table: None,
                reference_columns: None,
                on_delete: None,
                on_update: None,
                check_condition: None,
            }),
    {
        ConstraintDefinition {
            name,
            constraint_type: ConstraintType::Unique,
            columns,
            reference_table: None,
            reference_columns: None,
            on_delete: None,
            on_update: None,
            check_condition: None,
        }
    }

    /// A check constraint with the given condition (over no columns).
    pub fn check(name: String, condition: String) -> (r: ConstraintDefinition)
        ensures
            r.name == name,
            r.constraint_type == ConstraintType::Check,
            r.columns@.len() == 0,
            r.reference_table is None,
            r.reference_columns is None,
            r.on_delete is None,
            r.on_update is None,
            r.check_condition == Some(condition),
    {
        ConstraintDefinition {
            name,
            constraint_type: ConstraintType::Check,
            columns: Vec::new(),
            reference_table: None,
            reference_columns: None,
            on_delete: None,
            on_update: None,
            check_condition: Some(condition),
        }
    }

    /// This constraint with the given delete action.
    pub fn on_delete(self, action: ReferentialAction) -> (r: ConstraintDefinition)
        ensures
            r == (ConstraintDefinition { on_delete: Some(action), ..self }),
    {
        ConstraintDefinition { on_delete: Some(action), ..self }
    }

    /// This constraint with the given update action.
    pub fn on_update(self, action: ReferentialAction) -> (r: ConstraintDefinition)
        ensures
            r == (ConstraintDefinition { on_update: Some(action), ..self }),
    {
        ConstraintDefinition { on_update: Some(action), ..self }
    }
}

/// A well-formed schema: at least one column; column names, index names and
/// constraint names each pairwise distinct; every column that an index or a
/// constraint names exists.
pub open spec fn schema_well_formed(s: TableSchema) -> bool {
    let cols = s.columns@;
    let idxs = s.indexes@;
    let cs = s.constraints@;
    &&& cols.len() > 0
    &&& forall|i: int, j: int| 0 <= i < j < cols.len() ==> (#[trigger] cols[i]).name@ != (#[trigger] cols[j]).name@
    &&& forall|i: int, j: int| 0 <= i < j < idxs.len() ==> (#[trigger] idxs[i]).name@ != (#[trigger] idxs[j]).name@
    &&& forall|i: int, k: int| 0 <= i < idxs.len() && 0 <= k < idxs[i].columns@.len()
        ==> has_column_spec(cols, (#[trigger] idxs[i].columns@[k])@)
    &&& forall|i: int, j: int| 0 <= i < j < cs.len() ==> (#[trigger] cs[i]).name@ != (#[trigger] cs[j]).name@
    &&& forall|i: int, k: int| 0 <= i < cs.len() && 0 <= k < cs[i].columns@.len()
        ==> has_column_spec(cols, (#[trigger] cs[i].columns@[k])@)
}

proof fn lemma_columns_check(cols: Seq<ColumnDefinition>)
    ensures
        columns_check(cols) is Ok <==> forall|i: int, j: int| 0 <= i < j < cols.len() ==> (#[trigger] cols[i]).name@ != (#[trigger] cols[j]).name@,
    decreases cols.len(),
{
    if cols.len() > 0 {
        let p = cols.drop_last();
        lemma_columns_check(p);
        if columns_check(cols) is Ok {
            assert forall|i: int, j: int| 0 <= i < j < cols.len() implies (#[trigger] cols[i]).name@ != (#[trigger] cols[j]).name@ by {
                if j < cols.len() - 1 {
                    assert(p[i] == cols[i] && p[j] == cols[j]);
                } else {
                    assert(p[i] == cols[i]);
                    if cols[i].name@ == cols[j].name@ {
                        assert(has_column_spec(p, cols.last().name@));
                    }
                }
            }
        }
        if forall|i: int, j: int| 0 <= i < j < cols.len() ==> (#[trigger] cols[i]).name@ != (#[trigger] cols[j]).name@ {
            assert forall|i: int, j: int| 0 <= i < j < p.len() implies (#[trigger] p[i]).name@ != (#[trigger] p[j]).name@ by {
                assert(p[i] == cols[i] && p[j] == cols[j]);
            }
            if has_column_spec(p, cols.last().name@) {
                let w = choose|w: int| 0 <= w < p.len() && (#[trigger] p[w]).name@ == cols.last().name@;
                assert(cols[w] == p[w]);
                assert(cols[w].name@ != cols[cols.len() - 1].name@);
            }
        }
    }
}

proof fn lemma_refs_check(kind: Seq<char>, owner: Seq<char>, refs: Seq<Seq<char>>, cols: Seq<ColumnDefinition>)
    ensures
        refs_check(kind, owner, refs, cols) is Ok <==> forall|k: int| 0 <= k < refs.len() ==> has_column_spec(cols, #[trigger] refs[k]),
    decreases refs.len(),
{
    if refs.len() > 0 {
        let p = refs.drop_last();
        lemma_refs_check(kind, owner, p, cols);
        if refs_check(kind, owner, refs, cols) is Ok {
            assert forall|k: int| 0 <= k < refs.len() implies has_column_spec(cols, #[trigger] refs[k]) by {
                if k < refs.len() - 1 {
                    assert(p[k] == refs[k]);
                }
            }
        }
        if forall|k: int| 0 <= k < refs.len() ==> has_column_spec(cols, #[trigger] refs[k]) {
            assert forall|k: int| 0 <= k < p.len() implies has_column_spec(cols, #[trigger] p[k]) by {
                assert(p[k] == refs[k]);
            }
            assert(has_column_spec(cols, refs[refs.len() - 1]));
        }
    }
}

proof fn lemma_indexes_check(idxs: Seq<IndexDefinition>, cols: Seq<ColumnDefinition>)
    ensures
        indexes_check(idxs, cols) is Ok <==> {
            &&& forall|i: int, j: int| 0 <= i < j < idxs.len() ==> (#[trigger] idxs[i]).name@ != (#[trigger] idxs[j]).name@
            &&& forall|i: int, k: int| 0 <= i < idxs.len() && 0 <= k < idxs[i].columns@.len()
                ==> has_column_spec(cols, (#[trigger] idxs[i].columns@[k])@)
        },
    decreases idxs.len(),
{
    if idxs.len() > 0 {
        let p = idxs.drop_last();
        let l = idxs.last();
        lemma_indexes_check(p, cols);
        lemma_refs_check("索引"@, l.name@, strings_view(l.columns@), cols);
        let good = {
            &&& forall|i: int, j: int| 0 <= i < j < idxs.len() ==> (#[trigger] idxs[i]).name@ != (#[trigger] idxs[j]).name@
            &&& forall|i: int, k: int| 0 <= i < idxs.len() && 0 <= k < idxs[i].columns@.len()
                ==> has_column_spec(cols, (#[trigger] idxs[i].columns@[k])@)
        };
        if indexes_check(idxs, cols) is Ok {
            assert forall|i: int, j: int| 0 <= i < j < idxs.len() implies (#[trigger] idxs[i]).name@ != (#[trigger] idxs[j]).name@ by {
                assert(p[i] == idxs[i]);
                if j < idxs.len() - 1 {
                    assert(p[j] == idxs[j]);
                } else if idxs[i].name@ == idxs[j].name@ {
                    assert(has_index_spec(p, l.name@));
                }
            }
            assert forall|i: int, k: int| 0 <= i < idxs.len() && 0 <= k < idxs[i].columns@.len()
                implies has_column_spec(cols, (#[trigger] idxs[i].columns@[k])@) by {
                if i < idxs.len() - 1 {
                    assert(p[i] == idxs[i]);
                } else {
                    assert(strings_view(l.columns@)[k] == l.columns@[k]@);
                }
            }
        }
        if good {
            assert forall|i: int, j: int| 0 <= i < j < p.len() implies (#[trigger] p[i]).name@ != (#[trigger] p[j]).name@ by {
                assert(p[i] == idxs[i] && p[j] == idxs[j]);
            }
            assert forall|i: int, k: int| 0 <= i < p.len() && 0 <= k < p[i].columns@.len()
                implies has_column_spec(cols, (#[trigger] p[i].columns@[k])@) by {
                assert(p[i] == idxs[i]);
            }
            if has_index_spec(p, l.name@) {
                let w = choose|w: int| 0 <= w < p.len() && (#[trigger] p[w]).name@ == l.name@;
                assert(idxs[w] == p[w]);
                assert(idxs[w].name@ != idxs[idxs.len() - 1].name@);
            }
            assert forall|k: int| 0 <= k < strings_view(l.columns@).len()
                implies has_column_spec(cols, #[trigger] strings_view(l.columns@)[k]) by {
                assert(strings_view(l.columns@)[k] == idxs[idxs.len() - 1].columns@[k]@);
            }
        }
    }
}

proof fn lemma_constraints_check(cs: Seq<ConstraintDefinition>, cols: Seq<ColumnDefinition>)
    ensures
        constraints_check(cs, cols) is Ok <==> {
            &&& forall|i: int, j: int| 0 <= i < j < cs.len() ==> (#[trigger] cs[i]).name@ != (#[trigger] cs[j]).name@
            &&& forall|i: int, k: int| 0 <= i < cs.len() && 0 <= k < cs[i].columns@.len()
                ==> has_column_spec(cols, (#[trigger] cs[i].columns@[k])@)
        },
    decreases cs.len(),
{
    if cs.len() > 0 {
        let p = cs.drop_last();
        let l = cs.last();
        lemma_constraints_check(p, cols);
        lemma_refs_check("约束"@, l.name@, strings_view(l.columns@), cols);
        let good = {
            &&& forall|i: int, j: int| 0 <= i < j < cs.len() ==> (#[trigger] cs[i]).name@ != (#[trigger] cs[j]).name@
            &&& forall|i: int, k: int| 0 <= i < cs.len() && 0 <= k < cs[i].columns@.len()
                ==> has_column_spec(cols, (#[trigger] cs[i].columns@[k])@)
        };
        if constraints_check(cs, cols) is Ok {
            assert forall|i: int, j: int| 0 <= i < j < cs.len() implies (#[trigger] cs[i]).name@ != (#[trigger] cs[j]).name@ by {
                assert(p[i] == cs[i]);
                if j < cs.len() - 1 {
                    assert(p[j] == cs[j]);
                } else if cs[i].name@ == cs[j].name@ {
                    assert(has_constraint_spec(p, l.name@));
                }
            }
            assert forall|i: int, k: int| 0 <= i < cs.len() && 0 <= k < cs[i].columns@.len()
                implies has_column_spec(cols, (#[trigger] cs[i].columns@[k])@) by {
                if i < cs.len() - 1 {
                    assert(p[i] == cs[i]);
                } else {
                    assert(strings_view(l.columns@)[k] == l.columns@[k]@);
                }
            }
        }
        if good {
            assert forall|i: int, j: int| 0 <= i < j < p.len() implies (#[trigger] p[i]).name@ != (#[trigger] p[j]).name@ by {
                assert(p[i] == cs[i] && p[j] == cs[j]);
            }
            assert forall|i: int, k: int| 0 <= i < p.len() && 0 <= k < p[i].columns@.len()
                implies has_column_spec(cols, (#[trigger] p[i].columns@[k])@) by {
                assert(p[i] == cs[i]);
            }
            if has_constraint_spec(p, l.name@) {
                let w = choose|w: int| 0 <= w < p.len() && (#[trigger] p[w]).name@ == l.name@;
                assert(cs[w] == p[w]);
                assert(cs[w].name@ != cs[cs.len() - 1].name@);
            }
            assert forall|k: int| 0 <= k < strings_view(l.columns@).len()
                implies has_column_spec(cols, #[trigger] strings_view(l.columns@)[k]) by {
                assert(strings_view(l.columns@)[k] == cs[cs.len() - 1].columns@[k]@);
            }
        }
    }
}

/// Schema checking accepts exactly the well-formed schemas: `validate` succeeds on
/// a schema if and only if it has a column, no two columns, indexes or
/// constraints share a name, and every column that an index or a constraint
/// names exists.
pub proof fn lemma_validate_accepts_exactly_well_formed(s: TableSchema)
    ensures
        schema_check(s) is Ok <==> schema_well_formed(s),
{
    lemma_columns_check(s.columns@);
    lemma_indexes_check(s.indexes@, s.columns@);
    lemma_constraints_check(s.constraints@, s.columns@);
}

/// Numbers keep their kind when a schema is inferred: a column is given a
/// floating-point type (`Double`, for a float value) exactly when its value is a
/// float, and an integer type (`BigInteger`, for an integer value) exactly when
/// its value is an integer.
pub proof fn lemma_inferred_number_columns(v: DataValueView)
    ensures
        v is Float ==> infer_type_spec(v) == ColumnType::Double,
        v is Int ==> infer_type_spec(v) == ColumnType::BigInteger,
        (infer_type_spec(v) is Float || infer_type_spec(v) is Double) <==> v is Float,
        (infer_type_spec(v) is Integer || infer_type_spec(v) is BigInteger || infer_type_spec(v) is SmallInteger)
            <==> v is Int,
{
}

/// A text column is wide enough for the text it is inferred from: a text of up
/// to 255 UTF-8 bytes gets a 255-long string column, one of up to 65535 bytes a
/// text column, and a longer one a long-text column.
pub proof fn lemma_inferred_text_columns(s: Seq<char>)
    ensures
        byte_len(s) <= 255 ==> infer_type_spec(DataValueView::String(s)) == (ColumnType::String { length: Some(255) }),
        255 < byte_len(s) <= 65535 ==> infer_type_spec(DataValueView::String(s)) == ColumnType::Text,
        65535 < byte_len(s) ==> infer_type_spec(DataValueView::String(s)) == ColumnType::LongText,
{
}

} // verus!
