//! SQL statement construction with `?` placeholders and bound parameters.

use vstd::prelude::*;
use crate::error::{QuickDbError, ErrorView};
use crate::text::{join_seqs, join_strings, string_views, str_to_string, push_u64, nat_digits, digit_char};
use crate::types::{
    DataValue, DataValueView, QueryCondition, QueryConditionView, QueryOperator, SortDirection,
    conditions_view, values_view, lemma_values_view, append_values, Entry, entries_view,
    lemma_entries_view, clone_conditions,
};

verus! {

/// The LIKE pattern operand of a string match: `pre + s + post` for a string, the
/// operand unchanged otherwise.
pub open spec fn like_param(v: DataValueView, pre: Seq<char>, post: Seq<char>) -> DataValueView {
    match v {
        DataValueView::String(s) => DataValueView::String(pre + s + post),
        _ => v,
    }
}

/// `n` placeholders separated by `, `.
pub open spec fn placeholders(n: nat) -> Seq<char> {
    join_seqs(Seq::new(n, |i: int| "?"@), ", "@)
}

/// The SQL fragment and parameters of one condition; `None` when an `IN` / `NOT IN`
/// operand is not an array.
pub open spec fn cond_clause(c: QueryConditionView) -> Option<(Seq<char>, Seq<DataValueView>)> {
    let f = c.field;
    match c.operator {
        QueryOperator::Eq => Some((f + " = ?"@, seq![c.value])),
        QueryOperator::Ne => Some((f + " != ?"@, seq![c.value])),
        QueryOperator::Gt => Some((f + " > ?"@, seq![c.value])),
        QueryOperator::Gte => Some((f + " >= ?"@, seq![c.value])),
        QueryOperator::Lt => Some((f + " < ?"@, seq![c.value])),
        QueryOperator::Lte => Some((f + " <= ?"@, seq![c.value])),
        QueryOperator::Contains => Some((f + " LIKE ?"@, seq![like_param(c.value, "%"@, "%"@)])),
        QueryOperator::StartsWith => Some((f + " LIKE ?"@, seq![like_param(c.value, ""@, "%"@)])),
        QueryOperator::EndsWith => Some((f + " LIKE ?"@, seq![like_param(c.value, "%"@, ""@)])),
        QueryOperator::In => match c.value {
            DataValueView::Array(vs) => Some((f + " IN ("@ + placeholders(vs.len()) + ")"@, vs)),
            _ => None,
        },
        QueryOperator::NotIn => match c.value {
            DataValueView::Array(vs) => Some((f + " NOT IN ("@ + placeholders(vs.len()) + ")"@, vs)),
            _ => None,
        },
        QueryOperator::Regex => Some((f + " REGEXP ?"@, seq![c.value])),
        QueryOperator::Exists => Some((f + " IS NOT NULL"@, Seq::empty())),
        QueryOperator::IsNull => Some((f + " IS NULL"@, Seq::empty())),
        QueryOperator::IsNotNull => Some((f + " IS NOT NULL"@, Seq::empty())),
    }
}

/// The error for an `IN` / `NOT IN` condition whose operand is not an array.
pub open spec fn list_operand_error(op: QueryOperator) -> ErrorView {
    if op == QueryOperator::In {
        ErrorView::QueryError { message: "IN 操作符需要数组类型的值"@ }
    } else {
        ErrorView::QueryError { message: "NOT IN 操作符需要数组类型的值"@ }
    }
}

/// The fragments and parameters of a list of conditions, or the error of the first
/// condition that has none.
pub open spec fn where_parts(conds: Seq<QueryConditionView>) -> Result<(Seq<Seq<char>>, Seq<DataValueView>), ErrorView>
    decreases conds.len(),
{
    if conds.len() == 0 {
        Ok((Seq::empty(), Seq::empty()))
    } else {
        match where_parts(conds.drop_last()) {
            Err(e) => Err(e),
            Ok((cl, ps)) => match cond_clause(conds.last()) {
                None => Err(list_operand_error(conds.last().operator)),
                Some((c, p)) => Ok((cl.push(c), ps + p)),
            },
        }
    }
}

/// A list of conditions as one `AND`-joined predicate with its parameters.
pub open spec fn where_clause(conds: Seq<QueryConditionView>) -> Result<(Seq<char>, Seq<DataValueView>), ErrorView> {
    match where_parts(conds) {
        Err(e) => Err(e),
        Ok((cl, ps)) => Ok((join_seqs(cl, " AND "@), ps)),
    }
}

/// Whether an executable (SQL, parameters) result is the specified one.
pub open spec fn sql_result_is(
    r: Result<(String, Vec<DataValue>), QuickDbError>,
    s: Result<(Seq<char>, Seq<DataValueView>), ErrorView>,
) -> bool {
    match (r, s) {
        (Ok((sql, ps)), Ok((ssql, sps))) => sql@ == ssql && values_view(ps@) == sps,
        (Err(e), Err(se)) => e@ == se,
        _ => false,
    }
}

fn query_error(msg: &str) -> (r: QuickDbError)
    ensures
        r@ == (ErrorView::QueryError { message: msg@ }),
{
    QuickDbError::QueryError { message: str_to_string(msg) }
}

fn placeholders_exec(n: usize) -> (r: String)
    ensures
        r@ == placeholders(n as nat),
{
    let mut v: Vec<String> = Vec::new();
    let mut i: usize = 0;
    while i < n
        invariant
            i <= n,
            v@.len() == i,
            forall|j: int| 0 <= j < i ==> (#[trigger] v@[j])@ == "?"@,
        decreases n - i,
    {
        v.push(str_to_string("?"));
        i = i + 1;
    }
    assert(string_views(v@) =~= Seq::new(n as nat, |i: int| "?"@));
    join_strings(&v, ", ")
}

fn push_value(ps: &mut Vec<DataValue>, v: DataValue)
    ensures
        values_view(final(ps)@) == values_view(old(ps)@).push(v@),
{
    let ghost p0 = ps@;
    ps.push(v);
    assert(ps@.drop_last() =~= p0);
}

fn like_value(v: &DataValue, pre: &str, post: &str) -> (r: DataValue)
    ensures
        r@ == like_param(v@, pre@, post@),
{
    match v {
        DataValue::String(s) => {
            let mut t = str_to_string(pre);
            t.append(s.as_str());
            t.append(post);
            DataValue::String(t)
        },
        _ => v.deep_clone(),
    }
}

/// The SQL fragment of one condition, appending its parameters to `ps`.
fn condition_clause(c: &QueryCondition, ps: &mut Vec<DataValue>) -> (r: Result<String, QuickDbError>)
    ensures
        match cond_clause(c@) {
            None => r is Err && r->Err_0@ == list_operand_error(c.operator) && final(ps)@ == old(ps)@,
            Some((sql, p)) => r is Ok && r->Ok_0@ == sql && values_view(final(ps)@) == values_view(old(ps)@) + p,
        },
{
    let mut s = c.field.clone();
    let ghost p0 = values_view(ps@);
    match c.operator {
        QueryOperator::Eq => { s.append(" = ?"); push_value(ps, c.value.deep_clone()); },
        QueryOperator::Ne => { s.append(" != ?"); push_value(ps, c.value.deep_clone()); },
        QueryOperator::Gt => { s.append(" > ?"); push_value(ps, c.value.deep_clone()); },
        QueryOperator::Gte => { s.append(" >= ?"); push_value(ps, c.value.deep_clone()); },
        QueryOperator::Lt => { s.append(" < ?"); push_value(ps, c.value.deep_clone()); },
        QueryOperator::Lte => { s.append(" <= ?"); push_value(ps, c.value.deep_clone()); },
        QueryOperator::Contains => { s.append(" LIKE ?"); push_value(ps, like_value(&c.value, "%", "%")); },
        QueryOperator::StartsWith => { s.append(" LIKE ?"); push_value(ps, like_value(&c.value, "", "%")); },
        QueryOperator::EndsWith => { s.append(" LIKE ?"); push_value(ps, like_value(&c.value, "%", "")); },
        QueryOperator::In => {
            match &c.value {
                DataValue::Array(vs) => {
                    s.append(" IN (");
                    let ph = placeholders_exec(vs.len());
                    s.append(ph.as_str());
                    s.append(")");
                    proof { lemma_values_view(vs@); }
                    append_values(ps, vs);
                },
                _ => { return Err(query_error("IN 操作符需要数组类型的值")); },
            }
        },
        QueryOperator::NotIn => {
            match &c.value {
                DataValue::Array(vs) => {
                    s.append(" NOT IN (");
                    let ph = placeholders_exec(vs.len());
                    s.append(ph.as_str());
                    s.append(")");
                    proof { lemma_values_view(vs@); }
                    append_values(ps, vs);
                },
                _ => { return Err(query_error("NOT IN 操作符需要数组类型的值")); },
            }
        },
        QueryOperator::Regex => { s.append(" REGEXP ?"); push_value(ps, c.value.deep_clone()); },
        QueryOperator::Exists => { s.append(" IS NOT NULL"); },
        QueryOperator::IsNull => { s.append(" IS NULL"); },
        QueryOperator::IsNotNull => { s.append(" IS NOT NULL"); },
    }
    proof {
        assert(p0.push(c.value@) =~= p0 + seq![c.value@]);
        assert(p0.push(like_param(c.value@, "%"@, "%"@)) =~= p0 + seq![like_param(c.value@, "%"@, "%"@)]);
        assert(p0.push(like_param(c.value@, ""@, "%"@)) =~= p0 + seq![like_param(c.value@, ""@, "%"@)]);
        assert(p0.push(like_param(c.value@, "%"@, ""@)) =~= p0 + seq![like_param(c.value@, "%"@, ""@)]);
        assert(p0 + Seq::empty() =~= p0);
    }
    Ok(s)
}

/// A list of conditions as one `AND`-joined predicate and its parameters.
pub fn build_where_clause(conditions: &Vec<QueryCondition>) -> (r: Result<(String, Vec<DataValue>), QuickDbError>)
    ensures
        sql_result_is(r, where_clause(conditions_view(conditions@))),
{
    let mut clauses: Vec<String> = Vec::new();
    let mut params: Vec<DataValue> = Vec::new();
    let mut i: usize = 0;
    assert(conditions_view(conditions@.take(0)) =~= Seq::<QueryConditionView>::empty());
    assert(string_views(clauses@) =~= Seq::<Seq<char>>::empty());
    assert(values_view(params@) =~= Seq::<DataValueView>::empty());
    while i < conditions.len()
        invariant
            i <= conditions.len(),
            where_parts(conditions_view(conditions@.take(i as int))) == Ok::<(Seq<Seq<char>>, Seq<DataValueView>), ErrorView>((string_views(clauses@), values_view(params@))),
        decreases conditions.len() - i,
    {
        let ghost cv = conditions_view(conditions@.take(i + 1));
        assert(cv.drop_last() =~= conditions_view(conditions@.take(i as int)));
        assert(cv.last() == conditions@[i as int]@);
        let c = condition_clause(&conditions[i], &mut params);
        match c {
            Ok(s) => {
                let ghost cl0 = clauses@;
                clauses.push(s);
                assert(string_views(clauses@) =~= string_views(cl0).push(s@));
            },
            Err(e) => {
                proof {
                    assert(where_parts(cv) == Err::<(Seq<Seq<char>>, Seq<DataValueView>), ErrorView>(e@));
                    assert(conditions_view(conditions@).take(i + 1) =~= cv);
                    lemma_where_parts_error_persists(conditions_view(conditions@), i + 1, e@);
                    assert(conditions_view(conditions@).take(conditions@.len() as int) =~= conditions_view(conditions@));
                }
                return Err(e);
            },
        }
        i = i + 1;
    }
    assert(conditions@.take(i as int) =~= conditions@);
    let sql = join_strings(&clauses, " AND ");
    Ok((sql, params))
}

/// Once a prefix of the conditions has an error, every longer prefix has the same error.
proof fn lemma_where_parts_error_persists(conds: Seq<QueryConditionView>, n: int, e: ErrorView)
    requires
        0 <= n <= conds.len(),
        where_parts(conds.take(n)) == Err::<(Seq<Seq<char>>, Seq<DataValueView>), ErrorView>(e),
    ensures
        where_parts(conds.take(conds.len() as int)) == Err::<(Seq<Seq<char>>, Seq<DataValueView>), ErrorView>(e),
    decreases conds.len() - n,
{
    if n < conds.len() {
        assert(conds.take(n + 1).drop_last() =~= conds.take(n));
        lemma_where_parts_error_persists(conds, n + 1, e);
    }
}

/// Statement kinds.
#[derive(Debug, Clone, Copy, PartialEq, Eq, Structural)]
pub enum QueryType {
    Select,
    Insert,
    Update,
    Delete,
}

/// A JOIN of another table.
#[derive(Debug)]
pub struct JoinClause {
    pub join_type: JoinType,
    pub table: String,
    pub on_condition: String,
}

/// JOIN kinds.
#[derive(Debug, Clone, Copy, PartialEq, Eq, Structural)]
pub enum JoinType {
    Inner,
    Left,
    Right,
    Full,
}

/// One ORDER BY item.
#[derive(Debug)]
pub struct OrderClause {
    pub field: String,
    pub direction: SortDirection,
}

/// A SQL statement under construction.
pub struct SqlQueryBuilder {
    query_type: QueryType,
    table: String,
    fields: Vec<String>,
    conditions: Vec<QueryCondition>,
    joins: Vec<JoinClause>,
    order_by: Vec<OrderClause>,
    group_by: Vec<String>,
    having: Vec<QueryCondition>,
    limit: Option<u64>,
    offset: Option<u64>,
    values: Vec<Entry>,
    returning_fields: Vec<String>,
}

/// The abstract value of a [`JoinClause`].
pub struct JoinView {
    pub join_type: JoinType,
    pub table: Seq<char>,
    pub on_condition: Seq<char>,
}

/// The abstract value of an [`OrderClause`].
pub struct OrderView {
    pub field: Seq<char>,
    pub direction: SortDirection,
}

/// The abstract value of a [`SqlQueryBuilder`].
#[verifier::ext_equal]
pub struct SqlQueryBuilderView {
    pub query_type: QueryType,
    pub table: Seq<char>,
    pub fields: Seq<Seq<char>>,
    pub conditions: Seq<QueryConditionView>,
    pub joins: Seq<JoinView>,
    pub order_by: Seq<OrderView>,
    pub group_by: Seq<Seq<char>>,
    pub having: Seq<QueryConditionView>,
    pub limit: Option<u64>,
    pub offset: Option<u64>,
    pub values: Seq<(Seq<char>, DataValueView)>,
    pub returning_fields: Seq<Seq<char>>,
}

/// The abstract values of JOIN clauses.
pub open spec fn joins_view(s: Seq<JoinClause>) -> Seq<JoinView> {
    s.map_values(|j: JoinClause| JoinView { join_type: j.join_type, table: j.table@, on_condition: j.on_condition@ })
}

/// The abstract values of ORDER BY items.
pub open spec fn orders_view(s: Seq<OrderClause>) -> Seq<OrderView> {
    s.map_values(|o: OrderClause| OrderView { field: o.field@, direction: o.direction })
}

/// The abstract values of string slices.
pub open spec fn strs_view(s: Seq<&str>) -> Seq<Seq<char>> {
    s.map_values(|x: &str| x@)
}

impl View for SqlQueryBuilder {
    type V = SqlQueryBuilderView;

    closed spec fn view(&self) -> SqlQueryBuilderView {
        SqlQueryBuilderView {
            query_type: self.query_type,
            table: self.table@,
            fields: string_views(self.fields@),
            conditions: conditions_view(self.conditions@),
            joins: joins_view(self.joins@),
            order_by: orders_view(self.order_by@),
            group_by: string_views(self.group_by@),
            having: conditions_view(self.having@),
            limit: self.limit,
            offset: self.offset,
            values: entries_view(self.values@),
            returning_fields: string_views(self.returning_fields@),
        }
    }
}

/// The SQL keyword of a JOIN kind.
pub open spec fn join_keyword(t: JoinType) -> Seq<char> {
    match t {
        JoinType::Inner => "INNER JOIN"@,
        JoinType::Left => "LEFT JOIN"@,
        JoinType::Right => "RIGHT JOIN"@,
        JoinType::Full => "FULL OUTER JOIN"@,
    }
}

/// The SQL keyword of a sort direction.
pub open spec fn direction_keyword(d: SortDirection) -> Seq<char> {
    match d {
        SortDirection::Asc => "ASC"@,
        SortDirection::Desc => "DESC"@,
    }
}

/// The JOIN clauses, each as ` <kind> <table> ON <condition>`.
pub open spec fn joins_text(js: Seq<JoinView>) -> Seq<char>
    decreases js.len(),
{
    if js.len() == 0 {
        Seq::empty()
    } else {
        joins_text(js.drop_last()) + " "@ + join_keyword(js.last().join_type) + " "@ + js.last().table + " ON "@
            + js.last().on_condition
    }
}

/// A keyword followed by the `AND`-joined conditions, or nothing when there are none.
pub open spec fn condition_section(kw: Seq<char>, conds: Seq<QueryConditionView>) -> Result<(Seq<char>, Seq<DataValueView>), ErrorView> {
    if conds.len() == 0 {
        Ok((Seq::empty(), Seq::empty()))
    } else {
        match where_clause(conds) {
            Err(e) => Err(e),
            Ok((c, p)) => Ok((kw + c, p)),
        }
    }
}

/// A keyword followed by comma-joined items, or nothing when there are none.
pub open spec fn list_section(kw: Seq<char>, items: Seq<Seq<char>>) -> Seq<char> {
    if items.len() == 0 {
        Seq::empty()
    } else {
        kw + join_seqs(items, ", "@)
    }
}

/// The ORDER BY items as `<field> <ASC|DESC>`.
pub open spec fn order_items(os: Seq<OrderView>) -> Seq<Seq<char>> {
    os.map_values(|o: OrderView| o.field + " "@ + direction_keyword(o.direction))
}

/// ` <kw> <n>` when a number is set.
pub open spec fn number_section(kw: Seq<char>, n: Option<u64>) -> Seq<char> {
    match n {
        Some(v) => kw + nat_digits(v as nat),
        None => Seq::empty(),
    }
}

/// The error for a statement without a table.
pub open spec fn empty_table_error() -> ErrorView {
    ErrorView::QueryError { message: "表名不能为空"@ }
}

/// The SELECT statement of a builder.
pub open spec fn select_sql(b: SqlQueryBuilderView) -> Result<(Seq<char>, Seq<DataValueView>), ErrorView> {
    if b.table.len() == 0 {
        Err(empty_table_error())
    } else {
        let fields = if b.fields.len() == 0 { "*"@ } else { join_seqs(b.fields, ", "@) };
        let head = "SELECT "@ + fields + " FROM "@ + b.table + joins_text(b.joins);
        match condition_section(" WHERE "@, b.conditions) {
            Err(e) => Err(e),
            Ok((w, wp)) => match condition_section(" HAVING "@, b.having) {
                Err(e) => Err(e),
                Ok((h, hp)) => Ok((
                    head + w + list_section(" GROUP BY "@, b.group_by) + h + list_section(
                        " ORDER BY "@,
                        order_items(b.order_by),
                    ) + number_section(" LIMIT "@, b.limit) + number_section(" OFFSET "@, b.offset),
                    wp + hp,
                )),
            },
        }
    }
}

/// The column names of value entries.
pub open spec fn entry_keys(vs: Seq<(Seq<char>, DataValueView)>) -> Seq<Seq<char>> {
    vs.map_values(|e: (Seq<char>, DataValueView)| e.0)
}

/// The values of value entries.
pub open spec fn entry_values(vs: Seq<(Seq<char>, DataValueView)>) -> Seq<DataValueView> {
    vs.map_values(|e: (Seq<char>, DataValueView)| e.1)
}

/// The INSERT statement of a builder.
pub open spec fn insert_sql(b: SqlQueryBuilderView) -> Result<(Seq<char>, Seq<DataValueView>), ErrorView> {
    if b.table.len() == 0 {
        Err(empty_table_error())
    } else if b.values.len() == 0 {
        Err(ErrorView::QueryError { message: "插入值不能为空"@ })
    } else {
        Ok((
            "INSERT INTO "@ + b.table + " ("@ + join_seqs(entry_keys(b.values), ", "@) + ") VALUES ("@
                + placeholders(b.values.len()) + ")"@ + list_section(" RETURNING "@, b.returning_fields),
            entry_values(b.values),
        ))
    }
}

/// The UPDATE statement of a builder.
pub open spec fn update_sql(b: SqlQueryBuilderView) -> Result<(Seq<char>, Seq<DataValueView>), ErrorView> {
    if b.table.len() == 0 {
        Err(empty_table_error())
    } else if b.values.len() == 0 {
        Err(ErrorView::QueryError { message: "更新值不能为空"@ })
    } else {
        let sets = entry_keys(b.values).map_values(|k: Seq<char>| k + " = ?"@);
        match condition_section(" WHERE "@, b.conditions) {
            Err(e) => Err(e),
            Ok((w, wp)) => Ok((
                "UPDATE "@ + b.table + " SET "@ + join_seqs(sets, ", "@) + w + list_section(
                    " RETURNING "@,
                    b.returning_fields,
                ),
                entry_values(b.values) + wp,
            )),
        }
    }
}

/// The DELETE statement of a builder.
pub open spec fn delete_sql(b: SqlQueryBuilderView) -> Result<(Seq<char>, Seq<DataValueView>), ErrorView> {
    if b.table.len() == 0 {
        Err(empty_table_error())
    } else {
        match condition_section(" WHERE "@, b.conditions) {
            Err(e) => Err(e),
            Ok((w, wp)) => Ok(("DELETE FROM "@ + b.table + w + list_section(" RETURNING "@, b.returning_fields), wp)),
        }
    }
}

/// The statement of a builder, by its kind.
pub open spec fn build_sql(b: SqlQueryBuilderView) -> Result<(Seq<char>, Seq<DataValueView>), ErrorView> {
    match b.query_type {
        QueryType::Select => select_sql(b),
        QueryType::Insert => insert_sql(b),
        QueryType::Update => update_sql(b),
        QueryType::Delete => delete_sql(b),
    }
}

/// Copies of string slices as owned strings.
pub fn strs_to_strings(s: &[&str]) -> (r: Vec<String>)
    ensures
        string_views(r@) == strs_view(s@),
{
    let mut out: Vec<String> = Vec::new();
    let mut i: usize = 0;
    while i < s.len()
        invariant
            i <= s.len(),
            out@.len() == i,
            forall|j: int| 0 <= j < i ==> (#[trigger] out@[j])@ == s@[j]@,
        decreases s.len() - i,
    {
        out.push(str_to_string(s[i]));
        i = i + 1;
    }
    assert(string_views(out@) =~= strs_view(s@));
    out
}

fn condition_section_exec(kw: &str, conds: &Vec<QueryCondition>) -> (r: Result<(String, Vec<DataValue>), QuickDbError>)
    ensures
        sql_result_is(r, condition_section(kw@, conditions_view(conds@))),
{
    if conds.len() == 0 {
        assert(values_view(Seq::<DataValue>::empty()) =~= Seq::<DataValueView>::empty());
        return Ok((String::new(), Vec::new()));
    }
    match build_where_clause(conds) {
        Err(e) => Err(e),
        Ok((c, p)) => {
            let mut s = str_to_string(kw);
            s.append(c.as_str());
            Ok((s, p))
        },
    }
}

fn joins_text_exec(js: &Vec<JoinClause>) -> (r: String)
    ensures
        r@ == joins_text(joins_view(js@)),
{
    let mut s = String::new();
    let mut i: usize = 0;
    while i < js.len()
        invariant
            i <= js.len(),
            s@ == joins_text(joins_view(js@.take(i as int))),
        decreases js.len() - i,
    {
        let ghost prev = joins_view(js@.take(i as int));
        assert(joins_view(js@.take(i + 1)).drop_last() =~= prev);
        s.append(" ");
        let kw = match js[i].join_type {
            JoinType::Inner => "INNER JOIN",
            JoinType::Left => "LEFT JOIN",
            JoinType::Right => "RIGHT JOIN",
            JoinType::Full => "FULL OUTER JOIN",
        };
        s.append(kw);
        s.append(" ");
        s.append(js[i].table.as_str());
        s.append(" ON ");
        s.append(js[i].on_condition.as_str());
        i = i + 1;
    }
    assert(js@.take(i as int) =~= js@);
    s
}

fn list_section_exec(kw: &str, items: &Vec<String>) -> (r: String)
    ensures
        r@ == list_section(kw@, string_views(items@)),
{
    if items.len() == 0 {
        return String::new();
    }
    let mut s = str_to_string(kw);
    let j = join_strings(items, ", ");
    s.append(j.as_str());
    s
}

fn order_items_exec(os: &Vec<OrderClause>) -> (r: Vec<String>)
    ensures
        string_views(r@) == order_items(orders_view(os@)),
{
    let mut out: Vec<String> = Vec::new();
    let mut i: usize = 0;
    while i < os.len()
        invariant
            i <= os.len(),
            out@.len() == i,
            forall|j: int| 0 <= j < i ==> (#[trigger] out@[j])@ == os@[j].field@ + " "@ + direction_keyword(os@[j].direction),
        decreases os.len() - i,
    {
        let mut t = os[i].field.clone();
        t.append(" ");
        match os[i].direction {
            SortDirection::Asc => t.append("ASC"),
            SortDirection::Desc => t.append("DESC"),
        }
        out.push(t);
        i = i + 1;
    }
    assert(string_views(out@) =~= order_items(orders_view(os@)));
    out
}

fn number_section_exec(kw: &str, n: Option<u64>) -> (r: String)
    ensures
        r@ == number_section(kw@, n),
{
    match n {
        Some(v) => {
            let mut s = str_to_string(kw);
            push_u64(&mut s, v);
            s
        },
        None => String::new(),
    }
}

fn entry_keys_exec(vs: &Vec<Entry>) -> (r: Vec<String>)
    ensures
        string_views(r@) == entry_keys(entries_view(vs@)),
{
    proof { lemma_entries_view(vs@); }
    let mut out: Vec<String> = Vec::new();
    let mut i: usize = 0;
    while i < vs.len()
        invariant
            i <= vs.len(),
            out@.len() == i,
            forall|j: int| 0 <= j < i ==> (#[trigger] out@[j])@ == vs@[j].key@,
        decreases vs.len() - i,
    {
        out.push(vs[i].key.clone());
        i = i + 1;
    }
    assert(string_views(out@) =~= entry_keys(entries_view(vs@)));
    out
}

fn entry_values_exec(vs: &Vec<Entry>) -> (r: Vec<DataValue>)
    ensures
        values_view(r@) == entry_values(entries_view(vs@)),
{
    proof { lemma_entries_view(vs@); }
    let mut out: Vec<DataValue> = Vec::new();
    let mut i: usize = 0;
    while i < vs.len()
        invariant
            i <= vs.len(),
            out@.len() == i,
            forall|j: int| 0 <= j < i ==> (#[trigger] out@[j])@ == vs@[j].value@,
        decreases vs.len() - i,
    {
        out.push(vs[i].value.deep_clone());
        i = i + 1;
    }
    proof { lemma_values_view(out@); }
    assert(values_view(out@) =~= entry_values(entries_view(vs@)));
    out
}

impl SqlQueryBuilder {
    /// An empty SELECT builder.
    pub fn new() -> (r: SqlQueryBuilder)
        ensures
            r@ =~= (SqlQueryBuilderView {
                query_type: QueryType::Select,
                table: Seq::empty(),
                fields: Seq::empty(),
                conditions: Seq::empty(),
                joins: Seq::empty(),
                order_by: Seq::empty(),
                group_by: Seq::empty(),
                having: Seq::empty(),
                limit: None,
                offset: None,
                values: Seq::empty(),
                returning_fields: Seq::empty(),
            }),
    {
        let r = SqlQueryBuilder {
            query_type: QueryType::Select,
            table: String::new(),
            fields: Vec::new(),
            conditions: Vec::new(),
            joins: Vec::new(),
            order_by: Vec::new(),
            group_by: Vec::new(),
            having: Vec::new(),
            limit: None,
            offset: None,
            values: Vec::new(),
            returning_fields: Vec::new(),
        };
        proof {
            assert(entries_view(r.values@) =~= Seq::empty());
        }
        r
    }

    /// A SELECT of the given fields (all fields when none are given).
    pub fn select(self, fields: &[&str]) -> (r: SqlQueryBuilder)
        ensures
            r@ =~= (SqlQueryBuilderView { query_type: QueryType::Select, fields: strs_view(fields@), ..self@ }),
    {
        SqlQueryBuilder { query_type: QueryType::Select, fields: strs_to_strings(fields), ..self }
    }

    /// An INSERT of the given column values.
    pub fn insert(self, values: Vec<Entry>) -> (r: SqlQueryBuilder)
        ensures
            r@ =~= (SqlQueryBuilderView { query_type: QueryType::Insert, values: entries_view(values@), ..self@ }),
    {
        SqlQueryBuilder { query_type: QueryType::Insert, values, ..self }
    }

    /// An UPDATE setting the given column values.
    pub fn update(self, values: Vec<Entry>) -> (r: SqlQueryBuilder)
        ensures
            r@ =~= (SqlQueryBuilderView { query_type: QueryType::Update, values: entries_view(values@), ..self@ }),
    {
        SqlQueryBuilder { query_type: QueryType::Update, values, ..self }
    }

    /// A DELETE.
    pub fn delete(self) -> (r: SqlQueryBuilder)
        ensures
            r@ =~= (SqlQueryBuilderView { query_type: QueryType::Delete, ..self@ }),
    {
        SqlQueryBuilder { query_type: QueryType::Delete, ..self }
    }

    /// The table of the statement.
    pub fn from(self, table: &str) -> (r: SqlQueryBuilder)
        ensures
            r@ =~= (SqlQueryBuilderView { table: table@, ..self@ }),
    {
        SqlQueryBuilder { table: str_to_string(table), ..self }
    }

    /// Adds a WHERE condition.
    pub fn where_condition(self, condition: QueryCondition) -> (r: SqlQueryBuilder)
        ensures
            r@ =~= (SqlQueryBuilderView { conditions: self@.conditions.push(condition@), ..self@ }),
    {
        let mut b = self;
        let ghost c0 = b.conditions@;
        b.conditions.push(condition);
        assert(conditions_view(b.conditions@) =~= conditions_view(c0).push(condition@));
        b
    }

    /// Adds several WHERE conditions.
    pub fn where_conditions(self, conditions: &[QueryCondition]) -> (r: SqlQueryBuilder)
        ensures
            r@ =~= (SqlQueryBuilderView { conditions: self@.conditions + conditions_view(conditions@), ..self@ }),
    {
        let mut b = self;
        let ghost c0 = b.conditions@;
        let mut more = clone_conditions(conditions);
        let ghost m0 = more@;
        b.conditions.append(&mut more);
        assert(b.conditions@ =~= c0 + m0);
        assert(conditions_view(b.conditions@) =~= conditions_view(c0) + conditions_view(m0));
        b
    }

    /// Adds a JOIN.
    pub fn join(self, join_type: JoinType, table: &str, on_condition: &str) -> (r: SqlQueryBuilder)
        ensures
            r@ =~= (SqlQueryBuilderView {
                joins: self@.joins.push(JoinView { join_type, table: table@, on_condition: on_condition@ }),
                ..self@
            }),
    {
        let mut b = self;
        let ghost j0 = b.joins@;
        b.joins.push(JoinClause { join_type, table: str_to_string(table), on_condition: str_to_string(on_condition) });
        assert(joins_view(b.joins@) =~= joins_view(j0).push(JoinView { join_type, table: table@, on_condition: on_condition@ }));
        b
    }

    /// Adds an ORDER BY item.
    pub fn order_by(self, field: &str, direction: SortDirection) -> (r: SqlQueryBuilder)
        ensures
            r@ =~= (SqlQueryBuilderView {
                order_by: self@.order_by.push(OrderView { field: field@, direction }),
                ..self@
            }),
    {
        let mut b = self;
        let ghost o0 = b.order_by@;
        b.order_by.push(OrderClause { field: str_to_string(field), direction });
        assert(orders_view(b.order_by@) =~= orders_view(o0).push(OrderView { field: field@, direction }));
        b
    }

    /// Sets the GROUP BY fields.
    pub fn group_by(self, fields: &[&str]) -> (r: SqlQueryBuilder)
        ensures
            r@ =~= (SqlQueryBuilderView { group_by: strs_view(fields@), ..self@ }),
    {
        SqlQueryBuilder { group_by: strs_to_strings(fields), ..self }
    }

    /// Adds a HAVING condition.
    pub fn having(self, condition: QueryCondition) -> (r: SqlQueryBuilder)
        ensures
            r@ =~= (SqlQueryBuilderView { having: self@.having.push(condition@), ..self@ }),
    {
        let mut b = self;
        let ghost h0 = b.having@;
        b.having.push(condition);
        assert(conditions_view(b.having@) =~= conditions_view(h0).push(condition@));
        b
    }

    /// Sets the LIMIT.
    pub fn limit(self, limit: u64) -> (r: SqlQueryBuilder)
        ensures
            r@ =~= (SqlQueryBuilderView { limit: Some(limit), ..self@ }),
    {
        SqlQueryBuilder { limit: Some(limit), ..self }
    }

    /// Sets the OFFSET.
    pub fn offset(self, offset: u64) -> (r: SqlQueryBuilder)
        ensures
            r@ =~= (SqlQueryBuilderView { offset: Some(offset), ..self@ }),
    {
        SqlQueryBuilder { offset: Some(offset), ..self }
    }

    /// Sets the RETURNING fields.
    pub fn returning(self, fields: &[&str]) -> (r: SqlQueryBuilder)
        ensures
            r@ =~= (SqlQueryBuilderView { returning_fields: strs_view(fields@), ..self@ }),
    {
        SqlQueryBuilder { returning_fields: strs_to_strings(fields), ..self }
    }

    /// The SQL text and the parameters, in placeholder order.
    pub fn build(&self) -> (r: Result<(String, Vec<DataValue>), QuickDbError>)
        ensures
            sql_result_is(r, build_sql(self@)),
    {
        match self.query_type {
            QueryType::Select => self.build_select(),
            QueryType::Insert => self.build_insert(),
            QueryType::Update => self.build_update(),
            QueryType::Delete => self.build_delete(),
        }
    }

    fn build_select(&self) -> (r: Result<(String, Vec<DataValue>), QuickDbError>)
        ensures
            sql_result_is(r, select_sql(self@)),
    {
        if self.table.as_str().is_empty() {
            return Err(query_error("表名不能为空"));
        }
        proof { assert(self.table@.len() > 0); }
        let mut sql = str_to_string("SELECT ");
        if self.fields.len() == 0 {
            sql.append("*");
        } else {
            let f = join_strings(&self.fields, ", ");
            sql.append(f.as_str());
        }
        sql.append(" FROM ");
        sql.append(self.table.as_str());
        let j = joins_text_exec(&self.joins);
        sql.append(j.as_str());
        let (w, mut params) = match condition_section_exec(" WHERE ", &self.conditions) {
            Err(e) => { return Err(e); },
            Ok(x) => x,
        };
        let (h, hp) = match condition_section_exec(" HAVING ", &self.having) {
            Err(e) => { return Err(e); },
            Ok(x) => x,
        };
        sql.append(w.as_str());
        let g = list_section_exec(" GROUP BY ", &self.group_by);
        sql.append(g.as_str());
        sql.append(h.as_str());
        let items = order_items_exec(&self.order_by);
        let o = if items.len() == 0 { String::new() } else {
            let mut t = str_to_string(" ORDER BY ");
            let jo = join_strings(&items, ", ");
            t.append(jo.as_str());
            t
        };
        sql.append(o.as_str());
        let l = number_section_exec(" LIMIT ", self.limit);
        sql.append(l.as_str());
        let of = number_section_exec(" OFFSET ", self.offset);
        sql.append(of.as_str());
        append_values(&mut params, &hp);
        Ok((sql, params))
    }

    fn build_insert(&self) -> (r: Result<(String, Vec<DataValue>), QuickDbError>)
        ensures
            sql_result_is(r, insert_sql(self@)),
    {
        proof { lemma_entries_view(self.values@); }
        if self.table.as_str().is_empty() {
            return Err(query_error("表名不能为空"));
        }
        if self.values.len() == 0 {
            return Err(query_error("插入值不能为空"));
        }
        let mut sql = str_to_string("INSERT INTO ");
        sql.append(self.table.as_str());
        sql.append(" (");
        let keys = entry_keys_exec(&self.values);
        let k = join_strings(&keys, ", ");
        sql.append(k.as_str());
        sql.append(") VALUES (");
        let ph = placeholders_exec(self.values.len());
        sql.append(ph.as_str());
        sql.append(")");
        let ret = list_section_exec(" RETURNING ", &self.returning_fields);
        sql.append(ret.as_str());
        let params = entry_values_exec(&self.values);
        Ok((sql, params))
    }

    fn build_update(&self) -> (r: Result<(String, Vec<DataValue>), QuickDbError>)
        ensures
            sql_result_is(r, update_sql(self@)),
    {
        proof { lemma_entries_view(self.values@); }
        if self.table.as_str().is_empty() {
            return Err(query_error("表名不能为空"));
        }
        if self.values.len() == 0 {
            return Err(query_error("更新值不能为空"));
        }
        let keys = entry_keys_exec(&self.values);
        let mut sets: Vec<String> = Vec::new();
        let mut i: usize = 0;
        while i < keys.len()
            invariant
                i <= keys.len(),
                sets@.len() == i,
                forall|j: int| 0 <= j < i ==> (#[trigger] sets@[j])@ == keys@[j]@ + " = ?"@,
            decreases keys.len() - i,
        {
            let mut t = keys[i].clone();
            t.append(" = ?");
            sets.push(t);
            i = i + 1;
        }
        assert(string_views(sets@) =~= entry_keys(entries_view(self.values@)).map_values(|k: Seq<char>| k + " = ?"@));
        let mut sql = str_to_string("UPDATE ");
        sql.append(self.table.as_str());
        sql.append(" SET ");
        let st = join_strings(&sets, ", ");
        sql.append(st.as_str());
        let (w, wp) = match condition_section_exec(" WHERE ", &self.conditions) {
            Err(e) => { return Err(e); },
            Ok(x) => x,
        };
        sql.append(w.as_str());
        let ret = list_section_exec(" RETURNING ", &self.returning_fields);
        sql.append(ret.as_str());
        let mut params = entry_values_exec(&self.values);
        append_values(&mut params, &wp);
        Ok((sql, params))
    }

    fn build_delete(&self) -> (r: Result<(String, Vec<DataValue>), QuickDbError>)
        ensures
            sql_result_is(r, delete_sql(self@)),
    {
        if self.table.as_str().is_empty() {
            return Err(query_error("表名不能为空"));
        }
        let mut sql = str_to_string("DELETE FROM ");
        sql.append(self.table.as_str());
        let (w, wp) = match condition_section_exec(" WHERE ", &self.conditions) {
            Err(e) => { return Err(e); },
            Ok(x) => x,
        };
        sql.append(w.as_str());
        let ret = list_section_exec(" RETURNING ", &self.returning_fields);
        sql.append(ret.as_str());
        Ok((sql, wp))
    }
}

// ---------------------------------------------------------------------------
// Placeholders and parameters
// ---------------------------------------------------------------------------

/// The number of `?` placeholders in a text.
pub open spec fn placeholder_count(s: Seq<char>) -> nat
    decreases s.len(),
{
    if s.len() == 0 {
        0
    } else {
        placeholder_count(s.drop_last()) + if s.last() == '?' { 1nat } else { 0nat }
    }
}

/// Whether a text holds no `?`.
pub open spec fn no_marks(s: Seq<char>) -> bool {
    forall|i: int| 0 <= i < s.len() ==> s[i] != '?'
}

/// Whether no name that a builder writes into its statement (table, fields,
/// condition fields, joins, ordering, grouping, value columns, returned fields)
/// holds a `?`.
pub open spec fn names_plain(b: SqlQueryBuilderView) -> bool {
    &&& no_marks(b.table)
    &&& forall|i: int| 0 <= i < b.fields.len() ==> no_marks(#[trigger] b.fields[i])
    &&& forall|i: int| 0 <= i < b.conditions.len() ==> no_marks((#[trigger] b.conditions[i]).field)
    &&& forall|i: int| 0 <= i < b.joins.len() ==> no_marks((#[trigger] b.joins[i]).table) && no_marks(b.joins[i].on_condition)
    &&& forall|i: int| 0 <= i < b.order_by.len() ==> no_marks((#[trigger] b.order_by[i]).field)
    &&& forall|i: int| 0 <= i < b.group_by.len() ==> no_marks(#[trigger] b.group_by[i])
    &&& forall|i: int| 0 <= i < b.having.len() ==> no_marks((#[trigger] b.having[i]).field)
    &&& forall|i: int| 0 <= i < b.values.len() ==> no_marks((#[trigger] b.values[i]).0)
    &&& forall|i: int| 0 <= i < b.returning_fields.len() ==> no_marks(#[trigger] b.returning_fields[i])
}

/// The placeholders of the parts, together.
pub open spec fn counts_total(parts: Seq<Seq<char>>) -> nat
    decreases parts.len(),
{
    if parts.len() == 0 {
        0
    } else {
        counts_total(parts.drop_last()) + placeholder_count(parts.last())
    }
}

proof fn lemma_no_marks_count(s: Seq<char>)
    requires
        no_marks(s),
    ensures
        placeholder_count(s) == 0,
    decreases s.len(),
{
    if s.len() > 0 {
        assert(no_marks(s.drop_last()));
        lemma_no_marks_count(s.drop_last());
    }
}

proof fn lemma_one_mark(s: Seq<char>)
    requires
        s.len() > 0,
        s.last() == '?',
        no_marks(s.drop_last()),
    ensures
        placeholder_count(s) == 1,
{
    lemma_no_marks_count(s.drop_last());
}

proof fn lemma_count_add(a: Seq<char>, b: Seq<char>)
    ensures
        placeholder_count(a + b) == placeholder_count(a) + placeholder_count(b),
    decreases b.len(),
{
    if b.len() == 0 {
        assert(a + b =~= a);
    } else {
        lemma_count_add(a, b.drop_last());
        assert((a + b).drop_last() =~= a + b.drop_last());
    }
}

proof fn lemma_join_count(parts: Seq<Seq<char>>, sep: Seq<char>)
    requires
        placeholder_count(sep) == 0,
    ensures
        placeholder_count(join_seqs(parts, sep)) == counts_total(parts),
    decreases parts.len(),
{
    if parts.len() == 1 {
        assert(counts_total(parts.drop_last()) == 0);
    } else if parts.len() > 1 {
        let front = join_seqs(parts.drop_last(), sep);
        lemma_join_count(parts.drop_last(), sep);
        lemma_count_add(front, sep);
        lemma_count_add(front + sep, parts.last());
    }
}

proof fn lemma_total_zero(parts: Seq<Seq<char>>)
    requires
        forall|i: int| 0 <= i < parts.len() ==> placeholder_count(#[trigger] parts[i]) == 0,
    ensures
        counts_total(parts) == 0,
    decreases parts.len(),
{
    if parts.len() > 0 {
        let p = parts.drop_last();
        assert forall|i: int| 0 <= i < p.len() implies placeholder_count(#[trigger] p[i]) == 0 by {
            assert(p[i] == parts[i]);
        }
        lemma_total_zero(p);
        assert(placeholder_count(parts[parts.len() - 1]) == 0);
    }
}

proof fn lemma_total_ones(parts: Seq<Seq<char>>)
    requires
        forall|i: int| 0 <= i < parts.len() ==> placeholder_count(#[trigger] parts[i]) == 1,
    ensures
        counts_total(parts) == parts.len(),
    decreases parts.len(),
{
    if parts.len() > 0 {
        let p = parts.drop_last();
        assert forall|i: int| 0 <= i < p.len() implies placeholder_count(#[trigger] p[i]) == 1 by {
            assert(p[i] == parts[i]);
        }
        lemma_total_ones(p);
        assert(placeholder_count(parts[parts.len() - 1]) == 1);
    }
}

/// Names without `?`, joined by a separator without `?`, hold none.
proof fn lemma_plain_join(parts: Seq<Seq<char>>, sep: Seq<char>)
    requires
        forall|i: int| 0 <= i < parts.len() ==> no_marks(#[trigger] parts[i]),
        no_marks(sep),
    ensures
        placeholder_count(join_seqs(parts, sep)) == 0,
{
    assert forall|i: int| 0 <= i < parts.len() implies placeholder_count(#[trigger] parts[i]) == 0 by {
        lemma_no_marks_count(parts[i]);
    }
    lemma_total_zero(parts);
    lemma_no_marks_count(sep);
    lemma_join_count(parts, sep);
}

proof fn lemma_placeholders_count(n: nat)
    ensures
        placeholder_count(placeholders(n)) == n,
{
    let parts = Seq::new(n, |i: int| "?"@);
    reveal_strlit("?");
    reveal_strlit(", ");
    lemma_one_mark("?"@);
    assert forall|i: int| 0 <= i < parts.len() implies placeholder_count(#[trigger] parts[i]) == 1 by {}
    lemma_total_ones(parts);
    lemma_no_marks_count(", "@);
    lemma_join_count(parts, ", "@);
}

proof fn lemma_digits_plain(n: nat)
    ensures
        no_marks(nat_digits(n)),
    decreases n,
{
    let ds = seq!['0', '1', '2', '3', '4', '5', '6', '7', '8', '9'];
    assert forall|d: nat| d < 10 implies #[trigger] digit_char(d) != '?' by {
        assert(ds[d as int] == digit_char(d));
    }
    if n >= 10 {
        lemma_digits_plain(n / 10);
        assert(digit_char(n % 10) != '?');
    } else {
        assert(digit_char(n) != '?');
    }
}

/// One condition's fragment holds one placeholder per parameter.
proof fn lemma_cond_clause_count(c: QueryConditionView)
    requires
        no_marks(c.field),
        cond_clause(c) is Some,
    ensures
        placeholder_count(cond_clause(c)->Some_0.0) == cond_clause(c)->Some_0.1.len(),
{
    let f = c.field;
    lemma_no_marks_count(f);
    match c.operator {
        QueryOperator::Eq => {
            reveal_strlit(" = ?");
            lemma_one_mark(" = ?"@);
            lemma_count_add(f, " = ?"@);
        },
        QueryOperator::Ne => {
            reveal_strlit(" != ?");
            lemma_one_mark(" != ?"@);
            lemma_count_add(f, " != ?"@);
        },
        QueryOperator::Gt => {
            reveal_strlit(" > ?");
            lemma_one_mark(" > ?"@);
            lemma_count_add(f, " > ?"@);
        },
        QueryOperator::Gte => {
            reveal_strlit(" >= ?");
            lemma_one_mark(" >= ?"@);
            lemma_count_add(f, " >= ?"@);
        },
        QueryOperator::Lt => {
            reveal_strlit(" < ?");
            lemma_one_mark(" < ?"@);
            lemma_count_add(f, " < ?"@);
        },
        QueryOperator::Lte => {
            reveal_strlit(" <= ?");
            lemma_one_mark(" <= ?"@);
            lemma_count_add(f, " <= ?"@);
        },
        QueryOperator::Contains | QueryOperator::StartsWith | QueryOperator::EndsWith => {
            reveal_strlit(" LIKE ?");
            lemma_one_mark(" LIKE ?"@);
            lemma_count_add(f, " LIKE ?"@);
        },
        QueryOperator::In => {
            let vs = c.value->Array_0;
            reveal_strlit(" IN (");
            reveal_strlit(")");
            lemma_no_marks_count(" IN ("@);
            lemma_no_marks_count(")"@);
            lemma_placeholders_count(vs.len());
            lemma_count_add(f, " IN ("@);
            lemma_count_add(f + " IN ("@, placeholders(vs.len()));
            lemma_count_add(f + " IN ("@ + placeholders(vs.len()), ")"@);
        },
        QueryOperator::NotIn => {
            let vs = c.value->Array_0;
            reveal_strlit(" NOT IN (");
            reveal_strlit(")");
            lemma_no_marks_count(" NOT IN ("@);
            lemma_no_marks_count(")"@);
            lemma_placeholders_count(vs.len());
            lemma_count_add(f, " NOT IN ("@);
            lemma_count_add(f + " NOT IN ("@, placeholders(vs.len()));
            lemma_count_add(f + " NOT IN ("@ + placeholders(vs.len()), ")"@);
        },
        QueryOperator::Regex => {
            reveal_strlit(" REGEXP ?");
            lemma_one_mark(" REGEXP ?"@);
            lemma_count_add(f, " REGEXP ?"@);
        },
        QueryOperator::Exists | QueryOperator::IsNotNull => {
            reveal_strlit(" IS NOT NULL");
            lemma_no_marks_count(" IS NOT NULL"@);
            lemma_count_add(f, " IS NOT NULL"@);
        },
        QueryOperator::IsNull => {
            reveal_strlit(" IS NULL");
            lemma_no_marks_count(" IS NULL"@);
            lemma_count_add(f, " IS NULL"@);
        },
    }
}

proof fn lemma_where_parts_count(conds: Seq<QueryConditionView>)
    requires
        forall|i: int| 0 <= i < conds.len() ==> no_marks((#[trigger] conds[i]).field),
        where_parts(conds) is Ok,
    ensures
        counts_total(where_parts(conds)->Ok_0.0) == where_parts(conds)->Ok_0.1.len(),
    decreases conds.len(),
{
    if conds.len() > 0 {
        let p = conds.drop_last();
        assert forall|i: int| 0 <= i < p.len() implies no_marks((#[trigger] p[i]).field) by {
            assert(p[i] == conds[i]);
        }
        lemma_where_parts_count(p);
        let last = conds[conds.len() - 1];
        lemma_cond_clause_count(last);
        let cl = where_parts(p)->Ok_0.0;
        let c = cond_clause(last)->Some_0.0;
        assert(cl.push(c).drop_last() =~= cl);
    }
}

/// A condition section holds one placeholder per parameter.
proof fn lemma_section_count(kw: Seq<char>, conds: Seq<QueryConditionView>)
    requires
        no_marks(kw),
        forall|i: int| 0 <= i < conds.len() ==> no_marks((#[trigger] conds[i]).field),
        condition_section(kw, conds) is Ok,
    ensures
        placeholder_count(condition_section(kw, conds)->Ok_0.0) == condition_section(kw, conds)->Ok_0.1.len(),
{
    if conds.len() > 0 {
        lemma_where_parts_count(conds);
        reveal_strlit(" AND ");
        lemma_no_marks_count(" AND "@);
        lemma_join_count(where_parts(conds)->Ok_0.0, " AND "@);
        lemma_no_marks_count(kw);
        lemma_count_add(kw, where_clause(conds)->Ok_0.0);
    }
}

proof fn lemma_list_section_count(kw: Seq<char>, items: Seq<Seq<char>>)
    requires
        no_marks(kw),
        forall|i: int| 0 <= i < items.len() ==> no_marks(#[trigger] items[i]),
    ensures
        placeholder_count(list_section(kw, items)) == 0,
{
    if items.len() > 0 {
        reveal_strlit(", ");
        lemma_plain_join(items, ", "@);
        lemma_no_marks_count(kw);
        lemma_count_add(kw, join_seqs(items, ", "@));
    }
}

proof fn lemma_number_section_count(kw: Seq<char>, n: Option<u64>)
    requires
        no_marks(kw),
    ensures
        placeholder_count(number_section(kw, n)) == 0,
{
    if let Some(v) = n {
        lemma_no_marks_count(kw);
        lemma_digits_plain(v as nat);
        lemma_no_marks_count(nat_digits(v as nat));
        lemma_count_add(kw, nat_digits(v as nat));
    }
}

proof fn lemma_joins_count(js: Seq<JoinView>)
    requires
        forall|i: int| 0 <= i < js.len() ==> no_marks((#[trigger] js[i]).table) && no_marks(js[i].on_condition),
    ensures
        placeholder_count(joins_text(js)) == 0,
    decreases js.len(),
{
    if js.len() > 0 {
        let p = js.drop_last();
        assert forall|i: int| 0 <= i < p.len() implies no_marks((#[trigger] p[i]).table) && no_marks(p[i].on_condition) by {
            assert(p[i] == js[i]);
        }
        lemma_joins_count(p);
        let j = js[js.len() - 1];
        reveal_strlit(" ");
        reveal_strlit(" ON ");
        reveal_strlit("INNER JOIN");
        reveal_strlit("LEFT JOIN");
        reveal_strlit("RIGHT JOIN");
        reveal_strlit("FULL OUTER JOIN");
        lemma_no_marks_count(" "@);
        lemma_no_marks_count(" ON "@);
        lemma_no_marks_count(join_keyword(j.join_type));
        lemma_no_marks_count(j.table);
        lemma_no_marks_count(j.on_condition);
        let a = joins_text(p);
        lemma_count_add(a, " "@);
        lemma_count_add(a + " "@, join_keyword(j.join_type));
        lemma_count_add(a + " "@ + join_keyword(j.join_type), " "@);
        lemma_count_add(a + " "@ + join_keyword(j.join_type) + " "@, j.table);
        lemma_count_add(a + " "@ + join_keyword(j.join_type) + " "@ + j.table, " ON "@);
        lemma_count_add(a + " "@ + join_keyword(j.join_type) + " "@ + j.table + " ON "@, j.on_condition);
    }
}

proof fn lemma_order_items_plain(os: Seq<OrderView>)
    requires
        forall|i: int| 0 <= i < os.len() ==> no_marks((#[trigger] os[i]).field),
    ensures
        forall|i: int| 0 <= i < order_items(os).len() ==> no_marks(#[trigger] order_items(os)[i]),
{
    reveal_strlit(" ");
    reveal_strlit("ASC");
    reveal_strlit("DESC");
    assert forall|i: int| 0 <= i < order_items(os).len() implies no_marks(#[trigger] order_items(os)[i]) by {
        let o = os[i];
        let t = o.field + " "@ + direction_keyword(o.direction);
        assert(order_items(os)[i] == t);
        assert forall|k: int| 0 <= k < t.len() implies t[k] != '?' by {
            if k < o.field.len() {
                assert(t[k] == o.field[k]);
            } else if k == o.field.len() {
                assert(t[k] == ' ');
            } else {
                assert(t[k] == direction_keyword(o.direction)[k - o.field.len() - 1]);
            }
        }
    }
}

proof fn lemma_select_count(b: SqlQueryBuilderView)
    requires
        names_plain(b),
        select_sql(b) is Ok,
    ensures
        placeholder_count(select_sql(b)->Ok_0.0) == select_sql(b)->Ok_0.1.len(),
{
    reveal_strlit("SELECT ");
    reveal_strlit(" FROM ");
    reveal_strlit("*");
    reveal_strlit(", ");
    reveal_strlit(" WHERE ");
    reveal_strlit(" HAVING ");
    reveal_strlit(" GROUP BY ");
    reveal_strlit(" ORDER BY ");
    reveal_strlit(" LIMIT ");
    reveal_strlit(" OFFSET ");
    let fields = if b.fields.len() == 0 { "*"@ } else { join_seqs(b.fields, ", "@) };
    if b.fields.len() == 0 {
        lemma_no_marks_count("*"@);
    } else {
        lemma_plain_join(b.fields, ", "@);
    }
    lemma_no_marks_count("SELECT "@);
    lemma_no_marks_count(" FROM "@);
    lemma_no_marks_count(b.table);
    lemma_joins_count(b.joins);
    let h0 = "SELECT "@ + fields;
    let h1 = h0 + " FROM "@;
    let h2 = h1 + b.table;
    let head = h2 + joins_text(b.joins);
    lemma_count_add("SELECT "@, fields);
    lemma_count_add(h0, " FROM "@);
    lemma_count_add(h1, b.table);
    lemma_count_add(h2, joins_text(b.joins));
    lemma_section_count(" WHERE "@, b.conditions);
    lemma_section_count(" HAVING "@, b.having);
    let w = condition_section(" WHERE "@, b.conditions)->Ok_0.0;
    let h = condition_section(" HAVING "@, b.having)->Ok_0.0;
    let g = list_section(" GROUP BY "@, b.group_by);
    lemma_order_items_plain(b.order_by);
    let o = list_section(" ORDER BY "@, order_items(b.order_by));
    let l = number_section(" LIMIT "@, b.limit);
    let off = number_section(" OFFSET "@, b.offset);
    lemma_list_section_count(" GROUP BY "@, b.group_by);
    lemma_list_section_count(" ORDER BY "@, order_items(b.order_by));
    lemma_number_section_count(" LIMIT "@, b.limit);
    lemma_number_section_count(" OFFSET "@, b.offset);
    lemma_count_add(head, w);
    lemma_count_add(head + w, g);
    lemma_count_add(head + w + g, h);
    lemma_count_add(head + w + g + h, o);
    lemma_count_add(head + w + g + h + o, l);
    lemma_count_add(head + w + g + h + o + l, off);
}

proof fn lemma_insert_count(b: SqlQueryBuilderView)
    requires
        names_plain(b),
        insert_sql(b) is Ok,
    ensures
        placeholder_count(insert_sql(b)->Ok_0.0) == insert_sql(b)->Ok_0.1.len(),
{
    reveal_strlit("INSERT INTO ");
    reveal_strlit(" (");
    reveal_strlit(", ");
    reveal_strlit(") VALUES (");
    reveal_strlit(")");
    reveal_strlit(" RETURNING ");
    let keys = entry_keys(b.values);
    assert forall|i: int| 0 <= i < keys.len() implies no_marks(#[trigger] keys[i]) by {
        assert(keys[i] == b.values[i].0);
    }
    lemma_plain_join(keys, ", "@);
    lemma_placeholders_count(b.values.len());
    lemma_list_section_count(" RETURNING "@, b.returning_fields);
    lemma_no_marks_count("INSERT INTO "@);
    lemma_no_marks_count(" ("@);
    lemma_no_marks_count(") VALUES ("@);
    lemma_no_marks_count(")"@);
    lemma_no_marks_count(b.table);
    let a0 = "INSERT INTO "@ + b.table;
    let a1 = a0 + " ("@;
    let a2 = a1 + join_seqs(keys, ", "@);
    let a3 = a2 + ") VALUES ("@;
    let a4 = a3 + placeholders(b.values.len());
    let a5 = a4 + ")"@;
    lemma_count_add("INSERT INTO "@, b.table);
    lemma_count_add(a0, " ("@);
    lemma_count_add(a1, join_seqs(keys, ", "@));
    lemma_count_add(a2, ") VALUES ("@);
    lemma_count_add(a3, placeholders(b.values.len()));
    lemma_count_add(a4, ")"@);
    lemma_count_add(a5, list_section(" RETURNING "@, b.returning_fields));
}

proof fn lemma_update_count(b: SqlQueryBuilderView)
    requires
        names_plain(b),
        update_sql(b) is Ok,
    ensures
        placeholder_count(update_sql(b)->Ok_0.0) == update_sql(b)->Ok_0.1.len(),
{
    reveal_strlit("UPDATE ");
    reveal_strlit(" SET ");
    reveal_strlit(", ");
    reveal_strlit(" = ?");
    reveal_strlit(" WHERE ");
    reveal_strlit(" RETURNING ");
    let sets = entry_keys(b.values).map_values(|k: Seq<char>| k + " = ?"@);
    lemma_one_mark(" = ?"@);
    assert forall|i: int| 0 <= i < sets.len() implies placeholder_count(#[trigger] sets[i]) == 1 by {
        let k = b.values[i].0;
        assert(sets[i] == k + " = ?"@);
        lemma_no_marks_count(k);
        lemma_count_add(k, " = ?"@);
    }
    lemma_total_ones(sets);
    lemma_no_marks_count(", "@);
    lemma_join_count(sets, ", "@);
    lemma_section_count(" WHERE "@, b.conditions);
    lemma_list_section_count(" RETURNING "@, b.returning_fields);
    lemma_no_marks_count("UPDATE "@);
    lemma_no_marks_count(" SET "@);
    lemma_no_marks_count(b.table);
    let w = condition_section(" WHERE "@, b.conditions)->Ok_0.0;
    let a0 = "UPDATE "@ + b.table;
    let a1 = a0 + " SET "@;
    let a2 = a1 + join_seqs(sets, ", "@);
    let a3 = a2 + w;
    lemma_count_add("UPDATE "@, b.table);
    lemma_count_add(a0, " SET "@);
    lemma_count_add(a1, join_seqs(sets, ", "@));
    lemma_count_add(a2, w);
    lemma_count_add(a3, list_section(" RETURNING "@, b.returning_fields));
}

proof fn lemma_delete_count(b: SqlQueryBuilderView)
    requires
        names_plain(b),
        delete_sql(b) is Ok,
    ensures
        placeholder_count(delete_sql(b)->Ok_0.0) == delete_sql(b)->Ok_0.1.len(),
{
    reveal_strlit("DELETE FROM ");
    reveal_strlit(" WHERE ");
    reveal_strlit(" RETURNING ");
    lemma_section_count(" WHERE "@, b.conditions);
    lemma_list_section_count(" RETURNING "@, b.returning_fields);
    lemma_no_marks_count("DELETE FROM "@);
    lemma_no_marks_count(b.table);
    let w = condition_section(" WHERE "@, b.conditions)->Ok_0.0;
    lemma_count_add("DELETE FROM "@, b.table);
    lemma_count_add("DELETE FROM "@ + b.table, w);
    lemma_count_add("DELETE FROM "@ + b.table + w, list_section(" RETURNING "@, b.returning_fields));
}

/// Placeholders and parameters match: when no name in the builder holds a `?`,
/// every statement it builds holds exactly one `?` per parameter that comes with
/// it.
pub proof fn lemma_placeholders_match_parameters(b: SqlQueryBuilderView)
    requires
        names_plain(b),
        build_sql(b) is Ok,
    ensures
        placeholder_count(build_sql(b)->Ok_0.0) == build_sql(b)->Ok_0.1.len(),
{
    match b.query_type {
        QueryType::Select => lemma_select_count(b),
        QueryType::Insert => lemma_insert_count(b),
        QueryType::Update => lemma_update_count(b),
        QueryType::Delete => lemma_delete_count(b),
    }
}

/// The conditions of a WHERE clause hold one `?` per parameter, when no
/// condition's field holds a `?`.
pub proof fn lemma_where_clause_placeholders(conds: Seq<QueryConditionView>)
    requires
        forall|i: int| 0 <= i < conds.len() ==> no_marks((#[trigger] conds[i]).field),
        where_clause(conds) is Ok,
    ensures
        placeholder_count(where_clause(conds)->Ok_0.0) == where_clause(conds)->Ok_0.1.len(),
{
    lemma_where_parts_count(conds);
    reveal_strlit(" AND ");
    lemma_no_marks_count(" AND "@);
    lemma_join_count(where_parts(conds)->Ok_0.0, " AND "@);
}

/// Each ORDER BY item is the field followed by ` ASC` when it sorts ascending and
/// by ` DESC` when it sorts descending; the two suffixes differ, so the direction
/// of every item shows in the statement.
pub proof fn lemma_order_item_directions(os: Seq<OrderView>)
    ensures
        order_items(os).len() == os.len(),
        forall|i: int|
            0 <= i < os.len() && os[i].direction is Asc ==> #[trigger] order_items(os)[i] == os[i].field + " ASC"@,
        forall|i: int|
            0 <= i < os.len() && os[i].direction is Desc ==> #[trigger] order_items(os)[i] == os[i].field + " DESC"@,
        " ASC"@ != " DESC"@,
{
    reveal_strlit(" ");
    reveal_strlit("ASC");
    reveal_strlit("DESC");
    reveal_strlit(" ASC");
    reveal_strlit(" DESC");
    assert(" ASC"@[1] != " DESC"@[1]);
    assert forall|i: int| 0 <= i < os.len() && os[i].direction is Asc implies #[trigger] order_items(os)[i] == os[i].field + " ASC"@ by {
        assert(" "@ + "ASC"@ =~= " ASC"@);
        assert(os[i].field + " "@ + "ASC"@ =~= os[i].field + (" "@ + "ASC"@));
    }
    assert forall|i: int| 0 <= i < os.len() && os[i].direction is Desc implies #[trigger] order_items(os)[i] == os[i].field + " DESC"@ by {
        assert(" "@ + "DESC"@ =~= " DESC"@);
        assert(os[i].field + " "@ + "DESC"@ =~= os[i].field + (" "@ + "DESC"@));
    }
}

/// The SQL predicate of each comparison: the field, then `=`, `!=`, `>`, `>=`,
/// `<` or `<=`, then one placeholder bound to the condition's value. The six
/// predicates of one field are pairwise different.
pub proof fn lemma_sql_comparisons(c: QueryConditionView)
    ensures
        c.operator is Eq ==> cond_clause(c) == Some((c.field + " = ?"@, seq![c.value])),
        c.operator is Ne ==> cond_clause(c) == Some((c.field + " != ?"@, seq![c.value])),
        c.operator is Gt ==> cond_clause(c) == Some((c.field + " > ?"@, seq![c.value])),
        c.operator is Gte ==> cond_clause(c) == Some((c.field + " >= ?"@, seq![c.value])),
        c.operator is Lt ==> cond_clause(c) == Some((c.field + " < ?"@, seq![c.value])),
        c.operator is Lte ==> cond_clause(c) == Some((c.field + " <= ?"@, seq![c.value])),
        " = ?"@ != " != ?"@ && " = ?"@ != " > ?"@ && " = ?"@ != " >= ?"@ && " = ?"@ != " < ?"@ && " = ?"@ != " <= ?"@,
        " != ?"@ != " > ?"@ && " != ?"@ != " >= ?"@ && " != ?"@ != " < ?"@ && " != ?"@ != " <= ?"@,
        " > ?"@ != " >= ?"@ && " > ?"@ != " < ?"@ && " > ?"@ != " <= ?"@,
        " >= ?"@ != " < ?"@ && " >= ?"@ != " <= ?"@ && " < ?"@ != " <= ?"@,
{
    reveal_strlit(" = ?");
    reveal_strlit(" != ?");
    reveal_strlit(" > ?");
    reveal_strlit(" >= ?");
    reveal_strlit(" < ?");
    reveal_strlit(" <= ?");
    assert(" = ?"@[1] != " != ?"@[1] && " = ?"@[1] != " > ?"@[1] && " = ?"@[1] != " >= ?"@[1]);
    assert(" = ?"@[1] != " < ?"@[1] && " = ?"@[1] != " <= ?"@[1]);
    assert(" != ?"@[1] != " > ?"@[1] && " != ?"@[1] != " >= ?"@[1] && " != ?"@[1] != " < ?"@[1]);
    assert(" != ?"@[1] != " <= ?"@[1] && " > ?"@[1] != " < ?"@[1] && " > ?"@[1] != " <= ?"@[1]);
    assert(" >= ?"@[1] != " < ?"@[1] && " >= ?"@[1] != " <= ?"@[1]);
    assert(" > ?"@.len() != " >= ?"@.len() && " < ?"@.len() != " <= ?"@.len());
}

/// Membership and null tests in SQL: `In` and `NotIn` with a list of `n` values
/// give `<field> IN (...)` and `<field> NOT IN (...)` over `n` placeholders bound
/// to the list, and `IsNull` and `IsNotNull` give `<field> IS NULL` and
/// `<field> IS NOT NULL` with no parameter; each pair differs.
pub proof fn lemma_sql_membership_and_null(c: QueryConditionView)
    ensures
        c.operator is In && c.value is Array ==> cond_clause(c) == Some((
            c.field + " IN ("@ + placeholders(c.value->Array_0.len()) + ")"@,
            c.value->Array_0,
        )),
        c.operator is NotIn && c.value is Array ==> cond_clause(c) == Some((
            c.field + " NOT IN ("@ + placeholders(c.value->Array_0.len()) + ")"@,
            c.value->Array_0,
        )),
        c.operator is IsNull ==> cond_clause(c) == Some((c.field + " IS NULL"@, Seq::<DataValueView>::empty())),
        c.operator is IsNotNull ==> cond_clause(c) == Some((c.field + " IS NOT NULL"@, Seq::<DataValueView>::empty())),
        " IN ("@ != " NOT IN ("@,
        " IS NULL"@ != " IS NOT NULL"@,
{
    reveal_strlit(" IN (");
    reveal_strlit(" NOT IN (");
    reveal_strlit(" IS NULL");
    reveal_strlit(" IS NOT NULL");
    assert(" IN ("@[1] != " NOT IN ("@[1]);
    assert(" IS NULL"@.len() != " IS NOT NULL"@.len());
}

/// The JOIN keywords of the four kinds are `INNER JOIN`, `LEFT JOIN`, `RIGHT JOIN`
/// and `FULL OUTER JOIN`, pairwise different; a limit is written after ` LIMIT `
/// and an offset after ` OFFSET `, in decimal.
pub proof fn lemma_join_and_paging_keywords(n: u64)
    ensures
        join_keyword(JoinType::Inner) == "INNER JOIN"@,
        join_keyword(JoinType::Left) == "LEFT JOIN"@,
        join_keyword(JoinType::Right) == "RIGHT JOIN"@,
        join_keyword(JoinType::Full) == "FULL OUTER JOIN"@,
        "INNER JOIN"@ != "LEFT JOIN"@ && "INNER JOIN"@ != "RIGHT JOIN"@ && "INNER JOIN"@ != "FULL OUTER JOIN"@,
        "LEFT JOIN"@ != "RIGHT JOIN"@ && "LEFT JOIN"@ != "FULL OUTER JOIN"@ && "RIGHT JOIN"@ != "FULL OUTER JOIN"@,
        number_section(" LIMIT "@, Some(n)) == " LIMIT "@ + nat_digits(n as nat),
        number_section(" OFFSET "@, Some(n)) == " OFFSET "@ + nat_digits(n as nat),
        number_section(" LIMIT "@, None) == Seq::<char>::empty(),
{
    reveal_strlit("INNER JOIN");
    reveal_strlit("LEFT JOIN");
    reveal_strlit("RIGHT JOIN");
    reveal_strlit("FULL OUTER JOIN");
    assert("INNER JOIN"@[0] != "LEFT JOIN"@[0] && "INNER JOIN"@[0] != "RIGHT JOIN"@[0]);
    assert("INNER JOIN"@[0] != "FULL OUTER JOIN"@[0] && "LEFT JOIN"@[0] != "RIGHT JOIN"@[0]);
    assert("LEFT JOIN"@[0] != "FULL OUTER JOIN"@[0] && "RIGHT JOIN"@[0] != "FULL OUTER JOIN"@[0]);
}

} // verus!
