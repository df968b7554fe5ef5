//! Serialisation settings and the shaping of records and query results before
//! they are written out (writing JSON text is left to `serde_json`).

use vstd::prelude::*;
use crate::types::{DataValue, DataValueView, Entry, entries_view, lemma_entries_view};
use crate::text::str_to_string;

verus! {

/// The form serialised results take.
#[derive(Debug, Clone, Copy, PartialEq, Eq, Structural)]
pub enum OutputFormat {
    JsonString,
    JsonObject,
    RawData,
}

impl Default for OutputFormat {
    fn default() -> (r: OutputFormat)
        ensures
            r == OutputFormat::JsonString,
    {
        OutputFormat::JsonString
    }
}

/// Serialisation settings.
#[derive(Debug, Clone)]
pub struct SerializerConfig {
    pub format: OutputFormat,
    pub pretty: bool,
    /// Whether null fields are kept.
    pub include_null: bool,
    /// A `strftime`-style date-time format.
    pub datetime_format: Option<String>,
    /// Decimal places that floats are rounded to.
    pub float_precision: Option<usize>,
}

impl Default for SerializerConfig {
    /// Compact JSON text, nulls kept, no date-time format, no rounding.
    fn default() -> (r: SerializerConfig)
        ensures
            r == (SerializerConfig {
                format: OutputFormat::JsonString,
                pretty: false,
                include_null: true,
                datetime_format: None,
                float_precision: None,
            }),
    {
        SerializerConfig {
            format: OutputFormat::JsonString,
            pretty: false,
            include_null: true,
            datetime_format: None,
            float_precision: None,
        }
    }
}

impl SerializerConfig {
    /// The default settings.
    pub fn new() -> (r: SerializerConfig)
        ensures
            r == (SerializerConfig {
                format: OutputFormat::JsonString,
                pretty: false,
                include_null: true,
                datetime_format: None,
                float_precision: None,
            }),
    {
        SerializerConfig::default()
    }

    /// Sets the output form.
    pub fn format(self, format: OutputFormat) -> (r: SerializerConfig)
        ensures
            r == (SerializerConfig { format, ..self }),
    {
        SerializerConfig { format, ..self }
    }

    /// Sets pretty printing.
    pub fn pretty(self, pretty: bool) -> (r: SerializerConfig)
        ensures
            r == (SerializerConfig { pretty, ..self }),
    {
        SerializerConfig { pretty, ..self }
    }

    /// Sets whether null fields are kept.
    pub fn include_null(self, include_null: bool) -> (r: SerializerConfig)
        ensures
            r == (SerializerConfig { include_null, ..self }),
    {
        SerializerConfig { include_null, ..self }
    }

    /// Sets the date-time format.
    pub fn datetime_format(self, format: &str) -> (r: SerializerConfig)
        ensures
            r.datetime_format matches Some(f) && f@ == format@,
            r == (SerializerConfig { datetime_format: r.datetime_format, ..self }),
    {
        SerializerConfig { datetime_format: Some(str_to_string(format)), ..self }
    }

    /// Sets the decimal places of floats.
    pub fn float_precision(self, precision: usize) -> (r: SerializerConfig)
        ensures
            r == (SerializerConfig { float_precision: Some(precision), ..self }),
    {
        SerializerConfig { float_precision: Some(precision), ..self }
    }

    /// Settings for Python callers: compact JSON text, nulls kept, milliseconds
    /// UTC date-times, six decimal places.
    pub fn for_pyo3() -> (r: SerializerConfig)
        ensures
            r.format == OutputFormat::JsonString,
            !r.pretty,
            r.include_null,
            r.datetime_format matches Some(f) && f@ == "%Y-%m-%dT%H:%M:%S%.3fZ"@,
            r.float_precision == Some(6usize),
    {
        SerializerConfig {
            format: OutputFormat::JsonString,
            pretty: false,
            include_null: true,
            datetime_format: Some(str_to_string("%Y-%m-%dT%H:%M:%S%.3fZ")),
            float_precision: Some(6),
        }
    }

    /// Settings for Rust callers: JSON objects, nulls dropped.
    pub fn for_rust() -> (r: SerializerConfig)
        ensures
            r == (SerializerConfig {
                format: OutputFormat::JsonObject,
                pretty: false,
                include_null: false,
                datetime_format: None,
                float_precision: None,
            }),
    {
        SerializerConfig {
            format: OutputFormat::JsonObject,
            pretty: false,
            include_null: false,
            datetime_format: None,
            float_precision: None,
        }
    }

    /// Settings for debugging: pretty JSON text, nulls kept, readable date-times,
    /// two decimal places.
    pub fn for_debug() -> (r: SerializerConfig)
        ensures
            r.format == OutputFormat::JsonString,
            r.pretty,
            r.include_null,
            r.datetime_format matches Some(f) && f@ == "%Y-%m-%d %H:%M:%S"@,
            r.float_precision == Some(2usize),
    {
        SerializerConfig {
            format: OutputFormat::JsonString,
            pretty: true,
            include_null: true,
            datetime_format: Some(str_to_string("%Y-%m-%d %H:%M:%S")),
            float_precision: Some(2),
        }
    }
}

/// A record's entries without the null ones, in order.
pub open spec fn non_null_entries(es: Seq<(Seq<char>, DataValueView)>) -> Seq<(Seq<char>, DataValueView)>
    decreases es.len(),
{
    if es.len() == 0 {
        Seq::empty()
    } else if es.last().1 is Null {
        non_null_entries(es.drop_last())
    } else {
        non_null_entries(es.drop_last()).push(es.last())
    }
}

/// A record as the settings keep it: without its null fields unless nulls are kept.
pub fn retain_fields(config: &SerializerConfig, record: Vec<Entry>) -> (r: Vec<Entry>)
    ensures
        config.include_null ==> r@ == record@,
        !config.include_null ==> entries_view(r@) == non_null_entries(entries_view(record@)),
{
    if config.include_null {
        return record;
    }
    let mut rest = record;
    let ghost orig = rest@;
    proof {
        assert(orig.len() == rest.len());
    }
    let mut kept: Vec<Entry> = Vec::new();
    let mut i: usize = 0;
    while rest.len() > 0
        invariant
            i + rest@.len() == orig.len(),
            orig.len() <= usize::MAX,
            rest@ == orig.skip(i as int),
            entries_view(kept@) == non_null_entries(entries_view(orig.take(i as int))),
        decreases rest@.len(),
    {
        let e = rest.remove(0);
        proof {
            assert(e == orig[i as int]);
            assert(orig.take(i + 1).drop_last() =~= orig.take(i as int));
            assert(orig.skip(i + 1) =~= orig.skip(i as int).remove(0));
            lemma_entries_view(orig.take(i + 1));
            assert(entries_view(orig.take(i + 1)).drop_last() =~= entries_view(orig.take(i as int))) by {
                lemma_entries_view(orig.take(i as int));
            }
        }
        if !e.value.is_null() {
            let ghost prev = kept@;
            kept.push(e);
            proof {
                assert(kept@.drop_last() =~= prev);
            }
        }
        i = i + 1;
    }
    proof {
        assert(orig.take(i as int) =~= orig);
    }
    kept
}

/// The fields of a query result: `data` (the records, as objects), then
/// `total_count` and `has_more` when given, then `count`, the number of records.
pub open spec fn query_result_spec(
    records: Seq<Seq<(Seq<char>, DataValueView)>>,
    total_count: Option<u64>,
    has_more: Option<bool>,
) -> Seq<(Seq<char>, DataValueView)> {
    let data = seq![("data"@, DataValueView::Array(records.map_values(|r: Seq<(Seq<char>, DataValueView)>| DataValueView::Object(r))))];
    let with_total = match total_count {
        Some(n) => data.push(("total_count"@, DataValueView::Int(n as i64))),
        None => data,
    };
    let with_more = match has_more {
        Some(b) => with_total.push(("has_more"@, DataValueView::Bool(b))),
        None => with_total,
    };
    with_more.push(("count"@, DataValueView::Int(records.len() as i64)))
}

/// Whether some field of `fields` is named `key`.
pub open spec fn has_field(fields: Seq<(Seq<char>, DataValueView)>, key: Seq<char>) -> bool {
    exists|i: int| 0 <= i < fields.len() && fields[i].0 == key
}

/// A query result holds `data`; `count`, the number of records; and
/// `total_count` and `has_more` exactly when they are given.
pub proof fn lemma_query_result_keys(
    records: Seq<Seq<(Seq<char>, DataValueView)>>,
    total_count: Option<u64>,
    has_more: Option<bool>,
)
    ensures
        has_field(query_result_spec(records, total_count, has_more), "data"@),
        query_result_spec(records, total_count, has_more).last() == ("count"@, DataValueView::Int(records.len() as i64)),
        has_field(query_result_spec(records, total_count, has_more), "total_count"@) <==> total_count is Some,
        has_field(query_result_spec(records, total_count, has_more), "has_more"@) <==> has_more is Some,
{
    reveal_strlit("data");
    reveal_strlit("count");
    reveal_strlit("total_count");
    reveal_strlit("has_more");
    let f = query_result_spec(records, total_count, has_more);
    assert(f[0].0 == "data"@);
    if total_count is Some {
        assert(f[1].0 == "total_count"@);
    } else {
        assert forall|i: int| 0 <= i < f.len() implies f[i].0 != "total_count"@ by {
            assert(f[i].0.len() != "total_count"@.len());
        }
    }
    if has_more is Some {
        let k = if total_count is Some { 2int } else { 1int };
        assert(f[k].0 == "has_more"@);
    } else {
        assert forall|i: int| 0 <= i < f.len() implies f[i].0 != "has_more"@ by {
            if f[i].0 == "has_more"@ {
                assert(f[i].0.len() == 8);
                if total_count is Some && i == 1 {
                    assert(f[i].0.len() == 11);
                }
            }
        }
    }
}

/// The records' entry lists.
pub open spec fn records_view(rs: Seq<Vec<Entry>>) -> Seq<Seq<(Seq<char>, DataValueView)>> {
    rs.map_values(|r: Vec<Entry>| entries_view(r@))
}

/// The fields of a query result over already processed records (a count above
/// `i64::MAX` wraps, as `as i64` does).
pub fn query_result_fields(records: Vec<Vec<Entry>>, total_count: Option<u64>, has_more: Option<bool>) -> (r: Vec<Entry>)
    ensures
        entries_view(r@) == query_result_spec(records_view(records@), total_count, has_more),
{
    let ghost rv = records_view(records@);
    let n: usize = records.len();
    let mut rest = records;
    let ghost orig = rest@;
    proof {
        assert(orig.len() == rest.len());
    }
    let mut items: Vec<DataValue> = Vec::new();
    let mut i: usize = 0;
    while rest.len() > 0
        invariant
            i + rest@.len() == orig.len(),
            orig.len() <= usize::MAX,
            rest@ == orig.skip(i as int),
            items@.len() == i,
            forall|j: int| 0 <= j < i ==> (#[trigger] items@[j])@ == DataValueView::Object(entries_view(orig[j]@)),
        decreases rest@.len(),
    {
        let rec = rest.remove(0);
        proof {
            assert(rec == orig[i as int]);
            assert(orig.skip(i + 1) =~= orig.skip(i as int).remove(0));
        }
        items.push(DataValue::Object(rec));
        i = i + 1;
    }
    let ghost arr = rv.map_values(|r: Seq<(Seq<char>, DataValueView)>| DataValueView::Object(r));
    proof {
        crate::types::lemma_values_view(items@);
        assert(crate::types::values_view(items@) =~= arr);
    }
    let data_value = DataValue::Array(items);
    assert(data_value@ == DataValueView::Array(arr));
    let mut out: Vec<Entry> = Vec::new();
    out.push(Entry { key: str_to_string("data"), value: data_value });
    let ghost spec_data = seq![("data"@, DataValueView::Array(arr))];
    proof {
        assert(out@.drop_last() =~= Seq::<Entry>::empty());
        assert(entries_view(out@.drop_last()) == Seq::<(Seq<char>, DataValueView)>::empty());
        assert(entries_view(out@) =~= spec_data);
    }
    let ghost with_total = match total_count {
        Some(c) => spec_data.push(("total_count"@, DataValueView::Int(#[verifier::truncate] (c as i64)))),
        None => spec_data,
    };
    match total_count {
        Some(c) => {
            let ghost prev = out@;
            out.push(Entry { key: str_to_string("total_count"), value: DataValue::Int(#[verifier::truncate] (c as i64)) });
            proof {
                assert(out@.drop_last() =~= prev);
                assert(entries_view(prev) == spec_data);
                assert(entries_view(out@) == entries_view(prev).push((out@.last().key@, out@.last().value@)));
                assert(out@.last().value@ == DataValueView::Int(#[verifier::truncate] (c as i64)));
                assert(entries_view(out@) =~= with_total);
            }
        },
        None => {},
    }
    let ghost with_more = match has_more {
        Some(b) => with_total.push(("has_more"@, DataValueView::Bool(b))),
        None => with_total,
    };
    match has_more {
        Some(b) => {
            let ghost prev = out@;
            out.push(Entry { key: str_to_string("has_more"), value: DataValue::Bool(b) });
            proof {
                assert(out@.drop_last() =~= prev);
                assert(entries_view(prev) == with_total);
                assert(entries_view(out@) == entries_view(prev).push((out@.last().key@, out@.last().value@)));
                assert(entries_view(out@) =~= with_more);
            }
        },
        None => {},
    }
    let ghost prev = out@;
    out.push(Entry { key: str_to_string("count"), value: DataValue::Int(#[verifier::truncate] (n as i64)) });
    proof {
        assert(out@.drop_last() =~= prev);
        assert(entries_view(prev) == with_more);
        assert(entries_view(out@) == entries_view(prev).push((out@.last().key@, out@.last().value@)));
        assert(rv.len() == n);
        assert(out@.last().value@ == DataValueView::Int(#[verifier::truncate] (n as i64)));
        assert(entries_view(out@) =~= with_more.push(("count"@, DataValueView::Int(#[verifier::truncate] (rv.len() as i64)))));
    }
    out
}

} // verus!
