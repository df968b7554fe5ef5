//! MongoDB documents: the BSON values that the library sends and receives, the
//! conversions between them and [`DataValue`]s, and the query, filter-group and
//! update documents built from the library's conditions.
//!
//! A document is an ordered list of fields; inserting a field that is already
//! present replaces its value where it stands, as a BSON document does.

use vstd::prelude::*;
use crate::types::{DataValue, DataValueView, Entry, Timestamp, QueryCondition, QueryConditionView, QueryOperator,
    values_view, entries_view, lemma_values_view, lemma_entries_view, clone_bytes, LogicalOperator, QueryConditionGroup,
    ConditionGroupView, groups_view, lemma_groups_view};
use crate::text::{hex_padded, hex_char, push_hex_padded, chars_of, str_to_string, str_eq, push_char};
use crate::outside::{is_hex_char, uuid_text, uuid_text_of, regex_escape, regex_escaped};

verus! {

/// A BSON value.
#[derive(Debug)]
pub enum Bson {
    Null,
    Boolean(bool),
    Int32(i32),
    Int64(i64),
    /// An `f64`, by its bit pattern.
    Double(u64),
    String(String),
    Array(Vec<Bson>),
    Document(Vec<BsonField>),
    /// The 12 bytes of an object ID.
    ObjectId(Vec<u8>),
    DateTime(Timestamp),
    Binary(Vec<u8>),
    /// A 128-bit decimal, by its text.
    Decimal128(String),
    /// A JSON document, by its text, for the driver to convert: to a document
    /// when it is a JSON object, else to its text.
    Json(String),
    /// Any other BSON value, by its display text.
    Other(String),
}

/// One field of a document.
#[derive(Debug)]
pub struct BsonField {
    pub key: String,
    pub value: Bson,
}

/// The abstract value of a [`Bson`].
pub enum BsonView {
    Null,
    Boolean(bool),
    Int32(i32),
    Int64(i64),
    Double(u64),
    String(Seq<char>),
    Array(Seq<BsonView>),
    Document(Seq<(Seq<char>, BsonView)>),
    ObjectId(Seq<u8>),
    DateTime(Timestamp),
    Binary(Seq<u8>),
    Decimal128(Seq<char>),
    Json(Seq<char>),
    Other(Seq<char>),
}

impl Bson {
    /// The abstract value of this BSON value.
    pub open spec fn spec_view(self) -> BsonView
        decreases self,
    {
        match self {
            Bson::Null => BsonView::Null,
            Bson::Boolean(b) => BsonView::Boolean(b),
            Bson::Int32(i) => BsonView::Int32(i),
            Bson::Int64(i) => BsonView::Int64(i),
            Bson::Double(f) => BsonView::Double(f),
            Bson::String(s) => BsonView::String(s@),
            Bson::Array(v) => BsonView::Array(bsons_view(v@)),
            Bson::Document(d) => BsonView::Document(fields_view(d@)),
            Bson::ObjectId(b) => BsonView::ObjectId(b@),
            Bson::DateTime(t) => BsonView::DateTime(t),
            Bson::Binary(b) => BsonView::Binary(b@),
            Bson::Decimal128(s) => BsonView::Decimal128(s@),
            Bson::Json(s) => BsonView::Json(s@),
            Bson::Other(s) => BsonView::Other(s@),
        }
    }
}

/// The abstract values of a sequence of BSON values.
pub open spec fn bsons_view(s: Seq<Bson>) -> Seq<BsonView>
    decreases s,
{
    if s.len() == 0 {
        Seq::empty()
    } else {
        bsons_view(s.drop_last()).push(s.last().spec_view())
    }
}

/// The abstract fields of a document.
pub open spec fn fields_view(s: Seq<BsonField>) -> Seq<(Seq<char>, BsonView)>
    decreases s,
{
    if s.len() == 0 {
        Seq::empty()
    } else {
        fields_view(s.drop_last()).push((s.last().key@, s.last().value.spec_view()))
    }
}

impl View for Bson {
    type V = BsonView;

    open spec fn view(&self) -> BsonView {
        self.spec_view()
    }
}

proof fn lemma_bsons_view(s: Seq<Bson>)
    ensures
        bsons_view(s).len() == s.len(),
        forall|i: int| 0 <= i < s.len() ==> #[trigger] bsons_view(s)[i] == s[i]@,
    decreases s.len(),
{
    if s.len() > 0 {
        lemma_bsons_view(s.drop_last());
    }
}

proof fn lemma_fields_view(s: Seq<BsonField>)
    ensures
        fields_view(s).len() == s.len(),
        forall|i: int| 0 <= i < s.len() ==> #[trigger] fields_view(s)[i] == (s[i].key@, s[i].value@),
    decreases s.len(),
{
    if s.len() > 0 {
        lemma_fields_view(s.drop_last());
    }
}

// ---------------------------------------------------------------------------
// Documents
// ---------------------------------------------------------------------------

/// The position of the field `key` in a document, or -1.
pub open spec fn field_pos<V>(d: Seq<(Seq<char>, V)>, key: Seq<char>) -> int
    decreases d.len(),
{
    if d.len() == 0 {
        -1
    } else if d.last().0 == key {
        d.len() - 1
    } else {
        field_pos(d.drop_last(), key)
    }
}

/// `d` with field `key` set to `v`: replaced where it stands when present,
/// appended otherwise.
pub open spec fn doc_insert<V>(d: Seq<(Seq<char>, V)>, key: Seq<char>, v: V) -> Seq<(Seq<char>, V)> {
    let k = field_pos(d, key);
    if k < 0 {
        d.push((key, v))
    } else {
        d.update(k, (key, v))
    }
}

proof fn lemma_field_pos<V>(d: Seq<(Seq<char>, V)>, key: Seq<char>)
    ensures
        -1 <= field_pos(d, key) < d.len(),
        field_pos(d, key) >= 0 ==> d[field_pos(d, key)].0 == key,
        forall|j: int| field_pos(d, key) < j < d.len() ==> (#[trigger] d[j]).0 != key,
    decreases d.len(),
{
    if d.len() > 0 && d.last().0 != key {
        lemma_field_pos(d.drop_last(), key);
        assert forall|j: int| field_pos(d, key) < j < d.len() implies (#[trigger] d[j]).0 != key by {
            if j < d.len() - 1 {
                assert(d[j] == d.drop_last()[j]);
            }
        }
    }
}

proof fn lemma_field_pos_at<V>(d: Seq<(Seq<char>, V)>, key: Seq<char>, i: int)
    requires
        0 <= i < d.len(),
        d[i].0 == key,
        forall|j: int| i < j < d.len() ==> (#[trigger] d[j]).0 != key,
    ensures
        field_pos(d, key) == i,
    decreases d.len(),
{
    if i < d.len() - 1 {
        assert(d.last().0 != key);
        let e = d.drop_last();
        assert forall|j: int| i < j < e.len() implies (#[trigger] e[j]).0 != key by {
            assert(e[j] == d[j]);
        }
        lemma_field_pos_at(e, key, i);
    }
}

/// Sets field `key` of `doc` to `value` (`Document::insert`).
pub fn insert_field(doc: &mut Vec<BsonField>, key: String, value: Bson)
    ensures
        fields_view(final(doc)@) == doc_insert(fields_view(old(doc)@), key@, value@),
{
    let ghost d = fields_view(doc@);
    proof {
        lemma_fields_view(doc@);
        lemma_field_pos(d, key@);
    }
    let mut i: usize = doc.len();
    while i > 0
        invariant
            i <= doc.len(),
            d == fields_view(doc@),
            d.len() == doc.len(),
            forall|j: int| 0 <= j < doc.len() ==> #[trigger] d[j] == (doc@[j].key@, doc@[j].value@),
            -1 <= field_pos(d, key@) < d.len(),
            field_pos(d, key@) >= 0 ==> d[field_pos(d, key@)].0 == key@,
            d == fields_view(old(doc)@),
            forall|j: int| i <= j < doc.len() ==> (#[trigger] d[j]).0 != key@,
            field_pos(d, key@) < i,
        decreases i,
    {
        proof {
            assert(d[i - 1] == (doc@[i - 1].key@, doc@[i - 1].value@));
        }
        if str_eq(doc[i - 1].key.as_str(), key.as_str()) {
            let ghost pos = (i - 1) as int;
            proof {
                lemma_field_pos_at(d, key@, pos);
            }
            let ghost before = doc@;
            let _ = doc.remove(i - 1);
            doc.insert(i - 1, BsonField { key, value });
            proof {
                lemma_fields_view(doc@);
                assert(fields_view(doc@) =~= d.update(pos, (key@, value@)));
            }
            return;
        }
        i = i - 1;
    }
    let ghost before = doc@;
    doc.push(BsonField { key, value });
    proof {
        assert(doc@.drop_last() =~= before);
    }
    proof {
        lemma_fields_view(doc@);
        assert(fields_view(doc@) =~= d.push((key@, value@)));
    }
}

/// A one-field document.
pub fn single_field(key: &str, value: Bson) -> (r: Vec<BsonField>)
    ensures
        fields_view(r@) == seq![(key@, value@)],
{
    let mut d: Vec<BsonField> = Vec::new();
    d.push(BsonField { key: str_to_string(key), value });
    proof {
        assert(d@.drop_last() =~= Seq::<BsonField>::empty());
        assert(fields_view(d@.drop_last()) == Seq::<(Seq<char>, BsonView)>::empty());
        assert(fields_view(d@) =~= seq![(key@, value@)]);
    }
    d
}


// ---------------------------------------------------------------------------
// Conversions
// ---------------------------------------------------------------------------

/// The BSON value a data value is sent as.
pub open spec fn bson_of(v: DataValueView) -> BsonView
    decreases v,
{
    match v {
        DataValueView::Null => BsonView::Null,
        DataValueView::Bool(b) => BsonView::Boolean(b),
        DataValueView::Int(i) => BsonView::Int64(i),
        DataValueView::Float(f) => BsonView::Double(f),
        DataValueView::String(s) => BsonView::String(s),
        DataValueView::Bytes(b) => BsonView::Binary(b),
        DataValueView::DateTime(t) => BsonView::DateTime(t),
        DataValueView::Uuid(u) => BsonView::String(uuid_text_of(u)),
        DataValueView::Json(s) => BsonView::Json(s),
        DataValueView::Array(a) => BsonView::Array(bsons_of(a)),
        DataValueView::Object(es) => BsonView::Document(doc_of(es)),
    }
}

/// The BSON values of a sequence of data values.
pub open spec fn bsons_of(a: Seq<DataValueView>) -> Seq<BsonView>
    decreases a,
{
    if a.len() == 0 {
        Seq::empty()
    } else {
        bsons_of(a.drop_last()).push(bson_of(a.last()))
    }
}

/// The document of an object's entries, inserted in order.
pub open spec fn doc_of(es: Seq<(Seq<char>, DataValueView)>) -> Seq<(Seq<char>, BsonView)>
    decreases es,
{
    if es.len() == 0 {
        Seq::empty()
    } else {
        doc_insert(doc_of(es.drop_last()), es.last().0, bson_of(es.last().1))
    }
}

/// Converts a data value to the BSON value it is sent as: UUIDs as their text,
/// objects as documents of their entries, JSON left for the driver.
#[verifier::loop_isolation(false)]
pub fn data_value_to_bson(value: &DataValue) -> (r: Bson)
    ensures
        r@ == bson_of(value@),
    decreases value,
{
    match value {
        DataValue::Null => Bson::Null,
        DataValue::Bool(b) => Bson::Boolean(*b),
        DataValue::Int(i) => Bson::Int64(*i),
        DataValue::Float(f) => Bson::Double(*f),
        DataValue::String(s) => Bson::String(s.clone()),
        DataValue::Bytes(b) => Bson::Binary(clone_bytes(b)),
        DataValue::DateTime(t) => Bson::DateTime(*t),
        DataValue::Uuid(u) => Bson::String(uuid_text(*u)),
        DataValue::Json(s) => Bson::Json(s.clone()),
        DataValue::Array(v) => {
            let mut out: Vec<Bson> = Vec::new();
            let mut i: usize = 0;
            while i < v.len()
                invariant
                    i <= v.len(),
                    bsons_view(out@) == bsons_of(values_view(v@.take(i as int))),
                decreases v.len() - i,
            {
                assert(decreases_to!(*value => *v));
                assert(decreases_to!(*v => v@));
                assert(decreases_to!(v@ => v@[i as int]));
                assert(decreases_to!(value => v@[i as int]));
                let c = data_value_to_bson(&v[i]);
                let ghost prev = out@;
                out.push(c);
                proof {
                    assert(out@.drop_last() =~= prev);
                    assert(v@.take(i + 1).drop_last() =~= v@.take(i as int));
                    lemma_values_view(v@.take(i + 1));
                    assert(values_view(v@.take(i + 1)).drop_last() =~= values_view(v@.take(i as int))) by {
                        lemma_values_view(v@.take(i as int));
                    }
                }
                i = i + 1;
            }
            assert(v@.take(i as int) =~= v@);
            Bson::Array(out)
        },
        DataValue::Object(m) => {
            let mut doc: Vec<BsonField> = Vec::new();
            let mut i: usize = 0;
            while i < m.len()
                invariant
                    i <= m.len(),
                    fields_view(doc@) == doc_of(entries_view(m@.take(i as int))),
                decreases m.len() - i,
            {
                assert(decreases_to!(*value => *m));
                assert(decreases_to!(*m => m@));
                assert(decreases_to!(m@ => m@[i as int]));
                assert(decreases_to!(m@[i as int] => m@[i as int].value));
                assert(decreases_to!(value => m@[i as int].value));
                let c = data_value_to_bson(&m[i].value);
                insert_field(&mut doc, m[i].key.clone(), c);
                proof {
                    assert(m@.take(i + 1).drop_last() =~= m@.take(i as int));
                    lemma_entries_view(m@.take(i + 1));
                    assert(entries_view(m@.take(i + 1)).drop_last() =~= entries_view(m@.take(i as int))) by {
                        lemma_entries_view(m@.take(i as int));
                    }
                }
                i = i + 1;
            }
            assert(m@.take(i as int) =~= m@);
            Bson::Document(doc)
        },
    }
}

/// The lowercase hex text of an object ID's bytes, two digits per byte.
pub open spec fn oid_hex(b: Seq<u8>) -> Seq<char>
    decreases b.len(),
{
    if b.len() == 0 {
        Seq::empty()
    } else {
        oid_hex(b.drop_last()) + hex_padded(b.last() as nat, 2)
    }
}

/// The data value a received BSON value becomes: object IDs as their hex text,
/// 32-bit integers widened, documents as objects of their fields in order,
/// decimals and other values as their text.
pub open spec fn data_of(b: BsonView) -> DataValueView
    decreases b,
{
    match b {
        BsonView::Null => DataValueView::Null,
        BsonView::Boolean(x) => DataValueView::Bool(x),
        BsonView::Int32(i) => DataValueView::Int(i as i64),
        BsonView::Int64(i) => DataValueView::Int(i),
        BsonView::Double(f) => DataValueView::Float(f),
        BsonView::String(s) => DataValueView::String(s),
        BsonView::Array(a) => DataValueView::Array(datas_of(a)),
        BsonView::Document(fs) => DataValueView::Object(object_of(fs)),
        BsonView::ObjectId(bytes) => DataValueView::String(oid_hex(bytes)),
        BsonView::DateTime(t) => DataValueView::DateTime(t),
        BsonView::Binary(bytes) => DataValueView::Bytes(bytes),
        BsonView::Decimal128(s) => DataValueView::String(s),
        BsonView::Json(s) => DataValueView::Json(s),
        BsonView::Other(s) => DataValueView::String(s),
    }
}

/// The data values of a sequence of BSON values.
pub open spec fn datas_of(a: Seq<BsonView>) -> Seq<DataValueView>
    decreases a,
{
    if a.len() == 0 {
        Seq::empty()
    } else {
        datas_of(a.drop_last()).push(data_of(a.last()))
    }
}

/// The object entries of a document's fields.
pub open spec fn object_of(fs: Seq<(Seq<char>, BsonView)>) -> Seq<(Seq<char>, DataValueView)>
    decreases fs,
{
    if fs.len() == 0 {
        Seq::empty()
    } else {
        object_of(fs.drop_last()).push((fs.last().0, data_of(fs.last().1)))
    }
}

/// The hex text of an object ID's bytes.
pub fn object_id_hex(bytes: &Vec<u8>) -> (r: String)
    ensures
        r@ == oid_hex(bytes@),
{
    let mut s = String::new();
    let mut i: usize = 0;
    while i < bytes.len()
        invariant
            i <= bytes.len(),
            s@ == oid_hex(bytes@.take(i as int)),
        decreases bytes.len() - i,
    {
        push_hex_padded(&mut s, bytes[i] as u64, 2);
        proof {
            assert(bytes@.take(i + 1).drop_last() =~= bytes@.take(i as int));
        }
        i = i + 1;
    }
    proof {
        assert(bytes@.take(i as int) =~= bytes@);
    }
    s
}

/// Converts a received BSON value to a data value.
#[verifier::loop_isolation(false)]
pub fn bson_to_data_value(value: &Bson) -> (r: DataValue)
    ensures
        r@ == data_of(value@),
    decreases value,
{
    match value {
        Bson::Null => DataValue::Null,
        Bson::Boolean(x) => DataValue::Bool(*x),
        Bson::Int32(i) => DataValue::Int(*i as i64),
        Bson::Int64(i) => DataValue::Int(*i),
        Bson::Double(f) => DataValue::Float(*f),
        Bson::String(s) => DataValue::String(s.clone()),
        Bson::ObjectId(b) => DataValue::String(object_id_hex(b)),
        Bson::DateTime(t) => DataValue::DateTime(*t),
        Bson::Binary(b) => DataValue::Bytes(clone_bytes(b)),
        Bson::Decimal128(s) => DataValue::String(s.clone()),
        Bson::Json(s) => DataValue::Json(s.clone()),
        Bson::Other(s) => DataValue::String(s.clone()),
        Bson::Array(v) => {
            let mut out: Vec<DataValue> = Vec::new();
            let mut i: usize = 0;
            while i < v.len()
                invariant
                    i <= v.len(),
                    values_view(out@) == datas_of(bsons_view(v@.take(i as int))),
                decreases v.len() - i,
            {
                assert(decreases_to!(*value => *v));
                assert(decreases_to!(*v => v@));
                assert(decreases_to!(v@ => v@[i as int]));
                assert(decreases_to!(value => v@[i as int]));
                let c = bson_to_data_value(&v[i]);
                let ghost prev = out@;
                out.push(c);
                proof {
                    assert(out@.drop_last() =~= prev);
                    assert(v@.take(i + 1).drop_last() =~= v@.take(i as int));
                    lemma_bsons_view(v@.take(i + 1));
                    assert(bsons_view(v@.take(i + 1)).drop_last() =~= bsons_view(v@.take(i as int))) by {
                        lemma_bsons_view(v@.take(i as int));
                    }
                }
                i = i + 1;
            }
            assert(v@.take(i as int) =~= v@);
            DataValue::Array(out)
        },
        Bson::Document(d) => {
            let mut out: Vec<Entry> = Vec::new();
            let mut i: usize = 0;
            while i < d.len()
                invariant
                    i <= d.len(),
                    entries_view(out@) == object_of(fields_view(d@.take(i as int))),
                decreases d.len() - i,
            {
                assert(decreases_to!(*value => *d));
                assert(decreases_to!(*d => d@));
                assert(decreases_to!(d@ => d@[i as int]));
                assert(decreases_to!(d@[i as int] => d@[i as int].value));
                assert(decreases_to!(value => d@[i as int].value));
                let c = bson_to_data_value(&d[i].value);
                let ghost prev = out@;
                out.push(Entry { key: d[i].key.clone(), value: c });
                proof {
                    assert(out@.drop_last() =~= prev);
                    assert(d@.take(i + 1).drop_last() =~= d@.take(i as int));
                    lemma_fields_view(d@.take(i + 1));
                    assert(fields_view(d@.take(i + 1)).drop_last() =~= fields_view(d@.take(i as int))) by {
                        lemma_fields_view(d@.take(i as int));
                    }
                }
                i = i + 1;
            }
            assert(d@.take(i as int) =~= d@);
            DataValue::Object(out)
        },
    }
}


// ---------------------------------------------------------------------------
// Queries
// ---------------------------------------------------------------------------

/// The MongoDB adapter's document building.
#[derive(Debug, Clone, Copy)]
pub struct MongoAdapter;

/// The document field a record field is stored under: `id` is stored as `_id`.
pub open spec fn mapped_field(f: Seq<char>) -> Seq<char> {
    if f == "id"@ {
        "_id"@
    } else {
        f
    }
}

/// The text `ObjectId("` that may wrap an ID.
pub open spec fn oid_prefix() -> Seq<char> {
    seq!['O', 'b', 'j', 'e', 'c', 't', 'I', 'd', '(', '"']
}

/// The text `")` that closes a wrapped ID.
pub open spec fn oid_suffix() -> Seq<char> {
    seq!['"', ')']
}

/// Whether `s` starts with `ObjectId("` and ends with `")`.
pub open spec fn oid_wrapped(s: Seq<char>) -> bool {
    s.len() >= 10 && s.take(10) == oid_prefix() && s.len() >= 2 && s.skip(s.len() - 2) == oid_suffix()
}

/// The one text on which unwrapping fails: `ObjectId(")`, whose prefix and suffix overlap.
pub open spec fn oid_wrapper_panics(s: Seq<char>) -> bool {
    oid_wrapped(s) && s.len() < 12
}

/// `s` without an `ObjectId("...")` wrapper.
pub open spec fn strip_oid_wrapper(s: Seq<char>) -> Seq<char> {
    if oid_wrapped(s) {
        s.subrange(10, s.len() - 2)
    } else {
        s
    }
}

/// The value of a hex digit.
pub open spec fn hex_val(c: char) -> int {
    if '0' <= c && c <= '9' {
        c as int - '0' as int
    } else if 'a' <= c && c <= 'f' {
        c as int - 'a' as int + 10
    } else {
        c as int - 'A' as int + 10
    }
}

/// The 12 bytes of an object ID written as 24 hex digits (either case), if `s` is one.
pub open spec fn object_id_of(s: Seq<char>) -> Option<Seq<u8>> {
    if s.len() == 24 && forall|i: int| 0 <= i < 24 ==> is_hex_char(#[trigger] s[i]) {
        Some(Seq::new(12, |i: int| (hex_val(s[2 * i]) * 16 + hex_val(s[2 * i + 1])) as u8))
    } else {
        None
    }
}

proof fn lemma_hex_digit(d: nat)
    requires
        d < 16,
    ensures
        is_hex_char(hex_char(d)),
        hex_val(hex_char(d)) == d,
{
    if d == 0 {} else if d == 1 {} else if d == 2 {} else if d == 3 {} else if d == 4 {} else if d == 5 {}
    else if d == 6 {} else if d == 7 {} else if d == 8 {} else if d == 9 {} else if d == 10 {} else if d == 11 {}
    else if d == 12 {} else if d == 13 {} else if d == 14 {} else {}
}

proof fn lemma_oid_hex_digits(b: Seq<u8>)
    ensures
        oid_hex(b).len() == 2 * b.len(),
        forall|i: int| 0 <= i < b.len() ==> #[trigger] oid_hex(b)[2 * i] == hex_char(b[i] as nat / 16) && oid_hex(b)[2 * i + 1]
            == hex_char(b[i] as nat % 16),
    decreases b.len(),
{
    if b.len() > 0 {
        let p = b.drop_last();
        lemma_oid_hex_digits(p);
        let x = b.last() as nat;
        let h = hex_padded(x, 2);
        assert(hex_padded(x / 16, 1) == hex_padded(x / 16 / 16, 0).push(hex_char((x / 16) % 16)));
        assert(h == hex_padded(x / 16, 1).push(hex_char(x % 16)));
        assert(x / 16 < 16);
        assert((x / 16) % 16 == x / 16);
        let o = oid_hex(b);
        assert(o == oid_hex(p) + h);
        assert forall|i: int| 0 <= i < b.len() implies #[trigger] o[2 * i] == hex_char(b[i] as nat / 16) && o[2 * i + 1]
            == hex_char(b[i] as nat % 16) by {
            if i < p.len() {
                assert(b[i] == p[i]);
                assert(o[2 * i] == oid_hex(p)[2 * i]);
                assert(o[2 * i + 1] == oid_hex(p)[2 * i + 1]);
            } else {
                assert(o[2 * i] == h[0]);
                assert(o[2 * i + 1] == h[1]);
            }
        }
    }
}

/// An object ID's hex text reads back as the same 12 bytes.
pub proof fn lemma_object_id_round_trip(b: Seq<u8>)
    requires
        b.len() == 12,
    ensures
        object_id_of(oid_hex(b)) == Some(b),
{
    lemma_oid_hex_digits(b);
    let s = oid_hex(b);
    assert forall|i: int| 0 <= i < 24 implies is_hex_char(#[trigger] s[i]) by {
        let k = i / 2;
        lemma_hex_digit(b[k] as nat / 16);
        lemma_hex_digit(b[k] as nat % 16);
        assert(s[2 * k] == hex_char(b[k] as nat / 16));
        assert(s[2 * k + 1] == hex_char(b[k] as nat % 16));
        if i % 2 == 0 {
            assert(i == 2 * k);
        } else {
            assert(i == 2 * k + 1);
        }
    }
    let r = Seq::new(12, |i: int| (hex_val(s[2 * i]) * 16 + hex_val(s[2 * i + 1])) as u8);
    assert forall|i: int| 0 <= i < 12 implies r[i] == b[i] by {
        lemma_hex_digit(b[i] as nat / 16);
        lemma_hex_digit(b[i] as nat % 16);
        assert(s[2 * i] == hex_char(b[i] as nat / 16));
        assert(s[2 * i + 1] == hex_char(b[i] as nat % 16));
        assert((b[i] as nat / 16) * 16 + b[i] as nat % 16 == b[i]);
    }
    assert(r =~= b);
}

/// The BSON value an ID text is queried as: the object ID it names (after
/// removing an `ObjectId("...")` wrapper), else the text itself.
pub open spec fn id_bson(s: Seq<char>) -> BsonView {
    let a = strip_oid_wrapper(s);
    match object_id_of(a) {
        Some(b) => BsonView::ObjectId(b),
        None => BsonView::String(a),
    }
}

fn hex_value(c: char) -> (r: u8)
    requires
        is_hex_char(c),
    ensures
        r == hex_val(c),
        r < 16,
{
    let u: u32 = c as u32;
    if '0' <= c && c <= '9' {
        (u - 48) as u8
    } else if 'a' <= c && c <= 'f' {
        (u - 97 + 10) as u8
    } else {
        (u - 65 + 10) as u8
    }
}

/// Decodes an object ID from 24 hex digits (`ObjectId::parse_str`).
pub fn parse_object_id(s: &str) -> (r: Option<Vec<u8>>)
    ensures
        match object_id_of(s@) {
            Some(b) => r matches Some(v) && v@ == b,
            None => r is None,
        },
{
    let cs = chars_of(s);
    if cs.len() != 24 {
        return None;
    }
    let mut i: usize = 0;
    while i < 24
        invariant
            cs@ == s@,
            cs.len() == 24,
            i <= 24,
            forall|j: int| 0 <= j < i ==> is_hex_char(#[trigger] cs@[j]),
        decreases 24 - i,
    {
        let c = cs[i];
        if !(('0' <= c && c <= '9') || ('a' <= c && c <= 'f') || ('A' <= c && c <= 'F')) {
            return None;
        }
        i = i + 1;
    }
    let mut out: Vec<u8> = Vec::new();
    let mut k: usize = 0;
    while k < 12
        invariant
            cs@ == s@,
            cs.len() == 24,
            forall|j: int| 0 <= j < 24 ==> is_hex_char(#[trigger] cs@[j]),
            k <= 12,
            out@.len() == k,
            forall|j: int| 0 <= j < k ==> #[trigger] out@[j] == (hex_val(s@[2 * j]) * 16 + hex_val(s@[2 * j + 1])) as u8,
        decreases 12 - k,
    {
        let hi = hex_value(cs[2 * k]);
        let lo = hex_value(cs[2 * k + 1]);
        out.push(hi * 16 + lo);
        k = k + 1;
    }
    proof {
        assert(out@ =~= object_id_of(s@)->0);
    }
    Some(out)
}

/// The query value of an ID text: the object ID it names, or the (unwrapped) text.
pub fn object_id_or_string(s: &str) -> (r: Bson)
    requires
        !oid_wrapper_panics(s@),
    ensures
        r@ == id_bson(s@),
{
    let cs = chars_of(s);
    let n = cs.len();
    let prefix = n >= 10 && cs[0] == 'O' && cs[1] == 'b' && cs[2] == 'j' && cs[3] == 'e' && cs[4] == 'c' && cs[5]
        == 't' && cs[6] == 'I' && cs[7] == 'd' && cs[8] == '(' && cs[9] == '"';
    let suffix = n >= 2 && cs[n - 2] == '"' && cs[n - 1] == ')';
    proof {
        if n >= 10 {
            assert(prefix == (s@.take(10) =~= oid_prefix()));
        }
        if n >= 2 {
            assert(suffix == (s@.skip(n - 2) =~= oid_suffix()));
        }
    }
    let mut a = String::new();
    if prefix && suffix {
        let mut i: usize = 10;
        while i < n - 2
            invariant
                cs@ == s@,
                n == cs.len(),
                12 <= n,
                10 <= i <= n - 2,
                a@ == s@.subrange(10, i as int),
            decreases n - 2 - i,
        {
            push_char(&mut a, cs[i]);
            i = i + 1;
            proof {
                assert(a@ =~= s@.subrange(10, i as int));
            }
        }
    } else {
        a = str_to_string(s);
    }
    proof {
        assert(a@ == strip_oid_wrapper(s@));
    }
    match parse_object_id(a.as_str()) {
        Some(b) => Bson::ObjectId(b),
        None => Bson::String(a),
    }
}

/// The value a condition compares with: for the `_id` field a text is taken as
/// an ID ([`id_bson`]); otherwise the value's BSON form.
pub open spec fn cond_value(c: QueryConditionView) -> BsonView {
    if mapped_field(c.field) == "_id"@ && c.value is String {
        id_bson(c.value->String_0)
    } else {
        bson_of(c.value)
    }
}

/// Whether building a condition's value fails (an `_id` text `ObjectId(")`).
pub open spec fn cond_panics(c: QueryConditionView) -> bool {
    mapped_field(c.field) == "_id"@ && c.value is String && oid_wrapper_panics(c.value->String_0)
}

/// `{"$regex": p, "$options": "i"}`: a case-insensitive pattern match.
pub open spec fn regex_doc_of(p: Seq<char>) -> Seq<(Seq<char>, BsonView)> {
    seq![("$regex"@, BsonView::String(p)), ("$options"@, BsonView::String("i"@))]
}

/// `{op: v}`.
pub open spec fn op_doc(op: Seq<char>, v: BsonView) -> BsonView {
    BsonView::Document(seq![(op, v)])
}

/// What a condition sets its field to in a query document, if anything: the
/// value itself for `Eq`, `null` for `IsNull`, and otherwise an operator document
/// (`$ne`, `$gt`, `$gte`, `$lt`, `$lte`, `$regex`, `$in`, `$nin`, `$exists`).
/// Pattern operators need a text, `In`/`NotIn` an array and `Exists` a boolean;
/// with another value they set nothing, except `Contains`, which then asks for
/// membership of the value.
pub open spec fn cond_entry(c: QueryConditionView) -> Option<BsonView> {
    let v = cond_value(c);
    match c.operator {
        QueryOperator::Eq => Some(v),
        QueryOperator::Ne => Some(op_doc("$ne"@, v)),
        QueryOperator::Gt => Some(op_doc("$gt"@, v)),
        QueryOperator::Gte => Some(op_doc("$gte"@, v)),
        QueryOperator::Lt => Some(op_doc("$lt"@, v)),
        QueryOperator::Lte => Some(op_doc("$lte"@, v)),
        QueryOperator::Contains => match v {
            BsonView::String(s) => Some(BsonView::Document(regex_doc_of(s))),
            _ => Some(op_doc("$in"@, BsonView::Array(seq![v]))),
        },
        QueryOperator::StartsWith => match v {
            BsonView::String(s) => Some(BsonView::Document(regex_doc_of("^"@ + regex_escaped(s)))),
            _ => None,
        },
        QueryOperator::EndsWith => match v {
            BsonView::String(s) => Some(BsonView::Document(regex_doc_of(regex_escaped(s) + "$"@))),
            _ => None,
        },
        QueryOperator::In => match v {
            BsonView::Array(a) => Some(op_doc("$in"@, BsonView::Array(a))),
            _ => None,
        },
        QueryOperator::NotIn => match v {
            BsonView::Array(a) => Some(op_doc("$nin"@, BsonView::Array(a))),
            _ => None,
        },
        QueryOperator::Regex => match v {
            BsonView::String(s) => Some(BsonView::Document(regex_doc_of(s))),
            _ => None,
        },
        QueryOperator::Exists => match v {
            BsonView::Boolean(b) => Some(op_doc("$exists"@, BsonView::Boolean(b))),
            _ => None,
        },
        QueryOperator::IsNull => Some(BsonView::Null),
        QueryOperator::IsNotNull => Some(op_doc("$ne"@, BsonView::Null)),
    }
}

/// The query document of a list of conditions, applied in order.
pub open spec fn query_doc(cs: Seq<QueryConditionView>) -> Seq<(Seq<char>, BsonView)>
    decreases cs.len(),
{
    if cs.len() == 0 {
        Seq::empty()
    } else {
        let d = query_doc(cs.drop_last());
        match cond_entry(cs.last()) {
            Some(e) => doc_insert(d, mapped_field(cs.last().field), e),
            None => d,
        }
    }
}

fn regex_doc(pattern: String) -> (r: Vec<BsonField>)
    ensures
        fields_view(r@) == regex_doc_of(pattern@),
{
    let mut d: Vec<BsonField> = Vec::new();
    d.push(BsonField { key: str_to_string("$regex"), value: Bson::String(pattern) });
    d.push(BsonField { key: str_to_string("$options"), value: Bson::String(str_to_string("i")) });
    proof {
        let s = d@;
        assert(s.drop_last().drop_last() =~= Seq::<BsonField>::empty());
        assert(fields_view(s.drop_last().drop_last()) == Seq::<(Seq<char>, BsonView)>::empty());
        assert(s.drop_last().last() == s[0]);
        assert(fields_view(s.drop_last()) =~= seq![(s[0].key@, s[0].value@)]);
        assert(s[0].value@ == BsonView::String(pattern@));
        assert(s[1].value@ == BsonView::String("i"@));
        assert(fields_view(s) =~= seq![(s[0].key@, s[0].value@), (s[1].key@, s[1].value@)]);
        assert(fields_view(s) =~= regex_doc_of(pattern@));
    }
    d
}

fn op_field(op: &str, v: Bson) -> (r: Bson)
    ensures
        r@ == op_doc(op@, v@),
{
    let d = single_field(op, v);
    Bson::Document(d)
}

/// What a lookup by ID matches `_id` against: for a text, the object ID it names
/// (inside an `ObjectId("...")` wrapper or not) or else the unwrapped text;
/// numbers, flags and UUIDs as they are sent. Other kinds have no such value.
pub open spec fn id_query_value(id: DataValueView) -> Option<BsonView> {
    match id {
        DataValueView::String(s) => Some(id_bson(s)),
        DataValueView::Int(_) | DataValueView::Float(_) | DataValueView::Bool(_) | DataValueView::Uuid(_) => Some(
            bson_of(id),
        ),
        _ => None,
    }
}

/// The `{_id: ...}` filter of a lookup by ID, for the kinds of ID that have one.
pub fn id_query_document(id: &DataValue) -> (r: Option<Vec<BsonField>>)
    requires
        id@ is String ==> !oid_wrapper_panics(id@->String_0),
    ensures
        match id_query_value(id@) {
            Some(v) => r matches Some(d) && fields_view(d@) == seq![("_id"@, v)],
            None => r is None,
        },
{
    match id {
        DataValue::String(s) => Some(single_field("_id", object_id_or_string(s.as_str()))),
        DataValue::Int(_) | DataValue::Float(_) | DataValue::Bool(_) | DataValue::Uuid(_) => Some(
            single_field("_id", data_value_to_bson(id)),
        ),
        _ => None,
    }
}

impl MongoAdapter {
    /// The document field a record field is stored under (`id` becomes `_id`).
    pub fn map_field_name(&self, field_name: &str) -> (r: String)
        ensures
            r@ == mapped_field(field_name@),
    {
        if str_eq(field_name, "id") {
            str_to_string("_id")
        } else {
            str_to_string(field_name)
        }
    }

    /// What one condition sets its field to, if anything.
    fn condition_entry(&self, c: &QueryCondition) -> (r: Option<Bson>)
        requires
            !cond_panics(c@),
        ensures
            match cond_entry(c@) {
                Some(e) => r matches Some(b) && b@ == e,
                None => r is None,
            },
    {
        let field = self.map_field_name(c.field.as_str());
        let v = if str_eq(field.as_str(), "_id") {
            match &c.value {
                DataValue::String(s) => object_id_or_string(s.as_str()),
                other => data_value_to_bson(other),
            }
        } else {
            data_value_to_bson(&c.value)
        };
        match c.operator {
            QueryOperator::Eq => Some(v),
            QueryOperator::Ne => Some(op_field("$ne", v)),
            QueryOperator::Gt => Some(op_field("$gt", v)),
            QueryOperator::Gte => Some(op_field("$gte", v)),
            QueryOperator::Lt => Some(op_field("$lt", v)),
            QueryOperator::Lte => Some(op_field("$lte", v)),
            QueryOperator::Contains => match v {
                Bson::String(s) => Some(Bson::Document(regex_doc(s))),
                other => {
                    let mut arr: Vec<Bson> = Vec::new();
                    arr.push(other);
                    proof {
                        assert(arr@.drop_last() =~= Seq::<Bson>::empty());
                        assert(bsons_view(arr@.drop_last()) == Seq::<BsonView>::empty());
                        assert(bsons_view(arr@) =~= seq![arr@[0]@]);
                    }
                    Some(op_field("$in", Bson::Array(arr)))
                },
            },
            QueryOperator::StartsWith => match v {
                Bson::String(s) => {
                    let mut p = str_to_string("^");
                    p.append(regex_escape(s.as_str()).as_str());
                    Some(Bson::Document(regex_doc(p)))
                },
                _ => None,
            },
            QueryOperator::EndsWith => match v {
                Bson::String(s) => {
                    let mut p = regex_escape(s.as_str());
                    p.append("$");
                    Some(Bson::Document(regex_doc(p)))
                },
                _ => None,
            },
            QueryOperator::In => match v {
                Bson::Array(a) => Some(op_field("$in", Bson::Array(a))),
                _ => None,
            },
            QueryOperator::NotIn => match v {
                Bson::Array(a) => Some(op_field("$nin", Bson::Array(a))),
                _ => None,
            },
            QueryOperator::Regex => match v {
                Bson::String(s) => Some(Bson::Document(regex_doc(s))),
                _ => None,
            },
            QueryOperator::Exists => match v {
                Bson::Boolean(b) => Some(op_field("$exists", Bson::Boolean(b))),
                _ => None,
            },
            QueryOperator::IsNull => Some(Bson::Null),
            QueryOperator::IsNotNull => Some(op_field("$ne", Bson::Null)),
        }
    }

    /// The query document of a list of conditions: each condition, in order, sets
    /// its (mapped) field as [`cond_entry`] says; a later condition on the same
    /// field replaces an earlier one.
    pub fn build_query_document(&self, conditions: &[QueryCondition]) -> (r: Vec<BsonField>)
        requires
            forall|i: int| 0 <= i < conditions@.len() ==> !cond_panics(#[trigger] conditions@[i]@),
        ensures
            fields_view(r@) == query_doc(conditions@.map_values(|c: QueryCondition| c@)),
    {
        let ghost cv = conditions@.map_values(|c: QueryCondition| c@);
        let mut doc: Vec<BsonField> = Vec::new();
        let mut i: usize = 0;
        while i < conditions.len()
            invariant
                i <= conditions.len(),
                cv == conditions@.map_values(|c: QueryCondition| c@),
                forall|j: int| 0 <= j < conditions@.len() ==> !cond_panics(#[trigger] conditions@[j]@),
                fields_view(doc@) == query_doc(cv.take(i as int)),
            decreases conditions.len() - i,
        {
            let c = &conditions[i];
            proof {
                assert(cv.take(i + 1).drop_last() =~= cv.take(i as int));
                assert(cv.take(i + 1).last() == c@);
            }
            match self.condition_entry(c) {
                Some(e) => {
                    let field = self.map_field_name(c.field.as_str());
                    insert_field(&mut doc, field, e);
                },
                None => {},
            }
            i = i + 1;
        }
        proof {
            assert(cv.take(i as int) =~= cv);
        }
        doc
    }
}


// ---------------------------------------------------------------------------
// Condition groups
// ---------------------------------------------------------------------------

/// The operator key that joins a group's documents.
pub open spec fn logical_key(op: LogicalOperator) -> Seq<char> {
    match op {
        LogicalOperator::And => "$and"@,
        LogicalOperator::Or => "$or"@,
    }
}

/// Documents joined under `key`: nothing for none, the document itself for one,
/// `{key: [doc, ...]}` for more.
pub open spec fn combine(key: Seq<char>, docs: Seq<Seq<(Seq<char>, BsonView)>>) -> Seq<(Seq<char>, BsonView)> {
    if docs.len() == 0 {
        Seq::empty()
    } else if docs.len() == 1 {
        docs[0]
    } else {
        seq![(key, BsonView::Array(docs.map_values(|d: Seq<(Seq<char>, BsonView)>| BsonView::Document(d))))]
    }
}

/// The document of a condition group: a single condition's query document, a
/// one-member group's member, or the members' non-empty documents joined by the
/// group's operator.
pub open spec fn group_doc(g: ConditionGroupView) -> Seq<(Seq<char>, BsonView)>
    decreases g,
{
    match g {
        ConditionGroupView::Single(c) => query_doc(seq![c]),
        ConditionGroupView::Group { operator, conditions } => if conditions.len() == 0 {
            Seq::empty()
        } else if conditions.len() == 1 {
            group_doc(conditions[0])
        } else {
            combine(logical_key(operator), nonempty_docs(conditions))
        },
    }
}

/// The non-empty documents of a list of groups, in order.
pub open spec fn nonempty_docs(gs: Seq<ConditionGroupView>) -> Seq<Seq<(Seq<char>, BsonView)>>
    decreases gs,
{
    if gs.len() == 0 {
        Seq::empty()
    } else {
        let d = group_doc(gs.last());
        if d.len() == 0 {
            nonempty_docs(gs.drop_last())
        } else {
            nonempty_docs(gs.drop_last()).push(d)
        }
    }
}

/// The document of a list of groups: the only group's document, or the
/// non-empty documents joined by `$and`.
pub open spec fn groups_doc(gs: Seq<ConditionGroupView>) -> Seq<(Seq<char>, BsonView)> {
    if gs.len() == 0 {
        Seq::empty()
    } else if gs.len() == 1 {
        group_doc(gs[0])
    } else {
        combine("$and"@, nonempty_docs(gs))
    }
}

/// No condition in the group fails to build ([`cond_panics`]).
pub open spec fn group_ok(g: ConditionGroupView) -> bool
    decreases g,
{
    match g {
        ConditionGroupView::Single(c) => !cond_panics(c),
        ConditionGroupView::Group { conditions, .. } => groups_ok(conditions),
    }
}

/// No condition in the groups fails to build.
pub open spec fn groups_ok(gs: Seq<ConditionGroupView>) -> bool
    decreases gs,
{
    if gs.len() == 0 {
        true
    } else {
        groups_ok(gs.drop_last()) && group_ok(gs.last())
    }
}

proof fn lemma_groups_ok(gs: Seq<ConditionGroupView>)
    ensures
        groups_ok(gs) <==> forall|i: int| 0 <= i < gs.len() ==> group_ok(#[trigger] gs[i]),
    decreases gs.len(),
{
    if gs.len() > 0 {
        lemma_groups_ok(gs.drop_last());
        if groups_ok(gs) {
            assert forall|i: int| 0 <= i < gs.len() implies group_ok(#[trigger] gs[i]) by {
                if i < gs.len() - 1 {
                    assert(gs[i] == gs.drop_last()[i]);
                }
            }
        }
        if forall|i: int| 0 <= i < gs.len() ==> group_ok(#[trigger] gs[i]) {
            assert forall|i: int| 0 <= i < gs.len() - 1 implies group_ok(#[trigger] gs.drop_last()[i]) by {
                assert(gs[i] == gs.drop_last()[i]);
            }
            assert(group_ok(gs[gs.len() - 1]));
        }
    }
}

/// The documents of the members, as BSON documents.
pub open spec fn as_documents(docs: Seq<Seq<(Seq<char>, BsonView)>>) -> Seq<BsonView> {
    docs.map_values(|d: Seq<(Seq<char>, BsonView)>| BsonView::Document(d))
}

impl MongoAdapter {
    /// The non-empty documents of `gs`, each as a BSON document.
    #[verifier::loop_isolation(false)]
    fn member_documents(&self, gs: &Vec<QueryConditionGroup>) -> (r: Vec<Bson>)
        requires
            groups_ok(groups_view(gs@)),
        ensures
            bsons_view(r@) == as_documents(nonempty_docs(groups_view(gs@))),
        decreases gs@, 1nat,
    {
        proof {
            lemma_groups_view(gs@);
            lemma_groups_ok(groups_view(gs@));
        }
        let mut out: Vec<Bson> = Vec::new();
        let mut i: usize = 0;
        while i < gs.len()
            invariant
                i <= gs.len(),
                bsons_view(out@) == as_documents(nonempty_docs(groups_view(gs@.take(i as int)))),
            decreases gs.len() - i,
        {
            proof {
                assert(groups_view(gs@)[i as int] == gs@[i as int]@);
                assert(group_ok(gs@[i as int]@));
                lemma_groups_view(gs@.take(i + 1));
                assert(gs@.take(i + 1).drop_last() =~= gs@.take(i as int));
                assert(groups_view(gs@.take(i + 1)).drop_last() =~= groups_view(gs@.take(i as int))) by {
                    lemma_groups_view(gs@.take(i as int));
                }
                assert(groups_view(gs@.take(i + 1)).last() == gs@[i as int]@);
            }
            assert(decreases_to!(gs@ => gs@[i as int]));
            let d = self.group_document(&gs[i]);
            proof {
                lemma_fields_view(d@);
            }
            if d.len() > 0 {
                let ghost prev = out@;
                let ghost dv = fields_view(d@);
                let item = Bson::Document(d);
                assert(item@ == BsonView::Document(dv));
                out.push(item);
                proof {
                    assert(out@.drop_last() =~= prev);
                    assert(out@.last()@ == BsonView::Document(dv));
                    assert(bsons_view(out@) == bsons_view(prev).push(BsonView::Document(dv)));
                    assert(nonempty_docs(groups_view(gs@.take(i + 1))) == nonempty_docs(groups_view(gs@.take(i as int))).push(dv));
                    assert(as_documents(nonempty_docs(groups_view(gs@.take(i + 1)))) =~= as_documents(
                        nonempty_docs(groups_view(gs@.take(i as int))),
                    ).push(BsonView::Document(dv)));
                }
            } else {
                proof {
                    lemma_fields_view(d@);
                    assert(nonempty_docs(groups_view(gs@.take(i + 1))) == nonempty_docs(groups_view(gs@.take(i as int))));
                }
            }
            i = i + 1;
        }
        proof {
            assert(gs@.take(i as int) =~= gs@);
        }
        out
    }

    /// Joins member documents under `key` as [`combine`] does.
    fn combine_documents(key: &str, items: Vec<Bson>, Ghost(docs): Ghost<Seq<Seq<(Seq<char>, BsonView)>>>) -> (r: Vec<BsonField>)
        requires
            bsons_view(items@) == as_documents(docs),
        ensures
            fields_view(r@) == combine(key@, docs),
    {
        proof {
            lemma_bsons_view(items@);
        }
        if items.len() == 0 {
            proof {
                assert(docs.len() == 0);
            }
            Vec::new()
        } else if items.len() == 1 {
            let mut items = items;
            let first = items.remove(0);
            match first {
                Bson::Document(d) => {
                    proof {
                        assert(as_documents(docs)[0] == BsonView::Document(docs[0]));
                    }
                    d
                },
                _ => {
                    proof {
                        assert(as_documents(docs)[0] == BsonView::Document(docs[0]));
                    }
                    Vec::new()
                },
            }
        } else {
            single_field(key, Bson::Array(items))
        }
    }

    /// The document of one condition group ([`group_doc`]).
    #[verifier::loop_isolation(false)]
    pub fn group_document(&self, g: &QueryConditionGroup) -> (r: Vec<BsonField>)
        requires
            group_ok(g@),
        ensures
            fields_view(r@) == group_doc(g@),
        decreases g, 0nat,
    {
        match g {
            QueryConditionGroup::Single(c) => {
                let mut doc: Vec<BsonField> = Vec::new();
                proof {
                    assert(seq![c@].drop_last() =~= Seq::<QueryConditionView>::empty());
                    assert(fields_view(doc@) =~= Seq::<(Seq<char>, BsonView)>::empty());
                    assert(query_doc(Seq::<QueryConditionView>::empty()) == Seq::<(Seq<char>, BsonView)>::empty());
                    assert(query_doc(seq![c@]) == match cond_entry(c@) {
                        Some(e) => doc_insert(Seq::<(Seq<char>, BsonView)>::empty(), mapped_field(c@.field), e),
                        None => Seq::<(Seq<char>, BsonView)>::empty(),
                    });
                }
                match self.condition_entry(c) {
                    Some(e) => {
                        let field = self.map_field_name(c.field.as_str());
                        insert_field(&mut doc, field, e);
                    },
                    None => {},
                }
                doc
            },
            QueryConditionGroup::Group { operator, conditions } => {
                proof {
                    lemma_groups_view(conditions@);
                    lemma_groups_ok(groups_view(conditions@));
                }
                if conditions.len() == 0 {
                    Vec::new()
                } else if conditions.len() == 1 {
                    assert(decreases_to!(g => conditions@[0]));
                    proof {
                        assert(groups_view(conditions@)[0] == conditions@[0]@);
                    }
                    self.group_document(&conditions[0])
                } else {
                    assert(decreases_to!(g => conditions@));
                    let items = self.member_documents(conditions);
                    let key = match operator {
                        LogicalOperator::And => "$and",
                        LogicalOperator::Or => "$or",
                    };
                    Self::combine_documents(key, items, Ghost(nonempty_docs(groups_view(conditions@))))
                }
            },
        }
    }

    /// The query document of a list of condition groups ([`groups_doc`]).
    pub fn build_condition_groups_document(&self, groups: &Vec<QueryConditionGroup>) -> (r: Vec<BsonField>)
        requires
            groups_ok(groups_view(groups@)),
        ensures
            fields_view(r@) == groups_doc(groups_view(groups@)),
    {
        proof {
            lemma_groups_view(groups@);
            lemma_groups_ok(groups_view(groups@));
        }
        if groups.len() == 0 {
            Vec::new()
        } else if groups.len() == 1 {
            self.group_document(&groups[0])
        } else {
            let items = self.member_documents(groups);
            Self::combine_documents("$and", items, Ghost(nonempty_docs(groups_view(groups@))))
        }
    }
}


// ---------------------------------------------------------------------------
// Inserted and updated documents
// ---------------------------------------------------------------------------

/// A record's entries with their keys mapped ([`mapped_field`]); a later entry
/// replaces an earlier one that maps to the same key.
pub open spec fn mapped_entries(es: Seq<(Seq<char>, DataValueView)>) -> Seq<(Seq<char>, DataValueView)>
    decreases es.len(),
{
    if es.len() == 0 {
        Seq::empty()
    } else {
        doc_insert(mapped_entries(es.drop_last()), mapped_field(es.last().0), es.last().1)
    }
}

/// The fields of an inserted document: every mapped entry but a null `_id`,
/// which is left for the database to generate.
pub open spec fn insert_fields(ms: Seq<(Seq<char>, DataValueView)>) -> Seq<(Seq<char>, BsonView)>
    decreases ms.len(),
{
    if ms.len() == 0 {
        Seq::empty()
    } else {
        let d = insert_fields(ms.drop_last());
        if ms.last().0 == "_id"@ && ms.last().1 is Null {
            d
        } else {
            doc_insert(d, ms.last().0, bson_of(ms.last().1))
        }
    }
}

/// The fields that an update sets: every mapped entry but `_id`, which cannot change.
pub open spec fn set_fields(ms: Seq<(Seq<char>, DataValueView)>) -> Seq<(Seq<char>, BsonView)>
    decreases ms.len(),
{
    if ms.len() == 0 {
        Seq::empty()
    } else {
        let d = set_fields(ms.drop_last());
        if ms.last().0 == "_id"@ {
            d
        } else {
            doc_insert(d, ms.last().0, bson_of(ms.last().1))
        }
    }
}

/// The update document of a record's entries: `{"$set": fields}`, or nothing when
/// no field is set.
pub open spec fn update_doc(es: Seq<(Seq<char>, DataValueView)>) -> Seq<(Seq<char>, BsonView)> {
    let s = set_fields(mapped_entries(es));
    if s.len() == 0 {
        Seq::empty()
    } else {
        seq![("$set"@, BsonView::Document(s))]
    }
}

/// Sets entry `key` of `entries` to `value`, replacing an entry with that key where it stands.
pub fn insert_entry(entries: &mut Vec<Entry>, key: String, value: DataValue)
    ensures
        entries_view(final(entries)@) == doc_insert(entries_view(old(entries)@), key@, value@),
{
    let ghost d = entries_view(entries@);
    proof {
        lemma_entries_view(entries@);
        lemma_field_pos(d, key@);
    }
    let mut i: usize = entries.len();
    while i > 0
        invariant
            i <= entries.len(),
            d == entries_view(entries@),
            d == entries_view(old(entries)@),
            d.len() == entries.len(),
            forall|j: int| 0 <= j < entries.len() ==> #[trigger] d[j] == (entries@[j].key@, entries@[j].value@),
            -1 <= field_pos(d, key@) < d.len(),
            field_pos(d, key@) >= 0 ==> d[field_pos(d, key@)].0 == key@,
            forall|j: int| i <= j < entries.len() ==> (#[trigger] d[j]).0 != key@,
            field_pos(d, key@) < i,
        decreases i,
    {
        if str_eq(entries[i - 1].key.as_str(), key.as_str()) {
            let ghost pos = (i - 1) as int;
            proof {
                lemma_field_pos_at(d, key@, pos);
            }
            let _ = entries.remove(i - 1);
            entries.insert(i - 1, Entry { key, value });
            proof {
                lemma_entries_view(entries@);
                assert(entries_view(entries@) =~= d.update(pos, (key@, value@)));
            }
            return;
        }
        i = i - 1;
    }
    let ghost before = entries@;
    entries.push(Entry { key, value });
    proof {
        assert(entries@.drop_last() =~= before);
    }
}

impl MongoAdapter {
    /// A record's entries with `id` mapped to `_id` ([`mapped_entries`]).
    pub fn map_data_fields(&self, data: &Vec<Entry>) -> (r: Vec<Entry>)
        ensures
            entries_view(r@) == mapped_entries(entries_view(data@)),
    {
        let mut out: Vec<Entry> = Vec::new();
        let mut i: usize = 0;
        while i < data.len()
            invariant
                i <= data.len(),
                entries_view(out@) == mapped_entries(entries_view(data@.take(i as int))),
            decreases data.len() - i,
        {
            let key = self.map_field_name(data[i].key.as_str());
            let value = data[i].value.deep_clone();
            insert_entry(&mut out, key, value);
            proof {
                assert(data@.take(i + 1).drop_last() =~= data@.take(i as int));
                lemma_entries_view(data@.take(i + 1));
                assert(entries_view(data@.take(i + 1)).drop_last() =~= entries_view(data@.take(i as int))) by {
                    lemma_entries_view(data@.take(i as int));
                }
            }
            i = i + 1;
        }
        proof {
            assert(data@.take(i as int) =~= data@);
        }
        out
    }

    /// The document inserted for a record ([`insert_fields`] of its mapped entries).
    pub fn build_insert_document(&self, data: &Vec<Entry>) -> (r: Vec<BsonField>)
        ensures
            fields_view(r@) == insert_fields(mapped_entries(entries_view(data@))),
    {
        let mapped = self.map_data_fields(data);
        let ghost ms = entries_view(mapped@);
        proof {
            lemma_entries_view(mapped@);
        }
        let mut doc: Vec<BsonField> = Vec::new();
        let mut i: usize = 0;
        while i < mapped.len()
            invariant
                i <= mapped.len(),
                ms == entries_view(mapped@),
                ms.len() == mapped.len(),
                forall|j: int| 0 <= j < mapped.len() ==> #[trigger] ms[j] == (mapped@[j].key@, mapped@[j].value@),
                fields_view(doc@) == insert_fields(ms.take(i as int)),
            decreases mapped.len() - i,
        {
            proof {
                assert(ms.take(i + 1).drop_last() =~= ms.take(i as int));
                assert(ms.take(i + 1).last() == ms[i as int]);
            }
            let skip = str_eq(mapped[i].key.as_str(), "_id") && mapped[i].value.is_null();
            if !skip {
                let v = data_value_to_bson(&mapped[i].value);
                insert_field(&mut doc, mapped[i].key.clone(), v);
            }
            i = i + 1;
        }
        proof {
            assert(ms.take(i as int) =~= ms);
        }
        doc
    }

    /// The update document for a record's entries ([`update_doc`]).
    pub fn build_update_document(&self, data: &Vec<Entry>) -> (r: Vec<BsonField>)
        ensures
            fields_view(r@) == update_doc(entries_view(data@)),
    {
        let mapped = self.map_data_fields(data);
        let ghost ms = entries_view(mapped@);
        proof {
            lemma_entries_view(mapped@);
        }
        let mut set: Vec<BsonField> = Vec::new();
        let mut i: usize = 0;
        while i < mapped.len()
            invariant
                i <= mapped.len(),
                ms == entries_view(mapped@),
                ms.len() == mapped.len(),
                forall|j: int| 0 <= j < mapped.len() ==> #[trigger] ms[j] == (mapped@[j].key@, mapped@[j].value@),
                fields_view(set@) == set_fields(ms.take(i as int)),
            decreases mapped.len() - i,
        {
            proof {
                assert(ms.take(i + 1).drop_last() =~= ms.take(i as int));
                assert(ms.take(i + 1).last() == ms[i as int]);
            }
            if !str_eq(mapped[i].key.as_str(), "_id") {
                let v = data_value_to_bson(&mapped[i].value);
                insert_field(&mut set, mapped[i].key.clone(), v);
            }
            i = i + 1;
        }
        proof {
            assert(ms.take(i as int) =~= ms);
            lemma_fields_view(set@);
        }
        if set.len() == 0 {
            Vec::new()
        } else {
            single_field("$set", Bson::Document(set))
        }
    }
}

/// Membership conditions: with a list, `In` sets its field to `{ "$in": list }`
/// and `NotIn` to `{ "$nin": list }`, over the same list and under two different
/// operator keys, so `NotIn` selects what `In` leaves out; with any other value
/// neither sets anything.
pub proof fn lemma_membership_operators(c: QueryConditionView)
    ensures
        c.operator is In && cond_value(c) is Array
            ==> cond_entry(c) == Some(BsonView::Document(seq![("$in"@, cond_value(c))])),
        c.operator is NotIn && cond_value(c) is Array
            ==> cond_entry(c) == Some(BsonView::Document(seq![("$nin"@, cond_value(c))])),
        (c.operator is In || c.operator is NotIn) && !(cond_value(c) is Array) ==> cond_entry(c) is None,
        "$in"@ != "$nin"@,
{
    reveal_strlit("$in");
    reveal_strlit("$nin");
    assert("$in"@[1] != "$nin"@[1]);
}

/// Comparison conditions: `Eq` sets the field to the value itself, and `Ne`,
/// `Gt`, `Gte`, `Lt` and `Lte` to a one-entry document from `$ne`, `$gt`, `$gte`,
/// `$lt` and `$lte` to the value, five different keys; `IsNull` sets the field to
/// null and `IsNotNull` to `{ "$ne": null }`.
pub proof fn lemma_comparison_operators(c: QueryConditionView)
    ensures
        c.operator is Eq ==> cond_entry(c) == Some(cond_value(c)),
        c.operator is Ne ==> cond_entry(c) == Some(BsonView::Document(seq![("$ne"@, cond_value(c))])),
        c.operator is Gt ==> cond_entry(c) == Some(BsonView::Document(seq![("$gt"@, cond_value(c))])),
        c.operator is Gte ==> cond_entry(c) == Some(BsonView::Document(seq![("$gte"@, cond_value(c))])),
        c.operator is Lt ==> cond_entry(c) == Some(BsonView::Document(seq![("$lt"@, cond_value(c))])),
        c.operator is Lte ==> cond_entry(c) == Some(BsonView::Document(seq![("$lte"@, cond_value(c))])),
        c.operator is IsNull ==> cond_entry(c) == Some(BsonView::Null),
        c.operator is IsNotNull ==> cond_entry(c) == Some(BsonView::Document(seq![("$ne"@, BsonView::Null)])),
        "$ne"@ != "$gt"@ && "$ne"@ != "$gte"@ && "$ne"@ != "$lt"@ && "$ne"@ != "$lte"@,
        "$gt"@ != "$gte"@ && "$gt"@ != "$lt"@ && "$gt"@ != "$lte"@,
        "$gte"@ != "$lt"@ && "$gte"@ != "$lte"@ && "$lt"@ != "$lte"@,
{
    reveal_strlit("$ne");
    reveal_strlit("$gt");
    reveal_strlit("$gte");
    reveal_strlit("$lt");
    reveal_strlit("$lte");
    assert("$ne"@[1] != "$gt"@[1] && "$ne"@[1] != "$lt"@[1]);
    assert("$gt"@.len() != "$gte"@.len() && "$lt"@.len() != "$lte"@.len());
    assert("$gt"@[1] != "$lt"@[1] && "$gt"@[1] != "$lte"@[1] && "$gte"@[1] != "$lt"@[1]);
    assert("$gte"@[1] != "$lte"@[1] && "$ne"@[1] != "$gte"@[1] && "$ne"@[1] != "$lte"@[1]);
}

/// Text patterns: with a text `s`, `StartsWith` matches case-insensitively by a
/// regular expression anchored at the start (`^` and `s` escaped), `EndsWith` by
/// one anchored at the end (`s` escaped and `$`), and `Contains` and `Regex` by
/// `s` itself, unanchored.
pub proof fn lemma_pattern_operators(c: QueryConditionView)
    ensures
        cond_value(c) matches BsonView::String(s) ==> {
            &&& c.operator is StartsWith ==> cond_entry(c) == Some(BsonView::Document(seq![
                ("$regex"@, BsonView::String("^"@ + regex_escaped(s))),
                ("$options"@, BsonView::String("i"@)),
            ]))
            &&& c.operator is EndsWith ==> cond_entry(c) == Some(BsonView::Document(seq![
                ("$regex"@, BsonView::String(regex_escaped(s) + "$"@)),
                ("$options"@, BsonView::String("i"@)),
            ]))
            &&& (c.operator is Contains || c.operator is Regex) ==> cond_entry(c) == Some(BsonView::Document(seq![
                ("$regex"@, BsonView::String(s)),
                ("$options"@, BsonView::String("i"@)),
            ]))
        },
{
}

} // verus!
