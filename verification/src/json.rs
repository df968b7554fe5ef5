//! JSON values one level at a time, and values in their tagged JSON form.
//!
//! A data value's tagged form is its externally tagged encoding: `"Null"`, or an
//! object with one entry from the variant's name to its payload (`{"Int": 5}`,
//! `{"Array": [...]}`). Decoding reads a text's outermost JSON value; nested
//! values are read from their own texts in turn.

use vstd::prelude::*;
use crate::types::{DataValue, DataValueView, Entry, Timestamp, values_view, lemma_values_view, entries_view, lemma_entries_view};
use crate::text::{str_to_string, str_eq};
use crate::outside::{json_shape, json_shape_of, datetime_value, parsed_datetime, uuid_value, parsed_uuid};

verus! {

/// A JSON number as the parser holds it: its value as an `i64` and as a `u64`
/// when it is an integer in range, and the bit pattern of its value as an `f64`.
#[derive(Debug, Clone, Copy, PartialEq, Eq, Structural)]
pub struct JsonNumber {
    pub int: Option<i64>,
    pub unsigned: Option<u64>,
    pub float_bits: Option<u64>,
}

/// The outermost level of a JSON value; nested values by their JSON texts.
#[derive(Debug)]
pub enum JsonShape {
    Null,
    Bool(bool),
    Number(JsonNumber),
    String(String),
    /// The items' texts, in order.
    Array(Vec<String>),
    /// The entries, each key with its value's text.
    Object(Vec<(String, String)>),
}

/// The abstract value of a [`JsonShape`].
pub enum JsonShapeView {
    Null,
    Bool(bool),
    Number(JsonNumber),
    String(Seq<char>),
    Array(Seq<Seq<char>>),
    Object(Seq<(Seq<char>, Seq<char>)>),
}

impl View for JsonShape {
    type V = JsonShapeView;

    open spec fn view(&self) -> JsonShapeView {
        match self {
            JsonShape::Null => JsonShapeView::Null,
            JsonShape::Bool(b) => JsonShapeView::Bool(*b),
            JsonShape::Number(n) => JsonShapeView::Number(*n),
            JsonShape::String(s) => JsonShapeView::String(s@),
            JsonShape::Array(xs) => JsonShapeView::Array(xs@.map_values(|x: String| x@)),
            JsonShape::Object(es) => JsonShapeView::Object(es@.map_values(|e: (String, String)| (e.0@, e.1@))),
        }
    }
}

/// How deep decoding goes: more levels than any text that `serde_json` parses
/// can nest (its parser stops at 128), so a parsed value never reaches it.
pub const DECODE_DEPTH: u32 = 128;

/// The data value whose tagged form is `text`, decoding at most `depth` levels
/// deep; `None` when `text` is not one.
pub open spec fn decode_tagged(text: Seq<char>, depth: nat) -> Option<DataValueView>
    decreases depth, 0nat,
{
    if depth == 0 {
        None
    } else {
        let d = (depth - 1) as nat;
        match json_shape_of(text) {
            Some(JsonShapeView::String(s)) => if s == "Null"@ {
                Some(DataValueView::Null)
            } else {
                None
            },
            Some(JsonShapeView::Object(es)) => if es.len() == 1 {
                let tag = es[0].0;
                let payload = json_shape_of(es[0].1);
                if tag == "Null"@ {
                    match payload {
                        Some(JsonShapeView::Null) => Some(DataValueView::Null),
                        _ => None,
                    }
                } else if tag == "Bool"@ {
                    match payload {
                        Some(JsonShapeView::Bool(b)) => Some(DataValueView::Bool(b)),
                        _ => None,
                    }
                } else if tag == "Int"@ {
                    match payload {
                        Some(JsonShapeView::Number(n)) => match n.int {
                            Some(i) => Some(DataValueView::Int(i)),
                            None => None,
                        },
                        _ => None,
                    }
                } else if tag == "Float"@ {
                    match payload {
                        Some(JsonShapeView::Number(n)) => match n.float_bits {
                            Some(b) => Some(DataValueView::Float(b)),
                            None => None,
                        },
                        _ => None,
                    }
                } else if tag == "String"@ {
                    match payload {
                        Some(JsonShapeView::String(s)) => Some(DataValueView::String(s)),
                        _ => None,
                    }
                } else if tag == "Bytes"@ {
                    match payload {
                        Some(JsonShapeView::Array(xs)) => decode_bytes(xs),
                        _ => None,
                    }
                } else if tag == "DateTime"@ {
                    match payload {
                        Some(JsonShapeView::String(s)) => match parsed_datetime(s) {
                            Some(t) => Some(DataValueView::DateTime(t)),
                            None => None,
                        },
                        _ => None,
                    }
                } else if tag == "Uuid"@ {
                    match payload {
                        Some(JsonShapeView::String(s)) => match parsed_uuid(s) {
                            Some(u) => Some(DataValueView::Uuid(u)),
                            None => None,
                        },
                        _ => None,
                    }
                } else if tag == "Json"@ {
                    Some(DataValueView::Json(es[0].1))
                } else if tag == "Array"@ {
                    match payload {
                        Some(JsonShapeView::Array(xs)) => match decode_all(xs, d) {
                            Some(vs) => Some(DataValueView::Array(vs)),
                            None => None,
                        },
                        _ => None,
                    }
                } else if tag == "Object"@ {
                    match payload {
                        Some(JsonShapeView::Object(fs)) => match decode_all(fs.map_values(|f: (Seq<char>, Seq<char>)| f.1), d) {
                            Some(vs) => Some(DataValueView::Object(Seq::new(fs.len(), |i: int| (fs[i].0, vs[i])))),
                            None => None,
                        },
                        _ => None,
                    }
                } else {
                    None
                }
            } else {
                None
            },
            _ => None,
        }
    }
}

/// The data values whose tagged forms are `texts`, or `None` when one is not.
pub open spec fn decode_all(texts: Seq<Seq<char>>, depth: nat) -> Option<Seq<DataValueView>>
    decreases depth, texts.len(),
{
    if texts.len() == 0 {
        Some(Seq::empty())
    } else {
        match decode_all(texts.drop_last(), depth) {
            None => None,
            Some(vs) => match decode_tagged(texts.last(), depth) {
                None => None,
                Some(v) => Some(vs.push(v)),
            },
        }
    }
}

/// A byte: a JSON integer from 0 to 255.
pub open spec fn byte_of(text: Seq<char>) -> Option<u8> {
    match json_shape_of(text) {
        Some(JsonShapeView::Number(n)) => match n.unsigned {
            Some(u) => if u < 256 {
                Some(u as u8)
            } else {
                None
            },
            None => None,
        },
        _ => None,
    }
}

/// The bytes whose JSON texts are `xs`, or `None` when one is not a byte.
pub open spec fn decode_bytes(xs: Seq<Seq<char>>) -> Option<DataValueView> {
    if forall|i: int| 0 <= i < xs.len() ==> (#[trigger] byte_of(xs[i])) is Some {
        Some(DataValueView::Bytes(Seq::new(xs.len(), |i: int| byte_of(xs[i])->0)))
    } else {
        None
    }
}

/// The data value of an item in tagged form, null when it is not in that form.
pub open spec fn tagged_or_null(text: Seq<char>) -> DataValueView {
    match decode_tagged(text, DECODE_DEPTH as nat) {
        Some(v) => v,
        None => DataValueView::Null,
    }
}

fn decode_bytes_exec(xs: &Vec<String>) -> (r: Option<DataValue>)
    ensures
        match decode_bytes(xs@.map_values(|x: String| x@)) {
            Some(v) => r matches Some(d) && d@ == v,
            None => r is None,
        },
{
    let ghost ts = xs@.map_values(|x: String| x@);
    let mut out: Vec<u8> = Vec::new();
    let mut i: usize = 0;
    while i < xs.len()
        invariant
            i <= xs.len(),
            ts == xs@.map_values(|x: String| x@),
            out@.len() == i,
            forall|j: int| 0 <= j < i ==> (#[trigger] byte_of(ts[j])) == Some(out@[j]),
        decreases xs.len() - i,
    {
        assert(ts[i as int] == xs@[i as int]@);
        let b: u8 = match json_shape(xs[i].as_str()) {
            Some(JsonShape::Number(n)) => match n.unsigned {
                Some(u) => if u < 256 {
                    u as u8
                } else {
                    proof { assert(byte_of(ts[i as int]) is None); }
                    return None;
                },
                None => {
                    proof { assert(byte_of(ts[i as int]) is None); }
                    return None;
                },
            },
            _ => {
                proof { assert(byte_of(ts[i as int]) is None); }
                return None;
            },
        };
        out.push(b);
        i = i + 1;
    }
    proof {
        assert(DataValueView::Bytes(out@) == decode_bytes(ts)->0) by {
            assert(out@ =~= Seq::new(ts.len(), |k: int| byte_of(ts[k])->0));
        }
    }
    Some(DataValue::Bytes(out))
}

/// Decodes the data value whose tagged form is `text`, at most `depth` levels
/// deep; `None` when `text` is not one.
pub fn decode_tagged_exec(text: &str, depth: u32) -> (r: Option<DataValue>)
    ensures
        match decode_tagged(text@, depth as nat) {
            Some(v) => r matches Some(d) && d@ == v,
            None => r is None,
        },
    decreases depth, 0nat,
{
    if depth == 0 {
        return None;
    }
    proof {
        reveal_strlit("Null");
        reveal_strlit("Bool");
        reveal_strlit("Int");
        reveal_strlit("Float");
        reveal_strlit("String");
        reveal_strlit("Bytes");
        reveal_strlit("DateTime");
        reveal_strlit("Uuid");
        reveal_strlit("Json");
        reveal_strlit("Array");
        reveal_strlit("Object");
    }
    let d = depth - 1;
    let shape = json_shape(text);
    let es = match shape {
        Some(JsonShape::String(s)) => {
            if str_eq(s.as_str(), "Null") {
                return Some(DataValue::Null);
            }
            return None;
        },
        Some(JsonShape::Object(es)) => es,
        _ => {
            return None;
        },
    };
    if es.len() != 1 {
        return None;
    }
    let tag = es[0].0.as_str();
    let payload_text = es[0].1.as_str();
    assert(json_shape_of(text@) == Some(JsonShapeView::Object(es@.map_values(|e: (String, String)| (e.0@, e.1@)))));
    assert(es@.map_values(|e: (String, String)| (e.0@, e.1@))[0] == (tag@, payload_text@));
    if str_eq(tag, "Json") {
        proof {
            let ev = es@.map_values(|e: (String, String)| (e.0@, e.1@));
            assert(ev.len() == 1);
            assert(tag@ == "Json"@);
            assert("Json"@[0] != "Null"@[0] && "Json"@[0] != "Bool"@[0] && "Json"@[0] != "Uuid"@[0]);
            assert("Json"@.len() != "Int"@.len() && "Json"@.len() != "Float"@.len() && "Json"@.len() != "String"@.len());
            assert("Json"@.len() != "Bytes"@.len() && "Json"@.len() != "DateTime"@.len());
            assert(decode_tagged(text@, depth as nat) == Some(DataValueView::Json(ev[0].1)));
        }
        return Some(DataValue::Json(str_to_string(payload_text)));
    }
    let payload = json_shape(payload_text);
    if str_eq(tag, "Null") {
        return match payload {
            Some(JsonShape::Null) => Some(DataValue::Null),
            _ => None,
        };
    }
    if str_eq(tag, "Bool") {
        return match payload {
            Some(JsonShape::Bool(b)) => Some(DataValue::Bool(b)),
            _ => None,
        };
    }
    if str_eq(tag, "Int") {
        return match payload {
            Some(JsonShape::Number(n)) => match n.int {
                Some(i) => Some(DataValue::Int(i)),
                None => None,
            },
            _ => None,
        };
    }
    if str_eq(tag, "Float") {
        return match payload {
            Some(JsonShape::Number(n)) => match n.float_bits {
                Some(b) => Some(DataValue::Float(b)),
                None => None,
            },
            _ => None,
        };
    }
    if str_eq(tag, "String") {
        return match payload {
            Some(JsonShape::String(s)) => Some(DataValue::String(s)),
            _ => None,
        };
    }
    if str_eq(tag, "Bytes") {
        return match payload {
            Some(JsonShape::Array(xs)) => decode_bytes_exec(&xs),
            _ => None,
        };
    }
    if str_eq(tag, "DateTime") {
        return match payload {
            Some(JsonShape::String(s)) => match datetime_value(s.as_str()) {
                Some(t) => Some(DataValue::DateTime(t)),
                None => None,
            },
            _ => None,
        };
    }
    if str_eq(tag, "Uuid") {
        return match payload {
            Some(JsonShape::String(s)) => match uuid_value(s.as_str()) {
                Some(u) => Some(DataValue::Uuid(u)),
                None => None,
            },
            _ => None,
        };
    }
    if str_eq(tag, "Array") {
        return match payload {
            Some(JsonShape::Array(xs)) => match decode_all_exec(&xs, d) {
                Some(vs) => Some(DataValue::Array(vs)),
                None => None,
            },
            _ => None,
        };
    }
    if str_eq(tag, "Object") {
        return match payload {
            Some(JsonShape::Object(fs)) => {
                let ghost fv = fs@.map_values(|e: (String, String)| (e.0@, e.1@));
                let mut texts: Vec<String> = Vec::new();
                let mut i: usize = 0;
                while i < fs.len()
                    invariant
                        i <= fs.len(),
                        fv == fs@.map_values(|e: (String, String)| (e.0@, e.1@)),
                        texts@.len() == i,
                        forall|j: int| 0 <= j < i ==> (#[trigger] texts@[j])@ == fs@[j].1@,
                    decreases fs.len() - i,
                {
                    texts.push(fs[i].1.clone());
                    i = i + 1;
                }
                proof {
                    assert(texts@.map_values(|x: String| x@) =~= fv.map_values(|f: (Seq<char>, Seq<char>)| f.1));
                }
                match decode_all_exec(&texts, d) {
                    None => None,
                    Some(vs) => {
                        let ghost sv = decode_all(fv.map_values(|f: (Seq<char>, Seq<char>)| f.1), d as nat)->0;
                        proof {
                            lemma_values_view(vs@);
                            lemma_decode_all_len(fv.map_values(|f: (Seq<char>, Seq<char>)| f.1), d as nat);
                        }
                        let mut entries: Vec<Entry> = Vec::new();
                        let mut k: usize = 0;
                        while k < fs.len()
                            invariant
                                k <= fs.len(),
                                vs@.len() == fs@.len(),
                                values_view(vs@) == sv,
                                values_view(vs@).len() == vs@.len(),
                                forall|j: int| 0 <= j < vs@.len() ==> #[trigger] values_view(vs@)[j] == vs@[j]@,
                                fv == fs@.map_values(|e: (String, String)| (e.0@, e.1@)),
                                entries@.len() == k,
                                forall|j: int| 0 <= j < k ==> (#[trigger] entries@[j]).key@ == fs@[j].0@ && entries@[j].value@
                                    == sv[j],
                            decreases fs.len() - k,
                        {
                            entries.push(Entry { key: fs[k].0.clone(), value: vs[k].deep_clone() });
                            k = k + 1;
                        }
                        proof {
                            lemma_entries_view(entries@);
                            assert(entries_view(entries@) =~= Seq::new(fv.len(), |j: int| (fv[j].0, sv[j])));
                        }
                        Some(DataValue::Object(entries))
                    },
                }
            },
            _ => None,
        };
    }
    None
}

/// Decodes the data values whose tagged forms are `texts`; `None` when one is not.
pub fn decode_all_exec(texts: &Vec<String>, depth: u32) -> (r: Option<Vec<DataValue>>)
    ensures
        match decode_all(texts@.map_values(|x: String| x@), depth as nat) {
            Some(vs) => r matches Some(d) && values_view(d@) == vs,
            None => r is None,
        },
    decreases depth, texts@.len(),
{
    let ghost ts = texts@.map_values(|x: String| x@);
    let mut out: Vec<DataValue> = Vec::new();
    let mut i: usize = 0;
    assert(ts.take(0) =~= Seq::<Seq<char>>::empty());
    while i < texts.len()
        invariant
            i <= texts.len(),
            ts == texts@.map_values(|x: String| x@),
            decode_all(ts.take(i as int), depth as nat) == Some(values_view(out@)),
        decreases texts.len() - i,
    {
        assert(ts.take(i + 1).drop_last() =~= ts.take(i as int));
        assert(ts.take(i + 1).last() == texts@[i as int]@);
        let ghost before = out@;
        match decode_tagged_exec(texts[i].as_str(), depth) {
            None => {
                proof { lemma_decode_all_fails_on(ts, depth as nat, i as int + 1); }
                return None;
            },
            Some(v) => {
                out.push(v);
                assert(out@.drop_last() =~= before);
            },
        }
        i = i + 1;
    }
    assert(ts.take(i as int) =~= ts);
    Some(out)
}

/// A decoding of all the texts has one value per text.
proof fn lemma_decode_all_len(ts: Seq<Seq<char>>, depth: nat)
    ensures
        decode_all(ts, depth) matches Some(vs) ==> vs.len() == ts.len(),
    decreases ts.len(),
{
    if ts.len() > 0 {
        lemma_decode_all_len(ts.drop_last(), depth);
    }
}

/// A failure among the first `n` texts is a failure of all of them.
proof fn lemma_decode_all_fails_on(ts: Seq<Seq<char>>, depth: nat, n: int)
    requires
        0 <= n <= ts.len(),
        decode_all(ts.take(n), depth) is None,
    ensures
        decode_all(ts, depth) is None,
    decreases ts.len() - n,
{
    if n < ts.len() {
        assert(ts.take(n + 1).drop_last() =~= ts.take(n));
        lemma_decode_all_fails_on(ts, depth, n + 1);
    } else {
        assert(ts.take(n) =~= ts);
    }
}

/// The data value of an item in tagged form, null when it is not in that form.
pub fn tagged_or_null_exec(text: &str) -> (r: DataValue)
    ensures
        r@ == tagged_or_null(text@),
{
    match decode_tagged_exec(text, DECODE_DEPTH) {
        Some(v) => v,
        None => DataValue::Null,
    }
}

} // verus!
