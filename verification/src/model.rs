//! Model field definitions and value validation.

use vstd::prelude::*;
use vstd::utf8::encode_utf8;
use crate::error::{QuickDbError, ErrorView};
use crate::text::{str_to_string, push_u64, push_i64, nat_digits, int_digits};
use crate::types::{DataValue, DataValueView, Entry, entries_view, lemma_entries_view, values_view, lemma_values_view};
use crate::outside::{regex_match, regex_compile_error, regex_is_match, uuid_parses, uuid_text_ok, json_shape, json_shape_of};
use crate::json::{JsonShape, JsonShapeView, tagged_or_null, tagged_or_null_exec};

verus! {

/// Conversion into a [`DataValue`] without a detour through JSON text.
pub trait ToDataValue {
    /// The abstract value that the conversion gives.
    spec fn data_view(&self) -> DataValueView;

    /// The value as a [`DataValue`].
    fn to_data_value(&self) -> (r: DataValue)
        ensures
            r@ == self.data_view(),
    ;
}

impl ToDataValue for String {
    open spec fn data_view(&self) -> DataValueView {
        DataValueView::String(self@)
    }

    fn to_data_value(&self) -> (r: DataValue) {
        DataValue::String(self.clone())
    }
}

impl<'a> ToDataValue for &'a str {
    open spec fn data_view(&self) -> DataValueView {
        DataValueView::String((*self)@)
    }

    fn to_data_value(&self) -> (r: DataValue) {
        DataValue::String(str_to_string(*self))
    }
}

impl ToDataValue for i32 {
    open spec fn data_view(&self) -> DataValueView {
        DataValueView::Int(*self as i64)
    }

    fn to_data_value(&self) -> (r: DataValue) {
        DataValue::Int(*self as i64)
    }
}

impl ToDataValue for i64 {
    open spec fn data_view(&self) -> DataValueView {
        DataValueView::Int(*self)
    }

    fn to_data_value(&self) -> (r: DataValue) {
        DataValue::Int(*self)
    }
}

impl ToDataValue for bool {
    open spec fn data_view(&self) -> DataValueView {
        DataValueView::Bool(*self)
    }

    fn to_data_value(&self) -> (r: DataValue) {
        DataValue::Bool(*self)
    }
}

impl ToDataValue for Vec<String> {
    open spec fn data_view(&self) -> DataValueView {
        DataValueView::Array(self@.map_values(|s: String| DataValueView::String(s@)))
    }

    fn to_data_value(&self) -> (r: DataValue) {
        let mut out: Vec<DataValue> = Vec::new();
        let mut i: usize = 0;
        while i < self.len()
            invariant
                i <= self.len(),
                out@.len() == i,
                forall|j: int| 0 <= j < i ==> (#[trigger] out@[j])@ == DataValueView::String(self@[j]@),
            decreases self.len() - i,
        {
            out.push(DataValue::String(self[i].clone()));
            i = i + 1;
        }
        proof {
            lemma_values_view(out@);
            assert(values_view(out@) =~= self.data_view()->Array_0);
        }
        DataValue::Array(out)
    }
}

impl ToDataValue for Vec<i32> {
    open spec fn data_view(&self) -> DataValueView {
        DataValueView::Array(self@.map_values(|n: i32| DataValueView::Int(n as i64)))
    }

    fn to_data_value(&self) -> (r: DataValue) {
        let mut out: Vec<DataValue> = Vec::new();
        let mut i: usize = 0;
        while i < self.len()
            invariant
                i <= self.len(),
                out@.len() == i,
                forall|j: int| 0 <= j < i ==> (#[trigger] out@[j])@ == DataValueView::Int(self@[j] as i64),
            decreases self.len() - i,
        {
            out.push(DataValue::Int(self[i] as i64));
            i = i + 1;
        }
        proof {
            lemma_values_view(out@);
            assert(values_view(out@) =~= self.data_view()->Array_0);
        }
        DataValue::Array(out)
    }
}

impl ToDataValue for Vec<i64> {
    open spec fn data_view(&self) -> DataValueView {
        DataValueView::Array(self@.map_values(|n: i64| DataValueView::Int(n)))
    }

    fn to_data_value(&self) -> (r: DataValue) {
        let mut out: Vec<DataValue> = Vec::new();
        let mut i: usize = 0;
        while i < self.len()
            invariant
                i <= self.len(),
                out@.len() == i,
                forall|j: int| 0 <= j < i ==> (#[trigger] out@[j])@ == DataValueView::Int(self@[j]),
            decreases self.len() - i,
        {
            out.push(DataValue::Int(self[i]));
            i = i + 1;
        }
        proof {
            lemma_values_view(out@);
            assert(values_view(out@) =~= self.data_view()->Array_0);
        }
        DataValue::Array(out)
    }
}

impl ToDataValue for Vec<bool> {
    open spec fn data_view(&self) -> DataValueView {
        DataValueView::Array(self@.map_values(|b: bool| DataValueView::Bool(b)))
    }

    fn to_data_value(&self) -> (r: DataValue) {
        let mut out: Vec<DataValue> = Vec::new();
        let mut i: usize = 0;
        while i < self.len()
            invariant
                i <= self.len(),
                out@.len() == i,
                forall|j: int| 0 <= j < i ==> (#[trigger] out@[j])@ == DataValueView::Bool(self@[j]),
            decreases self.len() - i,
        {
            out.push(DataValue::Bool(self[i]));
            i = i + 1;
        }
        proof {
            lemma_values_view(out@);
            assert(values_view(out@) =~= self.data_view()->Array_0);
        }
        DataValue::Array(out)
    }
}

impl ToDataValue for Vec<Entry> {
    open spec fn data_view(&self) -> DataValueView {
        DataValueView::Object(entries_view(self@))
    }

    fn to_data_value(&self) -> (r: DataValue) {
        let mut out: Vec<Entry> = Vec::new();
        let mut i: usize = 0;
        while i < self.len()
            invariant
                i <= self.len(),
                entries_view(out@) == entries_view(self@.take(i as int)),
            decreases self.len() - i,
        {
            let ghost before = out@;
            out.push(Entry { key: self[i].key.clone(), value: self[i].value.deep_clone() });
            assert(out@.drop_last() == before);
            i = i + 1;
            assert(self@.take(i as int).drop_last() =~= self@.take(i - 1));
        }
        assert(self@.take(i as int) =~= self@);
        DataValue::Object(out)
    }
}

impl<T: ToDataValue> ToDataValue for Option<T> {
    open spec fn data_view(&self) -> DataValueView {
        match self {
            Some(v) => v.data_view(),
            None => DataValueView::Null,
        }
    }

    fn to_data_value(&self) -> (r: DataValue) {
        match self {
            Some(v) => v.to_data_value(),
            None => DataValue::Null,
        }
    }
}

/// A floating-point bound: its IEEE-754 bit pattern and its decimal text (as
/// `f64`'s `Display` writes it), used in error messages.
#[derive(Debug)]
pub struct FloatBound {
    pub bits: u64,
    pub text: String,
}

/// Field kinds, with their constraints.
#[derive(Debug)]
#[allow(inconsistent_fields)]
pub enum FieldType {
    String { max_length: Option<usize>, min_length: Option<usize>, regex: Option<String> },
    Integer { min_value: Option<i64>, max_value: Option<i64> },
    BigInteger,
    Float { min_value: Option<FloatBound>, max_value: Option<FloatBound> },
    Double,
    Text,
    Boolean,
    DateTime,
    Date,
    Time,
    Uuid,
    Json,
    Binary,
    Decimal { precision: u8, scale: u8 },
    Array { item_type: Box<FieldType>, max_items: Option<usize>, min_items: Option<usize> },
    /// An object with the given fields.
    Object { fields: Vec<FieldEntry> },
    /// A reference (foreign key) into another collection.
    Reference { target_collection: String },
}

/// A named field of an object field.
#[derive(Debug)]
pub struct FieldEntry {
    pub name: String,
    pub definition: FieldDefinition,
}

/// A field: its kind and its options.
#[derive(Debug)]
pub struct FieldDefinition {
    pub field_type: FieldType,
    pub required: bool,
    pub default: Option<DataValue>,
    pub unique: bool,
    pub indexed: bool,
    pub description: Option<String>,
    pub validator: Option<String>,
}

/// `a < b` on IEEE-754 doubles given by their bit patterns: false when either is
/// NaN; otherwise the order of the values (with `-0 == +0`).
pub open spec fn float_lt(a: u64, b: u64) -> bool {
    !float_is_nan(a) && !float_is_nan(b) && float_key(a) < float_key(b)
}

/// Whether a bit pattern is a NaN.
pub open spec fn float_is_nan(b: u64) -> bool {
    (b & 0x7ff0_0000_0000_0000u64) == 0x7ff0_0000_0000_0000u64 && (b & 0x000f_ffff_ffff_ffffu64) != 0
}

/// The signed magnitude of a bit pattern, which orders non-NaN doubles by value.
pub open spec fn float_key(b: u64) -> int {
    let mag = (b & 0x7fff_ffff_ffff_ffffu64) as int;
    if (b & 0x8000_0000_0000_0000u64) != 0 {
        -mag
    } else {
        mag
    }
}

/// `a < b` on doubles by their bit patterns.
pub fn float_bits_lt(a: u64, b: u64) -> (r: bool)
    ensures
        r == float_lt(a, b),
{
    let a_nan = (a & 0x7ff0_0000_0000_0000u64) == 0x7ff0_0000_0000_0000u64 && (a & 0x000f_ffff_ffff_ffffu64) != 0;
    let b_nan = (b & 0x7ff0_0000_0000_0000u64) == 0x7ff0_0000_0000_0000u64 && (b & 0x000f_ffff_ffff_ffffu64) != 0;
    if a_nan || b_nan {
        return false;
    }
    let am: i128 = (a & 0x7fff_ffff_ffff_ffffu64) as i128;
    let bm: i128 = (b & 0x7fff_ffff_ffff_ffffu64) as i128;
    let ak: i128 = if (a & 0x8000_0000_0000_0000u64) != 0 { -am } else { am };
    let bk: i128 = if (b & 0x8000_0000_0000_0000u64) != 0 { -bm } else { bm };
    ak < bk
}

/// The number of bytes of a string's UTF-8 encoding, as `str::len` reports it.
pub open spec fn byte_len(s: Seq<char>) -> nat {
    (encode_utf8(s).len() as usize) as nat
}

/// A validation error.
pub open spec fn verr(field: Seq<char>, message: Seq<char>) -> ErrorView {
    ErrorView::ValidationError { field, message }
}

/// The mismatch error with its message.
pub open spec fn mismatch(message: Seq<char>) -> ErrorView {
    verr("type_mismatch"@, message)
}

/// The first value under `key` among object entries, or null.
pub open spec fn lookup(obj: Seq<(Seq<char>, DataValueView)>, key: Seq<char>) -> DataValueView
    decreases obj.len(),
{
    if obj.len() == 0 {
        DataValueView::Null
    } else if obj[0].0 == key {
        obj[0].1
    } else {
        lookup(obj.drop_first(), key)
    }
}

/// The validation outcome of a value for a field named `name`: a null value fails
/// a required field and passes any other; anything else is checked by kind.
pub open spec fn validate_field_spec(fd: FieldDefinition, v: DataValueView, name: Seq<char>) -> Result<(), ErrorView>
    decreases fd, 0int,
{
    if fd.required && v is Null {
        Err(verr(name, "必填字段不能为空"@))
    } else if v is Null {
        Ok(())
    } else {
        validate_type_spec(fd.field_type, v)
    }
}

/// The outcome for the items of an array, each checked as an optional field of the
/// item kind; the first failure in order wins.
pub open spec fn validate_items_spec(it: FieldType, items: Seq<DataValueView>) -> Result<(), ErrorView>
    decreases it, items.len(),
{
    if items.len() == 0 {
        Ok(())
    } else {
        match validate_items_spec(it, items.drop_last()) {
            Err(e) => Err(e),
            Ok(()) => if items.last() is Null {
                Ok(())
            } else {
                validate_type_spec(it, items.last())
            },
        }
    }
}

/// The outcome for the fields of an object, in field order; each field is
/// checked against the object's first entry under its name (null when absent),
/// under the field name `unknown`.
pub open spec fn validate_fields_spec(fs: Seq<FieldEntry>, obj: Seq<(Seq<char>, DataValueView)>) -> Result<(), ErrorView>
    decreases fs, 0int,
{
    if fs.len() == 0 {
        Ok(())
    } else {
        match validate_fields_spec(fs.drop_last(), obj) {
            Err(e) => Err(e),
            Ok(()) => validate_field_spec(fs.last().definition, lookup(obj, fs.last().name@), "unknown"@),
        }
    }
}

/// An array-size check: too many or too few items.
pub open spec fn array_size_spec(n: nat, max_items: Option<usize>, min_items: Option<usize>) -> Result<(), ErrorView> {
    if max_items is Some && n > max_items->0 {
        Err(verr("array_size"@, "数组元素数量不能超过"@ + nat_digits(max_items->0 as nat)))
    } else if min_items is Some && n < min_items->0 {
        Err(verr("array_size"@, "数组元素数量不能少于"@ + nat_digits(min_items->0 as nat)))
    } else {
        Ok(())
    }
}

/// The outcome for a non-null value checked against a field kind.
pub open spec fn validate_type_spec(ft: FieldType, v: DataValueView) -> Result<(), ErrorView>
    decreases ft, 0int,
{
    match ft {
        FieldType::String { max_length, min_length, regex } => match v {
            DataValueView::String(s) => if max_length is Some && byte_len(s) > max_length->0 {
                Err(verr("string_length"@, "字符串长度不能超过"@ + nat_digits(max_length->0 as nat)))
            } else if min_length is Some && byte_len(s) < min_length->0 {
                Err(verr("string_length"@, "字符串长度不能少于"@ + nat_digits(min_length->0 as nat)))
            } else if regex is Some {
                match regex_compile_error(regex->0@) {
                    Some(msg) => Err(verr("regex"@, "正则表达式无效: "@ + msg)),
                    None => if regex_is_match(regex->0@, s) {
                        Ok(())
                    } else {
                        Err(verr("regex_match"@, "字符串不匹配正则表达式"@))
                    },
                }
            } else {
                Ok(())
            },
            _ => Err(mismatch("字段类型不匹配，期望字符串类型"@)),
        },
        FieldType::Integer { min_value, max_value } => match v {
            DataValueView::Int(i) => if min_value is Some && i < min_value->0 {
                Err(verr("integer_range"@, "整数值不能小于"@ + int_digits(min_value->0 as int)))
            } else if max_value is Some && i > max_value->0 {
                Err(verr("integer_range"@, "整数值不能大于"@ + int_digits(max_value->0 as int)))
            } else {
                Ok(())
            },
            _ => Err(mismatch("字段类型不匹配，期望整数类型"@)),
        },
        FieldType::Float { min_value, max_value } => match v {
            DataValueView::Float(f) => if min_value is Some && float_lt(f, min_value->0.bits) {
                Err(verr("float_range"@, "浮点数值不能小于"@ + min_value->0.text@))
            } else if max_value is Some && float_lt(max_value->0.bits, f) {
                Err(verr("float_range"@, "浮点数值不能大于"@ + max_value->0.text@))
            } else {
                Ok(())
            },
            _ => Err(mismatch("字段类型不匹配，期望浮点数类型"@)),
        },
        FieldType::Boolean => if v is Bool {
            Ok(())
        } else {
            Err(mismatch("字段类型不匹配，期望布尔类型"@))
        },
        FieldType::DateTime => if v is DateTime {
            Ok(())
        } else {
            Err(mismatch("字段类型不匹配，期望日期时间类型"@))
        },
        FieldType::Uuid => match v {
            DataValueView::String(s) => if uuid_text_ok(s) {
                Ok(())
            } else {
                Err(verr("uuid_format"@, "无效的UUID格式"@))
            },
            _ => Err(mismatch("字段类型不匹配，期望UUID字符串"@)),
        },
        FieldType::Json => Ok(()),
        FieldType::Array { item_type, max_items, min_items } => match v {
            DataValueView::Array(arr) => match array_size_spec(arr.len(), max_items, min_items) {
                Err(e) => Err(e),
                Ok(()) => validate_items_spec(*item_type, arr),
            },
            DataValueView::String(s) => match json_shape_of(s) {
                None => Err(mismatch("无法解析JSON字符串"@)),
                Some(JsonShapeView::Array(texts)) => match array_size_spec(texts.len(), max_items, min_items) {
                    Err(e) => Err(e),
                    Ok(()) => validate_items_spec(*item_type, texts.map_values(|t: Seq<char>| tagged_or_null(t))),
                },
                Some(_) => Err(mismatch("JSON字符串不是有效的数组格式"@)),
            },
            _ => Err(mismatch("字段类型不匹配，期望数组类型或JSON字符串"@)),
        },
        FieldType::Object { fields } => match v {
            DataValueView::Object(obj) => validate_fields_spec(fields@, obj),
            _ => Err(mismatch("字段类型不匹配，期望对象类型"@)),
        },
        FieldType::Reference { .. } => if v is String {
            Ok(())
        } else {
            Err(verr("reference_type"@, "引用字段必须是字符串ID"@))
        },
        FieldType::BigInteger => if v is Int {
            Ok(())
        } else {
            Err(mismatch("字段类型不匹配，期望大整数类型"@))
        },
        FieldType::Double => if v is Float {
            Ok(())
        } else {
            Err(mismatch("字段类型不匹配，期望双精度浮点数类型"@))
        },
        FieldType::Text => if v is String {
            Ok(())
        } else {
            Err(mismatch("字段类型不匹配，期望文本类型"@))
        },
        FieldType::Date => if v is DateTime {
            Ok(())
        } else {
            Err(mismatch("字段类型不匹配，期望日期类型"@))
        },
        FieldType::Time => if v is DateTime {
            Ok(())
        } else {
            Err(mismatch("字段类型不匹配，期望时间类型"@))
        },
        FieldType::Binary => if v is String {
            Ok(())
        } else {
            Err(mismatch("字段类型不匹配，期望二进制数据（Base64字符串）"@))
        },
        FieldType::Decimal { .. } => if v is Float {
            Ok(())
        } else {
            Err(mismatch("字段类型不匹配，期望十进制数类型"@))
        },
    }
}

/// Whether an executable unit result is the specified outcome.
pub open spec fn unit_result_is(r: Result<(), QuickDbError>, s: Result<(), ErrorView>) -> bool {
    match (r, s) {
        (Ok(()), Ok(())) => true,
        (Err(e), Err(se)) => e@ == se,
        _ => false,
    }
}

fn verr_exec(field: &str, message: String) -> (r: QuickDbError)
    ensures
        r@ == verr(field@, message@),
{
    QuickDbError::ValidationError { field: str_to_string(field), message }
}

fn verr_lit(field: &str, message: &str) -> (r: QuickDbError)
    ensures
        r@ == verr(field@, message@),
{
    QuickDbError::ValidationError { field: str_to_string(field), message: str_to_string(message) }
}

fn msg_u64(prefix: &str, n: u64) -> (r: String)
    ensures
        r@ == prefix@ + nat_digits(n as nat),
{
    let mut s = str_to_string(prefix);
    push_u64(&mut s, n);
    s
}

fn msg_i64(prefix: &str, n: i64) -> (r: String)
    ensures
        r@ == prefix@ + int_digits(n as int),
{
    let mut s = str_to_string(prefix);
    push_i64(&mut s, n);
    s
}

fn msg_text(prefix: &str, t: &String) -> (r: String)
    ensures
        r@ == prefix@ + t@,
{
    let mut s = str_to_string(prefix);
    s.append(t.as_str());
    s
}

/// The first entry under `key`, if any.
fn lookup_exec<'a>(obj: &'a Vec<Entry>, key: &String) -> (r: Option<&'a DataValue>)
    ensures
        match r {
            Some(v) => v@ == lookup(entries_view(obj@), key@),
            None => lookup(entries_view(obj@), key@) == DataValueView::Null,
        },
{
    let ghost ev = entries_view(obj@);
    proof { lemma_entries_view(obj@); }
    let mut i: usize = 0;
    assert(ev.skip(0) =~= ev);
    while i < obj.len()
        invariant
            i <= obj.len(),
            ev == entries_view(obj@),
            ev.len() == obj@.len(),
            forall|j: int| 0 <= j < obj@.len() ==> #[trigger] ev[j] == (obj@[j].key@, obj@[j].value@),
            lookup(ev, key@) == lookup(ev.skip(i as int), key@),
        decreases obj.len() - i,
    {
        assert(ev.skip(i as int)[0] == ev[i as int]);
        if crate::text::str_eq(obj[i].key.as_str(), key.as_str()) {
            return Some(&obj[i].value);
        }
        assert(ev.skip(i as int).drop_first() =~= ev.skip(i + 1));
        i = i + 1;
    }
    assert(ev.skip(i as int).len() == 0);
    None
}

/// Once a prefix of the items fails, the whole list fails the same way.
proof fn lemma_items_error_persists(it: FieldType, items: Seq<DataValueView>, n: int, e: ErrorView)
    requires
        0 <= n <= items.len(),
        validate_items_spec(it, items.take(n)) == Err::<(), ErrorView>(e),
    ensures
        validate_items_spec(it, items) == Err::<(), ErrorView>(e),
    decreases items.len() - n,
{
    if n < items.len() {
        assert(items.take(n + 1).drop_last() =~= items.take(n));
        lemma_items_error_persists(it, items, n + 1, e);
    } else {
        assert(items.take(n) =~= items);
    }
}

/// Once a prefix of the fields fails, all of them fail the same way.
proof fn lemma_fields_error_persists(fs: Seq<FieldEntry>, obj: Seq<(Seq<char>, DataValueView)>, n: int, e: ErrorView)
    requires
        0 <= n <= fs.len(),
        validate_fields_spec(fs.take(n), obj) == Err::<(), ErrorView>(e),
    ensures
        validate_fields_spec(fs, obj) == Err::<(), ErrorView>(e),
    decreases fs.len() - n,
{
    if n < fs.len() {
        assert(fs.take(n + 1).drop_last() =~= fs.take(n));
        lemma_fields_error_persists(fs, obj, n + 1, e);
    } else {
        assert(fs.take(n) =~= fs);
    }
}

fn array_size_check(n: usize, max_items: Option<usize>, min_items: Option<usize>) -> (r: Result<(), QuickDbError>)
    ensures
        unit_result_is(r, array_size_spec(n as nat, max_items, min_items)),
{
    if let Some(mx) = max_items {
        if n > mx {
            return Err(verr_exec("array_size", msg_u64("数组元素数量不能超过", mx as u64)));
        }
    }
    if let Some(mn) = min_items {
        if n < mn {
            return Err(verr_exec("array_size", msg_u64("数组元素数量不能少于", mn as u64)));
        }
    }
    Ok(())
}

/// Checks a value against a field kind.
#[verifier::loop_isolation(false)]
fn validate_type(ft: &FieldType, value: &DataValue) -> (r: Result<(), QuickDbError>)
    ensures
        unit_result_is(r, validate_type_spec(*ft, value@)),
    decreases ft,
{
    match ft {
        FieldType::String { max_length, min_length, regex } => {
            match value {
                DataValue::String(s) => {
                    let len = s.as_str().len();
                    if let Some(mx) = max_length {
                        if len > *mx {
                            return Err(verr_exec("string_length", msg_u64("字符串长度不能超过", *mx as u64)));
                        }
                    }
                    if let Some(mn) = min_length {
                        if len < *mn {
                            return Err(verr_exec("string_length", msg_u64("字符串长度不能少于", *mn as u64)));
                        }
                    }
                    if let Some(pattern) = regex {
                        match regex_match(pattern.as_str(), s.as_str()) {
                            Err(m) => { return Err(verr_exec("regex", msg_text("正则表达式无效: ", &m))); },
                            Ok(matched) => {
                                if !matched {
                                    return Err(verr_lit("regex_match", "字符串不匹配正则表达式"));
                                }
                            },
                        }
                    }
                    Ok(())
                },
                _ => Err(verr_lit("type_mismatch", "字段类型不匹配，期望字符串类型")),
            }
        },
        FieldType::Integer { min_value, max_value } => {
            match value {
                DataValue::Int(i) => {
                    if let Some(mn) = min_value {
                        if *i < *mn {
                            return Err(verr_exec("integer_range", msg_i64("整数值不能小于", *mn)));
                        }
                    }
                    if let Some(mx) = max_value {
                        if *i > *mx {
                            return Err(verr_exec("integer_range", msg_i64("整数值不能大于", *mx)));
                        }
                    }
                    Ok(())
                },
                _ => Err(verr_lit("type_mismatch", "字段类型不匹配，期望整数类型")),
            }
        },
        FieldType::Float { min_value, max_value } => {
            match value {
                DataValue::Float(f) => {
                    if let Some(mn) = min_value {
                        if float_bits_lt(*f, mn.bits) {
                            return Err(verr_exec("float_range", msg_text("浮点数值不能小于", &mn.text)));
                        }
                    }
                    if let Some(mx) = max_value {
                        if float_bits_lt(mx.bits, *f) {
                            return Err(verr_exec("float_range", msg_text("浮点数值不能大于", &mx.text)));
                        }
                    }
                    Ok(())
                },
                _ => Err(verr_lit("type_mismatch", "字段类型不匹配，期望浮点数类型")),
            }
        },
        FieldType::Boolean => match value {
            DataValue::Bool(_) => Ok(()),
            _ => Err(verr_lit("type_mismatch", "字段类型不匹配，期望布尔类型")),
        },
        FieldType::DateTime => match value {
            DataValue::DateTime(_) => Ok(()),
            _ => Err(verr_lit("type_mismatch", "字段类型不匹配，期望日期时间类型")),
        },
        FieldType::Uuid => match value {
            DataValue::String(s) => {
                if uuid_parses(s.as_str()) {
                    Ok(())
                } else {
                    Err(verr_lit("uuid_format", "无效的UUID格式"))
                }
            },
            _ => Err(verr_lit("type_mismatch", "字段类型不匹配，期望UUID字符串")),
        },
        FieldType::Json => Ok(()),
        FieldType::Array { item_type, max_items, min_items } => {
            match value {
                DataValue::Array(arr) => {
                    proof { lemma_values_view(arr@); }
                    match array_size_check(arr.len(), *max_items, *min_items) {
                        Err(e) => { return Err(e); },
                        Ok(()) => {},
                    }
                    let ghost items = values_view(arr@);
                    let mut i: usize = 0;
                    assert(items.take(0) =~= Seq::<DataValueView>::empty());
                    while i < arr.len()
                        invariant
                            i <= arr.len(),
                            items.len() == arr@.len(),
                            validate_items_spec(**item_type, items.take(i as int)) is Ok,
                        decreases arr.len() - i,
                    {
                        assert(items.take(i + 1).drop_last() =~= items.take(i as int));
                        assert(items.take(i + 1).last() == arr@[i as int]@);
                        if !arr[i].is_null() {
                            assert(decreases_to!(*ft => **item_type));
                            match validate_type(&**item_type, &arr[i]) {
                                Err(e) => {
                                    proof { lemma_items_error_persists(**item_type, items, i + 1, e@); }
                                    return Err(e);
                                },
                                Ok(()) => {},
                            }
                        }
                        i = i + 1;
                    }
                    assert(items.take(i as int) =~= items);
                    Ok(())
                },
                DataValue::String(s) => {
                    let texts = match json_shape(s.as_str()) {
                        None => { return Err(verr_lit("type_mismatch", "无法解析JSON字符串")); },
                        Some(JsonShape::Array(texts)) => texts,
                        Some(_) => { return Err(verr_lit("type_mismatch", "JSON字符串不是有效的数组格式")); },
                    };
                    let ghost tv = texts@.map_values(|x: String| x@);
                    match array_size_check(texts.len(), *max_items, *min_items) {
                        Err(e) => { return Err(e); },
                        Ok(()) => {},
                    }
                    let ghost items = tv.map_values(|t: Seq<char>| tagged_or_null(t));
                    let mut i: usize = 0;
                    assert(items.take(0) =~= Seq::<DataValueView>::empty());
                    while i < texts.len()
                        invariant
                            i <= texts.len(),
                            tv == texts@.map_values(|x: String| x@),
                            items == tv.map_values(|t: Seq<char>| tagged_or_null(t)),
                            items.len() == texts@.len(),
                            validate_items_spec(**item_type, items.take(i as int)) is Ok,
                        decreases texts.len() - i,
                    {
                        let item = tagged_or_null_exec(texts[i].as_str());
                        assert(items.take(i + 1).drop_last() =~= items.take(i as int));
                        assert(items.take(i + 1).last() == item@);
                        if !item.is_null() {
                            assert(decreases_to!(*ft => **item_type));
                            match validate_type(&**item_type, &item) {
                                Err(e) => {
                                    proof { lemma_items_error_persists(**item_type, items, i + 1, e@); }
                                    return Err(e);
                                },
                                Ok(()) => {},
                            }
                        }
                        i = i + 1;
                    }
                    assert(items.take(i as int) =~= items);
                    Ok(())
                },
                _ => Err(verr_lit("type_mismatch", "字段类型不匹配，期望数组类型或JSON字符串")),
            }
        },
        FieldType::Object { fields } => {
            match value {
                DataValue::Object(obj) => {
                    let ghost ov = entries_view(obj@);
                    let mut i: usize = 0;
                    assert(fields@.take(0) =~= Seq::<FieldEntry>::empty());
                    while i < fields.len()
                        invariant
                            i <= fields.len(),
                            validate_fields_spec(fields@.take(i as int), ov) is Ok,
                        decreases fields.len() - i,
                    {
                        assert(fields@.take(i + 1).drop_last() =~= fields@.take(i as int));
                        assert(fields@.take(i + 1).last() == fields@[i as int]);
                        assert(decreases_to!(*ft => *fields));
                        assert(decreases_to!(*fields => fields@));
                        assert(decreases_to!(fields@ => fields@[i as int]));
                        assert(decreases_to!(fields@[i as int] => fields@[i as int].definition));
                        assert(decreases_to!(*ft => fields@[i as int].definition));
                        let res = match lookup_exec(obj, &fields[i].name) {
                            Some(v) => fields[i].definition.validate_with_field_name(v, "unknown"),
                            None => fields[i].definition.validate_with_field_name(&DataValue::Null, "unknown"),
                        };
                        match res {
                            Err(e) => {
                                proof { lemma_fields_error_persists(fields@, ov, i + 1, e@); }
                                return Err(e);
                            },
                            Ok(()) => {},
                        }
                        i = i + 1;
                    }
                    assert(fields@.take(i as int) =~= fields@);
                    Ok(())
                },
                _ => Err(verr_lit("type_mismatch", "字段类型不匹配，期望对象类型")),
            }
        },
        FieldType::Reference { .. } => match value {
            DataValue::String(_) => Ok(()),
            _ => Err(verr_lit("reference_type", "引用字段必须是字符串ID")),
        },
        FieldType::BigInteger => match value {
            DataValue::Int(_) => Ok(()),
            _ => Err(verr_lit("type_mismatch", "字段类型不匹配，期望大整数类型")),
        },
        FieldType::Double => match value {
            DataValue::Float(_) => Ok(()),
            _ => Err(verr_lit("type_mismatch", "字段类型不匹配，期望双精度浮点数类型")),
        },
        FieldType::Text => match value {
            DataValue::String(_) => Ok(()),
            _ => Err(verr_lit("type_mismatch", "字段类型不匹配，期望文本类型")),
        },
        FieldType::Date => match value {
            DataValue::DateTime(_) => Ok(()),
            _ => Err(verr_lit("type_mismatch", "字段类型不匹配，期望日期类型")),
        },
        FieldType::Time => match value {
            DataValue::DateTime(_) => Ok(()),
            _ => Err(verr_lit("type_mismatch", "字段类型不匹配，期望时间类型")),
        },
        FieldType::Binary => match value {
            DataValue::String(_) => Ok(()),
            _ => Err(verr_lit("type_mismatch", "字段类型不匹配，期望二进制数据（Base64字符串）")),
        },
        FieldType::Decimal { .. } => match value {
            DataValue::Float(_) => Ok(()),
            _ => Err(verr_lit("type_mismatch", "字段类型不匹配，期望十进制数类型")),
        },
    }
}

impl FieldDefinition {
    /// Checks a value against this field, reporting a missing required value under the
    /// field name `unknown`.
    pub fn validate(&self, value: &DataValue) -> (r: Result<(), QuickDbError>)
        ensures
            unit_result_is(r, validate_field_spec(*self, value@, "unknown"@)),
    {
        self.validate_with_field_name(value, "unknown")
    }

    /// Checks a value against this field named `field_name`.
    pub fn validate_with_field_name(&self, value: &DataValue, field_name: &str) -> (r: Result<(), QuickDbError>)
        ensures
            unit_result_is(r, validate_field_spec(*self, value@, field_name@)),
        decreases self,
    {
        if self.required && value.is_null() {
            return Err(verr_lit(field_name, "必填字段不能为空"));
        }
        if value.is_null() {
            return Ok(());
        }
        validate_type(&self.field_type, value)
    }
}

impl FieldDefinition {
    /// An optional, non-unique, unindexed field of the given kind, with no default,
    /// description or validator.
    pub fn new(field_type: FieldType) -> (r: FieldDefinition)
        ensures
            r.field_type == field_type,
            !r.required,
            r.default is None,
            !r.unique,
            !r.indexed,
            r.description is None,
            r.validator is None,
    {
        FieldDefinition {
            field_type,
            required: false,
            default: None,
            unique: false,
            indexed: false,
            description: None,
            validator: None,
        }
    }

    /// This field, required.
    pub fn required(self) -> (r: FieldDefinition)
        ensures
            r == (FieldDefinition { required: true, ..self }),
    {
        FieldDefinition { required: true, ..self }
    }

    /// This field with a default value.
    pub fn default_value(self, value: DataValue) -> (r: FieldDefinition)
        ensures
            r == (FieldDefinition { default: Some(value), ..self }),
    {
        FieldDefinition { default: Some(value), ..self }
    }

    /// This field, unique.
    pub fn unique(self) -> (r: FieldDefinition)
        ensures
            r == (FieldDefinition { unique: true, ..self }),
    {
        FieldDefinition { unique: true, ..self }
    }

    /// This field, indexed.
    pub fn indexed(self) -> (r: FieldDefinition)
        ensures
            r == (FieldDefinition { indexed: true, ..self }),
    {
        FieldDefinition { indexed: true, ..self }
    }

    /// This field with a description.
    pub fn description(self, desc: &str) -> (r: FieldDefinition)
        ensures
            r.description matches Some(d) && d@ == desc@,
            r == (FieldDefinition { description: r.description, ..self }),
    {
        FieldDefinition { description: Some(str_to_string(desc)), ..self }
    }

    /// This field with the name of a custom validator.
    pub fn validator(self, validator_name: &str) -> (r: FieldDefinition)
        ensures
            r.validator matches Some(d) && d@ == validator_name@,
            r == (FieldDefinition { validator: r.validator, ..self }),
    {
        FieldDefinition { validator: Some(str_to_string(validator_name)), ..self }
    }
}

/// A plain field of the given kind (optional, not unique, not indexed).
pub open spec fn plain_field(r: FieldDefinition, t: FieldType) -> bool {
    &&& r.field_type == t
    &&& !r.required
    &&& r.default is None
    &&& !r.unique
    &&& !r.indexed
    &&& r.description is None
    &&& r.validator is None
}

/// An array field; stored natively by MongoDB and as JSON by SQL databases.
pub fn array_field(item_type: FieldType, max_items: Option<usize>, min_items: Option<usize>) -> (r: FieldDefinition)
    ensures
        plain_field(r, FieldType::Array { item_type: Box::new(item_type), max_items, min_items }),
{
    FieldDefinition::new(FieldType::Array { item_type: Box::new(item_type), max_items, min_items })
}

/// A list field: the same as [`array_field`].
pub fn list_field(item_type: FieldType, max_items: Option<usize>, min_items: Option<usize>) -> (r: FieldDefinition)
    ensures
        plain_field(r, FieldType::Array { item_type: Box::new(item_type), max_items, min_items }),
{
    array_field(item_type, max_items, min_items)
}

/// A string field with optional length bounds (in bytes) and pattern.
pub fn string_field(max_length: Option<usize>, min_length: Option<usize>, regex: Option<String>) -> (r: FieldDefinition)
    ensures
        plain_field(r, FieldType::String { max_length, min_length, regex }),
{
    FieldDefinition::new(FieldType::String { max_length, min_length, regex })
}

/// An integer field with optional bounds.
pub fn integer_field(min_value: Option<i64>, max_value: Option<i64>) -> (r: FieldDefinition)
    ensures
        plain_field(r, FieldType::Integer { min_value, max_value }),
{
    FieldDefinition::new(FieldType::Integer { min_value, max_value })
}

/// A floating-point field with optional bounds.
pub fn float_field(min_value: Option<FloatBound>, max_value: Option<FloatBound>) -> (r: FieldDefinition)
    ensures
        plain_field(r, FieldType::Float { min_value, max_value }),
{
    FieldDefinition::new(FieldType::Float { min_value, max_value })
}

/// A boolean field.
pub fn boolean_field() -> (r: FieldDefinition)
    ensures
        plain_field(r, FieldType::Boolean),
{
    FieldDefinition::new(FieldType::Boolean)
}

/// A date-time field.
pub fn datetime_field() -> (r: FieldDefinition)
    ensures
        plain_field(r, FieldType::DateTime),
{
    FieldDefinition::new(FieldType::DateTime)
}

/// A UUID field.
pub fn uuid_field() -> (r: FieldDefinition)
    ensures
        plain_field(r, FieldType::Uuid),
{
    FieldDefinition::new(FieldType::Uuid)
}

/// A JSON field.
pub fn json_field() -> (r: FieldDefinition)
    ensures
        plain_field(r, FieldType::Json),
{
    FieldDefinition::new(FieldType::Json)
}

/// A dictionary field with the given sub-fields.
pub fn dict_field(fields: Vec<FieldEntry>) -> (r: FieldDefinition)
    ensures
        plain_field(r, FieldType::Object { fields }),
{
    FieldDefinition::new(FieldType::Object { fields })
}

/// A reference field into `target_collection`.
pub fn reference_field(target_collection: String) -> (r: FieldDefinition)
    ensures
        plain_field(r, FieldType::Reference { target_collection }),
{
    FieldDefinition::new(FieldType::Reference { target_collection })
}

/// An index over model fields.
#[derive(Debug)]
pub struct IndexDefinition {
    pub fields: Vec<String>,
    pub unique: bool,
    pub name: Option<String>,
}

/// A model's metadata: its collection, database, fields and indexes.
#[derive(Debug)]
pub struct ModelMeta {
    pub collection_name: String,
    pub database_alias: Option<String>,
    pub fields: Vec<FieldEntry>,
    pub indexes: Vec<IndexDefinition>,
    pub description: Option<String>,
}

/// The outcome of checking a model's field values, field by field in order: each
/// field checks the first value under its name (null when absent).
pub open spec fn validate_model_spec(fs: Seq<FieldEntry>, data: Seq<(Seq<char>, DataValueView)>) -> Result<(), ErrorView>
    decreases fs.len(),
{
    if fs.len() == 0 {
        Ok(())
    } else {
        match validate_model_spec(fs.drop_last(), data) {
            Err(e) => Err(e),
            Ok(()) => validate_field_spec(fs.last().definition, lookup(data, fs.last().name@), fs.last().name@),
        }
    }
}

impl ModelMeta {
    /// Checks a model's data against its fields, each under its own name.
    pub fn validate_data(&self, data: &Vec<Entry>) -> (r: Result<(), QuickDbError>)
        ensures
            unit_result_is(r, validate_model_spec(self.fields@, entries_view(data@))),
    {
        let ghost dv = entries_view(data@);
        let mut i: usize = 0;
        assert(self.fields@.take(0) =~= Seq::<FieldEntry>::empty());
        while i < self.fields.len()
            invariant
                i <= self.fields.len(),
                dv == entries_view(data@),
                validate_model_spec(self.fields@.take(i as int), dv) is Ok,
            decreases self.fields.len() - i,
        {
            assert(self.fields@.take(i + 1).drop_last() =~= self.fields@.take(i as int));
            let f = &self.fields[i];
            let res = match lookup_exec(data, &f.name) {
                Some(v) => f.definition.validate_with_field_name(v, f.name.as_str()),
                None => f.definition.validate_with_field_name(&DataValue::Null, f.name.as_str()),
            };
            match res {
                Err(e) => {
                    proof { lemma_model_error_persists(self.fields@, dv, i + 1, e@); }
                    return Err(e);
                },
                Ok(()) => {},
            }
            i = i + 1;
        }
        assert(self.fields@.take(i as int) =~= self.fields@);
        Ok(())
    }
}

proof fn lemma_model_error_persists(fs: Seq<FieldEntry>, data: Seq<(Seq<char>, DataValueView)>, n: int, e: ErrorView)
    requires
        0 <= n <= fs.len(),
        validate_model_spec(fs.take(n), data) == Err::<(), ErrorView>(e),
    ensures
        validate_model_spec(fs, data) == Err::<(), ErrorView>(e),
    decreases fs.len() - n,
{
    if n < fs.len() {
        assert(fs.take(n + 1).drop_last() =~= fs.take(n));
        lemma_model_error_persists(fs, data, n + 1, e);
    } else {
        assert(fs.take(n) =~= fs);
    }
}

/// A `Double` field takes exactly the floats (and null when it is optional):
/// every float passes, and any other value, an integer among them, is a type
/// mismatch.
pub proof fn lemma_double_accepts_floats(fd: FieldDefinition, v: DataValueView, name: Seq<char>)
    requires
        fd.field_type is Double,
    ensures
        validate_field_spec(fd, v, name) is Ok <==> (v is Float || (v is Null && !fd.required)),
        !(v is Float) && !(v is Null) ==> validate_field_spec(fd, v, name) == Err::<(), ErrorView>(
            ErrorView::ValidationError { field: "type_mismatch"@, message: "字段类型不匹配，期望双精度浮点数类型"@ },
        ),
{
}

/// The value kinds that the kinds without parameters take: booleans for
/// `Boolean`, integers for `BigInteger`, floats for `Double` and `Decimal`,
/// texts for `Text`, `Binary` and `Reference`, date-times for `DateTime`, `Date`
/// and `Time`, and anything for `Json`. Every other value is refused.
pub proof fn lemma_plain_kinds_accept(ft: FieldType, v: DataValueView)
    ensures
        ft is Boolean ==> (validate_type_spec(ft, v) is Ok <==> v is Bool),
        ft is BigInteger ==> (validate_type_spec(ft, v) is Ok <==> v is Int),
        ft is Double ==> (validate_type_spec(ft, v) is Ok <==> v is Float),
        ft is Decimal ==> (validate_type_spec(ft, v) is Ok <==> v is Float),
        ft is Text ==> (validate_type_spec(ft, v) is Ok <==> v is String),
        ft is Binary ==> (validate_type_spec(ft, v) is Ok <==> v is String),
        ft is Reference ==> (validate_type_spec(ft, v) is Ok <==> v is String),
        ft is DateTime ==> (validate_type_spec(ft, v) is Ok <==> v is DateTime),
        ft is Date ==> (validate_type_spec(ft, v) is Ok <==> v is DateTime),
        ft is Time ==> (validate_type_spec(ft, v) is Ok <==> v is DateTime),
        ft is Json ==> validate_type_spec(ft, v) is Ok,
        ft is Integer ==> (validate_type_spec(ft, v) is Ok ==> v is Int),
        ft is Float ==> (validate_type_spec(ft, v) is Ok ==> v is Float),
        ft is String ==> (validate_type_spec(ft, v) is Ok ==> v is String),
{
}

/// Integer ranges are inclusive: an integer passes an `Integer` field exactly when
/// it is at least the minimum and at most the maximum that are set; below the
/// minimum it fails with `integer_range`, as it does above the maximum.
pub proof fn lemma_integer_range(lo: Option<i64>, hi: Option<i64>, i: i64)
    ensures
        validate_type_spec(FieldType::Integer { min_value: lo, max_value: hi }, DataValueView::Int(i)) is Ok
            <==> ((lo is None || lo->0 <= i) && (hi is None || i <= hi->0)),
        validate_type_spec(FieldType::Integer { min_value: lo, max_value: hi }, DataValueView::Int(i)) matches Err(
            ErrorView::ValidationError { field, .. },
        ) ==> field == "integer_range"@,
{
}

/// String lengths are inclusive and counted in UTF-8 bytes: without a pattern, a
/// text passes a `String` field exactly when its byte length is at most the
/// maximum and at least the minimum that are set, and otherwise fails with
/// `string_length`.
pub proof fn lemma_string_length(max: Option<usize>, min: Option<usize>, s: Seq<char>)
    ensures
        validate_type_spec(FieldType::String { max_length: max, min_length: min, regex: None }, DataValueView::String(s))
            is Ok <==> ((max is None || byte_len(s) <= max->0) && (min is None || min->0 <= byte_len(s))),
        validate_type_spec(FieldType::String { max_length: max, min_length: min, regex: None }, DataValueView::String(s))
            matches Err(ErrorView::ValidationError { field, .. }) ==> field == "string_length"@,
{
}

} // verus!
