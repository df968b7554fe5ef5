//! The calls that the library makes into `regex`, `uuid`, `serde_json`, `chrono`,
//! `rand`, `crossbeam_queue`, `dashmap` and the system clock, and the current time read
//! from the clock.

use vstd::prelude::*;
use std::sync::Arc;
use crossbeam_queue::SegQueue;
use dashmap::DashMap;
use crate::types::{lower_char, Timestamp};
use crate::text::hex_padded;
use crate::id_generator::{IdGenerator, MongoAutoIncrementGenerator};
use crate::model::ModelMeta;
use crate::manager::PoolSlot;
use crate::json::{JsonShape, JsonShapeView, JsonNumber};
use serde_json::Value;

verus! {

/// The error text of compiling `pattern` with `regex::Regex::new`, or `None` when it compiles.
pub uninterp spec fn regex_compile_error(pattern: Seq<char>) -> Option<Seq<char>>;

/// Whether the compiled `pattern` matches somewhere in `text` (`regex::Regex::is_match`).
pub uninterp spec fn regex_is_match(pattern: Seq<char>, text: Seq<char>) -> bool;

/// Compiles `pattern` with `regex::Regex::new` and, when it compiles, tests `text`
/// with `Regex::is_match`.
///
/// Claims: the result is `Err` with the compile error's display text exactly when
/// the pattern does not compile, and otherwise `Ok` of the match verdict. Both are
/// named results of the pattern (and text); what they are is left to `regex`.
#[verifier::external_body]
pub(crate) fn regex_match(pattern: &str, text: &str) -> (r: Result<bool, String>)
    ensures
        match regex_compile_error(pattern@) {
            Some(msg) => r is Err && r->Err_0@ == msg,
            None => r == Ok::<bool, String>(regex_is_match(pattern@, text@)),
        },
{
    match regex::Regex::new(pattern) {
        Ok(re) => Ok(re.is_match(text)),
        Err(e) => Err(e.to_string()),
    }
}

/// A hexadecimal digit, either case.
pub open spec fn is_hex_char(c: char) -> bool {
    ('0' <= c && c <= '9') || ('a' <= c && c <= 'f') || ('A' <= c && c <= 'F')
}

/// 36 characters: hex digits with `-` at positions 8, 13, 18 and 23.
pub open spec fn uuid_hyphenated(s: Seq<char>) -> bool {
    &&& s.len() == 36
    &&& forall|i: int| 0 <= i < 36 ==> if i == 8 || i == 13 || i == 18 || i == 23 {
        s[i] == '-'
    } else {
        is_hex_char(s[i])
    }
}

/// The texts that `uuid::Uuid::parse_str` accepts: 32 hex digits; the hyphenated
/// form; the hyphenated form in braces; or `urn:uuid:` (any case) and the hyphenated form.
pub open spec fn uuid_text_ok(s: Seq<char>) -> bool {
    ||| s.len() == 32 && forall|i: int| 0 <= i < 32 ==> is_hex_char(s[i])
    ||| uuid_hyphenated(s)
    ||| s.len() == 38 && s[0] == '{' && s[37] == '}' && uuid_hyphenated(s.subrange(1, 37))
    ||| s.len() == 45 && s.take(9).map_values(|c: char| lower_char(c)) == "urn:uuid:"@ && uuid_hyphenated(s.skip(9))
}

/// Whether `uuid::Uuid::parse_str` accepts `s`.
///
/// Claims: the verdict is [`uuid_text_ok`], the shapes that the crate's parser
/// (`try_parse` in `parser.rs`) accepts: by length 32, 36, 38 (braced) or 45
/// (`urn:uuid:` prefix, ASCII case-insensitive), with hex digits of either case.
/// A text with a non-ASCII character is rejected by both.
#[verifier::external_body]
pub(crate) fn uuid_parses(s: &str) -> (r: bool)
    ensures
        r == uuid_text_ok(s@),
{
    uuid::Uuid::parse_str(s).is_ok()
}

/// The outermost level of the JSON value that `serde_json::from_str::<serde_json::Value>`
/// reads from a text; `None` when the text is not JSON.
pub uninterp spec fn json_shape_of(s: Seq<char>) -> Option<JsonShapeView>;

/// Parses `s` with `serde_json::from_str::<serde_json::Value>` and gives the
/// value's outermost level: a number as `as_i64`, `as_u64` and the bits of
/// `as_f64`; an array's items and an object's values as their JSON texts
/// (`to_string`); an object's entries in the map's order.
///
/// Claims: the result is the named [`json_shape_of`] of the text; JSON's grammar
/// and the texts are left to `serde_json`.
#[verifier::external_body]
pub(crate) fn json_shape(s: &str) -> (r: Option<JsonShape>)
    ensures
        match r {
            Some(j) => json_shape_of(s@) == Some(j@),
            None => json_shape_of(s@) is None,
        },
{
    let v: Value = serde_json::from_str(s).ok()?;
    Some(match v {
        Value::Null => JsonShape::Null,
        Value::Bool(b) => JsonShape::Bool(b),
        Value::Number(n) => JsonShape::Number(JsonNumber { int: n.as_i64(), unsigned: n.as_u64(), float_bits: n.as_f64().map(|x| x.to_bits()) }),
        Value::String(t) => JsonShape::String(t),
        Value::Array(a) => JsonShape::Array(a.iter().map(|x| x.to_string()).collect()),
        Value::Object(m) => JsonShape::Object(m.iter().map(|(k, x)| (k.clone(), x.to_string())).collect()),
    })
}

/// The instant that `chrono` reads from a text as a `DateTime<Utc>` (its
/// `FromStr`), as Unix seconds and nanoseconds; `None` when it reads none.
pub uninterp spec fn parsed_datetime(s: Seq<char>) -> Option<Timestamp>;

/// Reads `s` with `s.parse::<chrono::DateTime<chrono::Utc>>()`.
///
/// Claims: the result is the named [`parsed_datetime`] of the text.
#[verifier::external_body]
pub(crate) fn datetime_value(s: &str) -> (r: Option<Timestamp>)
    ensures
        r == parsed_datetime(s@),
{
    s.parse::<chrono::DateTime<chrono::Utc>>().ok().map(|d| Timestamp { secs: d.timestamp(), nanos: d.timestamp_subsec_nanos() })
}

/// The 128-bit value of the UUID that `uuid::Uuid::parse_str` reads from a text.
pub uninterp spec fn parsed_uuid(s: Seq<char>) -> Option<u128>;

/// Reads `s` with `uuid::Uuid::parse_str` and gives the value (`as_u128`).
///
/// Claims: the result is the named [`parsed_uuid`] of the text, present exactly
/// for the texts that [`uuid_text_ok`] describes (see [`uuid_parses`]).
#[verifier::external_body]
pub(crate) fn uuid_value(s: &str) -> (r: Option<u128>)
    ensures
        r == parsed_uuid(s@),
        r is Some <==> uuid_text_ok(s@),
{
    uuid::Uuid::parse_str(s).ok().map(|u| u.as_u128())
}

/// A fresh random (version 4) UUID in its text form (`uuid::Uuid::new_v4` displayed).
///
/// Claims: the text is the hyphenated form (36 characters, lowercase hex digits
/// with `-` at positions 8, 13, 18 and 23), which is how `Uuid` displays
/// (`fmt.rs`: `Display` writes `as_hyphenated()`). The digits are random.
#[verifier::external_body]
pub(crate) fn new_uuid_v4_text() -> (r: String)
    ensures
        uuid_hyphenated(r@),
{
    uuid::Uuid::new_v4().to_string()
}

/// Milliseconds since the Unix epoch by the system clock (`SystemTime::now()`
/// since `UNIX_EPOCH`, as `u64`), or `None` when the clock reads before the epoch.
///
/// Nothing is claimed of the value: it is the clock's.
#[verifier::external_body]
pub(crate) fn unix_millis() -> Option<u64> {
    std::time::SystemTime::now().duration_since(std::time::UNIX_EPOCH).ok().map(|d| d.as_millis() as u64)
}

/// Seconds since the Unix epoch by the system clock, or `None` when the clock
/// reads before the epoch.
///
/// Nothing is claimed of the value: it is the clock's.
#[verifier::external_body]
pub(crate) fn unix_secs() -> Option<u64> {
    std::time::SystemTime::now().duration_since(std::time::UNIX_EPOCH).ok().map(|d| d.as_secs())
}

/// Nanoseconds since the Unix epoch by the system clock, or `None` when the clock
/// reads before the epoch.
///
/// Nothing is claimed of the value: it is the clock's.
#[verifier::external_body]
pub(crate) fn unix_nanos() -> Option<u128> {
    std::time::SystemTime::now().duration_since(std::time::UNIX_EPOCH).ok().map(|d| d.as_nanos())
}

/// The current time by the system clock, as seconds and sub-second nanoseconds
/// since the Unix epoch, from one reading of [`unix_nanos`]; `None` when the
/// clock reads before the epoch or past what an `i64` of seconds holds.
pub(crate) fn now_utc() -> (r: Option<Timestamp>)
    ensures
        r matches Some(t) ==> t.secs >= 0 && t.nanos < 1_000_000_000,
{
    match unix_nanos() {
        None => None,
        Some(n) => {
            let secs: u128 = n / 1_000_000_000u128;
            if secs > 9223372036854775807u128 {
                None
            } else {
                Some(Timestamp { secs: secs as i64, nanos: (n % 1_000_000_000u128) as u32 })
            }
        },
    }
}

/// The current time, or the Unix epoch itself when the clock reads before it.
pub(crate) fn now_or_epoch() -> (r: Timestamp)
    ensures
        r.secs >= 0,
        r.nanos < 1_000_000_000,
{
    match now_utc() {
        Some(t) => t,
        None => Timestamp { secs: 0, nanos: 0 },
    }
}

/// Eight random bytes read as a big-endian `u64` (`rand::random::<[u8; 8]>`).
///
/// Nothing is claimed of the value: it is random.
#[verifier::external_body]
pub(crate) fn random_u64() -> u64 {
    let bytes: [u8; 8] = rand::random();
    u64::from_be_bytes(bytes)
}


/// The hyphenated lowercase text of the UUID whose 128-bit (big-endian) value is `u`:
/// its 32 hex digits in groups of 8, 4, 4, 4 and 12.
pub open spec fn uuid_text_of(u: u128) -> Seq<char> {
    let h = hex_padded(u as nat, 32);
    h.subrange(0, 8) + "-"@ + h.subrange(8, 12) + "-"@ + h.subrange(12, 16) + "-"@ + h.subrange(16, 20) + "-"@
        + h.subrange(20, 32)
}

/// The text of a UUID (`uuid::Uuid::from_u128(u).to_string()`).
///
/// Claims: the hyphenated lowercase form of the value, [`uuid_text_of`], which is
/// what `Display` writes (`fmt.rs`: `as_hyphenated()` with lowercase hex digits of
/// the big-endian bytes).
#[verifier::external_body]
pub(crate) fn uuid_text(u: u128) -> (r: String)
    ensures
        r@ == uuid_text_of(u),
{
    uuid::Uuid::from_u128(u).to_string()
}

/// The characters that `regex::escape` escapes.
pub open spec fn is_regex_meta(c: char) -> bool {
    c == '\\' || c == '.' || c == '+' || c == '*' || c == '?' || c == '(' || c == ')' || c == '|' || c == '['
        || c == ']' || c == '{' || c == '}' || c == '^' || c == '$' || c == '#' || c == '&' || c == '-' || c
        == '~'
}

/// `s` with a backslash before each meta character.
pub open spec fn regex_escaped(s: Seq<char>) -> Seq<char>
    decreases s.len(),
{
    if s.len() == 0 {
        Seq::empty()
    } else if is_regex_meta(s.last()) {
        regex_escaped(s.drop_last()).push('\\').push(s.last())
    } else {
        regex_escaped(s.drop_last()).push(s.last())
    }
}

/// Escapes the regular-expression meta characters of `s` (`regex::escape`).
///
/// Claims: the result is [`regex_escaped`]: each character of `s` in order,
/// preceded by a backslash when it is one of `\ . + * ? ( ) | [ ] { } ^ $ # & - ~`
/// (`regex-syntax`: `escape_into` and `is_meta_character`).
#[verifier::external_body]
pub(crate) fn regex_escape(s: &str) -> (r: String)
    ensures
        r@ == regex_escaped(s@),
{
    regex::escape(s)
}

// ---------------------------------------------------------------------------
// crossbeam_queue::SegQueue
// ---------------------------------------------------------------------------

#[verifier::external_type_specification]
#[verifier::external_body]
#[verifier::reject_recursive_types(T)]
pub struct ExSegQueue<T>(crossbeam_queue::SegQueue<T>);

/// The indices a queue holds, head first.
pub uninterp spec fn queued(q: SegQueue<usize>) -> Seq<usize>;

/// An empty queue (`SegQueue::new`).
#[verifier::external_body]
pub(crate) fn queue_new() -> (r: SegQueue<usize>)
    ensures
        queued(r) == Seq::<usize>::empty(),
{
    SegQueue::new()
}

/// Appends `v` at the tail (`SegQueue::push`: "pushes back an element to the tail").
#[verifier::external_body]
pub(crate) fn queue_push(q: &mut SegQueue<usize>, v: usize)
    ensures
        queued(*final(q)) == queued(*old(q)).push(v),
{
    q.push(v)
}

/// Takes the head (`SegQueue::pop`: "pops the head element"; `None` when empty).
#[verifier::external_body]
pub(crate) fn queue_pop(q: &mut SegQueue<usize>) -> (r: Option<usize>)
    ensures
        queued(*old(q)).len() == 0 ==> r is None && queued(*final(q)) == queued(*old(q)),
        queued(*old(q)).len() > 0 ==> r == Some(queued(*old(q))[0]) && queued(*final(q)) == queued(*old(q)).drop_first(),
{
    q.pop()
}

// ---------------------------------------------------------------------------
// dashmap::DashMap
// ---------------------------------------------------------------------------

#[verifier::external_type_specification]
#[verifier::external_body]
#[verifier::reject_recursive_types(K)]
#[verifier::reject_recursive_types(V)]
#[verifier::reject_recursive_types(S)]
pub struct ExDashMap<K, V, S>(dashmap::DashMap<K, V, S>);

/// Pools by alias.
pub type PoolMap = DashMap<String, PoolSlot>;

/// ID generators by alias.
pub type IdGeneratorMap = DashMap<String, Arc<IdGenerator>>;

/// MongoDB auto-increment generators by alias.
pub type MongoGeneratorMap = DashMap<String, Arc<MongoAutoIncrementGenerator>>;

/// Models by collection name.
pub type ModelMap = DashMap<String, Arc<ModelMeta>>;

/// Whether the keys are pairwise different texts.
pub open spec fn distinct_texts(ks: Seq<String>) -> bool {
    forall|i: int, j: int| 0 <= i < j < ks.len() ==> ks[i]@ != ks[j]@
}

/// Whether the keys, as texts, are exactly the keys of `m`.
pub open spec fn lists_keys<V>(ks: Seq<String>, m: Map<Seq<char>, V>) -> bool {
    &&& distinct_texts(ks)
    &&& forall|k: Seq<char>| #[trigger] m.dom().contains(k) <==> exists|i: int| 0 <= i < ks.len() && ks[i]@ == k
}

/// The databases a pool map holds, by alias.
pub uninterp spec fn pool_slots(m: PoolMap) -> Map<Seq<char>, PoolSlot>;

/// An empty pool map (`DashMap::new`).
#[verifier::external_body]
pub(crate) fn pool_map_new() -> (r: PoolMap)
    ensures
        pool_slots(r).dom() == Set::<Seq<char>>::empty(),
{
    DashMap::new()
}

/// Sets `key` to `v` (`DashMap::insert`), returning the value it replaced.
#[verifier::external_body]
pub(crate) fn pool_map_insert(m: &mut PoolMap, key: String, v: PoolSlot) -> (r: Option<PoolSlot>)
    ensures
        pool_slots(*final(m)) == pool_slots(*old(m)).insert(key@, v),
        r == pool_slots(*old(m)).get(key@),
{
    m.insert(key, v)
}

/// Removes `key` (`DashMap::remove`), returning the entry it held.
#[verifier::external_body]
pub(crate) fn pool_map_remove(m: &mut PoolMap, key: &str) -> (r: Option<(String, PoolSlot)>)
    ensures
        pool_slots(*final(m)) == pool_slots(*old(m)).remove(key@),
        r is Some <==> pool_slots(*old(m)).dom().contains(key@),
        r matches Some((k, v)) ==> k@ == key@ && v == pool_slots(*old(m))[key@],
{
    m.remove(key)
}

/// The value under `key` (`DashMap::get`, the value copied out).
#[verifier::external_body]
pub(crate) fn pool_map_get(m: &PoolMap, key: &str) -> (r: Option<PoolSlot>)
    ensures
        r == pool_slots(*m).get(key@),
{
    match m.get(key) {
        Some(e) => Some(*e.value()),
        None => None,
    }
}

/// The keys (`DashMap::iter`, each key cloned), in the map's own order.
#[verifier::external_body]
pub(crate) fn pool_map_keys(m: &PoolMap) -> (r: Vec<String>)
    ensures
        lists_keys(r@, pool_slots(*m)),
{
    m.iter().map(|e| e.key().clone()).collect()
}

/// The first key in the map's own order (`DashMap::iter` then `next`), `None`
/// when the map is empty.
#[verifier::external_body]
pub(crate) fn pool_map_first_key(m: &PoolMap) -> (r: Option<String>)
    ensures
        r is None <==> pool_slots(*m).dom() == Set::<Seq<char>>::empty(),
        r matches Some(k) ==> pool_slots(*m).dom().contains(k@),
{
    m.iter().next().map(|e| e.key().clone())
}

/// The ID generators a generator map holds, by alias.
pub uninterp spec fn id_generator_slots(m: IdGeneratorMap) -> Map<Seq<char>, IdGenerator>;

/// An empty generator map (`DashMap::new`).
#[verifier::external_body]
pub(crate) fn id_generator_map_new() -> (r: IdGeneratorMap)
    ensures
        id_generator_slots(r).dom() == Set::<Seq<char>>::empty(),
{
    DashMap::new()
}

/// Sets `key` to `v` (`DashMap::insert`).
#[verifier::external_body]
pub(crate) fn id_generator_map_insert(m: &mut IdGeneratorMap, key: String, v: Arc<IdGenerator>)
    ensures
        id_generator_slots(*final(m)) == id_generator_slots(*old(m)).insert(key@, *v),
{
    m.insert(key, v);
}

/// Removes `key` (`DashMap::remove`).
#[verifier::external_body]
pub(crate) fn id_generator_map_remove(m: &mut IdGeneratorMap, key: &str)
    ensures
        id_generator_slots(*final(m)) == id_generator_slots(*old(m)).remove(key@),
{
    m.remove(key);
}

/// The value under `key` (`DashMap::get`, the `Arc` cloned: the same generator).
#[verifier::external_body]
pub(crate) fn id_generator_map_get(m: &IdGeneratorMap, key: &str) -> (r: Option<Arc<IdGenerator>>)
    ensures
        r is Some <==> id_generator_slots(*m).dom().contains(key@),
        r matches Some(g) ==> *g == id_generator_slots(*m)[key@],
{
    match m.get(key) {
        Some(e) => Some(e.value().clone()),
        None => None,
    }
}

/// The MongoDB auto-increment generators a map holds, by alias.
pub uninterp spec fn mongo_generator_slots(m: MongoGeneratorMap) -> Map<
    Seq<char>,
    MongoAutoIncrementGenerator,
>;

/// An empty MongoDB generator map (`DashMap::new`).
#[verifier::external_body]
pub(crate) fn mongo_generator_map_new() -> (r: MongoGeneratorMap)
    ensures
        mongo_generator_slots(r).dom() == Set::<Seq<char>>::empty(),
{
    DashMap::new()
}

/// Sets `key` to `v` (`DashMap::insert`).
#[verifier::external_body]
pub(crate) fn mongo_generator_map_insert(
    m: &mut MongoGeneratorMap,
    key: String,
    v: Arc<MongoAutoIncrementGenerator>,
)
    ensures
        mongo_generator_slots(*final(m)) == mongo_generator_slots(*old(m)).insert(key@, *v),
{
    m.insert(key, v);
}

/// Removes `key` (`DashMap::remove`).
#[verifier::external_body]
pub(crate) fn mongo_generator_map_remove(m: &mut MongoGeneratorMap, key: &str)
    ensures
        mongo_generator_slots(*final(m)) == mongo_generator_slots(*old(m)).remove(key@),
{
    m.remove(key);
}

/// The value under `key` (`DashMap::get`, the `Arc` cloned: the same generator).
#[verifier::external_body]
pub(crate) fn mongo_generator_map_get(m: &MongoGeneratorMap, key: &str) -> (r: Option<
    Arc<MongoAutoIncrementGenerator>,
>)
    ensures
        r is Some <==> mongo_generator_slots(*m).dom().contains(key@),
        r matches Some(g) ==> *g == mongo_generator_slots(*m)[key@],
{
    match m.get(key) {
        Some(e) => Some(e.value().clone()),
        None => None,
    }
}

/// The models a model map holds, by collection name.
pub uninterp spec fn model_slots(m: ModelMap) -> Map<Seq<char>, ModelMeta>;

/// An empty model map (`DashMap::new`).
#[verifier::external_body]
pub(crate) fn model_map_new() -> (r: ModelMap)
    ensures
        model_slots(r).dom() == Set::<Seq<char>>::empty(),
{
    DashMap::new()
}

/// Sets `key` to `v` (`DashMap::insert`).
#[verifier::external_body]
pub(crate) fn model_map_insert(m: &mut ModelMap, key: String, v: Arc<ModelMeta>)
    ensures
        model_slots(*final(m)) == model_slots(*old(m)).insert(key@, *v),
{
    m.insert(key, v);
}

/// The value under `key` (`DashMap::get`, the `Arc` cloned: the same model).
#[verifier::external_body]
pub(crate) fn model_map_get(m: &ModelMap, key: &str) -> (r: Option<Arc<ModelMeta>>)
    ensures
        r is Some <==> model_slots(*m).dom().contains(key@),
        r matches Some(v) ==> *v == model_slots(*m)[key@],
{
    match m.get(key) {
        Some(e) => Some(e.value().clone()),
        None => None,
    }
}

/// The entries (`DashMap::iter`, each key and `Arc` cloned), in the map's own order.
#[verifier::external_body]
pub(crate) fn model_map_entries(m: &ModelMap) -> (r: Vec<(String, Arc<ModelMeta>)>)
    ensures
        lists_keys(r@.map_values(|e: (String, Arc<ModelMeta>)| e.0), model_slots(*m)),
        forall|i: int| 0 <= i < r@.len() ==> *(#[trigger] r@[i]).1 == model_slots(*m)[r@[i].0@],
{
    m.iter().map(|e| (e.key().clone(), e.value().clone())).collect()
}

} // verus!
