//! Record ID generation: auto-increment counters, UUIDs, snowflake IDs,
//! object IDs and custom prefixed IDs, and ID format checks.

use vstd::prelude::*;
use crate::text::{chars_of, str_to_string, push_hex_padded, hex_padded, push_u128, nat_digits};
use crate::types::{IdStrategy, IdType};
use crate::model::byte_len;
use vstd::utf8::{is_ascii_chars, is_ascii_chars_encode_utf8};
use crate::outside::{
    uuid_parses, uuid_text_ok, uuid_hyphenated, is_hex_char, new_uuid_v4_text, unix_millis, unix_secs,
    unix_nanos, random_u64,
};

verus! {

/// The snowflake epoch (2010-11-04T01:42:54.657Z) in Unix milliseconds.
pub const SNOWFLAKE_EPOCH: u64 = 1288834974657u64;

/// A snowflake ID: 41 bits of milliseconds since [`SNOWFLAKE_EPOCH`], 5 bits of
/// datacenter, 10 bits of machine and 12 bits of sequence (the time part is
/// shifted within 64 bits).
pub open spec fn snowflake_id(timestamp: u64, datacenter_id: u8, machine_id: u16, sequence: u64) -> u64 {
    (((timestamp - SNOWFLAKE_EPOCH) as u64) << 22u64) | ((datacenter_id as u64) << 17u64) | ((machine_id as u64) << 12u64)
        | sequence
}

/// Snowflake ID state: the machine and datacenter, the running sequence counter
/// and the timestamp of the last ID.
#[derive(Debug)]
pub struct SnowflakeGenerator {
    machine_id: u16,
    datacenter_id: u8,
    sequence: u64,
    last_timestamp: u64,
}

impl SnowflakeGenerator {
    /// The machine ID.
    pub closed spec fn machine(self) -> u16 {
        self.machine_id
    }

    /// The datacenter ID.
    pub closed spec fn datacenter(self) -> u8 {
        self.datacenter_id
    }

    /// The running sequence counter.
    pub closed spec fn seq_counter(self) -> u64 {
        self.sequence
    }

    /// The timestamp of the last ID (0 before the first).
    pub closed spec fn last(self) -> u64 {
        self.last_timestamp
    }

    /// Machine below 1024 and datacenter below 32.
    pub open spec fn wf(self) -> bool {
        self.machine() <= 1023 && self.datacenter() <= 31
    }

    /// A generator for a machine (0..=1023) and datacenter (0..=31).
    pub fn new(machine_id: u16, datacenter_id: u8) -> (r: Result<SnowflakeGenerator, String>)
        ensures
            machine_id > 1023 ==> r is Err && r->Err_0@ == "Machine ID must be between 0 and 1023"@,
            machine_id <= 1023 && datacenter_id > 31 ==> r is Err && r->Err_0@ == "Datacenter ID must be between 0 and 31"@,
            machine_id <= 1023 && datacenter_id <= 31 ==> (r matches Ok(g) && g.machine() == machine_id
                && g.datacenter() == datacenter_id && g.seq_counter() == 0 && g.last() == 0),
    {
        if machine_id > 1023 {
            return Err(str_to_string("Machine ID must be between 0 and 1023"));
        }
        if datacenter_id > 31 {
            return Err(str_to_string("Datacenter ID must be between 0 and 31"));
        }
        Ok(SnowflakeGenerator { machine_id, datacenter_id, sequence: 0, last_timestamp: 0 })
    }

    /// A copy of this generator's state.
    pub(crate) fn copied(&self) -> (r: SnowflakeGenerator)
        ensures
            r == *self,
    {
        SnowflakeGenerator {
            machine_id: self.machine_id,
            datacenter_id: self.datacenter_id,
            sequence: self.sequence,
            last_timestamp: self.last_timestamp,
        }
    }

    /// One step of the generator on the clock reading `now` (Unix milliseconds).
    ///
    /// A reading before the last ID's millisecond, or before the epoch, is
    /// refused and changes nothing. A reading in a later millisecond issues the
    /// ID with sequence 0 and restarts the counter. A reading in the last ID's
    /// millisecond issues the ID whose sequence is the counter's low 12 bits and
    /// advances the counter, unless those bits are 0: then the sequence of that
    /// millisecond is used up and the generator waits for a later reading,
    /// changing nothing.
    pub fn next_from(&mut self, now: u64) -> (r: SnowflakeNext)
        ensures
            final(self).machine() == old(self).machine(),
            final(self).datacenter() == old(self).datacenter(),
            now < old(self).last() || now < SNOWFLAKE_EPOCH ==> r is Backwards && *final(self) == *old(self),
            now >= SNOWFLAKE_EPOCH && now > old(self).last() ==> {
                &&& r == SnowflakeNext::Issued(snowflake_id(now, old(self).datacenter(), old(self).machine(), 0))
                &&& final(self).seq_counter() == 0
                &&& final(self).last() == now
            },
            now >= SNOWFLAKE_EPOCH && now == old(self).last() && (old(self).seq_counter() & 0xFFFu64) != 0 ==> {
                &&& r == SnowflakeNext::Issued(
                    snowflake_id(now, old(self).datacenter(), old(self).machine(), old(self).seq_counter() & 0xFFFu64),
                )
                &&& final(self).seq_counter() == old(self).seq_counter().wrapping_add(1)
                &&& final(self).last() == now
            },
            now >= SNOWFLAKE_EPOCH && now == old(self).last() && (old(self).seq_counter() & 0xFFFu64) == 0 ==> r is Wait
                && *final(self) == *old(self),
    {
        let last = self.last_timestamp;
        if now < last || now < SNOWFLAKE_EPOCH {
            return SnowflakeNext::Backwards;
        }
        if now == last {
            let seq = self.sequence & 0xFFFu64;
            if seq == 0 {
                return SnowflakeNext::Wait;
            }
            self.sequence = self.sequence.wrapping_add(1);
            let id = ((now - SNOWFLAKE_EPOCH) << 22u64) | ((self.datacenter_id as u64) << 17u64)
                | ((self.machine_id as u64) << 12u64) | seq;
            SnowflakeNext::Issued(id)
        } else {
            self.sequence = 0;
            self.last_timestamp = now;
            let id = ((now - SNOWFLAKE_EPOCH) << 22u64) | ((self.datacenter_id as u64) << 17u64)
                | ((self.machine_id as u64) << 12u64) | 0u64;
            SnowflakeNext::Issued(id)
        }
    }

    /// The step after a wait: the clock read `now`, a millisecond later than the
    /// last ID's, whose sequence was used up. The ID has sequence 0; the counter
    /// advances and `now` becomes the last ID's millisecond.
    pub fn next_after_wait(&mut self, now: u64) -> (id: u64)
        requires
            now > old(self).last(),
            old(self).last() >= SNOWFLAKE_EPOCH,
        ensures
            final(self).machine() == old(self).machine(),
            final(self).datacenter() == old(self).datacenter(),
            final(self).seq_counter() == old(self).seq_counter().wrapping_add(1),
            final(self).last() == now,
            id == snowflake_id(now, old(self).datacenter(), old(self).machine(), 0),
    {
        self.sequence = self.sequence.wrapping_add(1);
        self.last_timestamp = now;
        ((now - SNOWFLAKE_EPOCH) << 22u64) | ((self.datacenter_id as u64) << 17u64) | ((self.machine_id as u64) << 12u64)
            | 0u64
    }

    /// The next ID by the system clock: one step on the clock's reading, and,
    /// when the step waits, a step after a later reading. `Err` when the clock
    /// reads before the last ID or the epoch (including before the Unix epoch),
    /// or when it never passes the last ID's millisecond.
    pub fn generate(&mut self) -> (r: Result<u64, String>)
        ensures
            old(self).machine() == final(self).machine(),
            old(self).datacenter() == final(self).datacenter(),
            match r {
                Err(m) => *final(self) == *old(self) && (m@ == "Clock moved backwards"@ || m@ == "Clock did not advance"@),
                Ok(id) => snowflake_step(*old(self), *final(self), id),
            },
    {
        let now = match unix_millis() {
            Some(t) => t,
            None => {
                return Err(str_to_string("Clock moved backwards"));
            },
        };
        match self.next_from(now) {
            SnowflakeNext::Issued(id) => Ok(id),
            SnowflakeNext::Backwards => Err(str_to_string("Clock moved backwards")),
            SnowflakeNext::Wait => {
                match wait_next_millis(self.last_timestamp) {
                    Some(t) => Ok(self.next_after_wait(t)),
                    None => Err(str_to_string("Clock did not advance")),
                }
            },
        }
    }
}

/// What one step of a snowflake generator makes of a clock reading.
#[derive(Debug, Clone, Copy, PartialEq, Eq, Structural)]
pub enum SnowflakeNext {
    /// An ID was issued.
    Issued(u64),
    /// The millisecond's sequence is used up: a later reading is needed.
    Wait,
    /// The reading is before the last ID or the epoch.
    Backwards,
}

/// Reads the clock until it passes `last`; `None` only if it has not after
/// `u64::MAX` further readings.
fn wait_next_millis(last: u64) -> (r: Option<u64>)
    ensures
        r matches Some(t) ==> t > last,
{
    let mut timestamp: u64 = match unix_millis() {
        Some(t) => t,
        None => last,
    };
    let mut tries: u64 = 0;
    while timestamp <= last
        invariant
            tries <= u64::MAX,
        decreases u64::MAX - tries,
    {
        if tries == u64::MAX {
            return None;
        }
        tries = tries + 1;
        match unix_millis() {
            Some(t) => { timestamp = t; },
            None => {},
        }
    }
    Some(timestamp)
}

/// One snowflake step from `g0` to `g1` producing `id`: the clock moved to
/// `g1.last()` (not before `g0.last()`, not before the epoch), and
/// - in the same millisecond, the sequence part is the counter's low 12 bits
///   (not zero) and the counter advanced;
/// - when those bits were zero, the clock had to pass the millisecond, the
///   sequence part is zero and the counter advanced;
/// - in a later millisecond, the sequence part is zero and the counter restarted.
pub open spec fn snowflake_step(g0: SnowflakeGenerator, g1: SnowflakeGenerator, id: u64) -> bool {
    &&& g1.machine() == g0.machine()
    &&& g1.datacenter() == g0.datacenter()
    &&& g1.last() >= g0.last()
    &&& g1.last() >= SNOWFLAKE_EPOCH
    &&& {
        ||| g1.last() == g0.last() && (g0.seq_counter() & 0xFFFu64) != 0
            && g1.seq_counter() == g0.seq_counter().wrapping_add(1)
            && id == snowflake_id(g1.last(), g1.datacenter(), g1.machine(), g0.seq_counter() & 0xFFFu64)
        ||| g1.last() > g0.last() && (g0.seq_counter() & 0xFFFu64) == 0
            && g1.seq_counter() == g0.seq_counter().wrapping_add(1)
            && id == snowflake_id(g1.last(), g1.datacenter(), g1.machine(), 0)
        ||| g1.last() > g0.last() && g1.seq_counter() == 0
            && id == snowflake_id(g1.last(), g1.datacenter(), g1.machine(), 0)
    }
}

proof fn lemma_id_layout(d: u64, dc: u64, m: u64, sq: u64)
    by (bit_vector)
    requires
        d < 0x400_0000_0000u64,
        dc < 32,
        m < 1024,
        sq < 4096,
    ensures
        (d << 22u64) | (dc << 17u64) | (m << 12u64) | sq == d * 4194304 + (((dc << 17u64) | (m << 12u64)) + sq),
        ((dc << 17u64) | (m << 12u64)) + sq < 4194304,
{
}

proof fn lemma_counter_low_bits(c: u64)
    by (bit_vector)
    requires
        c < 0xFFFF_FFFF_FFFF_FFFFu64,
    ensures
        (c & 0xFFFu64) != 0xFFFu64 ==> (((c + 1) as u64) & 0xFFFu64) == (c & 0xFFFu64) + 1,
        (c & 0xFFFu64) == 0xFFFu64 ==> (((c + 1) as u64) & 0xFFFu64) == 0,
{
}

/// The low 12 bits of the counter after one increment.
proof fn lemma_counter_increment(c: u64)
    ensures
        (c & 0xFFFu64) != 0xFFFu64 ==> (c.wrapping_add(1) & 0xFFFu64) == (c & 0xFFFu64) + 1,
        (c & 0xFFFu64) == 0xFFFu64 ==> (c.wrapping_add(1) & 0xFFFu64) == 0,
        (c & 0xFFFu64) <= 0xFFFu64,
{
    assert((c & 0xFFFu64) <= 0xFFFu64) by (bit_vector);
    if c < 0xFFFF_FFFF_FFFF_FFFFu64 {
        lemma_counter_low_bits(c);
    } else {
        assert(c.wrapping_add(1) == 0);
        assert((0u64 & 0xFFFu64) == 0) by (bit_vector);
        assert((0xFFFF_FFFF_FFFF_FFFFu64 & 0xFFFu64) == 0xFFFu64) by (bit_vector);
    }
}

/// Two IDs generated one after the other by the same snowflake generator come
/// in strictly increasing order, as long as the time part fits in 42 bits (until
/// about 139 years after the epoch).
pub proof fn lemma_snowflake_ids_increase(
    g0: SnowflakeGenerator,
    g1: SnowflakeGenerator,
    g2: SnowflakeGenerator,
    id1: u64,
    id2: u64,
)
    requires
        g0.wf(),
        snowflake_step(g0, g1, id1),
        snowflake_step(g1, g2, id2),
        g2.last() - SNOWFLAKE_EPOCH < 0x400_0000_0000,
    ensures
        id1 < id2,
{
    let dc = g0.datacenter() as u64;
    let m = g0.machine() as u64;
    let d1 = (g1.last() - SNOWFLAKE_EPOCH) as u64;
    let d2 = (g2.last() - SNOWFLAKE_EPOCH) as u64;
    let h = (dc << 17u64) | (m << 12u64);
    lemma_counter_increment(g0.seq_counter());
    lemma_counter_increment(g1.seq_counter());
    let s1: u64 = if g1.last() == g0.last() && (g0.seq_counter() & 0xFFFu64) != 0 {
        g0.seq_counter() & 0xFFFu64
    } else {
        0
    };
    let s2: u64 = if g2.last() == g1.last() && (g1.seq_counter() & 0xFFFu64) != 0 {
        g1.seq_counter() & 0xFFFu64
    } else {
        0
    };
    assert(id1 == snowflake_id(g1.last(), g1.datacenter(), g1.machine(), s1));
    assert(id2 == snowflake_id(g2.last(), g2.datacenter(), g2.machine(), s2));
    lemma_id_layout(d1, dc, m, s1);
    lemma_id_layout(d2, dc, m, s2);
    if d1 < d2 {
        assert(d1 * 4194304 + 4194304 <= d2 * 4194304) by (nonlinear_arith)
            requires
                d1 < d2,
        ;
    } else {
        assert(g2.last() == g1.last());
        assert(s1 < s2);
    }
}

/// A decimal digit.
pub open spec fn is_digit_char(c: char) -> bool {
    '0' <= c && c <= '9'
}

/// The value of a digit string.
pub open spec fn digits_value(d: Seq<char>) -> nat
    decreases d.len(),
{
    if d.len() == 0 {
        0
    } else {
        digits_value(d.drop_last()) * 10 + ((d.last() as u32) - ('0' as u32)) as nat
    }
}

/// The digits of an unsigned number's text: the text without a leading `+`.
pub open spec fn unsigned_digits(s: Seq<char>) -> Seq<char> {
    if s.len() > 0 && s[0] == '+' {
        s.drop_first()
    } else {
        s
    }
}

/// The texts that `str::parse::<u64>` accepts: an optional `+`, then one or more
/// decimal digits whose value fits in 64 bits.
pub open spec fn u64_text_ok(s: Seq<char>) -> bool {
    let d = unsigned_digits(s);
    &&& d.len() > 0
    &&& forall|i: int| 0 <= i < d.len() ==> is_digit_char(#[trigger] d[i])
    &&& digits_value(d) <= u64::MAX
}

/// An object-ID text: 24 bytes, all hexadecimal digits.
pub open spec fn object_id_text_ok(s: Seq<char>) -> bool {
    byte_len(s) == 24 && forall|i: int| 0 <= i < s.len() ==> is_hex_char(#[trigger] s[i])
}

/// Whether an ID has the format of a strategy: a positive number for
/// auto-increment; a UUID text; a `u64` text for snowflake; an object-ID text;
/// any text for a custom generator.
pub open spec fn id_valid_for(strategy: IdStrategy, id: IdType) -> bool {
    match (strategy, id) {
        (IdStrategy::AutoIncrement, IdType::Number(n)) => n > 0,
        (IdStrategy::Uuid, IdType::String(s)) => uuid_text_ok(s@),
        (IdStrategy::Snowflake { .. }, IdType::String(s)) => u64_text_ok(s@),
        (IdStrategy::ObjectId, IdType::String(s)) => object_id_text_ok(s@),
        (IdStrategy::Custom(_), IdType::String(_)) => true,
        _ => false,
    }
}

/// Whether `str::parse::<u64>` accepts `s`.
pub fn parses_as_u64(s: &str) -> (r: bool)
    ensures
        r == u64_text_ok(s@),
{
    let cs = chars_of(s);
    let start: usize = if cs.len() > 0 && cs[0] == '+' { 1 } else { 0 };
    let ghost d = unsigned_digits(s@);
    assert(d =~= s@.skip(start as int));
    if start >= cs.len() {
        return false;
    }
    let cap: u128 = 18446744073709551616u128;
    let mut v: u128 = 0;
    let mut i: usize = start;
    assert(d.take(0) =~= Seq::<char>::empty());
    while i < cs.len()
        invariant
            cs@ == s@,
            start <= i <= cs.len(),
            d =~= s@.skip(start as int),
            d == unsigned_digits(s@),
            cap == 18446744073709551616u128,
            v <= cap,
            v == if digits_value(d.take(i - start)) < cap { digits_value(d.take(i - start)) } else { cap as nat },
            forall|j: int| 0 <= j < i - start ==> is_digit_char(#[trigger] d[j]),
        decreases cs.len() - i,
    {
        let c = cs[i];
        assert(d[i - start] == c);
        if !('0' <= c && c <= '9') {
            assert(!is_digit_char(d[i - start]));
            return false;
        }
        let dv: u128 = ((c as u32) - ('0' as u32)) as u128;
        let ghost t = d.take(i - start + 1);
        assert(t.drop_last() =~= d.take(i - start));
        assert(t.last() == c);
        if v >= cap {
            v = cap;
        } else {
            let w = v * 10 + dv;
            v = if w >= cap { cap } else { w };
        }
        i = i + 1;
    }
    assert(d.take(i - start) =~= d);
    v < cap
}

/// Whether `s` is 24 bytes of hexadecimal digits.
pub fn is_object_id_text(s: &str) -> (r: bool)
    ensures
        r == object_id_text_ok(s@),
{
    if s.len() != 24 {
        return false;
    }
    let cs = chars_of(s);
    let mut i: usize = 0;
    while i < cs.len()
        invariant
            cs@ == s@,
            i <= cs.len(),
            forall|j: int| 0 <= j < i ==> is_hex_char(#[trigger] s@[j]),
        decreases cs.len() - i,
    {
        let c = cs[i];
        if !(('0' <= c && c <= '9') || ('a' <= c && c <= 'f') || ('A' <= c && c <= 'F')) {
            return false;
        }
        i = i + 1;
    }
    true
}

/// A generator of record IDs following a strategy.
#[derive(Debug)]
pub struct IdGenerator {
    strategy: IdStrategy,
    snowflake_generator: Option<SnowflakeGenerator>,
    auto_increment_counter: u64,
}

impl IdGenerator {
    /// The strategy.
    pub closed spec fn strategy_spec(self) -> IdStrategy {
        self.strategy
    }

    /// The next auto-increment value.
    pub closed spec fn counter(self) -> u64 {
        self.auto_increment_counter
    }

    /// The snowflake state, for the snowflake strategy.
    pub closed spec fn snowflake(self) -> Option<SnowflakeGenerator> {
        self.snowflake_generator
    }

    /// A generator for `strategy`, its counter at 1; fails for a snowflake strategy
    /// whose machine or datacenter is out of range.
    pub fn new(strategy: IdStrategy) -> (r: Result<IdGenerator, String>)
        ensures
            match strategy {
                IdStrategy::Snowflake { machine_id, datacenter_id } => if machine_id > 1023 {
                    r is Err && r->Err_0@ == "Machine ID must be between 0 and 1023"@
                } else if datacenter_id > 31 {
                    r is Err && r->Err_0@ == "Datacenter ID must be between 0 and 31"@
                } else {
                    r matches Ok(g) && g.strategy_spec() == strategy && g.counter() == 1 && (g.snowflake() matches Some(sf)
                        && sf.machine() == machine_id && sf.datacenter() == datacenter_id && sf.seq_counter() == 0
                        && sf.last() == 0)
                },
                _ => r matches Ok(g) && g.strategy_spec() == strategy && g.counter() == 1 && g.snowflake() is None,
            },
    {
        let snowflake_generator = match &strategy {
            IdStrategy::Snowflake { machine_id, datacenter_id } => {
                match SnowflakeGenerator::new(*machine_id, *datacenter_id) {
                    Ok(g) => Some(g),
                    Err(e) => { return Err(e); },
                }
            },
            _ => None,
        };
        Ok(IdGenerator { strategy, snowflake_generator, auto_increment_counter: 1 })
    }

    /// A copy of this generator's state.
    pub(crate) fn copied(&self) -> (r: IdGenerator)
        ensures
            r == *self,
    {
        let strategy = match &self.strategy {
            IdStrategy::AutoIncrement => IdStrategy::AutoIncrement,
            IdStrategy::Uuid => IdStrategy::Uuid,
            IdStrategy::Snowflake { machine_id, datacenter_id } => IdStrategy::Snowflake {
                machine_id: *machine_id,
                datacenter_id: *datacenter_id,
            },
            IdStrategy::ObjectId => IdStrategy::ObjectId,
            IdStrategy::Custom(g) => IdStrategy::Custom(g.clone()),
        };
        let snowflake_generator = match &self.snowflake_generator {
            Some(g) => Some(g.copied()),
            None => None,
        };
        IdGenerator { strategy, snowflake_generator, auto_increment_counter: self.auto_increment_counter }
    }

    /// The strategy.
    pub fn strategy(&self) -> (r: &IdStrategy)
        ensures
            *r == self.strategy_spec(),
    {
        &self.strategy
    }

    /// Sets the next auto-increment value.
    pub fn set_auto_increment_start(&mut self, start: u64)
        ensures
            final(self).counter() == start,
            final(self).strategy_spec() == old(self).strategy_spec(),
            final(self).snowflake() == old(self).snowflake(),
    {
        self.auto_increment_counter = start;
    }

    /// Whether an ID has the format of this generator's strategy.
    pub fn validate_id(&self, id: &IdType) -> (r: bool)
        ensures
            r == id_valid_for(self.strategy_spec(), *id),
    {
        match (&self.strategy, id) {
            (IdStrategy::AutoIncrement, IdType::Number(n)) => *n > 0,
            (IdStrategy::Uuid, IdType::String(s)) => uuid_parses(s.as_str()),
            (IdStrategy::Snowflake { .. }, IdType::String(s)) => parses_as_u64(s.as_str()),
            (IdStrategy::ObjectId, IdType::String(s)) => is_object_id_text(s.as_str()),
            (IdStrategy::Custom(_), IdType::String(_)) => true,
            _ => false,
        }
    }
}

/// The decimal rendering of a number is a non-empty digit string of that value.
pub proof fn lemma_nat_digits(n: nat)
    ensures
        nat_digits(n).len() > 0,
        forall|i: int| 0 <= i < nat_digits(n).len() ==> is_digit_char(#[trigger] nat_digits(n)[i]),
        digits_value(nat_digits(n)) == n,
    decreases n,
{
    reveal_with_fuel(nat_digits, 2);
    if n >= 10 {
        lemma_nat_digits(n / 10);
        let p = nat_digits(n / 10);
        let d = nat_digits(n);
        assert(d == p.push(crate::text::digit_char(n % 10)));
        assert(d.drop_last() =~= p);
        assert forall|i: int| 0 <= i < d.len() implies is_digit_char(#[trigger] d[i]) by {
            if i < p.len() {
                assert(d[i] == p[i]);
            }
        }
    }
    let d = nat_digits(n);
    let m = n % 10;
    assert(crate::text::digit_char(m) as u32 - '0' as u32 == m) by {
        assert(m < 10);
        if m == 0 {} else if m == 1 {} else if m == 2 {} else if m == 3 {} else if m == 4 {}
        else if m == 5 {} else if m == 6 {} else if m == 7 {} else if m == 8 {} else {}
    }
    assert(d.last() == crate::text::digit_char(m));
    assert(digits_value(d) == digits_value(d.drop_last()) * 10 + ((d.last() as u32) - ('0' as u32)) as nat);
    assert(((d.last() as u32) - ('0' as u32)) as nat == m);
    if n < 10 {
        assert(digits_value(Seq::<char>::empty()) == 0);
        assert(d.drop_last() =~= Seq::<char>::empty());
        assert(m == n);
    } else {
        assert(d.drop_last() =~= nat_digits(n / 10));
        assert(digits_value(d) == digits_value(nat_digits(n / 10)) * 10 + m);
        assert(n == (n / 10) * 10 + n % 10) by (nonlinear_arith);
    }
}

/// A zero-padded hex rendering has exactly `width` hex digits.
pub proof fn lemma_hex_padded(n: nat, width: nat)
    ensures
        hex_padded(n, width).len() == width,
        forall|i: int| 0 <= i < width ==> is_hex_char(#[trigger] hex_padded(n, width)[i]),
    decreases width,
{
    if width > 0 {
        lemma_hex_padded(n / 16, (width - 1) as nat);
        let p = hex_padded(n / 16, (width - 1) as nat);
        let h = hex_padded(n, width);
        assert forall|i: int| 0 <= i < width implies is_hex_char(#[trigger] h[i]) by {
            if i < width - 1 {
                assert(h[i] == p[i]);
            } else {
                let m = n % 16;
                assert(h[i] == crate::text::hex_char(m));
                assert(m < 16);
            }
        }
    }
}

/// What the generator does on one call, by strategy.
pub open spec fn generate_post(g0: IdGenerator, g1: IdGenerator, r: Result<IdType, String>) -> bool {
    &&& g1.strategy_spec() == g0.strategy_spec()
    &&& match g0.strategy_spec() {
        IdStrategy::AutoIncrement => {
            &&& r == Ok::<IdType, String>(IdType::Number(g0.counter() as i64))
            &&& g1.counter() == g0.counter().wrapping_add(1)
            &&& g1.snowflake() == g0.snowflake()
        },
        IdStrategy::Snowflake { .. } => {
            &&& g1.counter() == g0.counter()
            &&& match g0.snowflake() {
                None => r is Err && r->Err_0@ == "Snowflake generator not initialized"@ && g1.snowflake() is None,
                Some(sf0) => match r {
                    Ok(IdType::String(t)) => g1.snowflake() matches Some(sf1) && exists|id: u64|
                        snowflake_step(sf0, sf1, id) && t@ == nat_digits(id as nat),
                    Ok(IdType::Number(_)) => false,
                    Err(m) => g1.snowflake() == g0.snowflake() && (m@ == "Clock moved backwards"@ || m@ == "Clock did not advance"@),
                },
            }
        },
        IdStrategy::Uuid => {
            &&& r matches Ok(IdType::String(t)) && uuid_hyphenated(t@)
            &&& g1.counter() == g0.counter()
            &&& g1.snowflake() == g0.snowflake()
        },
        IdStrategy::ObjectId => {
            &&& r matches Ok(IdType::String(t)) && exists|secs: u32, rnd: u64| t@ == hex_padded(secs as nat, 8) + hex_padded(rnd as nat, 16)
            &&& g1.counter() == g0.counter()
            &&& g1.snowflake() == g0.snowflake()
        },
        IdStrategy::Custom(name) => {
            &&& r matches Ok(IdType::String(t)) && exists|nanos: u128| t@ == name@ + "_"@ + nat_digits(nanos as nat)
            &&& g1.counter() == g0.counter()
            &&& g1.snowflake() == g0.snowflake()
        },
    }
}

impl IdGenerator {
    /// A new ID: the counter's value (then advanced) for auto-increment; a random
    /// hyphenated UUID; a snowflake ID in decimal; 8 hex digits of Unix seconds
    /// and 16 of random bits for object IDs; `name_<Unix nanoseconds>` for a custom
    /// generator (a clock reading before the Unix epoch counts as 0). Every ID it returns has the strategy's format (an auto-increment
    /// ID while the counter is in `1..=i64::MAX`).
    pub fn generate(&mut self) -> (r: Result<IdType, String>)
        ensures
            generate_post(*old(self), *final(self), r),
            match r {
                Ok(id) => (old(self).strategy_spec() is AutoIncrement ==> 1 <= old(self).counter() <= i64::MAX)
                    ==> id_valid_for(final(self).strategy_spec(), id),
                Err(_) => true,
            },
    {
        match &self.strategy {
            IdStrategy::AutoIncrement => {
                let id = self.auto_increment_counter;
                self.auto_increment_counter = id.wrapping_add(1);
                Ok(IdType::Number(id as i64))
            },
            IdStrategy::Uuid => Ok(IdType::String(new_uuid_v4_text())),
            IdStrategy::Snowflake { .. } => {
                match &mut self.snowflake_generator {
                    Some(g) => {
                        match g.generate() {
                            Ok(id) => {
                                let t = crate::text::u64_to_string(id);
                                proof {
                                    lemma_nat_digits(id as nat);
                                    assert(unsigned_digits(t@) == t@);
                                }
                                Ok(IdType::String(t))
                            },
                            Err(e) => Err(e),
                        }
                    },
                    None => Err(str_to_string("Snowflake generator not initialized")),
                }
            },
            IdStrategy::ObjectId => {
                let secs: u32 = match unix_secs() {
                    Some(t) => t as u32,
                    None => 0,
                };
                let rnd = random_u64();
                let mut t = String::new();
                push_hex_padded(&mut t, secs as u64, 8);
                push_hex_padded(&mut t, rnd, 16);
                proof {
                    lemma_hex_padded(secs as nat, 8);
                    lemma_hex_padded(rnd as nat, 16);
                    let a = hex_padded(secs as nat, 8);
                    let b = hex_padded(rnd as nat, 16);
                    assert(t@ =~= a + b);
                    assert forall|i: int| 0 <= i < t@.len() implies is_hex_char(#[trigger] t@[i]) by {
                        if i < 8 {
                            assert(t@[i] == a[i]);
                        } else {
                            assert(t@[i] == b[i - 8]);
                        }
                    }
                    assert(is_ascii_chars(t@));
                    is_ascii_chars_encode_utf8(t@);
                }
                Ok(IdType::String(t))
            },
            IdStrategy::Custom(name) => {
                let mut t = name.clone();
                t.append("_");
                let nanos: u128 = match unix_nanos() {
                    Some(n) => n,
                    None => 0,
                };
                push_u128(&mut t, nanos);
                Ok(IdType::String(t))
            },
        }
    }
}

/// An auto-increment ID generator for a MongoDB collection.
#[derive(Debug)]
pub struct MongoAutoIncrementGenerator {
    collection_name: String,
    counter: u64,
}

impl MongoAutoIncrementGenerator {
    /// The collection.
    pub closed spec fn collection(self) -> Seq<char> {
        self.collection_name@
    }

    /// The next value.
    pub closed spec fn next_value(self) -> u64 {
        self.counter
    }

    /// A copy of this generator's state.
    pub(crate) fn copied(&self) -> (r: MongoAutoIncrementGenerator)
        ensures
            r == *self,
    {
        MongoAutoIncrementGenerator { collection_name: self.collection_name.clone(), counter: self.counter }
    }

    /// A generator for a collection, starting at 1.
    pub fn new(collection_name: String) -> (r: MongoAutoIncrementGenerator)
        ensures
            r.collection() == collection_name@,
            r.next_value() == 1,
    {
        MongoAutoIncrementGenerator { collection_name, counter: 1 }
    }

    /// The next ID: the counter's value, after which the counter advances.
    pub fn next_id(&mut self) -> (r: Result<i64, String>)
        ensures
            r == Ok::<i64, String>(old(self).next_value() as i64),
            final(self).next_value() == old(self).next_value().wrapping_add(1),
            final(self).collection() == old(self).collection(),
    {
        let id = self.counter;
        self.counter = id.wrapping_add(1);
        Ok(id as i64)
    }

    /// Sets the next value.
    pub fn set_start_value(&mut self, start: u64)
        ensures
            final(self).next_value() == start,
            final(self).collection() == old(self).collection(),
    {
        self.counter = start;
    }

    /// The next value.
    pub fn current_value(&self) -> (r: u64)
        ensures
            r == self.next_value(),
    {
        self.counter
    }

    /// Restarts the counter at 1.
    pub fn reset(&mut self)
        ensures
            final(self).next_value() == 1,
            final(self).collection() == old(self).collection(),
    {
        self.counter = 1;
    }
}

/// `gs` are the states of a MongoDB auto-increment generator across successive
/// `next_id` calls that returned `ids`: each call returns the state's next value
/// and advances it by one.
pub open spec fn counted_ids(gs: Seq<MongoAutoIncrementGenerator>, ids: Seq<i64>) -> bool {
    &&& gs.len() == ids.len() + 1
    &&& forall|i: int| 0 <= i < ids.len() ==> {
        &&& (#[trigger] gs[i + 1]).next_value() == gs[i].next_value().wrapping_add(1)
        &&& ids[i] == gs[i].next_value() as i64
    }
}

/// A fresh MongoDB auto-increment generator hands out 1, 2, 3, ...: after `k`
/// calls of `next_id` its current value is `1 + k`, and the `i`-th call returned
/// `1 + i` (while the values fit in an `i64`).
pub proof fn lemma_mongo_ids_count_up(gs: Seq<MongoAutoIncrementGenerator>, ids: Seq<i64>)
    requires
        counted_ids(gs, ids),
        gs[0].next_value() == 1,
        ids.len() < i64::MAX,
    ensures
        gs.last().next_value() == 1 + ids.len(),
        forall|i: int| 0 <= i < ids.len() ==> #[trigger] ids[i] == 1 + i,
{
    assert forall|j: int| 0 <= j < gs.len() implies #[trigger] gs[j].next_value() == 1 + j by {
        lemma_mongo_value_at(gs, ids, j);
    }
    assert forall|i: int| 0 <= i < ids.len() implies #[trigger] ids[i] == 1 + i by {
        lemma_mongo_value_at(gs, ids, i);
        assert(gs[i + 1].next_value() == gs[i].next_value().wrapping_add(1));
    }
}

proof fn lemma_mongo_value_at(gs: Seq<MongoAutoIncrementGenerator>, ids: Seq<i64>, j: int)
    requires
        counted_ids(gs, ids),
        gs[0].next_value() == 1,
        ids.len() < i64::MAX,
        0 <= j < gs.len(),
    ensures
        gs[j].next_value() == 1 + j,
    decreases j,
{
    if j > 0 {
        lemma_mongo_value_at(gs, ids, j - 1);
        assert(gs[(j - 1) + 1].next_value() == gs[j - 1].next_value().wrapping_add(1));
    }
}

} // verus!
