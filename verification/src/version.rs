//! Schema versions of tables and the migrations between them.
//!
//! Each table has a list of registered schema versions, numbered from 1 upwards;
//! the newest registration is the current one. A migration script is attached to
//! the version it leads to, and goes `Pending` -> `Success` when executed and
//! `Success` -> `Rollback` when rolled back; every execution and rollback leaves a
//! record in the migration history.

use vstd::prelude::*;
use crate::error::{QuickDbError, ErrorView};
use crate::types::Timestamp;
use crate::schema::TableSchema;
use crate::text::{nat_digits, int_digits, push_u64, push_i64, str_to_string, str_eq, push_char, chars_of};
use crate::outside::{now_or_epoch, new_uuid_v4_text, uuid_hyphenated, is_hex_char};

verus! {

/// The kind of a migration script.
#[derive(Debug, Clone, Copy, PartialEq, Eq, Structural)]
pub enum MigrationScriptType {
    /// Structure changes.
    Ddl,
    /// Data changes.
    Dml,
    /// Both.
    Mixed,
    /// Anything else.
    Custom,
}

/// Where a migration stands.
#[derive(Debug, Clone, Copy, PartialEq, Eq, Structural)]
pub enum MigrationStatus {
    Pending,
    Running,
    Success,
    Failed,
    Rollback,
}

/// The name of a status, as `{:?}` prints it.
pub open spec fn status_name(s: MigrationStatus) -> Seq<char> {
    match s {
        MigrationStatus::Pending => "Pending"@,
        MigrationStatus::Running => "Running"@,
        MigrationStatus::Success => "Success"@,
        MigrationStatus::Failed => "Failed"@,
        MigrationStatus::Rollback => "Rollback"@,
    }
}

fn status_str(s: MigrationStatus) -> (r: &'static str)
    ensures
        r@ == status_name(s),
{
    match s {
        MigrationStatus::Pending => "Pending",
        MigrationStatus::Running => "Running",
        MigrationStatus::Success => "Success",
        MigrationStatus::Failed => "Failed",
        MigrationStatus::Rollback => "Rollback",
    }
}

/// A migration script between two versions of a table.
#[derive(Debug)]
pub struct MigrationScript {
    pub id: String,
    pub from_version: u32,
    pub to_version: u32,
    pub up_script: String,
    pub down_script: Option<String>,
    pub script_type: MigrationScriptType,
    pub created_at: Timestamp,
    pub executed_at: Option<Timestamp>,
    pub status: MigrationStatus,
}

/// One registered version of a table's schema.
#[derive(Debug)]
pub struct SchemaVersion {
    pub table_name: String,
    pub version: u32,
    pub schema: TableSchema,
    pub created_at: Timestamp,
    /// The migration that leads to this version, once created.
    pub migration_script: Option<MigrationScript>,
    pub description: Option<String>,
    pub is_current: bool,
}

/// One execution or rollback of a migration.
#[derive(Debug)]
pub struct MigrationRecord {
    pub id: String,
    pub table_name: String,
    pub migration_id: String,
    pub from_version: u32,
    pub to_version: u32,
    pub started_at: Timestamp,
    pub completed_at: Option<Timestamp>,
    pub status: MigrationStatus,
    pub error_message: Option<String>,
    pub duration_ms: Option<u64>,
}

/// The versions registered for one table.
#[derive(Debug)]
pub struct TableVersions {
    pub table_name: String,
    pub versions: Vec<SchemaVersion>,
}

/// The version store and the migration history.
#[derive(Debug)]
pub struct VersionManager {
    tables: Vec<TableVersions>,
    history: Vec<MigrationRecord>,
}

// ---------------------------------------------------------------------------
// Searching sequences
// ---------------------------------------------------------------------------

/// The index of the first element of `s` that satisfies `p`, or -1 when none does.
pub open spec fn first_index<T>(s: Seq<T>, p: spec_fn(T) -> bool) -> int
    decreases s.len(),
{
    if s.len() == 0 {
        -1
    } else if p(s[0]) {
        0
    } else {
        let r = first_index(s.skip(1), p);
        if r < 0 {
            -1
        } else {
            r + 1
        }
    }
}

/// `first_index` is the position of the first match.
pub proof fn lemma_first_index_at<T>(s: Seq<T>, p: spec_fn(T) -> bool, i: int)
    requires
        0 <= i <= s.len(),
        forall|j: int| 0 <= j < i ==> !p(#[trigger] s[j]),
        i < s.len() ==> p(s[i]),
    ensures
        first_index(s, p) == if i < s.len() { i } else { -1 },
    decreases i,
{
    if i > 0 {
        assert(!p(s[0]));
        let t = s.skip(1);
        assert forall|j: int| 0 <= j < i - 1 implies !p(#[trigger] t[j]) by {
            assert(t[j] == s[j + 1]);
        }
        if i < s.len() {
            assert(t[i - 1] == s[i]);
        }
        lemma_first_index_at(t, p, i - 1);
    }
}

/// What `first_index` returns: -1 when nothing matches, else a match with no match before it.
pub proof fn lemma_first_index_props<T>(s: Seq<T>, p: spec_fn(T) -> bool)
    ensures
        -1 <= first_index(s, p) < s.len(),
        first_index(s, p) >= 0 ==> p(s[first_index(s, p)]),
        forall|j: int| 0 <= j < s.len() && (first_index(s, p) < 0 || j < first_index(s, p)) ==> !p(
            #[trigger] s[j],
        ),
    decreases s.len(),
{
    if s.len() > 0 && !p(s[0]) {
        let t = s.skip(1);
        lemma_first_index_props(t, p);
        assert forall|j: int|
            0 <= j < s.len() && (first_index(s, p) < 0 || j < first_index(s, p)) implies !p(
            #[trigger] s[j],
        ) by {
            if j > 0 {
                assert(s[j] == t[j - 1]);
            }
        }
        if first_index(s, p) >= 0 {
            assert(s[first_index(s, p)] == t[first_index(t, p)]);
        }
    }
}

/// Table entries named `name`.
pub open spec fn name_is(name: Seq<char>) -> spec_fn(TableVersions) -> bool {
    |e: TableVersions| e.table_name@ == name
}

/// Versions marked current.
pub open spec fn is_current_version() -> spec_fn(SchemaVersion) -> bool {
    |v: SchemaVersion| v.is_current
}

/// Versions numbered `n`.
pub open spec fn numbered(n: int) -> spec_fn(SchemaVersion) -> bool {
    |v: SchemaVersion| v.version == n
}

/// The versions stored for `name` (empty when the table is unknown).
pub open spec fn versions_of(ts: Seq<TableVersions>, name: Seq<char>) -> Seq<SchemaVersion> {
    let k = first_index(ts, name_is(name));
    if k < 0 {
        Seq::empty()
    } else {
        ts[k].versions@
    }
}

/// The current version of `name`: the first one marked current.
pub open spec fn current_version(ts: Seq<TableVersions>, name: Seq<char>) -> Option<SchemaVersion> {
    let vs = versions_of(ts, name);
    let k = first_index(vs, is_current_version());
    if k < 0 {
        None
    } else {
        Some(vs[k])
    }
}

/// The highest version number in `vs` (0 when empty).
pub open spec fn max_version(vs: Seq<SchemaVersion>) -> nat
    decreases vs.len(),
{
    if vs.len() == 0 {
        0
    } else {
        let m = max_version(vs.drop_last());
        if vs.last().version > m {
            vs.last().version as nat
        } else {
            m
        }
    }
}

/// Every version of `vs` is at most [`max_version`].
pub proof fn lemma_max_version_bounds(vs: Seq<SchemaVersion>)
    ensures
        forall|i: int| 0 <= i < vs.len() ==> #[trigger] vs[i].version <= max_version(vs),
        vs.len() > 0 ==> exists|i: int| 0 <= i < vs.len() && vs[i].version == max_version(vs),
    decreases vs.len(),
{
    if vs.len() > 0 {
        let d = vs.drop_last();
        lemma_max_version_bounds(d);
        assert forall|i: int| 0 <= i < vs.len() implies #[trigger] vs[i].version <= max_version(vs) by {
            if i < vs.len() - 1 {
                assert(vs[i] == d[i]);
            }
        }
        if vs.last().version <= max_version(d) && d.len() > 0 {
            let i = choose|i: int| 0 <= i < d.len() && d[i].version == max_version(d);
            assert(vs[i] == d[i]);
        }
    }
}

/// `vs` with every version unmarked as current.
pub open spec fn demoted(vs: Seq<SchemaVersion>) -> Seq<SchemaVersion> {
    vs.map_values(|v: SchemaVersion| SchemaVersion { is_current: false, ..v })
}

/// `v` is the version numbered `version` just registered for `name` with `schema`
/// and `description`, current and without a migration.
pub open spec fn fresh_version(
    v: SchemaVersion,
    name: Seq<char>,
    version: int,
    schema: TableSchema,
    description: Option<String>,
) -> bool {
    &&& v.table_name@ == name
    &&& v.version == version
    &&& v.schema == schema
    &&& v.migration_script is None
    &&& v.description == description
    &&& v.is_current
}

/// `new_ts` is `old_ts` after registering version `version` of `name`: every earlier
/// version of `name` is unmarked and the new one appended; other tables are untouched.
pub open spec fn registered(
    old_ts: Seq<TableVersions>,
    new_ts: Seq<TableVersions>,
    name: Seq<char>,
    version: int,
    schema: TableSchema,
    description: Option<String>,
) -> bool {
    let k = first_index(old_ts, name_is(name));
    if k < 0 {
        &&& new_ts.len() == old_ts.len() + 1
        &&& new_ts.take(old_ts.len() as int) == old_ts
        &&& new_ts.last().table_name@ == name
        &&& new_ts.last().versions@.len() == 1
        &&& fresh_version(new_ts.last().versions@[0], name, version, schema, description)
    } else {
        let vs = new_ts[k].versions@;
        &&& new_ts.len() == old_ts.len()
        &&& forall|j: int| 0 <= j < old_ts.len() && j != k ==> new_ts[j] == old_ts[j]
        &&& new_ts[k].table_name == old_ts[k].table_name
        &&& vs.len() == old_ts[k].versions@.len() + 1
        &&& vs.drop_last() == demoted(old_ts[k].versions@)
        &&& fresh_version(vs.last(), name, version, schema, description)
    }
}

/// Whether no two table entries share a name.
pub open spec fn names_distinct(ts: Seq<TableVersions>) -> bool {
    forall|i: int, j: int| 0 <= i < j < ts.len() ==> ts[i].table_name@ != ts[j].table_name@
}

impl VersionManager {
    /// The table entries, in the order in which tables were first registered.
    pub closed spec fn entries(self) -> Seq<TableVersions> {
        self.tables@
    }

    /// The migration history, oldest first.
    pub closed spec fn records(self) -> Seq<MigrationRecord> {
        self.history@
    }

    /// No two table entries share a name.
    pub open spec fn wf(self) -> bool {
        names_distinct(self.entries())
    }

    /// An empty manager.
    pub fn new() -> (r: VersionManager)
        ensures
            r.wf(),
            r.entries() == Seq::<TableVersions>::empty(),
            r.records() == Seq::<MigrationRecord>::empty(),
    {
        VersionManager { tables: Vec::new(), history: Vec::new() }
    }

    /// The position of the table entry named `table_name`.
    fn find_table(&self, table_name: &str) -> (r: Option<usize>)
        ensures
            match r {
                None => first_index(self.entries(), name_is(table_name@)) == -1,
                Some(k) => k == first_index(self.entries(), name_is(table_name@)) && k
                    < self.entries().len(),
            },
    {
        let mut i: usize = 0;
        while i < self.tables.len()
            invariant
                i <= self.tables.len(),
                forall|j: int| 0 <= j < i ==> !name_is(table_name@)(#[trigger] self.tables@[j]),
            decreases self.tables.len() - i,
        {
            if str_eq(self.tables[i].table_name.as_str(), table_name) {
                proof {
                    lemma_first_index_at(self.tables@, name_is(table_name@), i as int);
                }
                return Some(i);
            }
            i = i + 1;
        }
        proof {
            lemma_first_index_at(self.tables@, name_is(table_name@), i as int);
        }
        None
    }
}


/// Registering a version keeps the table names pairwise different.
proof fn lemma_registered_keeps_names(
    old_ts: Seq<TableVersions>,
    new_ts: Seq<TableVersions>,
    name: Seq<char>,
    version: int,
    schema: TableSchema,
    description: Option<String>,
)
    requires
        names_distinct(old_ts),
        registered(old_ts, new_ts, name, version, schema, description),
    ensures
        names_distinct(new_ts),
{
    lemma_first_index_props(old_ts, name_is(name));
    let k = first_index(old_ts, name_is(name));
    if k < 0 {
        assert forall|i: int, j: int| 0 <= i < j < new_ts.len() implies new_ts[i].table_name@ != new_ts[j].table_name@ by {
            assert(new_ts[i] == old_ts[i]);
            if j < old_ts.len() {
                assert(new_ts[j] == old_ts[j]);
            } else {
                assert(!name_is(name)(old_ts[i]));
            }
        }
    } else {
        assert forall|i: int, j: int| 0 <= i < j < new_ts.len() implies new_ts[i].table_name@ != new_ts[j].table_name@ by {
            assert(new_ts[i].table_name == old_ts[i].table_name);
            assert(new_ts[j].table_name == old_ts[j].table_name);
        }
    }
}

impl VersionManager {
    /// Registers a new version of `table_name`'s schema and returns its number:
    /// one more than the highest number registered for the table so far (1 for a
    /// new table). The new version becomes the current one; every earlier version
    /// of the table stops being current.
    pub fn register_version(&mut self, table_name: String, schema: TableSchema, description: Option<String>) -> (r:
        Result<u32, QuickDbError>)
        requires
            max_version(versions_of(old(self).entries(), table_name@)) < u32::MAX,
        ensures
            old(self).wf() ==> final(self).wf(),
            r == Ok::<u32, QuickDbError>((max_version(versions_of(old(self).entries(), table_name@)) + 1) as u32),
            registered(
                old(self).entries(),
                final(self).entries(),
                table_name@,
                max_version(versions_of(old(self).entries(), table_name@)) + 1int,
                schema,
                description,
            ),
            final(self).records() == old(self).records(),
    {
        let now = now_or_epoch();
        let pos = self.find_table(table_name.as_str());
        match pos {
            None => {
                let v = SchemaVersion {
                    table_name: table_name.clone(),
                    version: 1,
                    schema,
                    created_at: now,
                    migration_script: None,
                    description,
                    is_current: true,
                };
                let mut vs: Vec<SchemaVersion> = Vec::new();
                vs.push(v);
                self.tables.push(TableVersions { table_name, versions: vs });
                proof {
                    assert(self.tables@.take(old(self).tables@.len() as int) =~= old(self).tables@);
                }
                proof {
                    if old(self).wf() {
                        lemma_registered_keeps_names(
                            old(self).entries(),
                            self.entries(),
                            table_name@,
                            max_version(versions_of(old(self).entries(), table_name@)) + 1int,
                            schema,
                            description,
                        );
                    }
                }
                Ok(1)
            },
            Some(k) => {
                let ghost old_tables = self.tables@;
                let entry = self.tables.remove(k);
                let TableVersions { table_name: entry_name, versions: mut rest } = entry;
                let ghost orig = rest@;
                assert(orig.len() == rest.len());
                let mut kept: Vec<SchemaVersion> = Vec::new();
                let mut m: u32 = 0;
                let mut i: usize = 0;
                while rest.len() > 0
                    invariant
                        i + rest@.len() == orig.len(),
                        orig.len() <= usize::MAX,
                        rest@ == orig.skip(i as int),
                        kept@ == demoted(orig.take(i as int)),
                        m == max_version(orig.take(i as int)),
                    decreases rest@.len(),
                {
                    let mut v = rest.remove(0);
                    proof {
                        assert(v == orig[i as int]);
                        assert(orig.take(i + 1).drop_last() =~= orig.take(i as int));
                        assert(orig.skip(i + 1) =~= orig.skip(i as int).remove(0));
                    }
                    if v.version > m {
                        m = v.version;
                    }
                    v.is_current = false;
                    kept.push(v);
                    i = i + 1;
                    proof {
                        assert(kept@ =~= demoted(orig.take(i as int)));
                    }
                }
                proof {
                    assert(orig.take(i as int) =~= orig);
                }
                let version: u32 = m + 1;
                let v = SchemaVersion {
                    table_name: table_name,
                    version,
                    schema,
                    created_at: now,
                    migration_script: None,
                    description,
                    is_current: true,
                };
                kept.push(v);
                self.tables.insert(k, TableVersions { table_name: entry_name, versions: kept });
                proof {
                    assert(self.tables@ =~= old_tables.update(k as int, self.tables@[k as int]));
                    assert(kept@.drop_last() =~= demoted(orig));
                }
                proof {
                    if old(self).wf() {
                        lemma_registered_keeps_names(
                            old(self).entries(),
                            self.entries(),
                            table_name@,
                            max_version(versions_of(old(self).entries(), table_name@)) + 1int,
                            schema,
                            description,
                        );
                    }
                }
                Ok(version)
            },
        }
    }
}


proof fn lemma_max_version_demoted(vs: Seq<SchemaVersion>)
    ensures
        max_version(demoted(vs)) == max_version(vs),
        demoted(vs).len() == vs.len(),
    decreases vs.len(),
{
    if vs.len() > 0 {
        assert(demoted(vs).drop_last() =~= demoted(vs.drop_last()));
        lemma_max_version_demoted(vs.drop_last());
    }
}

/// Looking up another table is unaffected by a change confined to entry `k`, whose
/// name stays the same.
proof fn lemma_lookup_other(
    old_ts: Seq<TableVersions>,
    new_ts: Seq<TableVersions>,
    k: int,
    other: Seq<char>,
)
    requires
        0 <= k < old_ts.len(),
        new_ts.len() == old_ts.len(),
        forall|j: int| 0 <= j < old_ts.len() && j != k ==> new_ts[j] == old_ts[j],
        new_ts[k].table_name == old_ts[k].table_name,
        old_ts[k].table_name@ != other,
    ensures
        first_index(new_ts, name_is(other)) == first_index(old_ts, name_is(other)),
        versions_of(new_ts, other) == versions_of(old_ts, other),
{
    lemma_first_index_props(old_ts, name_is(other));
    let f = first_index(old_ts, name_is(other));
    let i = if f < 0 { old_ts.len() as int } else { f };
    assert forall|j: int| 0 <= j < i implies !name_is(other)(#[trigger] new_ts[j]) by {
        if j != k {
            assert(new_ts[j] == old_ts[j]);
            assert(!name_is(other)(old_ts[j]));
        }
    }
    if f >= 0 {
        assert(f != k);
        assert(new_ts[f] == old_ts[f]);
    }
    lemma_first_index_at(new_ts, name_is(other), i);
}

/// After registering a version of `name` numbered one above its highest, that
/// version is the table's current one, no other version of the table is current,
/// every other version has a lower number, and every other table keeps its versions.
pub proof fn lemma_registered_version_is_current(
    old_ts: Seq<TableVersions>,
    new_ts: Seq<TableVersions>,
    name: Seq<char>,
    version: int,
    schema: TableSchema,
    description: Option<String>,
)
    requires
        registered(old_ts, new_ts, name, version, schema, description),
        version == max_version(versions_of(old_ts, name)) + 1,
    ensures
        current_version(new_ts, name) matches Some(v) && fresh_version(v, name, version, schema, description),
        versions_of(new_ts, name).len() == versions_of(old_ts, name).len() + 1,
        versions_of(new_ts, name).last() == current_version(new_ts, name)->0,
        forall|i: int|
            0 <= i < versions_of(new_ts, name).len() - 1 ==> !(#[trigger] versions_of(new_ts, name)[i]).is_current
                && versions_of(new_ts, name)[i].version < version,
        max_version(versions_of(new_ts, name)) == version,
        forall|other: Seq<char>| other != name ==> #[trigger] versions_of(new_ts, other) == versions_of(old_ts, other),
{
    let k = first_index(old_ts, name_is(name));
    lemma_first_index_props(old_ts, name_is(name));
    let old_vs = versions_of(old_ts, name);
    lemma_max_version_bounds(old_vs);
    if k < 0 {
        let n = old_ts.len() as int;
        assert forall|j: int| 0 <= j < n implies !name_is(name)(#[trigger] new_ts[j]) by {
            assert(new_ts[j] == new_ts.take(n)[j]);
        }
        lemma_first_index_at(new_ts, name_is(name), n);
        let vs = new_ts[n].versions@;
        lemma_first_index_at(vs, is_current_version(), 0);
        assert(vs.drop_last().len() == 0);
        assert(max_version(vs.drop_last()) == 0);
        assert(max_version(vs) == version);
        assert forall|other: Seq<char>| other != name implies #[trigger] versions_of(new_ts, other) == versions_of(
            old_ts,
            other,
        ) by {
            lemma_first_index_props(old_ts, name_is(other));
            let f = first_index(old_ts, name_is(other));
            let i = if f < 0 { n + 1 } else { f };
            assert forall|j: int| 0 <= j < i implies !name_is(other)(#[trigger] new_ts[j]) by {
                if j < n {
                    assert(new_ts[j] == new_ts.take(n)[j]);
                }
            }
            if f >= 0 {
                assert(new_ts[f] == new_ts.take(n)[f]);
            }
            lemma_first_index_at(new_ts, name_is(other), i);
        }
    } else {
        assert forall|j: int| 0 <= j < k implies !name_is(name)(#[trigger] new_ts[j]) by {
            assert(new_ts[j] == old_ts[j]);
        }
        lemma_first_index_at(new_ts, name_is(name), k);
        let vs = new_ts[k].versions@;
        let n = vs.len() - 1;
        lemma_max_version_demoted(old_vs);
        assert forall|j: int| 0 <= j < n implies !is_current_version()(#[trigger] vs[j]) by {
            assert(vs[j] == vs.drop_last()[j]);
        }
        lemma_first_index_at(vs, is_current_version(), n);
        assert forall|i: int| 0 <= i < n implies !(#[trigger] vs[i]).is_current && vs[i].version < version by {
            assert(vs[i] == vs.drop_last()[i]);
            assert(vs[i].version == old_vs[i].version);
        }
        assert(vs.drop_last() == demoted(old_vs));
        assert(max_version(vs.drop_last()) == max_version(old_vs));
        assert(max_version(vs) == version);
        assert forall|other: Seq<char>| other != name implies #[trigger] versions_of(new_ts, other) == versions_of(
            old_ts,
            other,
        ) by {
            lemma_lookup_other(old_ts, new_ts, k, other);
        }
    }
}


/// The version of `name` numbered `n`: the first one with that number.
pub open spec fn version_numbered(ts: Seq<TableVersions>, name: Seq<char>, n: int) -> Option<SchemaVersion> {
    let vs = versions_of(ts, name);
    let k = first_index(vs, numbered(n));
    if k < 0 {
        None
    } else {
        Some(vs[k])
    }
}

impl VersionManager {
    /// The current version of `table_name`, if the table is known and one of its
    /// versions is marked current.
    pub fn get_current_version(&self, table_name: &str) -> (r: Option<&SchemaVersion>)
        ensures
            match r {
                Some(v) => current_version(self.entries(), table_name@) == Some(*v),
                None => current_version(self.entries(), table_name@) is None,
            },
    {
        match self.find_table(table_name) {
            None => None,
            Some(k) => {
                let vs = &self.tables[k].versions;
                let mut i: usize = 0;
                while i < vs.len()
                    invariant
                        vs@ == versions_of(self.entries(), table_name@),
                        i <= vs.len(),
                        forall|j: int| 0 <= j < i ==> !is_current_version()(#[trigger] vs@[j]),
                    decreases vs.len() - i,
                {
                    if vs[i].is_current {
                        proof {
                            lemma_first_index_at(vs@, is_current_version(), i as int);
                        }
                        return Some(&vs[i]);
                    }
                    i = i + 1;
                }
                proof {
                    lemma_first_index_at(vs@, is_current_version(), i as int);
                }
                None
            },
        }
    }

    /// The version of `table_name` numbered `version`, if registered.
    pub fn get_version(&self, table_name: &str, version: u32) -> (r: Option<&SchemaVersion>)
        ensures
            match r {
                Some(v) => version_numbered(self.entries(), table_name@, version as int) == Some(*v),
                None => version_numbered(self.entries(), table_name@, version as int) is None,
            },
    {
        match self.find_table(table_name) {
            None => None,
            Some(k) => {
                let vs = &self.tables[k].versions;
                let mut i: usize = 0;
                while i < vs.len()
                    invariant
                        vs@ == versions_of(self.entries(), table_name@),
                        i <= vs.len(),
                        forall|j: int| 0 <= j < i ==> !numbered(version as int)(#[trigger] vs@[j]),
                    decreases vs.len() - i,
                {
                    if vs[i].version == version {
                        proof {
                            lemma_first_index_at(vs@, numbered(version as int), i as int);
                        }
                        return Some(&vs[i]);
                    }
                    i = i + 1;
                }
                proof {
                    lemma_first_index_at(vs@, numbered(version as int), i as int);
                }
                None
            },
        }
    }

    /// All versions registered for `table_name`, in registration order, if the table is known.
    pub fn get_all_versions(&self, table_name: &str) -> (r: Option<&Vec<SchemaVersion>>)
        ensures
            match r {
                Some(vs) => first_index(self.entries(), name_is(table_name@)) >= 0 && vs@ == versions_of(
                    self.entries(),
                    table_name@,
                ),
                None => first_index(self.entries(), name_is(table_name@)) < 0,
            },
    {
        match self.find_table(table_name) {
            None => None,
            Some(k) => Some(&self.tables[k].versions),
        }
    }

    /// Every table with its versions, in the order in which tables were first registered.
    pub fn all_versions(&self) -> (r: &Vec<TableVersions>)
        ensures
            r@ == self.entries(),
    {
        &self.tables
    }

    /// Replaces every table's versions by `tables`, no two of them for the same
    /// table; the migration history stays.
    pub fn replace_versions(&mut self, tables: Vec<TableVersions>)
        requires
            names_distinct(tables@),
        ensures
            final(self).wf(),
            final(self).entries() == tables@,
            final(self).records() == old(self).records(),
    {
        self.tables = tables;
    }

    /// Whether the table's current version is newer than `current_db_version`
    /// (`false` when the table has no current version).
    pub fn needs_migration(&self, table_name: &str, current_db_version: u32) -> (r: bool)
        ensures
            r == match current_version(self.entries(), table_name@) {
                Some(v) => v.version > current_db_version,
                None => false,
            },
    {
        match self.get_current_version(table_name) {
            Some(v) => v.version > current_db_version,
            None => false,
        }
    }
}


/// Versions numbered above `n`.
pub open spec fn newer_than(n: int) -> spec_fn(SchemaVersion) -> bool {
    |w: SchemaVersion| w.version > n
}

/// `s` with `v` inserted before the first element numbered above `v`.
pub open spec fn insert_by_version(s: Seq<SchemaVersion>, v: SchemaVersion) -> Seq<SchemaVersion> {
    let k = first_index(s, newer_than(v.version as int));
    let pos = if k < 0 {
        s.len() as int
    } else {
        k
    };
    s.insert(pos, v)
}

/// `vs` ordered by version number, keeping registration order among equal numbers
/// (a stable sort).
pub open spec fn by_version(vs: Seq<SchemaVersion>) -> Seq<SchemaVersion>
    decreases vs.len(),
{
    if vs.len() == 0 {
        Seq::empty()
    } else {
        insert_by_version(by_version(vs.drop_last()), vs.last())
    }
}

/// The versions that references point to.
pub open spec fn derefs(s: Seq<&SchemaVersion>) -> Seq<SchemaVersion> {
    s.map_values(|x: &SchemaVersion| *x)
}

/// [`by_version`] orders by ascending version number and keeps exactly the
/// versions it was given.
pub proof fn lemma_by_version_sorted(vs: Seq<SchemaVersion>)
    ensures
        by_version(vs).len() == vs.len(),
        by_version(vs).to_multiset() == vs.to_multiset(),
        forall|i: int, j: int|
            0 <= i < j < vs.len() ==> (#[trigger] by_version(vs)[i]).version <= (#[trigger] by_version(
                vs,
            )[j]).version,
    decreases vs.len(),
{
    broadcast use vstd::seq_lib::to_multiset_insert, vstd::seq_lib::to_multiset_build;

    if vs.len() > 0 {
        let d = vs.drop_last();
        let v = vs.last();
        lemma_by_version_sorted(d);
        let s = by_version(d);
        let p = newer_than(v.version as int);
        lemma_first_index_props(s, p);
        let k = first_index(s, p);
        let pos = if k < 0 {
            s.len() as int
        } else {
            k
        };
        let r = s.insert(pos, v);
        assert(vs =~= d.push(v));
        assert(by_version(vs) == r);
        assert(r.to_multiset() == s.to_multiset().insert(v));
        assert(d.push(v).to_multiset() == d.to_multiset().insert(v));
        assert forall|i: int, j: int| 0 <= i < j < vs.len() implies (#[trigger] r[i]).version <= (
        #[trigger] r[j]).version by {
            if j < pos {
                assert(r[i] == s[i] && r[j] == s[j]);
            } else if j == pos {
                assert(r[i] == s[i]);
                assert(!p(s[i]));
            } else if i < pos {
                assert(r[i] == s[i] && r[j] == s[j - 1]);
            } else if i == pos {
                assert(r[j] == s[j - 1]);
                assert(p(s[k]));
                assert(s[k].version <= s[j - 1].version || k == j - 1);
            } else {
                assert(r[i] == s[i - 1] && r[j] == s[j - 1]);
            }
        }
    } else {
        assert(by_version(vs) =~= vs);
    }
}

impl VersionManager {
    /// The versions of `table_name` ordered by version number (registration order
    /// among equal numbers); empty when the table is unknown.
    pub fn get_version_history(&self, table_name: &str) -> (r: Vec<&SchemaVersion>)
        ensures
            derefs(r@) == by_version(versions_of(self.entries(), table_name@)),
    {
        let mut out: Vec<&SchemaVersion> = Vec::new();
        match self.find_table(table_name) {
            None => {
                proof {
                    assert(derefs(out@) =~= Seq::<SchemaVersion>::empty());
                }
                out
            },
            Some(k) => {
                let vs = &self.tables[k].versions;
                let mut i: usize = 0;
                while i < vs.len()
                    invariant
                        vs@ == versions_of(self.entries(), table_name@),
                        i <= vs.len(),
                        derefs(out@) == by_version(vs@.take(i as int)),
                    decreases vs.len() - i,
                {
                    let v = &vs[i];
                    let ghost s = derefs(out@);
                    let mut j: usize = 0;
                    while j < out.len() && out[j].version <= v.version
                        invariant
                            s == derefs(out@),
                            j <= out.len(),
                            forall|q: int| 0 <= q < j ==> !newer_than(v.version as int)(#[trigger] s[q]),
                        decreases out.len() - j,
                    {
                        j = j + 1;
                    }
                    proof {
                        lemma_first_index_at(s, newer_than(v.version as int), j as int);
                        assert(vs@.take(i + 1).drop_last() =~= vs@.take(i as int));
                    }
                    out.insert(j, v);
                    proof {
                        assert(derefs(out@) =~= s.insert(j as int, *v));
                    }
                    i = i + 1;
                }
                proof {
                    assert(vs@.take(i as int) =~= vs@);
                }
                out
            },
        }
    }
}


// ---------------------------------------------------------------------------
// Migrations
// ---------------------------------------------------------------------------

/// Versions holding the migration `id`.
pub open spec fn holds_migration(id: Seq<char>) -> spec_fn(SchemaVersion) -> bool {
    |v: SchemaVersion| v.migration_script is Some && v.migration_script->0.id@ == id
}

/// The migration `id` of table `name`: the one held by the first version holding it.
pub open spec fn find_migration(ts: Seq<TableVersions>, name: Seq<char>, id: Seq<char>) -> Option<MigrationScript> {
    let vs = versions_of(ts, name);
    let p = first_index(vs, holds_migration(id));
    if p < 0 {
        None
    } else {
        vs[p].migration_script
    }
}

/// A validation error on `field` with `message`.
pub open spec fn invalid(field: Seq<char>, message: Seq<char>) -> ErrorView {
    ErrorView::ValidationError { field, message }
}

/// Whether migration `id` of `name` may be executed (it exists and is pending),
/// and the error otherwise.
pub open spec fn execute_check(ts: Seq<TableVersions>, name: Seq<char>, id: Seq<char>) -> Result<MigrationScript, ErrorView> {
    match find_migration(ts, name, id) {
        None => Err(invalid("migration_id"@, "迁移脚本 "@ + id + " 不存在"@)),
        Some(m) => if m.status != MigrationStatus::Pending {
            Err(invalid("migration_status"@, "迁移脚本 "@ + id + " 状态不正确: "@ + status_name(m.status)))
        } else {
            Ok(m)
        },
    }
}

/// Whether migration `id` of `name` may be rolled back (it exists, has a down
/// script and has succeeded), and the error otherwise.
pub open spec fn rollback_check(ts: Seq<TableVersions>, name: Seq<char>, id: Seq<char>) -> Result<MigrationScript, ErrorView> {
    match find_migration(ts, name, id) {
        None => Err(invalid("migration_id"@, "迁移脚本 "@ + id + " 不存在"@)),
        Some(m) => if m.down_script is None {
            Err(invalid("down_script"@, "迁移脚本 "@ + id + " 没有回滚脚本"@))
        } else if m.status != MigrationStatus::Success {
            Err(invalid("migration_status"@, "迁移脚本 "@ + id + " 状态不正确，无法回滚: "@ + status_name(m.status)))
        } else {
            Ok(m)
        },
    }
}

/// `new_ts` is `old_ts` with the migration held by version `p` of entry `k` given
/// `status` and `executed_at`, and nothing else changed.
pub open spec fn state_set(
    old_ts: Seq<TableVersions>,
    new_ts: Seq<TableVersions>,
    k: int,
    p: int,
    status: MigrationStatus,
    executed_at: Option<Timestamp>,
) -> bool {
    let vs = old_ts[k].versions@;
    let nvs = new_ts[k].versions@;
    &&& 0 <= k < old_ts.len()
    &&& 0 <= p < vs.len()
    &&& new_ts.len() == old_ts.len()
    &&& forall|j: int| 0 <= j < old_ts.len() && j != k ==> new_ts[j] == old_ts[j]
    &&& new_ts[k].table_name == old_ts[k].table_name
    &&& nvs.len() == vs.len()
    &&& forall|q: int| 0 <= q < vs.len() && q != p ==> nvs[q] == vs[q]
    &&& nvs[p] == (SchemaVersion {
        migration_script: Some(MigrationScript { status, executed_at, ..vs[p].migration_script->0 }),
        ..vs[p]
    })
}

/// `new_ts` is `old_ts` with migration `id` of `name` given `status` and `executed_at`.
pub open spec fn migration_updated(
    old_ts: Seq<TableVersions>,
    new_ts: Seq<TableVersions>,
    name: Seq<char>,
    id: Seq<char>,
    status: MigrationStatus,
    executed_at: Option<Timestamp>,
) -> bool {
    let k = first_index(old_ts, name_is(name));
    let p = first_index(old_ts[k].versions@, holds_migration(id));
    k >= 0 && p >= 0 && state_set(old_ts, new_ts, k, p, status, executed_at)
}

/// Nanoseconds since the epoch of a point in time.
pub open spec fn total_nanos(t: Timestamp) -> int {
    t.secs * 1_000_000_000 + t.nanos
}

/// Whole milliseconds from `start` to `end`, truncated toward zero (negative when
/// `end` is earlier), as `chrono`'s `signed_duration_since(..).num_milliseconds()`
/// counts them.
pub open spec fn elapsed_ms(start: Timestamp, end: Timestamp) -> int {
    let d = total_nanos(end) - total_nanos(start);
    if d >= 0 {
        d / 1_000_000
    } else {
        -((-d) / 1_000_000)
    }
}

/// The milliseconds from `start` to `end`, as the `u64` that a record stores
/// (a negative count wraps, as `as u64` does).
pub fn elapsed_millis(start: Timestamp, end: Timestamp) -> (r: u64)
    ensures
        r == elapsed_ms(start, end) as u64,
{
    let s: i128 = start.secs as i128 * 1_000_000_000 + start.nanos as i128;
    let e: i128 = end.secs as i128 * 1_000_000_000 + end.nanos as i128;
    let d: i128 = e - s;
    let ms: i128 = if d >= 0 {
        d / 1_000_000
    } else {
        let q: i128 = (-d) / 1_000_000;
        -q
    };
    proof {
        assert(ms == elapsed_ms(start, end));
        assert(((ms as i64) as u64) == (ms as u64)) by (bit_vector);
    }
    (ms as i64) as u64
}

/// A record of a finished run of migration `migration_id` of `name` from `from`
/// to `to`: a fresh UUID, success, and the elapsed time between its start and end.
pub open spec fn finished_record(
    rec: MigrationRecord,
    name: Seq<char>,
    migration_id: Seq<char>,
    from: u32,
    to: u32,
) -> bool {
    &&& uuid_hyphenated(rec.id@)
    &&& rec.table_name@ == name
    &&& rec.migration_id@ == migration_id
    &&& rec.from_version == from
    &&& rec.to_version == to
    &&& rec.completed_at is Some
    &&& rec.status == MigrationStatus::Success
    &&& rec.error_message is None
    &&& rec.duration_ms == Some((elapsed_ms(rec.started_at, rec.completed_at->0) as u64))
}

fn text3(a: &str, b: &str, c: &str) -> (r: String)
    ensures
        r@ == a@ + b@ + c@,
{
    let mut s = str_to_string(a);
    s.append(b);
    s.append(c);
    s
}

/// The first eight characters of a fresh random UUID's text: eight hex digits.
fn uuid_tag() -> (r: String)
    ensures
        r@.len() == 8,
        forall|i: int| 0 <= i < 8 ==> is_hex_char(#[trigger] r@[i]),
{
    let s = new_uuid_v4_text();
    let cs = chars_of(s.as_str());
    let mut out = String::new();
    let mut i: usize = 0;
    while i < 8
        invariant
            cs@ == s@,
            uuid_hyphenated(s@),
            i <= 8,
            out@ == s@.take(i as int),
        decreases 8 - i,
    {
        push_char(&mut out, cs[i]);
        i = i + 1;
        assert(out@ =~= s@.take(i as int));
    }
    assert forall|k: int| 0 <= k < 8 implies is_hex_char(#[trigger] out@[k]) by {
        assert(out@[k] == s@[k]);
    }
    out
}

/// `after` is `before` once a migration of `table_name` from `from_version` to
/// `to_version` was created with result `r`. Both versions must be registered:
/// otherwise the result is a validation error on `from_version` (checked first) or
/// on `to_version`, and nothing changes. Then the migration, pending, is attached
/// to the first version numbered `to_version`, under an ID
/// `{table}_{from}_to_{to}_{unix seconds}_{8 hex digits}`. The history stays.
pub open spec fn migration_created(
    before: VersionManager,
    after: VersionManager,
    table_name: Seq<char>,
    from_version: u32,
    to_version: u32,
    up_script: String,
    down_script: Option<String>,
    script_type: MigrationScriptType,
    r: Result<String, QuickDbError>,
) -> bool {
    &&& version_numbered(before.entries(), table_name, from_version as int) is None ==> {
        &&& r is Err
        &&& r->Err_0@ == invalid("from_version"@, "源版本 "@ + nat_digits(from_version as nat) + " 不存在"@)
        &&& after.entries() == before.entries()
    }
    &&& version_numbered(before.entries(), table_name, from_version as int) is Some
        && version_numbered(before.entries(), table_name, to_version as int) is None ==> {
        &&& r is Err
        &&& r->Err_0@ == invalid("to_version"@, "目标版本 "@ + nat_digits(to_version as nat) + " 不存在"@)
        &&& after.entries() == before.entries()
    }
    &&& version_numbered(before.entries(), table_name, from_version as int) is Some
        && version_numbered(before.entries(), table_name, to_version as int) is Some ==> {
        let k = first_index(before.entries(), name_is(table_name));
        let p = first_index(versions_of(before.entries(), table_name), numbered(to_version as int));
        let nv = after.entries()[k].versions@[p];
        &&& r is Ok
        &&& exists|secs: i64, tag: Seq<char>|
            tag.len() == 8 && (forall|i: int| 0 <= i < 8 ==> is_hex_char(#[trigger] tag[i])) && r->Ok_0@
                == migration_id_text(table_name, from_version, to_version, secs as int, tag)
        &&& k >= 0 && p >= 0
        &&& after.entries().len() == before.entries().len()
        &&& forall|j: int| 0 <= j < before.entries().len() && j != k ==> after.entries()[j] == before.entries()[j]
        &&& after.entries()[k].table_name == before.entries()[k].table_name
        &&& after.entries()[k].versions@.len() == before.entries()[k].versions@.len()
        &&& forall|q: int| 0 <= q < before.entries()[k].versions@.len() && q != p ==> after.entries()[k].versions@[q] == before.entries()[k].versions@[q]
        &&& nv == (SchemaVersion { migration_script: nv.migration_script, ..before.entries()[k].versions@[p] })
        &&& nv.migration_script matches Some(m) && {
            &&& m.id@ == r->Ok_0@
            &&& m.from_version == from_version
            &&& m.to_version == to_version
            &&& m.up_script == up_script
            &&& m.down_script == down_script
            &&& m.script_type == script_type
            &&& m.executed_at is None
            &&& m.status == MigrationStatus::Pending
        }
    }
    &&& after.records() == before.records()
}

impl VersionManager {
    /// The positions of the table `table_name` and of the version holding migration `id`.
    fn locate_migration(&self, table_name: &str, id: &str) -> (r: Option<(usize, usize)>)
        ensures
            r is None ==> find_migration(self.entries(), table_name@, id@) is None,
            r is Some ==> {
                let (k, p) = r->0;
                &&& k == first_index(self.entries(), name_is(table_name@))
                &&& k < self.entries().len()
                &&& p == first_index(self.entries()[k as int].versions@, holds_migration(id@))
                &&& p < self.entries()[k as int].versions@.len()
                &&& find_migration(self.entries(), table_name@, id@) == self.entries()[k as int].versions@[p as int].migration_script
                &&& find_migration(self.entries(), table_name@, id@) is Some
            },
    {
        match self.find_table(table_name) {
            None => None,
            Some(k) => {
                let vs = &self.tables[k].versions;
                let mut i: usize = 0;
                while i < vs.len()
                    invariant
                        k == first_index(self.entries(), name_is(table_name@)),
                        k < self.entries().len(),
                        vs@ == self.entries()[k as int].versions@,
                        vs@ == versions_of(self.entries(), table_name@),
                        i <= vs.len(),
                        forall|j: int| 0 <= j < i ==> !holds_migration(id@)(#[trigger] vs@[j]),
                    decreases vs.len() - i,
                {
                    let found = match &vs[i].migration_script {
                        Some(m) => str_eq(m.id.as_str(), id),
                        None => false,
                    };
                    if found {
                        proof {
                            lemma_first_index_at(vs@, holds_migration(id@), i as int);
                            assert(holds_migration(id@)(vs@[i as int]));
                            assert(find_migration(self.entries(), table_name@, id@) == vs@[i as int].migration_script);
                        }
                        return Some((k, i));
                    }
                    i = i + 1;
                }
                proof {
                    lemma_first_index_at(vs@, holds_migration(id@), i as int);
                }
                None
            },
        }
    }

    /// Gives the migration held by version `p` of entry `k` a new status and execution time.
    fn set_migration_state(&mut self, k: usize, p: usize, status: MigrationStatus, executed_at: Option<Timestamp>)
        requires
            k < old(self).entries().len(),
            p < old(self).entries()[k as int].versions@.len(),
            old(self).entries()[k as int].versions@[p as int].migration_script is Some,
        ensures
            state_set(old(self).entries(), final(self).entries(), k as int, p as int, status, executed_at),
            final(self).records() == old(self).records(),
    {
        let ghost old_tables = self.tables@;
        let entry = self.tables.remove(k);
        let TableVersions { table_name: entry_name, versions: mut vs } = entry;
        let ghost old_vs = vs@;
        let v = vs.remove(p);
        let SchemaVersion { table_name, version, schema, created_at, migration_script, description, is_current } = v;
        let script = match migration_script {
            Some(m) => {
                let MigrationScript {
                    id,
                    from_version,
                    to_version,
                    up_script,
                    down_script,
                    script_type,
                    created_at: script_created,
                    executed_at: _,
                    status: _,
                } = m;
                Some(
                    MigrationScript {
                        id,
                        from_version,
                        to_version,
                        up_script,
                        down_script,
                        script_type,
                        created_at: script_created,
                        executed_at,
                        status,
                    },
                )
            },
            None => None,
        };
        vs.insert(p, SchemaVersion { table_name, version, schema, created_at, migration_script: script, description, is_current });
        proof {
            assert(vs@ =~= old_vs.update(p as int, vs@[p as int]));
        }
        self.tables.insert(k, TableVersions { table_name: entry_name, versions: vs });
        proof {
            assert(self.tables@ =~= old_tables.update(k as int, self.tables@[k as int]));
        }
    }

    /// Creates a migration of `table_name` from `from_version` to `to_version` and
    /// attaches it, pending, to the first version numbered `to_version`.
    ///
    /// Both versions must be registered: otherwise the result is a validation error
    /// on `from_version` (checked first) or `to_version`. The migration's ID is
    /// `{table}_{from}_to_{to}_{unix seconds}_{8 hex digits of a fresh UUID}`.
    pub fn create_migration(
        &mut self,
        table_name: &str,
        from_version: u32,
        to_version: u32,
        up_script: String,
        down_script: Option<String>,
        script_type: MigrationScriptType,
    ) -> (r: Result<String, QuickDbError>)
        ensures
            old(self).wf() ==> final(self).wf(),
            migration_created(
                *old(self),
                *final(self),
                table_name@,
                from_version,
                to_version,
                up_script,
                down_script,
                script_type,
                r,
            ),
    {
        if self.get_version(table_name, from_version).is_none() {
            let mut msg = str_to_string("源版本 ");
            push_u64(&mut msg, from_version as u64);
            msg.append(" 不存在");
            return Err(QuickDbError::ValidationError { field: str_to_string("from_version"), message: msg });
        }
        if self.get_version(table_name, to_version).is_none() {
            let mut msg = str_to_string("目标版本 ");
            push_u64(&mut msg, to_version as u64);
            msg.append(" 不存在");
            return Err(QuickDbError::ValidationError { field: str_to_string("to_version"), message: msg });
        }
        let now = now_or_epoch();
        let tag = uuid_tag();
        let mut id = str_to_string(table_name);
        id.append("_");
        push_u64(&mut id, from_version as u64);
        id.append("_to_");
        push_u64(&mut id, to_version as u64);
        id.append("_");
        push_i64(&mut id, now.secs);
        id.append("_");
        id.append(tag.as_str());
        proof {
            assert(id@ =~= migration_id_text(table_name@, from_version, to_version, now.secs as int, tag@));
        }
        let script = MigrationScript {
            id: id.clone(),
            from_version,
            to_version,
            up_script,
            down_script,
            script_type,
            created_at: now,
            executed_at: None,
            status: MigrationStatus::Pending,
        };
        let k = match self.find_table(table_name) {
            Some(k) => k,
            None => {
                proof {
                    assert(false);
                }
                return Ok(id);
            },
        };
        let ghost old_tables = self.tables@;
        let entry = self.tables.remove(k);
        let TableVersions { table_name: entry_name, versions: mut vs } = entry;
        let ghost old_vs = vs@;
        let mut p: usize = 0;
        while p < vs.len() && vs[p].version != to_version
            invariant
                vs@ == old_vs,
                p <= vs.len(),
                forall|j: int| 0 <= j < p ==> !numbered(to_version as int)(#[trigger] vs@[j]),
            decreases vs.len() - p,
        {
            p = p + 1;
        }
        proof {
            lemma_first_index_at(old_vs, numbered(to_version as int), p as int);
        }
        if p < vs.len() {
            let v = vs.remove(p);
            let SchemaVersion { table_name: vname, version, schema, created_at, migration_script: _, description, is_current } = v;
            vs.insert(
                p,
                SchemaVersion { table_name: vname, version, schema, created_at, migration_script: Some(script), description, is_current },
            );
            proof {
                assert(vs@ =~= old_vs.update(p as int, vs@[p as int]));
            }
        }
        self.tables.insert(k, TableVersions { table_name: entry_name, versions: vs });
        proof {
            assert(self.tables@ =~= old_tables.update(k as int, self.tables@[k as int]));
        }
        Ok(id)
    }
}

/// A migration ID: `{table}_{from}_to_{to}_{secs}_{tag}`.
pub open spec fn migration_id_text(name: Seq<char>, from: u32, to: u32, secs: int, tag: Seq<char>) -> Seq<char> {
    name + "_"@ + nat_digits(from as nat) + "_to_"@ + nat_digits(to as nat) + "_"@ + int_digits(secs) + "_"@ + tag
}


impl VersionManager {
    /// Executes the pending migration `migration_id` of `table_name`.
    ///
    /// The migration must exist (else a validation error on `migration_id`) and be
    /// pending (else a validation error on `migration_status` naming its status).
    /// On success the migration is marked `Success` with its execution time, and a
    /// successful record of the run is appended to the history.
    pub fn execute_migration(&mut self, table_name: &str, migration_id: &str) -> (r: Result<(), QuickDbError>)
        ensures
            old(self).wf() ==> final(self).wf(),
            match execute_check(old(self).entries(), table_name@, migration_id@) {
                Err(e) => {
                    &&& r is Err
                    &&& r->Err_0@ == e
                    &&& final(self).entries() == old(self).entries()
                    &&& final(self).records() == old(self).records()
                },
                Ok(m) => {
                    &&& r is Ok
                    &&& final(self).records().len() == old(self).records().len() + 1
                    &&& final(self).records().drop_last() == old(self).records()
                    &&& finished_record(final(self).records().last(), table_name@, migration_id@, m.from_version, m.to_version)
                    &&& migration_updated(
                        old(self).entries(),
                        final(self).entries(),
                        table_name@,
                        migration_id@,
                        MigrationStatus::Success,
                        final(self).records().last().completed_at,
                    )
                },
            },
    {
        let (k, p) = match self.locate_migration(table_name, migration_id) {
            None => {
                return Err(QuickDbError::ValidationError {
                    field: str_to_string("migration_id"),
                    message: text3("迁移脚本 ", migration_id, " 不存在"),
                });
            },
            Some(pos) => pos,
        };
        let (status, from_version, to_version) = match &self.tables[k].versions[p].migration_script {
            Some(m) => (m.status, m.from_version, m.to_version),
            None => (MigrationStatus::Pending, 0, 0),
        };
        if status != MigrationStatus::Pending {
            let mut msg = text3("迁移脚本 ", migration_id, " 状态不正确: ");
            msg.append(status_str(status));
            return Err(QuickDbError::ValidationError { field: str_to_string("migration_status"), message: msg });
        }
        let start = now_or_epoch();
        let end = now_or_epoch();
        let record = MigrationRecord {
            id: new_uuid_v4_text(),
            table_name: str_to_string(table_name),
            migration_id: str_to_string(migration_id),
            from_version,
            to_version,
            started_at: start,
            completed_at: Some(end),
            status: MigrationStatus::Success,
            error_message: None,
            duration_ms: Some(elapsed_millis(start, end)),
        };
        self.history.push(record);
        self.set_migration_state(k, p, MigrationStatus::Success, Some(end));
        proof {
            assert(self.history@.drop_last() =~= old(self).history@);
        }
        Ok(())
    }

    /// Rolls back the succeeded migration `migration_id` of `table_name`.
    ///
    /// The migration must exist (else a validation error on `migration_id`), have a
    /// down script (else a validation error on `down_script`) and have succeeded
    /// (else a validation error on `migration_status` naming its status). On
    /// success it is marked `Rollback`, and a successful record of the rollback,
    /// from its target version back to its source version and with ID
    /// `{migration_id}_rollback`, is appended to the history.
    pub fn rollback_migration(&mut self, table_name: &str, migration_id: &str) -> (r: Result<(), QuickDbError>)
        ensures
            old(self).wf() ==> final(self).wf(),
            match rollback_check(old(self).entries(), table_name@, migration_id@) {
                Err(e) => {
                    &&& r is Err
                    &&& r->Err_0@ == e
                    &&& final(self).entries() == old(self).entries()
                    &&& final(self).records() == old(self).records()
                },
                Ok(m) => {
                    &&& r is Ok
                    &&& final(self).records().len() == old(self).records().len() + 1
                    &&& final(self).records().drop_last() == old(self).records()
                    &&& finished_record(
                        final(self).records().last(),
                        table_name@,
                        migration_id@ + "_rollback"@,
                        m.to_version,
                        m.from_version,
                    )
                    &&& migration_updated(
                        old(self).entries(),
                        final(self).entries(),
                        table_name@,
                        migration_id@,
                        MigrationStatus::Rollback,
                        m.executed_at,
                    )
                },
            },
    {
        let (k, p) = match self.locate_migration(table_name, migration_id) {
            None => {
                return Err(QuickDbError::ValidationError {
                    field: str_to_string("migration_id"),
                    message: text3("迁移脚本 ", migration_id, " 不存在"),
                });
            },
            Some(pos) => pos,
        };
        let (has_down, status, from_version, to_version, executed_at) = match &self.tables[k].versions[p].migration_script {
            Some(m) => (m.down_script.is_some(), m.status, m.from_version, m.to_version, m.executed_at),
            None => (false, MigrationStatus::Pending, 0, 0, None),
        };
        if !has_down {
            return Err(QuickDbError::ValidationError {
                field: str_to_string("down_script"),
                message: text3("迁移脚本 ", migration_id, " 没有回滚脚本"),
            });
        }
        if status != MigrationStatus::Success {
            let mut msg = text3("迁移脚本 ", migration_id, " 状态不正确，无法回滚: ");
            msg.append(status_str(status));
            return Err(QuickDbError::ValidationError { field: str_to_string("migration_status"), message: msg });
        }
        let start = now_or_epoch();
        let end = now_or_epoch();
        let mut rollback_id = str_to_string(migration_id);
        rollback_id.append("_rollback");
        let record = MigrationRecord {
            id: new_uuid_v4_text(),
            table_name: str_to_string(table_name),
            migration_id: rollback_id,
            from_version: to_version,
            to_version: from_version,
            started_at: start,
            completed_at: Some(end),
            status: MigrationStatus::Success,
            error_message: None,
            duration_ms: Some(elapsed_millis(start, end)),
        };
        self.history.push(record);
        self.set_migration_state(k, p, MigrationStatus::Rollback, executed_at);
        proof {
            assert(self.history@.drop_last() =~= old(self).history@);
        }
        Ok(())
    }
}

/// After migration `id` of `name` is given a new status, looking it up finds it
/// with that status and execution time and otherwise unchanged.
pub proof fn lemma_find_after_update(
    old_ts: Seq<TableVersions>,
    new_ts: Seq<TableVersions>,
    name: Seq<char>,
    id: Seq<char>,
    status: MigrationStatus,
    executed_at: Option<Timestamp>,
)
    requires
        migration_updated(old_ts, new_ts, name, id, status, executed_at),
    ensures
        find_migration(old_ts, name, id) is Some,
        find_migration(new_ts, name, id) == Some(
            MigrationScript { status, executed_at, ..find_migration(old_ts, name, id)->0 },
        ),
{
    let k = first_index(old_ts, name_is(name));
    lemma_first_index_props(old_ts, name_is(name));
    assert forall|j: int| 0 <= j < k implies !name_is(name)(#[trigger] new_ts[j]) by {
        assert(new_ts[j] == old_ts[j]);
    }
    lemma_first_index_at(new_ts, name_is(name), k);
    let vs = old_ts[k].versions@;
    let nvs = new_ts[k].versions@;
    let p = first_index(vs, holds_migration(id));
    lemma_first_index_props(vs, holds_migration(id));
    assert forall|q: int| 0 <= q < p implies !holds_migration(id)(#[trigger] nvs[q]) by {
        assert(nvs[q] == vs[q]);
    }
    assert(holds_migration(id)(nvs[p]));
    lemma_first_index_at(nvs, holds_migration(id), p);
}

/// Executing a pending migration leaves it succeeded: it cannot be executed again,
/// and it can be rolled back exactly when it has a down script.
pub proof fn lemma_execute_then_rollback(
    old_ts: Seq<TableVersions>,
    new_ts: Seq<TableVersions>,
    name: Seq<char>,
    id: Seq<char>,
    executed_at: Option<Timestamp>,
)
    requires
        execute_check(old_ts, name, id) is Ok,
        migration_updated(old_ts, new_ts, name, id, MigrationStatus::Success, executed_at),
    ensures
        find_migration(new_ts, name, id) matches Some(m) && m.status == MigrationStatus::Success,
        execute_check(new_ts, name, id) is Err,
        rollback_check(new_ts, name, id) is Ok <==> (execute_check(old_ts, name, id)->Ok_0).down_script is Some,
{
    lemma_find_after_update(old_ts, new_ts, name, id, MigrationStatus::Success, executed_at);
}

/// A rolled-back migration can be neither executed nor rolled back again.
pub proof fn lemma_rollback_is_final(
    old_ts: Seq<TableVersions>,
    new_ts: Seq<TableVersions>,
    name: Seq<char>,
    id: Seq<char>,
    executed_at: Option<Timestamp>,
)
    requires
        rollback_check(old_ts, name, id) is Ok,
        migration_updated(old_ts, new_ts, name, id, MigrationStatus::Rollback, executed_at),
    ensures
        find_migration(new_ts, name, id) matches Some(m) && m.status == MigrationStatus::Rollback,
        execute_check(new_ts, name, id) is Err,
        rollback_check(new_ts, name, id) is Err,
{
    lemma_find_after_update(old_ts, new_ts, name, id, MigrationStatus::Rollback, executed_at);
}


// ---------------------------------------------------------------------------
// History and migration paths
// ---------------------------------------------------------------------------

/// The records of `rs` for table `name`, in order.
pub open spec fn records_of(rs: Seq<MigrationRecord>, name: Seq<char>) -> Seq<MigrationRecord>
    decreases rs.len(),
{
    if rs.len() == 0 {
        Seq::empty()
    } else if rs.last().table_name@ == name {
        records_of(rs.drop_last(), name).push(rs.last())
    } else {
        records_of(rs.drop_last(), name)
    }
}

/// The records that references point to.
pub open spec fn record_derefs(s: Seq<&MigrationRecord>) -> Seq<MigrationRecord> {
    s.map_values(|x: &MigrationRecord| *x)
}

/// The scripts that references point to.
pub open spec fn script_derefs(s: Seq<&MigrationScript>) -> Seq<MigrationScript> {
    s.map_values(|x: &MigrationScript| *x)
}

/// The migration script that a path takes through version `v` of `vs`: the one
/// attached to the first version numbered `v`, which must exist, have a script
/// and, going down, a down script.
pub open spec fn path_step(vs: Seq<SchemaVersion>, v: int, down: bool) -> Result<MigrationScript, ErrorView> {
    let k = first_index(vs, numbered(v));
    if k < 0 {
        Err(invalid("version"@, "版本 "@ + nat_digits(v as nat) + " 不存在"@))
    } else {
        match vs[k].migration_script {
            None => Err(invalid("migration_script"@, "版本 "@ + nat_digits(v as nat) + " 缺少迁移脚本"@)),
            Some(m) => if down && m.down_script is None {
                Err(invalid("down_script"@, "版本 "@ + nat_digits(v as nat) + " 缺少回滚脚本"@))
            } else {
                Ok(m)
            },
        }
    }
}

/// The scripts taken through the versions `steps`, in order; the first failing
/// step's error if any.
pub open spec fn path_steps(vs: Seq<SchemaVersion>, steps: Seq<int>, down: bool) -> Result<Seq<MigrationScript>, ErrorView>
    decreases steps.len(),
{
    if steps.len() == 0 {
        Ok(Seq::empty())
    } else {
        match path_steps(vs, steps.drop_last(), down) {
            Err(e) => Err(e),
            Ok(p) => match path_step(vs, steps.last(), down) {
                Err(e) => Err(e),
                Ok(m) => Ok(p.push(m)),
            },
        }
    }
}

/// The versions a path from `from` to `to` passes: `from+1, ..., to` going up and
/// `from, from-1, ..., to+1` going down.
pub open spec fn path_versions(from: int, to: int) -> Seq<int> {
    if from < to {
        Seq::new((to - from) as nat, |i: int| from + 1 + i)
    } else {
        Seq::new((from - to) as nat, |i: int| from - i)
    }
}

/// The migration path of `name` from `from` to `to`.
pub open spec fn migration_path(ts: Seq<TableVersions>, name: Seq<char>, from: int, to: int) -> Result<Seq<MigrationScript>, ErrorView> {
    if from == to {
        Ok(Seq::empty())
    } else if first_index(ts, name_is(name)) < 0 {
        Err(invalid("table_name"@, "表 "@ + name + " 不存在"@))
    } else {
        path_steps(versions_of(ts, name), path_versions(from, to), from > to)
    }
}

proof fn lemma_path_error_persists(vs: Seq<SchemaVersion>, steps: Seq<int>, down: bool, n: int)
    requires
        0 <= n <= steps.len(),
        path_steps(vs, steps.take(n), down) is Err,
    ensures
        path_steps(vs, steps, down) == path_steps(vs, steps.take(n), down),
    decreases steps.len() - n,
{
    if n < steps.len() {
        assert(steps.take(n + 1).drop_last() =~= steps.take(n));
        lemma_path_error_persists(vs, steps, down, n + 1);
    } else {
        assert(steps.take(n) =~= steps);
    }
}

impl VersionManager {
    /// The history records, of one table or of all, oldest first.
    pub fn get_migration_history(&self, table_name: Option<&str>) -> (r: Vec<&MigrationRecord>)
        ensures
            record_derefs(r@) == match table_name {
                Some(t) => records_of(self.records(), t@),
                None => self.records(),
            },
    {
        let mut out: Vec<&MigrationRecord> = Vec::new();
        let mut i: usize = 0;
        while i < self.history.len()
            invariant
                i <= self.history.len(),
                record_derefs(out@) == match table_name {
                    Some(t) => records_of(self.history@.take(i as int), t@),
                    None => self.history@.take(i as int),
                },
            decreases self.history.len() - i,
        {
            let rec = &self.history[i];
            let keep = match table_name {
                Some(t) => str_eq(rec.table_name.as_str(), t),
                None => true,
            };
            let ghost before = record_derefs(out@);
            proof {
                assert(self.history@.take(i + 1).drop_last() =~= self.history@.take(i as int));
            }
            if keep {
                out.push(rec);
                proof {
                    assert(record_derefs(out@) =~= before.push(*rec));
                }
            }
            i = i + 1;
        }
        proof {
            assert(self.history@.take(i as int) =~= self.history@);
        }
        out
    }

    /// The migration scripts that lead from version `from_version` to `to_version`
    /// of `table_name`, in the order in which they apply.
    ///
    /// Going up, the scripts attached to versions `from+1 ..= to`; going down, those
    /// attached to versions `from, from-1, ..., to+1`, which must have down scripts.
    /// Empty when the versions are equal; a validation error when the table is
    /// unknown or a step's version, script or down script is missing.
    pub fn get_migration_path(&self, table_name: &str, from_version: u32, to_version: u32) -> (r: Result<
        Vec<&MigrationScript>,
        QuickDbError,
    >)
        ensures
            match migration_path(self.entries(), table_name@, from_version as int, to_version as int) {
                Ok(p) => r is Ok && script_derefs(r->Ok_0@) == p,
                Err(e) => r is Err && r->Err_0@ == e,
            },
    {
        let mut out: Vec<&MigrationScript> = Vec::new();
        if from_version == to_version {
            proof {
                assert(script_derefs(out@) =~= Seq::<MigrationScript>::empty());
            }
            return Ok(out);
        }
        let k = match self.find_table(table_name) {
            None => {
                return Err(QuickDbError::ValidationError {
                    field: str_to_string("table_name"),
                    message: text3("表 ", table_name, " 不存在"),
                });
            },
            Some(k) => k,
        };
        let vs = &self.tables[k].versions;
        let down = from_version > to_version;
        let count: u32 = if down {
            from_version - to_version
        } else {
            to_version - from_version
        };
        let ghost steps = path_versions(from_version as int, to_version as int);
        proof {
            assert(steps.take(0) =~= Seq::<int>::empty());
            assert(script_derefs(out@) =~= Seq::<MigrationScript>::empty());
            assert(migration_path(self.entries(), table_name@, from_version as int, to_version as int)
                == path_steps(vs@, steps, down));
        }
        let mut i: u32 = 0;
        while i < count
            invariant
                vs@ == versions_of(self.entries(), table_name@),
                steps == path_versions(from_version as int, to_version as int),
                migration_path(self.entries(), table_name@, from_version as int, to_version as int)
                    == path_steps(vs@, steps, down),
                steps.len() == count,
                down == (from_version > to_version),
                from_version != to_version,
                count == if down { from_version - to_version } else { to_version - from_version },
                i <= count,
                path_steps(vs@, steps.take(i as int), down) == Ok::<Seq<MigrationScript>, ErrorView>(script_derefs(out@)),
            decreases count - i,
        {
            let v: u32 = if down {
                from_version - i
            } else {
                from_version + 1 + i
            };
            proof {
                assert(steps[i as int] == v);
                assert(steps.take(i + 1).drop_last() =~= steps.take(i as int));
                assert(steps.take(i + 1).last() == v);
            }
            let mut q: usize = 0;
            while q < vs.len() && vs[q].version != v
                invariant
                    q <= vs.len(),
                    forall|j: int| 0 <= j < q ==> !numbered(v as int)(#[trigger] vs@[j]),
                decreases vs.len() - q,
            {
                q = q + 1;
            }
            proof {
                lemma_first_index_at(vs@, numbered(v as int), q as int);
            }
            if q == vs.len() {
                let mut msg = str_to_string("版本 ");
                push_u64(&mut msg, v as u64);
                msg.append(" 不存在");
                proof {
                    assert(path_step(vs@, v as int, down) == Err::<MigrationScript, ErrorView>(
                        invalid("version"@, msg@)));
                    assert(path_steps(vs@, steps.take(i + 1), down) == Err::<Seq<MigrationScript>, ErrorView>(
                        invalid("version"@, msg@)));
                    lemma_path_error_persists(vs@, steps, down, i + 1);
                }
                return Err(QuickDbError::ValidationError { field: str_to_string("version"), message: msg });
            }
            match &vs[q].migration_script {
                None => {
                    let mut msg = str_to_string("版本 ");
                    push_u64(&mut msg, v as u64);
                    msg.append(" 缺少迁移脚本");
                    proof {
                        lemma_path_error_persists(vs@, steps, down, i + 1);
                    }
                    return Err(QuickDbError::ValidationError { field: str_to_string("migration_script"), message: msg });
                },
                Some(m) => {
                    if down && m.down_script.is_none() {
                        let mut msg = str_to_string("版本 ");
                        push_u64(&mut msg, v as u64);
                        msg.append(" 缺少回滚脚本");
                        proof {
                            lemma_path_error_persists(vs@, steps, down, i + 1);
                        }
                        return Err(QuickDbError::ValidationError { field: str_to_string("down_script"), message: msg });
                    }
                    let ghost before = script_derefs(out@);
                    out.push(m);
                    proof {
                        assert(script_derefs(out@) =~= before.push(*m));
                    }
                },
            }
            i = i + 1;
        }
        proof {
            assert(steps.take(i as int) =~= steps);
        }
        Ok(out)
    }
}


/// Whether `a` is strictly later than `b`.
pub open spec fn later_than(a: Timestamp, b: Timestamp) -> bool {
    a.secs > b.secs || (a.secs == b.secs && a.nanos > b.nanos)
}

/// The records of `rs` that started strictly after `cutoff`, in order.
pub open spec fn started_after(rs: Seq<MigrationRecord>, cutoff: Timestamp) -> Seq<MigrationRecord>
    decreases rs.len(),
{
    if rs.len() == 0 {
        Seq::empty()
    } else if later_than(rs.last().started_at, cutoff) {
        started_after(rs.drop_last(), cutoff).push(rs.last())
    } else {
        started_after(rs.drop_last(), cutoff)
    }
}

/// `keep_days` days before `now` (clamped at the earliest representable second).
pub open spec fn days_before(now: Timestamp, keep_days: u32) -> Timestamp {
    let secs = now.secs - keep_days * 86400;
    Timestamp { secs: if secs < i64::MIN { i64::MIN } else { secs as i64 }, nanos: now.nanos }
}

impl VersionManager {
    /// Keeps only the history records that started strictly after `cutoff`.
    pub fn retain_records_after(&mut self, cutoff: Timestamp)
        ensures
            old(self).wf() ==> final(self).wf(),
            final(self).records() == started_after(old(self).records(), cutoff),
            final(self).entries() == old(self).entries(),
    {
        let mut kept: Vec<MigrationRecord> = Vec::new();
        let mut rest: Vec<MigrationRecord> = Vec::new();
        std::mem::swap(&mut rest, &mut self.history);
        let ghost orig = rest@;
        let mut i: usize = 0;
        proof {
            assert(orig.len() == rest.len());
        }
        while rest.len() > 0
            invariant
                i + rest@.len() == orig.len(),
                orig.len() <= usize::MAX,
                rest@ == orig.skip(i as int),
                kept@ == started_after(orig.take(i as int), cutoff),
            decreases rest@.len(),
        {
            let rec = rest.remove(0);
            proof {
                assert(rec == orig[i as int]);
                assert(orig.take(i + 1).drop_last() =~= orig.take(i as int));
                assert(orig.skip(i + 1) =~= orig.skip(i as int).remove(0));
            }
            let later = rec.started_at.secs > cutoff.secs || (rec.started_at.secs == cutoff.secs
                && rec.started_at.nanos > cutoff.nanos);
            if later {
                kept.push(rec);
            }
            i = i + 1;
        }
        proof {
            assert(orig.take(i as int) =~= orig);
        }
        self.history = kept;
    }

    /// Drops the history records that did not start within the last `keep_days`
    /// days: those started at or before the present time less `keep_days` days.
    pub fn cleanup_history(&mut self, keep_days: u32)
        ensures
            old(self).wf() ==> final(self).wf(),
            exists|now: Timestamp| final(self).records() == started_after(old(self).records(), days_before(now, keep_days)),
            final(self).entries() == old(self).entries(),
    {
        let now = now_or_epoch();
        let span: i64 = keep_days as i64 * 86400;
        let secs: i64 = if now.secs < i64::MIN + span {
            i64::MIN
        } else {
            now.secs - span
        };
        let cutoff = Timestamp { secs, nanos: now.nanos };
        proof {
            assert(cutoff == days_before(now, keep_days));
        }
        self.retain_records_after(cutoff);
    }
}

impl Default for VersionManager {
    fn default() -> (r: VersionManager)
        ensures
            r.entries() == Seq::<TableVersions>::empty(),
            r.records() == Seq::<MigrationRecord>::empty(),
    {
        VersionManager::new()
    }
}


/// Giving migration `id` a new status leaves every other migration of the table
/// as it was.
pub proof fn lemma_find_other_after_update(
    old_ts: Seq<TableVersions>,
    new_ts: Seq<TableVersions>,
    name: Seq<char>,
    id: Seq<char>,
    other: Seq<char>,
    status: MigrationStatus,
    executed_at: Option<Timestamp>,
)
    requires
        migration_updated(old_ts, new_ts, name, id, status, executed_at),
        other != id,
    ensures
        find_migration(new_ts, name, other) == find_migration(old_ts, name, other),
{
    let k = first_index(old_ts, name_is(name));
    lemma_first_index_props(old_ts, name_is(name));
    assert forall|j: int| 0 <= j < k implies !name_is(name)(#[trigger] new_ts[j]) by {
        assert(new_ts[j] == old_ts[j]);
    }
    lemma_first_index_at(new_ts, name_is(name), k);
    let vs = old_ts[k].versions@;
    let nvs = new_ts[k].versions@;
    let p = first_index(vs, holds_migration(id));
    lemma_first_index_props(vs, holds_migration(other));
    lemma_first_index_props(vs, holds_migration(id));
    let q = first_index(vs, holds_migration(other));
    assert(holds_migration(id)(vs[p]));
    assert(nvs[p].migration_script->0.id == vs[p].migration_script->0.id);
    assert(!holds_migration(other)(nvs[p]));
    assert(!holds_migration(other)(vs[p]));
    let i = if q < 0 { vs.len() as int } else { q };
    assert forall|j: int| 0 <= j < i implies !holds_migration(other)(#[trigger] nvs[j]) by {
        if j != p {
            assert(nvs[j] == vs[j]);
        }
    }
    if q >= 0 {
        assert(q != p);
        assert(nvs[q] == vs[q]);
    }
    lemma_first_index_at(nvs, holds_migration(other), i);
}

} // verus!
