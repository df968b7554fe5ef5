//! The table manager: which tables are known to exist, the schemas last seen for
//! them, and their version history; creating, dropping and migrating tables
//! against it.
//!
//! Every operation that would ask the database first takes a connection from the
//! `default` pool, so it fails while no such pool is registered. The database
//! itself is not asked: a table it has not been told about counts as missing, it
//! reports no schema and no tables, and it holds no version of its own.

use vstd::prelude::*;
use std::sync::Arc;
use crate::error::{QuickDbError, ErrorView};
use crate::schema::{ColumnDefinition, TableSchema, same_schema};
use crate::version::{VersionManager, MigrationStatus, MigrationScript, MigrationScriptType, TableVersions,
    MigrationRecord, current_version, migration_path, find_migration, execute_check, invalid, status_name,
    script_derefs, lemma_find_after_update, lemma_find_other_after_update, max_version, versions_of, registered,
    migration_created, lemma_registered_version_is_current};
use crate::manager::PoolManager;
use crate::keyed::Keyed;
use crate::text::str_to_string;

verus! {

/// Table manager settings.
#[derive(Debug, Clone, Copy, PartialEq, Eq, Structural)]
pub struct TableManagerConfig {
    pub auto_create_tables: bool,
    pub auto_migrate: bool,
    /// How long cached table facts stay valid, in seconds.
    pub cache_ttl_seconds: u64,
    pub enable_schema_validation: bool,
}

impl Default for TableManagerConfig {
    fn default() -> (r: TableManagerConfig)
        ensures
            r == (TableManagerConfig {
                auto_create_tables: true,
                auto_migrate: false,
                cache_ttl_seconds: 300,
                enable_schema_validation: true,
            }),
    {
        TableManagerConfig { auto_create_tables: true, auto_migrate: false, cache_ttl_seconds: 300, enable_schema_validation: true }
    }
}

/// Options for creating a table.
#[derive(Debug, Clone)]
pub struct TableCreateOptions {
    /// Skip an existing table.
    pub if_not_exists: bool,
    pub create_indexes: bool,
    pub add_constraints: bool,
    /// Table options, by name.
    pub table_options: Option<std::collections::HashMap<String, String>>,
}

impl Default for TableCreateOptions {
    fn default() -> (r: TableCreateOptions)
        ensures
            r.if_not_exists,
            r.create_indexes,
            r.add_constraints,
            r.table_options is None,
    {
        TableCreateOptions { if_not_exists: true, create_indexes: true, add_constraints: true, table_options: None }
    }
}

/// The differences between two schemas of a table.
#[derive(Debug)]
pub struct SchemaDiff {
    pub added_columns: Vec<ColumnDefinition>,
    pub removed_columns: Vec<String>,
    pub modified_columns: Vec<(String, ColumnDefinition)>,
    pub added_indexes: Vec<String>,
    pub removed_indexes: Vec<String>,
}

/// A table's status.
#[derive(Debug)]
pub struct TableCheckResult {
    pub exists: bool,
    /// The version the database holds.
    pub current_version: Option<u32>,
    /// The version registered for the table.
    pub expected_version: Option<u32>,
    pub needs_migration: bool,
    pub schema_diff: Option<SchemaDiff>,
}

/// `r` is the status of `table_name` given whether it exists: for an existing
/// table the registered current version is the expected one. The version the
/// database holds is not read, so none is reported and no migration is called for.
pub open spec fn status_reported(versions: VersionManager, table_name: Seq<char>, exists: bool, r: TableCheckResult) -> bool {
    &&& r.exists == exists
    &&& r.current_version is None
    &&& !r.needs_migration
    &&& r.schema_diff is None
    &&& !exists ==> r.expected_version is None
    &&& exists ==> r.expected_version == match current_version(versions.entries(), table_name) {
        Some(v) => Some(v.version),
        None => None::<u32>,
    }
}

fn table_status(versions: &VersionManager, table_name: &str, exists: bool) -> (r: TableCheckResult)
    ensures
        status_reported(*versions, table_name@, exists, r),
{
    if !exists {
        return TableCheckResult {
            exists: false,
            current_version: None,
            expected_version: None,
            needs_migration: false,
            schema_diff: None,
        };
    }
    let expected_version = match versions.get_current_version(table_name) {
        Some(v) => Some(v.version),
        None => None,
    };
    let current_version: Option<u32> = None;
    let needs_migration = match (current_version, expected_version) {
        (Some(c), Some(e)) => c < e,
        _ => false,
    };
    TableCheckResult { exists, current_version, expected_version, needs_migration, schema_diff: None }
}

/// The version a migration of `table_name` aims at: the one given, else the
/// table's current registered version.
pub open spec fn migration_target(vm: VersionManager, table_name: Seq<char>, target: Option<u32>) -> Option<u32> {
    match target {
        Some(v) => Some(v),
        None => match current_version(vm.entries(), table_name) {
            Some(v) => Some(v.version),
            None => None,
        },
    }
}

/// An error that executing migration `id` can end with.
pub open spec fn execution_error(e: ErrorView, id: Seq<char>) -> bool {
    ||| e == invalid("migration_id"@, "迁移脚本 "@ + id + " 不存在"@)
    ||| exists|st: MigrationStatus| e == invalid("migration_status"@, "迁移脚本 "@ + id + " 状态不正确: "@ + status_name(st))
}

/// Whether the IDs are pairwise different.
pub open spec fn distinct_ids(ids: Seq<Seq<char>>) -> bool {
    forall|i: int, j: int| 0 <= i < j < ids.len() ==> ids[i] != ids[j]
}

/// `after` is `before` once `table_name` was migrated from version 0 to
/// `target_version` (by default the table's current registered version) with
/// result `r`, executing the migrations of its path in order and stopping at the
/// first that fails.
///
/// Without a target and without a registered version the result is a validation
/// error on `table_name`; a path that cannot be formed is its error; a target of
/// 0 changes nothing. When every migration of the path is pending, under
/// pairwise different IDs, the migration succeeds. The history only grows.
pub open spec fn migrated(
    before: VersionManager,
    after: VersionManager,
    table_name: Seq<char>,
    target_version: Option<u32>,
    r: Result<(), QuickDbError>,
) -> bool {
    &&& after.records().len() >= before.records().len()
    &&& after.records().take(before.records().len() as int) == before.records()
    &&& migration_target(before, table_name, target_version) is None ==> {
        &&& r is Err
        &&& r->Err_0@ == invalid("table_name"@, "表 "@ + table_name + " 没有注册版本"@)
        &&& after == before
    }
    &&& migration_target(before, table_name, target_version) == Some(0u32) ==> r is Ok && after == before
    &&& ({
        let t = migration_target(before, table_name, target_version);
        t is Some && t->0 != 0 ==> match migration_path(before.entries(), table_name, 0, t->0 as int) {
            Err(e) => r is Err && r->Err_0@ == e && after == before,
            Ok(p) => {
                &&& r is Ok ==> forall|i: int| 0 <= i < p.len() ==> (find_migration(after.entries(), table_name, #[trigger] p[i].id@)
                    matches Some(m) && m.status == MigrationStatus::Success)
                &&& r is Err ==> exists|i: int| 0 <= i < p.len() && execution_error(r->Err_0@, #[trigger] p[i].id@)
                &&& (distinct_ids(p.map_values(|m: MigrationScript| m.id@)) && forall|i: int| 0 <= i < p.len()
                    ==> (find_migration(before.entries(), table_name, #[trigger] p[i].id@) matches Some(m)
                    && m.status == MigrationStatus::Pending)) ==> r is Ok
            },
        }
    })
}

fn run_migrations(vm: &mut VersionManager, table_name: &str, target_version: Option<u32>) -> (r: Result<(), QuickDbError>)
    ensures
        migrated(*old(vm), *final(vm), table_name@, target_version, r),
{
    let target: u32 = match target_version {
        Some(v) => v,
        None => match vm.get_current_version(table_name) {
            Some(v) => v.version,
            None => {
                let mut m = str_to_string("表 ");
                m.append(table_name);
                m.append(" 没有注册版本");
                proof {
                    assert(old(vm).records().take(old(vm).records().len() as int) =~= old(vm).records());
                }
                return Err(QuickDbError::ValidationError { field: str_to_string("table_name"), message: m });
            },
        },
    };
    proof {
        assert(old(vm).records().take(old(vm).records().len() as int) =~= old(vm).records());
    }
    let current: u32 = 0;
    if current == target {
        return Ok(());
    }
    let ghost mut p: Seq<crate::version::MigrationScript> = Seq::empty();
    let ids: Vec<String> = match vm.get_migration_path(table_name, current, target) {
        Err(e) => {
            return Err(e);
        },
        Ok(path) => {
            let mut ids: Vec<String> = Vec::new();
            let mut i: usize = 0;
            while i < path.len()
                invariant
                    i <= path.len(),
                    ids@.len() == i,
                    forall|j: int| 0 <= j < i ==> (#[trigger] ids@[j])@ == path@[j].id@,
                decreases path.len() - i,
            {
                ids.push(path[i].id.clone());
                i = i + 1;
            }
            proof {
                p = script_derefs(path@);
                assert forall|j: int| 0 <= j < ids@.len() implies (#[trigger] ids@[j])@ == p[j].id@ by {
                    assert(p[j] == *path@[j]);
                }
            }
            ids
        },
    };
    let ghost ts0 = old(vm).entries();
    let ghost pids = p.map_values(|m: crate::version::MigrationScript| m.id@);
    proof {
        assert(migration_path(old(vm).entries(), table_name@, 0, target as int) == Ok::<Seq<crate::version::MigrationScript>, ErrorView>(p));
        assert(migration_target(*old(vm), table_name@, target_version) == Some(target));
    }
    let mut i: usize = 0;
    while i < ids.len()
        invariant
            i <= ids.len(),
            target != 0,
            migration_target(*old(vm), table_name@, target_version) == Some(target),
            migration_path(old(vm).entries(), table_name@, 0, target as int) == Ok::<Seq<crate::version::MigrationScript>, ErrorView>(p),
            ts0 == old(vm).entries(),
            ids@.len() == p.len(),
            pids == p.map_values(|m: crate::version::MigrationScript| m.id@),
            forall|j: int| 0 <= j < ids@.len() ==> (#[trigger] ids@[j])@ == p[j].id@,
            vm.records().len() >= old(vm).records().len(),
            vm.records().take(old(vm).records().len() as int) == old(vm).records(),
            forall|q: int| 0 <= q < i ==> (find_migration(vm.entries(), table_name@, #[trigger] p[q].id@) matches Some(m)
                && m.status == MigrationStatus::Success),
            forall|j: int| i <= j < p.len() && (forall|q: int| 0 <= q < i ==> p[q].id@ != p[j].id@) ==>
                find_migration(vm.entries(), table_name@, #[trigger] p[j].id@) == find_migration(ts0, table_name@, p[j].id@),
            (distinct_ids(pids) && forall|j: int| 0 <= j < p.len() ==> (find_migration(ts0, table_name@, #[trigger] p[j].id@)
                matches Some(m) && m.status == MigrationStatus::Pending)) ==> forall|j: int| i <= j < p.len() ==> (find_migration(
                vm.entries(),
                table_name@,
                #[trigger] p[j].id@,
            ) matches Some(m) && m.status == MigrationStatus::Pending),
        decreases ids.len() - i,
    {
        let ghost before = *vm;
        let ghost id = p[i as int].id@;
        let res = vm.execute_migration(table_name, ids[i].as_str());
        match res {
            Err(e) => {
                proof {
                    let ee = execute_check(before.entries(), table_name@, id)->Err_0;
                    assert(e@ == ee);
                    match find_migration(before.entries(), table_name@, id) {
                        None => {},
                        Some(m) => {
                            assert(e@ == invalid("migration_status"@, "迁移脚本 "@ + id + " 状态不正确: "@ + status_name(m.status)));
                        },
                    }
                    assert(execution_error(e@, p[i as int].id@));
                    assert(vm.records().take(old(vm).records().len() as int) =~= old(vm).records());
                }
                return Err(e);
            },
            Ok(()) => {},
        }
        proof {
            let m0 = execute_check(before.entries(), table_name@, id);
            let e = vm.records().last().completed_at;
            lemma_find_after_update(before.entries(), vm.entries(), table_name@, id, MigrationStatus::Success, e);
            assert forall|q: int| 0 <= q < i + 1 implies (find_migration(vm.entries(), table_name@, #[trigger] p[q].id@)
                matches Some(m) && m.status == MigrationStatus::Success) by {
                if q < i && p[q].id@ != id {
                    lemma_find_other_after_update(before.entries(), vm.entries(), table_name@, id, p[q].id@, MigrationStatus::Success, e);
                }
            }
            assert forall|j: int| i + 1 <= j < p.len() && (forall|q: int| 0 <= q < i + 1 ==> p[q].id@ != p[j].id@) implies
                find_migration(vm.entries(), table_name@, #[trigger] p[j].id@) == find_migration(ts0, table_name@, p[j].id@) by {
                assert(p[i as int].id@ != p[j].id@);
                lemma_find_other_after_update(before.entries(), vm.entries(), table_name@, id, p[j].id@, MigrationStatus::Success, e);
            }
            if distinct_ids(pids) && forall|j: int| 0 <= j < p.len() ==> (find_migration(ts0, table_name@, #[trigger] p[j].id@)
                matches Some(m) && m.status == MigrationStatus::Pending) {
                assert forall|j: int| i + 1 <= j < p.len() implies (find_migration(vm.entries(), table_name@, #[trigger] p[j].id@)
                    matches Some(m) && m.status == MigrationStatus::Pending) by {
                    assert(pids[i as int] != pids[j]);
                    lemma_find_other_after_update(before.entries(), vm.entries(), table_name@, id, p[j].id@, MigrationStatus::Success, e);
                }
            }
            assert(vm.records().take(old(vm).records().len() as int) =~= old(vm).records()) by {
                assert(vm.records().drop_last() == before.records());
                assert(before.records().take(old(vm).records().len() as int) == old(vm).records());
            }
        }
        i = i + 1;
    }
    Ok(())
}

// ---------------------------------------------------------------------------
// The manager
// ---------------------------------------------------------------------------

/// The table manager.
#[derive(Debug)]
pub struct TableManager {
    pool_manager: Arc<PoolManager>,
    version_manager: VersionManager,
    schema_cache: Keyed<TableSchema>,
    existence_cache: Keyed<bool>,
    auto_create_tables: bool,
    auto_migrate: bool,
}

/// Sizes of the manager's caches and its switches.
#[derive(Debug, Clone, Copy, PartialEq, Eq, Structural)]
pub struct TableManagerStats {
    pub existence_cache_size: usize,
    pub schema_cache_size: usize,
    pub auto_create_tables: bool,
    pub auto_migrate: bool,
}

impl TableManager {
    /// The database registry it works with.
    pub closed spec fn pools(self) -> PoolManager {
        *self.pool_manager
    }

    /// The version history of the tables.
    pub closed spec fn versions(self) -> VersionManager {
        self.version_manager
    }

    /// Whether each table that was looked at exists, by name.
    pub closed spec fn known(self) -> Map<Seq<char>, bool> {
        self.existence_cache.map()
    }

    /// The schemas last seen, by table name.
    pub closed spec fn schemas(self) -> Map<Seq<char>, TableSchema> {
        self.schema_cache.map()
    }

    /// Whether missing tables are created when a table is made sure of.
    pub closed spec fn creates_tables(self) -> bool {
        self.auto_create_tables
    }

    /// Whether existing tables are migrated when a table is made sure of.
    pub closed spec fn migrates(self) -> bool {
        self.auto_migrate
    }

    /// Each cache holds a table at most once.
    pub closed spec fn wf(self) -> bool {
        self.schema_cache.wf() && self.existence_cache.wf()
    }
}

/// Whether the registry holds the `default` pool, which every database question
/// goes through.
pub open spec fn has_default_pool(m: TableManager) -> bool {
    m.pools().databases().dom().contains("default"@)
}

/// The error while the `default` pool is missing.
pub open spec fn no_default_pool() -> ErrorView {
    ErrorView::AliasNotFound { alias: "default"@ }
}

/// `b` has the registry and the switches of `a`.
pub open spec fn same_setup(a: TableManager, b: TableManager) -> bool {
    &&& b.pools() == a.pools()
    &&& b.creates_tables() == a.creates_tables()
    &&& b.migrates() == a.migrates()
}

/// `b` is `a` in every respect.
pub open spec fn unchanged(a: TableManager, b: TableManager) -> bool {
    &&& same_setup(a, b)
    &&& b.versions() == a.versions()
    &&& b.known() == a.known()
    &&& b.schemas() == a.schemas()
}

/// Whether `name` exists, as the manager answers it: what it knows, else (the
/// database not having been told about the table) that it does not; no answer
/// while the `default` pool is missing.
pub open spec fn existence(m: TableManager, name: Seq<char>) -> Option<bool> {
    match m.known().get(name) {
        Some(e) => Some(e),
        None => if has_default_pool(m) {
            Some(false)
        } else {
            None
        },
    }
}

/// `b` is `a` after asking whether `name` exists: an answer that was not known
/// becomes known.
pub open spec fn checked(a: TableManager, b: TableManager, name: Seq<char>) -> bool {
    &&& same_setup(a, b)
    &&& b.versions() == a.versions()
    &&& b.schemas() == a.schemas()
    &&& b.known() == match existence(a, name) {
        Some(e) => a.known().insert(name, e),
        None => a.known(),
    }
}

/// The version that registering a schema of `name` gives in `m`.
pub open spec fn next_version(m: TableManager, name: Seq<char>) -> int {
    max_version(versions_of(m.versions().entries(), name)) + 1int
}

/// `b` is `a` after creating the table of `schema` with result `r`. With
/// `if_not_exists` a table known to exist is left as it is. Otherwise the
/// `default` pool is needed; then the table is known to exist, its schema is
/// cached, and a copy of it is registered as a new version described as
/// `初始版本`.
pub open spec fn table_created(a: TableManager, b: TableManager, schema: TableSchema, if_not_exists: bool, r: Result<(), QuickDbError>) -> bool {
    let name = schema.name@;
    &&& same_setup(a, b)
    &&& if if_not_exists && existence(a, name) == Some(true) {
        r is Ok && unchanged(a, b)
    } else if !has_default_pool(a) {
        r is Err && r->Err_0@ == no_default_pool() && unchanged(a, b)
    } else {
        &&& r is Ok
        &&& b.known() == a.known().insert(name, true)
        &&& b.schemas() == a.schemas().insert(name, b.schemas()[name])
        &&& same_schema(schema, b.schemas()[name])
        &&& exists|c: TableSchema, d: String|
            same_schema(schema, c) && d@ == "初始版本"@ && #[trigger] registered(
                a.versions().entries(),
                b.versions().entries(),
                name,
                next_version(a, name),
                c,
                Some(d),
            )
        &&& b.versions().records() == a.versions().records()
    }
}

/// `b` is `a` after registering `schema` with `description`, with result `r`: a
/// copy of the schema becomes the table's new current version, whose number is
/// the result, and the schema is cached.
pub open spec fn schema_registered(
    a: TableManager,
    b: TableManager,
    schema: TableSchema,
    description: Option<String>,
    r: Result<u32, QuickDbError>,
) -> bool {
    let name = schema.name@;
    &&& same_setup(a, b)
    &&& b.known() == a.known()
    &&& r == Ok::<u32, QuickDbError>(next_version(a, name) as u32)
    &&& b.schemas() == a.schemas().insert(name, schema)
    &&& exists|c: TableSchema|
        same_schema(schema, c) && #[trigger] registered(
            a.versions().entries(),
            b.versions().entries(),
            name,
            next_version(a, name),
            c,
            description,
        )
    &&& b.versions().records() == a.versions().records()
}

/// `b` is `a` after dropping `name` with result `r`: with the `default` pool the
/// table is forgotten by both caches; its versions stay.
pub open spec fn table_dropped(a: TableManager, b: TableManager, name: Seq<char>, r: Result<(), QuickDbError>) -> bool {
    &&& same_setup(a, b)
    &&& b.versions() == a.versions()
    &&& if has_default_pool(a) {
        &&& r is Ok
        &&& b.known() == a.known().remove(name)
        &&& b.schemas() == a.schemas().remove(name)
    } else {
        r is Err && r->Err_0@ == no_default_pool() && unchanged(a, b)
    }
}

impl TableManager {
    /// A manager over `pool_manager` with no versions and empty caches.
    pub fn new(pool_manager: Arc<PoolManager>, config: TableManagerConfig) -> (r: TableManager)
        ensures
            r.wf(),
            r.pools() == *pool_manager,
            r.versions().entries() == Seq::<TableVersions>::empty(),
            r.versions().records() == Seq::<MigrationRecord>::empty(),
            r.known() == Map::<Seq<char>, bool>::empty(),
            r.schemas() == Map::<Seq<char>, TableSchema>::empty(),
            r.creates_tables() == config.auto_create_tables,
            r.migrates() == config.auto_migrate,
    {
        TableManager {
            pool_manager,
            version_manager: VersionManager::new(),
            schema_cache: Keyed::new(),
            existence_cache: Keyed::new(),
            auto_create_tables: config.auto_create_tables,
            auto_migrate: config.auto_migrate,
        }
    }

    /// Takes (and gives back) a connection of the `default` pool.
    fn default_connection(&self) -> (r: Result<(), QuickDbError>)
        ensures
            r is Ok <==> has_default_pool(*self),
            r is Err ==> r->Err_0@ == no_default_pool(),
    {
        match self.pool_manager.get_connection_pool(Some("default")) {
            Ok(_) => Ok(()),
            Err(e) => Err(e),
        }
    }

    /// Whether `table_name` exists: what the manager knows, else what the database
    /// says (which, not having been told about the table, is that it does not),
    /// which the manager then knows.
    pub fn check_table_exists(&mut self, table_name: &str) -> (r: Result<bool, QuickDbError>)
        requires
            old(self).wf(),
        ensures
            final(self).wf(),
            checked(*old(self), *final(self), table_name@),
            match existence(*old(self), table_name@) {
                Some(e) => r == Ok::<bool, QuickDbError>(e),
                None => r is Err && r->Err_0@ == no_default_pool(),
            },
    {
        match self.existence_cache.get(table_name) {
            Some(e) => {
                let e = *e;
                proof {
                    assert(self.known().insert(table_name@, e) =~= self.known());
                }
                return Ok(e);
            },
            None => {},
        }
        match self.default_connection() {
            Err(e) => return Err(e),
            Ok(()) => {},
        }
        let exists = false;
        self.existence_cache.insert(str_to_string(table_name), exists);
        Ok(exists)
    }

    /// Creates the table of `schema` (with the default options when none are
    /// given): unless `if_not_exists` finds it already there, it is known to exist
    /// afterwards, its schema is cached and registered as a new version.
    pub fn create_table(&mut self, schema: &TableSchema, options: Option<TableCreateOptions>) -> (r: Result<(), QuickDbError>)
        requires
            old(self).wf(),
            next_version(*old(self), schema.name@) <= u32::MAX,
        ensures
            final(self).wf(),
            table_created(*old(self), *final(self), *schema, options is None || options->0.if_not_exists, r),
    {
        let ghost a = *self;
        let if_not_exists = match &options {
            Some(o) => o.if_not_exists,
            None => true,
        };
        if if_not_exists {
            let exists = match self.check_table_exists(schema.name.as_str()) {
                Ok(e) => e,
                Err(e) => return Err(e),
            };
            if exists {
                proof {
                    assert(self.known() =~= a.known());
                }
                return Ok(());
            }
        }
        match self.default_connection() {
            Err(e) => {
                proof {
                    assert(self.known() =~= a.known());
                }
                return Err(e);
            },
            Ok(()) => {},
        }
        self.existence_cache.insert(schema.name.clone(), true);
        let cached = schema.clone();
        self.schema_cache.insert(schema.name.clone(), cached);
        let registered_copy = schema.clone();
        let description = str_to_string("初始版本");
        let ghost d = description;
        let v = self.version_manager.register_version(schema.name.clone(), registered_copy, Some(description));
        proof {
            assert(self.known() =~= a.known().insert(schema.name@, true));
            assert(self.schemas() =~= a.schemas().insert(schema.name@, self.schemas()[schema.name@]));
            assert(same_schema(*schema, registered_copy) && d@ == "初始版本"@ && registered(
                a.versions().entries(),
                self.versions().entries(),
                schema.name@,
                next_version(a, schema.name@),
                registered_copy,
                Some(d),
            ));
        }
        match v {
            Ok(_) => Ok(()),
            Err(e) => Err(e),
        }
    }

    /// Drops `table_name`: the manager forgets whether it exists and its schema.
    pub fn drop_table(&mut self, table_name: &str) -> (r: Result<(), QuickDbError>)
        requires
            old(self).wf(),
        ensures
            final(self).wf(),
            table_dropped(*old(self), *final(self), table_name@, r),
    {
        match self.default_connection() {
            Err(e) => return Err(e),
            Ok(()) => {},
        }
        self.existence_cache.remove(table_name);
        self.schema_cache.remove(table_name);
        Ok(())
    }

    /// The schema of `table_name`: a copy of the cached one, else what the
    /// database reports, which is none.
    pub fn get_table_schema(&self, table_name: &str) -> (r: Result<Option<TableSchema>, QuickDbError>)
        requires
            self.wf(),
        ensures
            match self.schemas().get(table_name@) {
                Some(s) => r matches Ok(Some(c)) && same_schema(s, c),
                None => if has_default_pool(*self) {
                    r matches Ok(None)
                } else {
                    r is Err && r->Err_0@ == no_default_pool()
                },
            },
    {
        match self.schema_cache.get(table_name) {
            Some(s) => return Ok(Some(s.clone())),
            None => {},
        }
        match self.default_connection() {
            Err(e) => Err(e),
            Ok(()) => Ok(None),
        }
    }

    /// The tables that the database lists, which are none.
    pub fn list_tables(&self) -> (r: Result<Vec<String>, QuickDbError>)
        ensures
            has_default_pool(*self) ==> (r matches Ok(v) && v@.len() == 0),
            !has_default_pool(*self) ==> r is Err && r->Err_0@ == no_default_pool(),
    {
        match self.default_connection() {
            Err(e) => Err(e),
            Ok(()) => Ok(Vec::new()),
        }
    }

    /// The status of `table_name`, after asking whether it exists.
    pub fn check_table_status(&mut self, table_name: &str) -> (r: Result<TableCheckResult, QuickDbError>)
        requires
            old(self).wf(),
        ensures
            final(self).wf(),
            checked(*old(self), *final(self), table_name@),
            match existence(*old(self), table_name@) {
                Some(e) => r matches Ok(st) && status_reported(old(self).versions(), table_name@, e, st),
                None => r is Err && r->Err_0@ == no_default_pool(),
            },
    {
        let exists = match self.check_table_exists(table_name) {
            Ok(e) => e,
            Err(e) => return Err(e),
        };
        Ok(table_status(&self.version_manager, table_name, exists))
    }

    /// Migrates `table_name` from version 0 to `target_version` (by default its
    /// current registered version) by executing the migrations of its path.
    pub fn migrate_table(&mut self, table_name: &str, target_version: Option<u32>) -> (r: Result<(), QuickDbError>)
        requires
            old(self).wf(),
        ensures
            final(self).wf(),
            same_setup(*old(self), *final(self)),
            final(self).known() == old(self).known(),
            final(self).schemas() == old(self).schemas(),
            migrated(old(self).versions(), final(self).versions(), table_name@, target_version, r),
    {
        run_migrations(&mut self.version_manager, table_name, target_version)
    }

    /// Makes sure the table of `schema` exists when tables are created
    /// automatically: a missing table is created, and an existing one is migrated
    /// when automatic migration is on and its status calls for it (which, no
    /// version being read from the database, it does not).
    pub fn ensure_table_exists(&mut self, schema: &TableSchema) -> (r: Result<(), QuickDbError>)
        requires
            old(self).wf(),
            next_version(*old(self), schema.name@) <= u32::MAX,
        ensures
            final(self).wf(),
            !old(self).creates_tables() ==> r is Ok && unchanged(*old(self), *final(self)),
            old(self).creates_tables() ==> match existence(*old(self), schema.name@) {
                None => r is Err && r->Err_0@ == no_default_pool() && unchanged(*old(self), *final(self)),
                Some(true) => r is Ok && unchanged(*old(self), *final(self)),
                Some(false) => table_created(*old(self), *final(self), *schema, false, r),
            },
    {
        let ghost a = *self;
        if !self.auto_create_tables {
            return Ok(());
        }
        let exists = match self.check_table_exists(schema.name.as_str()) {
            Ok(e) => e,
            Err(e) => {
                proof {
                    assert(self.known() =~= a.known());
                }
                return Err(e);
            },
        };
        if !exists {
            let r = self.create_table(schema, None);
            proof {
                if has_default_pool(a) {
                    assert(self.known() =~= a.known().insert(schema.name@, true));
                    assert(self.schemas() =~= a.schemas().insert(schema.name@, self.schemas()[schema.name@]));
                } else {
                    assert(self.known() =~= a.known());
                }
            }
            r
        } else {
            proof {
                assert(self.known() =~= a.known());
            }
            if self.auto_migrate {
                let status = match self.check_table_status(schema.name.as_str()) {
                    Ok(st) => st,
                    Err(e) => return Err(e),
                };
                proof {
                    assert(self.known() =~= a.known());
                }
                if status.needs_migration {
                    return self.migrate_table(schema.name.as_str(), None);
                }
            }
            Ok(())
        }
    }

    /// Registers `schema` as the new current version of its table, described by
    /// `description`, caches it, and returns the version's number.
    pub fn register_schema(&mut self, schema: TableSchema, description: Option<String>) -> (r: Result<u32, QuickDbError>)
        requires
            old(self).wf(),
            next_version(*old(self), schema.name@) <= u32::MAX,
        ensures
            final(self).wf(),
            schema_registered(*old(self), *final(self), schema, description, r),
    {
        let ghost a = *self;
        let copy = schema.clone();
        let version = self.version_manager.register_version(schema.name.clone(), copy, description);
        let version = match version {
            Ok(v) => v,
            Err(e) => return Err(e),
        };
        let name = schema.name.clone();
        self.schema_cache.insert(name, schema);
        proof {
            assert(same_schema(schema, copy) && registered(
                a.versions().entries(),
                self.versions().entries(),
                schema.name@,
                next_version(a, schema.name@),
                copy,
                description,
            ));
        }
        Ok(version)
    }

    /// Creates a migration of `table_name` from `from_version` to `to_version`.
    pub fn create_migration_script(
        &mut self,
        table_name: &str,
        from_version: u32,
        to_version: u32,
        up_script: String,
        down_script: Option<String>,
        script_type: MigrationScriptType,
    ) -> (r: Result<String, QuickDbError>)
        requires
            old(self).wf(),
        ensures
            final(self).wf(),
            same_setup(*old(self), *final(self)),
            final(self).known() == old(self).known(),
            final(self).schemas() == old(self).schemas(),
            migration_created(
                old(self).versions(),
                final(self).versions(),
                table_name@,
                from_version,
                to_version,
                up_script,
                down_script,
                script_type,
                r,
            ),
    {
        self.version_manager.create_migration(table_name, from_version, to_version, up_script, down_script, script_type)
    }

    /// Forgets whether tables exist and their schemas.
    pub fn clear_cache(&mut self)
        ensures
            final(self).wf(),
            same_setup(*old(self), *final(self)),
            final(self).versions() == old(self).versions(),
            final(self).known() == Map::<Seq<char>, bool>::empty(),
            final(self).schemas() == Map::<Seq<char>, TableSchema>::empty(),
    {
        self.existence_cache.clear();
        self.schema_cache.clear();
    }

    /// The version history.
    pub fn get_version_manager(&self) -> (r: &VersionManager)
        ensures
            *r == self.versions(),
    {
        &self.version_manager
    }

    /// The sizes of the caches and the switches.
    pub fn get_stats(&self) -> (r: TableManagerStats)
        requires
            self.wf(),
        ensures
            r.existence_cache_size == self.known().len(),
            r.schema_cache_size == self.schemas().len(),
            r.auto_create_tables == self.creates_tables(),
            r.auto_migrate == self.migrates(),
    {
        TableManagerStats {
            existence_cache_size: self.existence_cache.len(),
            schema_cache_size: self.schema_cache.len(),
            auto_create_tables: self.auto_create_tables,
            auto_migrate: self.auto_migrate,
        }
    }
}

/// Once a table was created, the manager answers that it exists.
pub proof fn lemma_created_table_exists(
    a: TableManager,
    b: TableManager,
    schema: TableSchema,
    if_not_exists: bool,
    r: Result<(), QuickDbError>,
)
    requires
        table_created(a, b, schema, if_not_exists, r),
        r is Ok,
    ensures
        existence(b, schema.name@) == Some(true),
{
}

/// Once a schema was registered, the manager holds it as its table's schema, and
/// a copy of it, with the given description, is the table's current version,
/// numbered as the result says.
pub proof fn lemma_registered_schema_is_current(
    a: TableManager,
    b: TableManager,
    schema: TableSchema,
    description: Option<String>,
    r: Result<u32, QuickDbError>,
)
    requires
        schema_registered(a, b, schema, description, r),
    ensures
        b.schemas().get(schema.name@) == Some(schema),
        current_version(b.versions().entries(), schema.name@) matches Some(v) && {
            &&& same_schema(schema, v.schema)
            &&& r == Ok::<u32, QuickDbError>(v.version)
            &&& v.description == description
        },
{
    let name = schema.name@;
    let c = choose|c: TableSchema|
        same_schema(schema, c) && #[trigger] registered(
            a.versions().entries(),
            b.versions().entries(),
            name,
            next_version(a, name),
            c,
            description,
        );
    lemma_registered_version_is_current(a.versions().entries(), b.versions().entries(), name, next_version(a, name), c, description);
}

/// Once a table was dropped, the manager has forgotten it, so that asked again
/// whether it exists it asks the database; its versions are kept.
pub proof fn lemma_dropped_table_is_forgotten(a: TableManager, b: TableManager, name: Seq<char>, r: Result<(), QuickDbError>)
    requires
        table_dropped(a, b, name, r),
        r is Ok,
    ensures
        !b.known().dom().contains(name),
        !b.schemas().dom().contains(name),
        existence(b, name) == Some(false),
        b.versions() == a.versions(),
{
}

} // verus!
