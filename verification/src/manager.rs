//! The registry of databases (by alias) and of models: which pools exist, which
//! alias is the default, which ID generators serve each database, and which
//! models are registered. Creating and closing the pools themselves is I/O and
//! stays with the caller, which hands the registry a handle for each new pool.

use vstd::prelude::*;
use std::sync::Arc;
use crate::error::{QuickDbError, ErrorView};
use crate::types::{DatabaseType, IdStrategy, IdType};
use crate::config::DatabaseConfig;
use crate::id_generator::{IdGenerator, MongoAutoIncrementGenerator, generate_post};
use crate::model::{ModelMeta, IndexDefinition};
use crate::text::{join_seqs, join_strings, string_views, str_to_string, str_eq};
use crate::outside::{
    pool_slots, pool_map_new, pool_map_insert, pool_map_remove, pool_map_get, pool_map_keys, pool_map_first_key,
    id_generator_slots, id_generator_map_new, id_generator_map_insert, id_generator_map_remove, id_generator_map_get,
    mongo_generator_slots, mongo_generator_map_new, mongo_generator_map_insert, mongo_generator_map_remove,
    mongo_generator_map_get, model_slots, model_map_new, model_map_insert, model_map_get, model_map_entries,
    lists_keys, PoolMap, IdGeneratorMap, MongoGeneratorMap, ModelMap,
};

verus! {

/// The library's name.
pub const NAME: &'static str = "rat_quickdb";

/// The library's version.
pub const VERSION: &'static str = "0.1.9";

/// The library's name and version: `rat_quickdb v0.1.9`.
pub fn get_info() -> (r: String)
    ensures
        r@ == NAME@ + " v"@ + VERSION@,
{
    let mut s = str_to_string(NAME);
    s.append(" v");
    s.append(VERSION);
    s
}

/// A registered database: its kind and the handle of its pool.
#[derive(Debug, Clone, Copy, PartialEq, Eq, Structural)]
pub struct PoolSlot {
    pub db_type: DatabaseType,
    /// The caller's handle of the pool.
    pub pool: u64,
}

/// The registry of databases and models.
#[derive(Debug)]
pub struct PoolManager {
    pools: PoolMap,
    default_alias: Option<String>,
    id_generators: IdGeneratorMap,
    mongo_auto_increment_generators: MongoGeneratorMap,
    model_registry: ModelMap,
}

/// Whether a strategy can serve as an ID generator (a snowflake strategy needs a
/// machine ID up to 1023 and a datacenter ID up to 31).
pub open spec fn strategy_ok(s: IdStrategy) -> bool {
    match s {
        IdStrategy::Snowflake { machine_id, datacenter_id } => machine_id <= 1023 && datacenter_id <= 31,
        _ => true,
    }
}

/// The registry's default after the database `alias` leaves: unchanged unless it
/// was `alias`; then some database that remains, or none when none remains.
pub open spec fn default_handed_on(
    before: Option<Seq<char>>,
    alias: Seq<char>,
    remaining: Map<Seq<char>, PoolSlot>,
    after: Option<Seq<char>>,
) -> bool {
    if before == Some(alias) {
        match after {
            None => remaining.dom() == Set::<Seq<char>>::empty(),
            Some(k) => remaining.dom().contains(k),
        }
    } else {
        after == before
    }
}

impl PoolManager {
    /// The registered databases, by alias.
    pub closed spec fn databases(self) -> Map<Seq<char>, PoolSlot> {
        pool_slots(self.pools)
    }

    /// The default alias.
    pub closed spec fn default_spec(self) -> Option<Seq<char>> {
        match self.default_alias {
            Some(a) => Some(a@),
            None => None,
        }
    }

    /// The ID generators, by alias.
    pub closed spec fn generators(self) -> Map<Seq<char>, IdGenerator> {
        id_generator_slots(self.id_generators)
    }

    /// The MongoDB auto-increment generators, by alias.
    pub closed spec fn mongo_generators(self) -> Map<Seq<char>, MongoAutoIncrementGenerator> {
        mongo_generator_slots(self.mongo_auto_increment_generators)
    }

    /// The registered models, by collection name.
    pub closed spec fn models(self) -> Map<Seq<char>, ModelMeta> {
        model_slots(self.model_registry)
    }

    /// Well-formed: the default alias, when set, and every alias with a generator
    /// are registered databases.
    pub open spec fn wf(self) -> bool {
        &&& match self.default_spec() {
            Some(a) => self.databases().dom().contains(a),
            None => true,
        }
        &&& forall|a: Seq<char>| #[trigger] self.generators().dom().contains(a) ==> self.databases().dom().contains(a)
        &&& forall|a: Seq<char>| #[trigger] self.mongo_generators().dom().contains(a) ==> self.databases().dom().contains(a)
    }

    /// An empty registry.
    pub fn new() -> (r: PoolManager)
        ensures
            r.wf(),
            r.databases() == Map::<Seq<char>, PoolSlot>::empty(),
            r.default_spec() is None,
            r.generators() == Map::<Seq<char>, IdGenerator>::empty(),
            r.mongo_generators() == Map::<Seq<char>, MongoAutoIncrementGenerator>::empty(),
            r.models() == Map::<Seq<char>, ModelMeta>::empty(),
    {
        let r = PoolManager {
            pools: pool_map_new(),
            default_alias: None,
            id_generators: id_generator_map_new(),
            mongo_auto_increment_generators: mongo_generator_map_new(),
            model_registry: model_map_new(),
        };
        proof {
            assert(r.databases() =~= Map::<Seq<char>, PoolSlot>::empty());
            assert(r.generators() =~= Map::<Seq<char>, IdGenerator>::empty());
            assert(r.mongo_generators() =~= Map::<Seq<char>, MongoAutoIncrementGenerator>::empty());
            assert(r.models() =~= Map::<Seq<char>, ModelMeta>::empty());
        }
        r
    }

    /// Whether a database is registered under `alias`.
    pub fn contains_alias(&self, alias: &str) -> (r: bool)
        ensures
            r == self.databases().dom().contains(alias@),
    {
        pool_map_get(&self.pools, alias).is_some()
    }

    /// The registered aliases, each once, in no particular order.
    pub fn get_aliases(&self) -> (r: Vec<String>)
        ensures
            lists_keys(r@, self.databases()),
    {
        pool_map_keys(&self.pools)
    }

    /// The default alias, if set.
    pub fn get_default_alias(&self) -> (r: Option<String>)
        ensures
            match r {
                Some(a) => self.default_spec() == Some(a@),
                None => self.default_spec() is None,
            },
    {
        match &self.default_alias {
            Some(a) => Some(a.clone()),
            None => None,
        }
    }

    /// Makes `alias` the default; a registered alias is required.
    pub fn set_default_alias(&mut self, alias: &str) -> (r: Result<(), QuickDbError>)
        requires
            old(self).wf(),
        ensures
            final(self).wf(),
            final(self).databases() == old(self).databases(),
            final(self).generators() == old(self).generators(),
            final(self).mongo_generators() == old(self).mongo_generators(),
            final(self).models() == old(self).models(),
            old(self).databases().dom().contains(alias@) ==> r is Ok && final(self).default_spec() == Some(alias@),
            !old(self).databases().dom().contains(alias@) ==> {
                &&& r is Err
                &&& r->Err_0@ == (ErrorView::AliasNotFound { alias: alias@ })
                &&& final(self).default_spec() == old(self).default_spec()
            },
    {
        if self.contains_alias(alias) {
            self.default_alias = Some(str_to_string(alias));
            proof {
                assert(self.databases() == old(self).databases());
                assert(self.generators() == old(self).generators());
                assert(self.mongo_generators() == old(self).mongo_generators());
            }
            Ok(())
        } else {
            Err(QuickDbError::AliasNotFound { alias: str_to_string(alias) })
        }
    }

    /// The pool registered under `alias`.
    pub fn get_pool(&self, alias: &str) -> (r: Result<u64, QuickDbError>)
        ensures
            match r {
                Ok(p) => self.databases().dom().contains(alias@) && self.databases()[alias@].pool == p,
                Err(e) => !self.databases().dom().contains(alias@) && e@ == (ErrorView::AliasNotFound { alias: alias@ }),
            },
    {
        match pool_map_get(&self.pools, alias) {
            Some(slot) => Ok(slot.pool),
            None => Err(QuickDbError::AliasNotFound { alias: str_to_string(alias) }),
        }
    }

    /// The pool a connection is taken from: the one of `alias`, or of the default
    /// alias when none is given.
    ///
    /// Without an alias and without a default the result is a configuration error;
    /// an unknown alias is `AliasNotFound`.
    pub fn get_connection_pool(&self, alias: Option<&str>) -> (r: Result<u64, QuickDbError>)
        ensures
            alias is None && self.default_spec() is None ==> r is Err && r->Err_0@ == (ErrorView::ConfigError {
                message: "没有配置默认数据库别名"@,
            }),
            ({
                let target = match alias {
                    Some(a) => Some(a@),
                    None => self.default_spec(),
                };
                target matches Some(t) ==> match r {
                    Ok(p) => self.databases().dom().contains(t) && self.databases()[t].pool == p,
                    Err(e) => !self.databases().dom().contains(t) && e@ == (ErrorView::AliasNotFound { alias: t }),
                }
            }),
    {
        match alias {
            Some(a) => self.get_pool(a),
            None => match &self.default_alias {
                Some(a) => self.get_pool(a.as_str()),
                None => Err(QuickDbError::ConfigError { message: str_to_string("没有配置默认数据库别名") }),
            },
        }
    }

    /// The kind of the database registered under `alias`.
    pub fn get_database_type(&self, alias: &str) -> (r: Result<DatabaseType, QuickDbError>)
        ensures
            match r {
                Ok(t) => self.databases().dom().contains(alias@) && self.databases()[alias@].db_type == t,
                Err(e) => !self.databases().dom().contains(alias@) && e@ == (ErrorView::AliasNotFound { alias: alias@ }),
            },
    {
        match pool_map_get(&self.pools, alias) {
            Some(slot) => Ok(slot.db_type),
            None => Err(QuickDbError::AliasNotFound { alias: str_to_string(alias) }),
        }
    }

    /// Removes the database registered under `alias`, with its ID generators.
    ///
    /// When it was the default, one of the remaining databases becomes the default,
    /// or none when no database remains. An unknown alias is `AliasNotFound`, and
    /// nothing changes.
    pub fn remove_database(&mut self, alias: &str) -> (r: Result<(), QuickDbError>)
        requires
            old(self).wf(),
        ensures
            final(self).wf(),
            final(self).models() == old(self).models(),
            !old(self).databases().dom().contains(alias@) ==> {
                &&& r is Err
                &&& r->Err_0@ == (ErrorView::AliasNotFound { alias: alias@ })
                &&& *final(self) == *old(self)
            },
            old(self).databases().dom().contains(alias@) ==> {
                &&& r is Ok
                &&& final(self).databases() == old(self).databases().remove(alias@)
                &&& final(self).generators() == old(self).generators().remove(alias@)
                &&& final(self).mongo_generators() == old(self).mongo_generators().remove(alias@)
                &&& default_handed_on(old(self).default_spec(), alias@, final(self).databases(), final(self).default_spec())
            },
    {
        if !self.contains_alias(alias) {
            return Err(QuickDbError::AliasNotFound { alias: str_to_string(alias) });
        }
        let _ = pool_map_remove(&mut self.pools, alias);
        id_generator_map_remove(&mut self.id_generators, alias);
        mongo_generator_map_remove(&mut self.mongo_auto_increment_generators, alias);
        let was_default = match &self.default_alias {
            Some(d) => str_eq(d.as_str(), alias),
            None => false,
        };
        if was_default {
            self.default_alias = pool_map_first_key(&self.pools);
        }
        proof {
            let a = alias@;
            assert forall|k: Seq<char>| #[trigger] self.generators().dom().contains(k) implies self.databases().dom().contains(k) by {
                assert(old(self).generators().dom().contains(k));
            }
            assert forall|k: Seq<char>| #[trigger] self.mongo_generators().dom().contains(k) implies self.databases().dom().contains(k) by {
                assert(old(self).mongo_generators().dom().contains(k));
            }
        }
        Ok(())
    }
}

/// A copy of a strategy.
fn copy_strategy(s: &IdStrategy) -> (r: IdStrategy)
    ensures
        r == *s,
{
    match s {
        IdStrategy::AutoIncrement => IdStrategy::AutoIncrement,
        IdStrategy::Uuid => IdStrategy::Uuid,
        IdStrategy::Snowflake { machine_id, datacenter_id } => IdStrategy::Snowflake {
            machine_id: *machine_id,
            datacenter_id: *datacenter_id,
        },
        IdStrategy::ObjectId => IdStrategy::ObjectId,
        IdStrategy::Custom(g) => IdStrategy::Custom(g.clone()),
    }
}

/// The ID generator a database of strategy `s` gets, when it gets one: the
/// strategy's generator with its counter at 1.
pub open spec fn fresh_generator(g: IdGenerator, s: IdStrategy) -> bool {
    g.strategy_spec() == s && g.counter() == 1
}

impl PoolManager {
    /// Registers the database of `config` with the handle of its newly created
    /// pool, replacing one registered under the same alias (which first leaves as
    /// [`PoolManager::remove_database`] says).
    ///
    /// It gets an ID generator when its strategy is valid, and a MongoDB
    /// auto-increment generator (for its alias, from 1) when it is a MongoDB
    /// database. It becomes the default when there is no default at that point.
    pub fn add_database(&mut self, config: &DatabaseConfig, pool: u64)
        requires
            old(self).wf(),
        ensures
            final(self).wf(),
            final(self).models() == old(self).models(),
            final(self).databases() == old(self).databases().insert(
                config.alias@,
                PoolSlot { db_type: config.db_type, pool },
            ),
            final(self).generators().remove(config.alias@) == old(self).generators().remove(config.alias@),
            final(self).generators().dom().contains(config.alias@) == strategy_ok(config.id_strategy),
            strategy_ok(config.id_strategy) ==> fresh_generator(final(self).generators()[config.alias@], config.id_strategy),
            final(self).mongo_generators().remove(config.alias@) == old(self).mongo_generators().remove(config.alias@),
            final(self).mongo_generators().dom().contains(config.alias@) == (config.db_type == DatabaseType::MongoDB),
            config.db_type == DatabaseType::MongoDB ==> {
                &&& final(self).mongo_generators()[config.alias@].collection() == config.alias@
                &&& final(self).mongo_generators()[config.alias@].next_value() == 1
            },
            ({
                let d0 = old(self).default_spec();
                let a = config.alias@;
                let rest = old(self).databases().remove(a);
                if d0 is None {
                    final(self).default_spec() == Some(a)
                } else if d0 == Some(a) {
                    if rest.dom() == Set::<Seq<char>>::empty() {
                        final(self).default_spec() == Some(a)
                    } else {
                        final(self).default_spec() matches Some(k) && k != a && rest.dom().contains(k)
                    }
                } else {
                    final(self).default_spec() == d0
                }
            }),
    {
        let alias = config.alias.as_str();
        if self.contains_alias(alias) {
            let _ = self.remove_database(alias);
        }
        let ghost mid = *self;
        proof {
            assert(mid.databases() =~= old(self).databases().remove(config.alias@));
            assert(mid.generators() =~= old(self).generators().remove(config.alias@));
            assert(mid.mongo_generators() =~= old(self).mongo_generators().remove(config.alias@));
        }
        let _ = pool_map_insert(&mut self.pools, config.alias.clone(), PoolSlot { db_type: config.db_type, pool });
        let strategy = copy_strategy(&config.id_strategy);
        match IdGenerator::new(strategy) {
            Ok(g) => {
                id_generator_map_insert(&mut self.id_generators, config.alias.clone(), Arc::new(g));
            },
            Err(_) => {},
        }
        if config.db_type == DatabaseType::MongoDB {
            let m = MongoAutoIncrementGenerator::new(config.alias.clone());
            mongo_generator_map_insert(&mut self.mongo_auto_increment_generators, config.alias.clone(), Arc::new(m));
        }
        if self.default_alias.is_none() {
            self.default_alias = Some(config.alias.clone());
        }
        proof {
            let a = config.alias@;
            assert(self.generators().remove(a) =~= old(self).generators().remove(a));
            assert(self.mongo_generators().remove(a) =~= old(self).mongo_generators().remove(a));
            assert(self.databases() =~= old(self).databases().insert(a, PoolSlot { db_type: config.db_type, pool }));
        }
    }
}

/// The name of a model index: its own, or `idx_` and its fields joined by `_`.
pub open spec fn index_name_spec(i: IndexDefinition) -> Seq<char> {
    match i.name {
        Some(n) => n@,
        None => "idx_"@ + join_seqs(string_views(i.fields@), "_"@),
    }
}

/// The name a model index is created under.
pub fn index_name(index: &IndexDefinition) -> (r: String)
    ensures
        r@ == index_name_spec(*index),
{
    match &index.name {
        Some(n) => n.clone(),
        None => {
            let mut s = str_to_string("idx_");
            let j = join_strings(&index.fields, "_");
            s.append(j.as_str());
            s
        },
    }
}

impl PoolManager {
    /// The ID generator of the database `alias`.
    pub fn get_id_generator(&self, alias: &str) -> (r: Result<Arc<IdGenerator>, QuickDbError>)
        ensures
            r is Ok <==> self.generators().dom().contains(alias@),
            r matches Ok(g) ==> *g == self.generators()[alias@],
            r is Err ==> r->Err_0@ == (ErrorView::ConfigError { message: "数据库 "@ + alias@ + " 没有配置ID生成器"@ }),
    {
        match id_generator_map_get(&self.id_generators, alias) {
            Some(g) => Ok(g),
            None => {
                let mut m = str_to_string("数据库 ");
                m.append(alias);
                m.append(" 没有配置ID生成器");
                Err(QuickDbError::ConfigError { message: m })
            },
        }
    }

    /// The MongoDB auto-increment generator of the database `alias`.
    pub fn get_mongo_auto_increment_generator(&self, alias: &str) -> (r: Result<Arc<MongoAutoIncrementGenerator>, QuickDbError>)
        ensures
            r is Ok <==> self.mongo_generators().dom().contains(alias@),
            r matches Ok(g) ==> *g == self.mongo_generators()[alias@],
            r is Err ==> r->Err_0@ == (ErrorView::ConfigError { message: "数据库 "@ + alias@ + " 没有MongoDB自增ID生成器"@ }),
    {
        match mongo_generator_map_get(&self.mongo_auto_increment_generators, alias) {
            Some(g) => Ok(g),
            None => {
                let mut m = str_to_string("数据库 ");
                m.append(alias);
                m.append(" 没有MongoDB自增ID生成器");
                Err(QuickDbError::ConfigError { message: m })
            },
        }
    }

    /// A new ID from the generator of the database `alias`, which advances in the
    /// registry: every ID generated through the registry comes from the one
    /// generator the registry holds for the database. `None` (and no change) when
    /// the database has no generator.
    pub fn generate_id(&mut self, alias: &str) -> (r: Option<Result<IdType, String>>)
        requires
            old(self).wf(),
        ensures
            final(self).wf(),
            final(self).databases() == old(self).databases(),
            final(self).default_spec() == old(self).default_spec(),
            final(self).mongo_generators() == old(self).mongo_generators(),
            final(self).models() == old(self).models(),
            !old(self).generators().dom().contains(alias@) ==> r is None && final(self).generators() == old(self).generators(),
            old(self).generators().dom().contains(alias@) ==> {
                &&& r matches Some(res) && generate_post(
                    old(self).generators()[alias@],
                    final(self).generators()[alias@],
                    res,
                )
                &&& final(self).generators() == old(self).generators().insert(alias@, final(self).generators()[alias@])
            },
    {
        match id_generator_map_get(&self.id_generators, alias) {
            None => None,
            Some(g) => {
                let mut own = g.copied();
                let res = own.generate();
                let ghost g1 = own;
                id_generator_map_insert(&mut self.id_generators, str_to_string(alias), Arc::new(own));
                proof {
                    assert(self.generators()[alias@] == g1);
                    assert(self.databases() == old(self).databases());
                    assert forall|a: Seq<char>| #[trigger] self.generators().dom().contains(a) implies self.databases().dom().contains(a) by {
                        assert(old(self).generators().dom().contains(a));
                    }
                    assert(self.mongo_generators() == old(self).mongo_generators());
                    assert(self.default_spec() == old(self).default_spec());
                }
                Some(res)
            },
        }
    }

    /// The next ID from the MongoDB auto-increment generator of the database
    /// `alias`, which advances in the registry. `None` (and no change) when the
    /// database has no such generator.
    pub fn next_mongo_id(&mut self, alias: &str) -> (r: Option<Result<i64, String>>)
        requires
            old(self).wf(),
        ensures
            final(self).wf(),
            final(self).databases() == old(self).databases(),
            final(self).default_spec() == old(self).default_spec(),
            final(self).generators() == old(self).generators(),
            final(self).models() == old(self).models(),
            !old(self).mongo_generators().dom().contains(alias@) ==> r is None && final(self).mongo_generators()
                == old(self).mongo_generators(),
            old(self).mongo_generators().dom().contains(alias@) ==> {
                let g0 = old(self).mongo_generators()[alias@];
                let g1 = final(self).mongo_generators()[alias@];
                &&& r == Some(Ok::<i64, String>(g0.next_value() as i64))
                &&& g1.next_value() == g0.next_value().wrapping_add(1)
                &&& g1.collection() == g0.collection()
                &&& final(self).mongo_generators() == old(self).mongo_generators().insert(alias@, g1)
            },
    {
        match mongo_generator_map_get(&self.mongo_auto_increment_generators, alias) {
            None => None,
            Some(g) => {
                let mut own = g.copied();
                let res = own.next_id();
                let ghost g1 = own;
                mongo_generator_map_insert(&mut self.mongo_auto_increment_generators, str_to_string(alias), Arc::new(own));
                proof {
                    assert(self.mongo_generators()[alias@] == g1);
                    assert(self.databases() == old(self).databases());
                    assert forall|a: Seq<char>| #[trigger] self.mongo_generators().dom().contains(a) implies self.databases().dom().contains(a) by {
                        assert(old(self).mongo_generators().dom().contains(a));
                    }
                    assert(self.generators() == old(self).generators());
                    assert(self.default_spec() == old(self).default_spec());
                }
                Some(res)
            },
        }
    }

    /// Registers a model under its collection name, replacing one registered
    /// under the same name.
    pub fn register_model(&mut self, model_meta: ModelMeta) -> (r: Result<(), QuickDbError>)
        requires
            old(self).wf(),
        ensures
            r is Ok,
            final(self).wf(),
            final(self).databases() == old(self).databases(),
            final(self).default_spec() == old(self).default_spec(),
            final(self).generators() == old(self).generators(),
            final(self).mongo_generators() == old(self).mongo_generators(),
            final(self).models() == old(self).models().insert(model_meta.collection_name@, model_meta),
    {
        let name = model_meta.collection_name.clone();
        model_map_insert(&mut self.model_registry, name, Arc::new(model_meta));
        proof {
            assert(self.databases() == old(self).databases());
            assert(self.generators() == old(self).generators());
            assert(self.mongo_generators() == old(self).mongo_generators());
        }
        Ok(())
    }

    /// The model registered under `collection_name`.
    pub fn get_model(&self, collection_name: &str) -> (r: Option<Arc<ModelMeta>>)
        ensures
            r is Some <==> self.models().dom().contains(collection_name@),
            r matches Some(m) ==> *m == self.models()[collection_name@],
    {
        model_map_get(&self.model_registry, collection_name)
    }

    /// Whether a model is registered under `collection_name`.
    pub fn has_model(&self, collection_name: &str) -> (r: bool)
        ensures
            r == self.models().dom().contains(collection_name@),
    {
        self.get_model(collection_name).is_some()
    }

    /// The registered models with their collection names, each once, in no
    /// particular order.
    pub fn get_registered_models(&self) -> (r: Vec<(String, Arc<ModelMeta>)>)
        ensures
            lists_keys(r@.map_values(|e: (String, Arc<ModelMeta>)| e.0), self.models()),
            forall|i: int| 0 <= i < r@.len() ==> *(#[trigger] r@[i]).1 == self.models()[r@[i].0@],
    {
        model_map_entries(&self.model_registry)
    }

    /// What making sure of a model's table and indexes on database `alias` involves:
    /// nothing (`None`) when no model is registered under `collection_name`; the
    /// model when the database is registered; `AliasNotFound` otherwise.
    pub fn table_and_index_plan(&self, collection_name: &str, alias: &str) -> (r: Result<Option<Arc<ModelMeta>>, QuickDbError>)
        ensures
            !self.models().dom().contains(collection_name@) ==> r matches Ok(None),
            self.models().dom().contains(collection_name@) && self.databases().dom().contains(alias@) ==> (r matches Ok(
                Some(m),
            ) && *m == self.models()[collection_name@]),
            self.models().dom().contains(collection_name@) && !self.databases().dom().contains(alias@) ==> (r is Err
                && r->Err_0@ == (ErrorView::AliasNotFound { alias: alias@ })),
    {
        match self.get_model(collection_name) {
            None => Ok(None),
            Some(m) => {
                if self.contains_alias(alias) {
                    Ok(Some(m))
                } else {
                    Err(QuickDbError::AliasNotFound { alias: str_to_string(alias) })
                }
            },
        }
    }

    /// The alias an ODM request works on: the one given, else the default alias,
    /// else `default`.
    pub fn actual_alias(&self, alias: Option<&str>) -> (r: String)
        ensures
            r@ == match alias {
                Some(a) => a@,
                None => match self.default_spec() {
                    Some(d) => d,
                    None => "default"@,
                },
            },
    {
        match alias {
            Some(a) => str_to_string(a),
            None => match &self.default_alias {
                Some(d) => d.clone(),
                None => str_to_string("default"),
            },
        }
    }
}

/// The registered aliases of `manager`, each once, in no particular order.
pub fn get_aliases(manager: &PoolManager) -> (r: Vec<String>)
    ensures
        lists_keys(r@, manager.databases()),
{
    manager.get_aliases()
}

/// Whether `manager` has a model registered under `collection_name`.
pub fn has_model(manager: &PoolManager, collection_name: &str) -> (r: bool)
    ensures
        r == manager.models().dom().contains(collection_name@),
{
    manager.has_model(collection_name)
}

/// Once a model is registered, the registry has a model under its collection
/// name, the registered one; a collection that was not registered before and is
/// not the registered one is still absent.
pub proof fn lemma_registered_model_found(before: PoolManager, after: PoolManager, meta: ModelMeta, other: Seq<char>)
    requires
        after.models() == before.models().insert(meta.collection_name@, meta),
        !before.models().dom().contains(other),
        other != meta.collection_name@,
    ensures
        after.models().dom().contains(meta.collection_name@),
        after.models()[meta.collection_name@] == meta,
        !after.models().dom().contains(other),
{
}

/// The registries' lookups after a change: after something is registered under
/// a key (a database under its alias, a model under its collection name), looking
/// the key up finds it; after it is removed, looking it up fails; either way every
/// other key finds what it found before.
pub proof fn lemma_registry_lookups<V>(before: Map<Seq<char>, V>, key: Seq<char>, value: V, other: Seq<char>)
    requires
        other != key,
    ensures
        before.insert(key, value).dom().contains(key),
        before.insert(key, value)[key] == value,
        !before.remove(key).dom().contains(key),
        before.insert(key, value).dom().contains(other) == before.dom().contains(other),
        before.remove(key).dom().contains(other) == before.dom().contains(other),
        before.dom().contains(other) ==> before.insert(key, value)[other] == before[other]
            && before.remove(key)[other] == before[other],
{
}

/// What the status report says of one registered database besides its pool's
/// health and settings: its alias, its kind, and which ID generators it has.
#[derive(Debug)]
pub struct PoolStatus {
    pub alias: String,
    pub db_type: DatabaseType,
    pub has_id_generator: bool,
    pub has_mongo_auto_increment: bool,
}

impl PoolManager {
    /// The status of every registered database, each once, in no particular order.
    pub fn pools_status(&self) -> (r: Vec<PoolStatus>)
        ensures
            lists_keys(r@.map_values(|s: PoolStatus| s.alias), self.databases()),
            forall|i: int| 0 <= i < r@.len() ==> {
                &&& (#[trigger] r@[i]).db_type == self.databases()[r@[i].alias@].db_type
                &&& r@[i].has_id_generator == self.generators().dom().contains(r@[i].alias@)
                &&& r@[i].has_mongo_auto_increment == self.mongo_generators().dom().contains(r@[i].alias@)
            },
    {
        let aliases = self.get_aliases();
        let mut out: Vec<PoolStatus> = Vec::new();
        let mut i: usize = 0;
        while i < aliases.len()
            invariant
                i <= aliases.len(),
                lists_keys(aliases@, self.databases()),
                out@.len() == i,
                forall|j: int| 0 <= j < i ==> (#[trigger] out@[j]).alias@ == aliases@[j]@,
                forall|j: int| 0 <= j < i ==> {
                    &&& (#[trigger] out@[j]).db_type == self.databases()[out@[j].alias@].db_type
                    &&& out@[j].has_id_generator == self.generators().dom().contains(out@[j].alias@)
                    &&& out@[j].has_mongo_auto_increment == self.mongo_generators().dom().contains(out@[j].alias@)
                },
            decreases aliases.len() - i,
        {
            let alias = aliases[i].clone();
            let db_type = match self.get_database_type(alias.as_str()) {
                Ok(t) => t,
                Err(_) => {
                    proof {
                        assert(self.databases().dom().contains(aliases@[i as int]@));
                    }
                    DatabaseType::SQLite
                },
            };
            let has_id_generator = self.get_id_generator(alias.as_str()).is_ok();
            let has_mongo_auto_increment = self.get_mongo_auto_increment_generator(alias.as_str()).is_ok();
            out.push(PoolStatus { alias, db_type, has_id_generator, has_mongo_auto_increment });
            i = i + 1;
        }
        proof {
            let names = out@.map_values(|s: PoolStatus| s.alias);
            assert forall|j: int| 0 <= j < names.len() implies names[j]@ == aliases@[j]@ by {
                assert(names[j] == out@[j].alias);
            }
            assert forall|k: Seq<char>| #[trigger] self.databases().dom().contains(k) <==> exists|j: int|
                0 <= j < names.len() && names[j]@ == k by {
                if self.databases().dom().contains(k) {
                    let j = choose|j: int| 0 <= j < aliases@.len() && aliases@[j]@ == k;
                    assert(names[j]@ == k);
                }
                if exists|j: int| 0 <= j < names.len() && names[j]@ == k {
                    let j = choose|j: int| 0 <= j < names.len() && names[j]@ == k;
                    assert(aliases@[j]@ == k);
                }
            }
        }
        out
    }
}

} // verus!
