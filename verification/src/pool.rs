//! The decisions of the connection pool: connection URLs, opening a SQLite file,
//! retry with exponential back-off, and worker bookkeeping. The pool's I/O (the
//! connections, the queue, the sleeps) stays with the caller, which performs the
//! action each step returns.

use vstd::prelude::*;
use vstd::arithmetic::power2::pow2;
use crate::error::{QuickDbError, ErrorView};
use crate::types::DatabaseType;
use crate::config::{ConnectionConfig, DatabaseConfig, PoolConfig};
use crate::text::{nat_digits, push_u64, str_to_string};
use crossbeam_queue::SegQueue;
use crate::outside::{queued, queue_new, queue_push, queue_pop};

verus! {

/// A pooled connection handle.
#[derive(Debug, Clone)]
pub struct PooledConnection {
    pub id: String,
    pub db_type: DatabaseType,
    /// The alias of the database it belongs to.
    pub alias: String,
}

/// Pool settings beyond the basic ones.
#[derive(Debug, Clone, Copy, PartialEq, Eq, Structural)]
pub struct ExtendedPoolConfig {
    pub base: PoolConfig,
    pub max_retries: u32,
    /// The base delay between retries, in milliseconds.
    pub retry_interval_ms: u64,
    pub keepalive_interval_sec: u64,
    pub health_check_timeout_sec: u64,
}

impl Default for ExtendedPoolConfig {
    fn default() -> (r: ExtendedPoolConfig)
        ensures
            r == (ExtendedPoolConfig {
                base: PoolConfig {
                    min_connections: 1,
                    max_connections: 10,
                    connection_timeout: 30,
                    idle_timeout: 600,
                    max_lifetime: 3600,
                },
                max_retries: 3,
                retry_interval_ms: 1000,
                keepalive_interval_sec: 30,
                health_check_timeout_sec: 5,
            }),
    {
        ExtendedPoolConfig {
            base: PoolConfig::default(),
            max_retries: 3,
            retry_interval_ms: 1000,
            keepalive_interval_sec: 30,
            health_check_timeout_sec: 5,
        }
    }
}

/// `{scheme}://{user}:{password}@{host}:{port}/{database}`.
pub open spec fn server_url(
    scheme: Seq<char>,
    username: Seq<char>,
    password: Seq<char>,
    host: Seq<char>,
    port: u16,
    database: Seq<char>,
) -> Seq<char> {
    scheme + "://"@ + username + ":"@ + password + "@"@ + host + ":"@ + nat_digits(port as nat) + "/"@ + database
}

/// The address a pooled (non-SQLite) database is reached at, or the configuration error.
pub open spec fn connection_url_spec(db_type: DatabaseType, c: ConnectionConfig) -> Result<Seq<char>, ErrorView> {
    match db_type {
        DatabaseType::PostgreSQL => match c {
            ConnectionConfig::PostgreSQL { host, port, database, username, password, .. } => Ok(
                server_url("postgresql"@, username@, password@, host@, port, database@),
            ),
            _ => Err(ErrorView::ConfigError { message: "PostgreSQL连接配置类型不匹配"@ }),
        },
        DatabaseType::MySQL => match c {
            ConnectionConfig::MySQL { host, port, database, username, password, .. } => Ok(
                server_url("mysql"@, username@, password@, host@, port, database@),
            ),
            _ => Err(ErrorView::ConfigError { message: "MySQL连接配置类型不匹配"@ }),
        },
        DatabaseType::MongoDB => match c {
            ConnectionConfig::MongoDB { uri, .. } => Ok(uri@),
            _ => Err(ErrorView::ConfigError { message: "MongoDB连接配置类型不匹配"@ }),
        },
        DatabaseType::SQLite => Err(ErrorView::ConfigError { message: "不支持的数据库类型用于多连接管理器"@ }),
    }
}

fn server_url_exec(scheme: &str, username: &String, password: &String, host: &String, port: u16, database: &String) -> (r:
    String)
    ensures
        r@ == server_url(scheme@, username@, password@, host@, port, database@),
{
    let mut s = str_to_string(scheme);
    s.append("://");
    s.append(username.as_str());
    s.append(":");
    s.append(password.as_str());
    s.append("@");
    s.append(host.as_str());
    s.append(":");
    push_u64(&mut s, port as u64);
    s.append("/");
    s.append(database.as_str());
    s
}

/// The address at which the connection manager reaches a PostgreSQL, MySQL or
/// MongoDB database: a URL built from the server settings, or MongoDB's URI.
///
/// A connection setting of another database kind, or a SQLite database (served by
/// its own single worker), is a configuration error.
pub fn connection_url(config: &DatabaseConfig) -> (r: Result<String, QuickDbError>)
    ensures
        match connection_url_spec(config.db_type, config.connection) {
            Ok(u) => r is Ok && r->Ok_0@ == u,
            Err(e) => r is Err && r->Err_0@ == e,
        },
{
    match config.db_type {
        DatabaseType::PostgreSQL => match &config.connection {
            ConnectionConfig::PostgreSQL { host, port, database, username, password, .. } => Ok(
                server_url_exec("postgresql", username, password, host, *port, database),
            ),
            _ => Err(QuickDbError::ConfigError { message: str_to_string("PostgreSQL连接配置类型不匹配") }),
        },
        DatabaseType::MySQL => match &config.connection {
            ConnectionConfig::MySQL { host, port, database, username, password, .. } => Ok(
                server_url_exec("mysql", username, password, host, *port, database),
            ),
            _ => Err(QuickDbError::ConfigError { message: str_to_string("MySQL连接配置类型不匹配") }),
        },
        DatabaseType::MongoDB => match &config.connection {
            ConnectionConfig::MongoDB { uri, .. } => Ok(uri.clone()),
            _ => Err(QuickDbError::ConfigError { message: str_to_string("MongoDB连接配置类型不匹配") }),
        },
        DatabaseType::SQLite => Err(
            QuickDbError::ConfigError { message: str_to_string("不支持的数据库类型用于多连接管理器") },
        ),
    }
}

/// What to do before connecting to a SQLite database file.
#[derive(Debug, Clone, Copy, PartialEq, Eq, Structural)]
pub enum SqliteOpen {
    /// The file exists: connect to it.
    Open,
    /// The file is missing and may be created: create its directory and an
    /// empty file, then connect.
    CreateThenOpen,
}

/// How a SQLite database file is opened, given whether the file exists, or the error.
pub open spec fn sqlite_open_spec(c: ConnectionConfig, file_exists: bool) -> Result<SqliteOpen, ErrorView> {
    match c {
        ConnectionConfig::SQLite { path, create_if_missing } => if file_exists {
            Ok(SqliteOpen::Open)
        } else if create_if_missing {
            Ok(SqliteOpen::CreateThenOpen)
        } else {
            Err(ErrorView::ConnectionError { message: "SQLite数据库文件不存在且未启用自动创建: "@ + path@ })
        },
        _ => Err(ErrorView::ConfigError { message: "SQLite连接配置类型不匹配"@ }),
    }
}

/// Decides how to open a SQLite database, given whether its file exists: open
/// it, create it first when allowed, or fail when it is missing and may not be
/// created. A connection setting of another kind is a configuration error.
pub fn sqlite_open_plan(connection: &ConnectionConfig, file_exists: bool) -> (r: Result<SqliteOpen, QuickDbError>)
    ensures
        match sqlite_open_spec(*connection, file_exists) {
            Ok(a) => r == Ok::<SqliteOpen, QuickDbError>(a),
            Err(e) => r is Err && r->Err_0@ == e,
        },
{
    match connection {
        ConnectionConfig::SQLite { path, create_if_missing } => {
            if file_exists {
                Ok(SqliteOpen::Open)
            } else if *create_if_missing {
                Ok(SqliteOpen::CreateThenOpen)
            } else {
                let mut m = str_to_string("SQLite数据库文件不存在且未启用自动创建: ");
                m.append(path.as_str());
                Err(QuickDbError::ConnectionError { message: m })
            }
        },
        _ => Err(QuickDbError::ConfigError { message: str_to_string("SQLite连接配置类型不匹配") }),
    }
}

/// The longest back-off delay, in milliseconds.
pub const MAX_BACKOFF_MS: u64 = 30000;

/// The delay before retry number `retry_count`: the base interval doubled once per
/// earlier retry (at most ten doublings), capped at [`MAX_BACKOFF_MS`].
pub open spec fn backoff_spec(retry_interval_ms: u64, retry_count: u32) -> int {
    let e: nat = if retry_count < 10 {
        retry_count as nat
    } else {
        10
    };
    let d = retry_interval_ms * pow2(e);
    if d < MAX_BACKOFF_MS {
        d
    } else {
        MAX_BACKOFF_MS as int
    }
}

/// The exponential back-off delay for `retry_count`, in milliseconds.
pub fn backoff_delay(retry_interval_ms: u64, retry_count: u32) -> (r: u64)
    ensures
        r == backoff_spec(retry_interval_ms, retry_count),
{
    let e: u32 = if retry_count < 10 {
        retry_count
    } else {
        10
    };
    let mut factor: u64 = 1;
    let mut i: u32 = 0;
    proof {
        vstd::arithmetic::power2::lemma2_to64();
    }
    while i < e
        invariant
            i <= e <= 10,
            factor == pow2(i as nat),
            factor <= 1024,
        decreases e - i,
    {
        proof {
            vstd::arithmetic::power2::lemma_pow2_unfold((i + 1) as nat);
            if i + 1 < 10 {
                vstd::arithmetic::power2::lemma_pow2_strictly_increases((i + 1) as nat, 10);
            }
            vstd::arithmetic::power2::lemma2_to64();
        }
        factor = factor * 2;
        i = i + 1;
    }
    match retry_interval_ms.checked_mul(factor) {
        Some(d) => if d < MAX_BACKOFF_MS {
            d
        } else {
            MAX_BACKOFF_MS
        },
        None => MAX_BACKOFF_MS,
    }
}

/// What the single SQLite worker does after an operation.
#[derive(Debug, Clone, Copy, PartialEq, Eq, Structural)]
pub enum WorkerAction {
    /// Go on with the next operation.
    Continue,
    /// Sleep this many milliseconds, then reconnect.
    RetryAfter(u64),
    /// Retries are used up: go on, marked unhealthy.
    GiveUp,
}

/// The retry state of the single SQLite worker.
#[derive(Debug, Clone, Copy, PartialEq, Eq, Structural)]
pub struct RetryState {
    pub retry_count: u32,
    pub max_retries: u32,
    pub retry_interval_ms: u64,
    pub is_healthy: bool,
}

impl RetryState {
    /// Well-formed: the count stays within the limit.
    pub open spec fn wf(self) -> bool {
        self.retry_count <= self.max_retries
    }

    /// A healthy worker with no retries yet, configured from `config`.
    pub fn new(config: &ExtendedPoolConfig) -> (r: RetryState)
        ensures
            r.wf(),
            r == (RetryState {
                retry_count: 0,
                max_retries: config.max_retries,
                retry_interval_ms: config.retry_interval_ms,
                is_healthy: true,
            }),
    {
        RetryState {
            retry_count: 0,
            max_retries: config.max_retries,
            retry_interval_ms: config.retry_interval_ms,
            is_healthy: true,
        }
    }

    /// Whether the worker must reconnect before the next operation.
    pub fn needs_reconnect(&self) -> (r: bool)
        ensures
            r == !self.is_healthy,
    {
        !self.is_healthy
    }

    /// A reconnection succeeded: healthy again, with no retries counted.
    pub fn on_reconnected(&mut self)
        ensures
            *final(self) == (RetryState { retry_count: 0, is_healthy: true, ..*old(self) }),
    {
        self.retry_count = 0;
        self.is_healthy = true;
    }

    /// Records an operation's outcome and says what to do next.
    ///
    /// Success resets the count and marks the worker healthy. Failure marks it
    /// unhealthy; while retries remain it counts one more and asks for a
    /// back-off sleep and a reconnect, otherwise it gives up.
    pub fn after_operation(&mut self, succeeded: bool) -> (r: WorkerAction)
        requires
            old(self).wf(),
        ensures
            final(self).wf(),
            final(self).max_retries == old(self).max_retries,
            final(self).retry_interval_ms == old(self).retry_interval_ms,
            succeeded ==> final(self).retry_count == 0 && final(self).is_healthy && r == WorkerAction::Continue,
            !succeeded && old(self).retry_count < old(self).max_retries ==> {
                &&& final(self).retry_count == old(self).retry_count + 1
                &&& !final(self).is_healthy
                &&& r == WorkerAction::RetryAfter(backoff_spec(old(self).retry_interval_ms, final(self).retry_count) as u64)
            },
            !succeeded && old(self).retry_count >= old(self).max_retries ==> {
                &&& final(self).retry_count == old(self).retry_count
                &&& !final(self).is_healthy
                &&& r == WorkerAction::GiveUp
            },
    {
        if succeeded {
            self.retry_count = 0;
            self.is_healthy = true;
            WorkerAction::Continue
        } else {
            self.is_healthy = false;
            if self.retry_count < self.max_retries {
                self.retry_count = self.retry_count + 1;
                let delay = backoff_delay(self.retry_interval_ms, self.retry_count);
                WorkerAction::RetryAfter(delay)
            } else {
                WorkerAction::GiveUp
            }
        }
    }
}

/// What becomes of a pooled worker after an operation.
#[derive(Debug, Clone, Copy, PartialEq, Eq, Structural)]
pub enum WorkerOutcome {
    /// Keep the worker, with this retry count.
    Keep(u32),
    /// The worker failed more often than allowed: replace its connection.
    Recreate,
}

/// A pooled worker's retry count after an operation: reset on success, counted on
/// failure, and the worker replaced once the count exceeds `max_retries`.
pub fn pooled_worker_outcome(retry_count: u32, max_retries: u32, succeeded: bool) -> (r: WorkerOutcome)
    requires
        succeeded || retry_count < u32::MAX,
    ensures
        succeeded ==> r == WorkerOutcome::Keep(0),
        !succeeded && retry_count + 1 > max_retries ==> r == WorkerOutcome::Recreate,
        !succeeded && retry_count + 1 <= max_retries ==> r == WorkerOutcome::Keep((retry_count + 1) as u32),
{
    if succeeded {
        WorkerOutcome::Keep(0)
    } else {
        let n = retry_count + 1;
        if n > max_retries {
            WorkerOutcome::Recreate
        } else {
            WorkerOutcome::Keep(n)
        }
    }
}

/// The ID of pooled worker `index` of database `alias`: `{alias}-worker-{index}`.
pub fn worker_id(alias: &str, index: usize) -> (r: String)
    ensures
        r@ == alias@ + "-worker-"@ + nat_digits(index as nat),
{
    let mut s = str_to_string(alias);
    s.append("-worker-");
    push_u64(&mut s, index as u64);
    s
}

/// The retry count never passes the limit, and the back-off delay never exceeds
/// [`MAX_BACKOFF_MS`] and does not shrink as retries accumulate.
pub proof fn lemma_backoff_bounded_and_monotone(retry_interval_ms: u64, a: u32, b: u32)
    requires
        a <= b,
    ensures
        0 <= backoff_spec(retry_interval_ms, a) <= MAX_BACKOFF_MS,
        backoff_spec(retry_interval_ms, a) <= backoff_spec(retry_interval_ms, b),
{
    let ea: nat = if a < 10 { a as nat } else { 10 };
    let eb: nat = if b < 10 { b as nat } else { 10 };
    if ea < eb {
        vstd::arithmetic::power2::lemma_pow2_strictly_increases(ea, eb);
    }
    vstd::arithmetic::power2::lemma_pow2_pos(ea);
    assert(retry_interval_ms * pow2(ea) <= retry_interval_ms * pow2(eb)) by (nonlinear_arith)
        requires
            pow2(ea) <= pow2(eb),
    ;
    assert(retry_interval_ms * pow2(ea) >= 0) by (nonlinear_arith)
        requires
            pow2(ea) > 0,
    ;
}

/// The workers of a connection manager that are free, in the order they are
/// handed out: the longest-free first.
#[derive(Debug)]
pub struct WorkerQueue {
    available: SegQueue<usize>,
}

impl WorkerQueue {
    /// The free workers' indices, next to be handed out first.
    pub closed spec fn items(self) -> Seq<usize> {
        queued(self.available)
    }

    /// The queue of `n` new workers, indices `0..n` in order.
    pub fn new(n: usize) -> (r: WorkerQueue)
        ensures
            r.items() == Seq::new(n as nat, |i: int| i as usize),
    {
        let mut q = WorkerQueue { available: queue_new() };
        let mut i: usize = 0;
        while i < n
            invariant
                i <= n,
                q.items() == Seq::new(i as nat, |j: int| j as usize),
            decreases n - i,
        {
            queue_push(&mut q.available, i);
            proof {
                assert(q.items() =~= Seq::new((i + 1) as nat, |j: int| j as usize));
            }
            i = i + 1;
        }
        q
    }

    /// Takes the next free worker; when none is free, a connection error and the
    /// queue unchanged.
    pub fn checkout(&mut self) -> (r: Result<usize, QuickDbError>)
        ensures
            old(self).items().len() == 0 ==> {
                &&& r is Err
                &&& r->Err_0@ == (ErrorView::ConnectionError { message: "所有连接都在使用中"@ })
                &&& final(self).items() == old(self).items()
            },
            old(self).items().len() > 0 ==> {
                &&& r == Ok::<usize, QuickDbError>(old(self).items()[0])
                &&& final(self).items() == old(self).items().drop_first()
            },
    {
        match queue_pop(&mut self.available) {
            Some(i) => Ok(i),
            None => Err(QuickDbError::ConnectionError { message: str_to_string("所有连接都在使用中") }),
        }
    }

    /// Gives a worker back: it becomes the last to be handed out.
    pub fn checkin(&mut self, index: usize)
        ensures
            final(self).items() == old(self).items().push(index),
    {
        queue_push(&mut self.available, index);
    }
}

/// An operation that takes a worker and gives it back leaves the same workers
/// free, the one it used now last.
pub proof fn lemma_checkout_checkin_keeps_workers(items: Seq<usize>)
    requires
        items.len() > 0,
    ensures
        items.drop_first().push(items[0]).to_multiset() == items.to_multiset(),
        items.drop_first().push(items[0]).last() == items[0],
{
    broadcast use vstd::seq_lib::group_to_multiset_ensures;
    broadcast use vstd::multiset::group_multiset_axioms;
    assert(items.drop_first() =~= items.remove(0));
    assert(items.remove(0).to_multiset() =~= items.to_multiset().remove(items[0]));
    assert(items.to_multiset().count(items[0]) > 0);
    assert(items.to_multiset().remove(items[0]).insert(items[0]) =~= items.to_multiset());
}

} // verus!
