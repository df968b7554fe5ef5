//! The library's error type and its builders.

use vstd::prelude::*;
use crate::text::str_to_string;

verus! {

/// Errors of every library operation.
#[derive(Debug, Clone)]
pub enum QuickDbError {
    /// Connecting to a database failed.
    ConnectionError { message: String },
    /// A connection pool operation failed.
    PoolError { message: String },
    /// Executing or building a query failed.
    QueryError { message: String },
    /// (De)serialisation failed.
    SerializationError { message: String },
    /// A model or field failed validation.
    ValidationError { field: String, message: String },
    /// A configuration is invalid.
    ConfigError { message: String },
    /// No database is registered under the alias.
    AliasNotFound { alias: String },
    /// The database type is not supported.
    UnsupportedDatabase { db_type: String },
    /// A transaction failed.
    TransactionError { message: String },
    /// A queued task failed.
    TaskExecutionError(String),
    /// An I/O operation failed (its message).
    IoError(String),
    /// JSON handling failed (its message).
    JsonError(String),
    /// Any other failure (its message).
    Other(String),
}

/// The abstract value of a [`QuickDbError`]: the same variants over character sequences.
pub enum ErrorView {
    ConnectionError { message: Seq<char> },
    PoolError { message: Seq<char> },
    QueryError { message: Seq<char> },
    SerializationError { message: Seq<char> },
    ValidationError { field: Seq<char>, message: Seq<char> },
    ConfigError { message: Seq<char> },
    AliasNotFound { alias: Seq<char> },
    UnsupportedDatabase { db_type: Seq<char> },
    TransactionError { message: Seq<char> },
    TaskExecutionError(Seq<char>),
    IoError(Seq<char>),
    JsonError(Seq<char>),
    Other(Seq<char>),
}

impl View for QuickDbError {
    type V = ErrorView;

    open spec fn view(&self) -> ErrorView {
        match self {
            QuickDbError::ConnectionError { message } => ErrorView::ConnectionError { message: message@ },
            QuickDbError::PoolError { message } => ErrorView::PoolError { message: message@ },
            QuickDbError::QueryError { message } => ErrorView::QueryError { message: message@ },
            QuickDbError::SerializationError { message } => ErrorView::SerializationError { message: message@ },
            QuickDbError::ValidationError { field, message } => ErrorView::ValidationError {
                field: field@,
                message: message@,
            },
            QuickDbError::ConfigError { message } => ErrorView::ConfigError { message: message@ },
            QuickDbError::AliasNotFound { alias } => ErrorView::AliasNotFound { alias: alias@ },
            QuickDbError::UnsupportedDatabase { db_type } => ErrorView::UnsupportedDatabase {
                db_type: db_type@,
            },
            QuickDbError::TransactionError { message } => ErrorView::TransactionError { message: message@ },
            QuickDbError::TaskExecutionError(m) => ErrorView::TaskExecutionError(m@),
            QuickDbError::IoError(m) => ErrorView::IoError(m@),
            QuickDbError::JsonError(m) => ErrorView::JsonError(m@),
            QuickDbError::Other(m) => ErrorView::Other(m@),
        }
    }
}

/// The human-readable text of an error: a fixed prefix per variant followed by its details.
pub open spec fn error_text(e: ErrorView) -> Seq<char> {
    match e {
        ErrorView::ConnectionError { message } => "数据库连接失败: "@ + message,
        ErrorView::PoolError { message } => "连接池操作失败: "@ + message,
        ErrorView::QueryError { message } => "查询执行失败: "@ + message,
        ErrorView::SerializationError { message } => "数据序列化失败: "@ + message,
        ErrorView::ValidationError { field, message } => "模型验证失败: "@ + field + " - "@ + message,
        ErrorView::ConfigError { message } => "配置错误: "@ + message,
        ErrorView::AliasNotFound { alias } => "数据库别名 '"@ + alias + "' 未找到"@,
        ErrorView::UnsupportedDatabase { db_type } => "不支持的数据库类型: "@ + db_type,
        ErrorView::TransactionError { message } => "事务操作失败: "@ + message,
        ErrorView::TaskExecutionError(m) => "任务执行失败: "@ + m,
        ErrorView::IoError(m) => "IO 操作失败: "@ + m,
        ErrorView::JsonError(m) => "JSON 处理失败: "@ + m,
        ErrorView::Other(m) => "操作失败: "@ + m,
    }
}

fn prefixed(prefix: &str, m: &String) -> (r: String)
    ensures
        r@ == prefix@ + m@,
{
    let mut s = str_to_string(prefix);
    s.append(m.as_str());
    s
}

impl QuickDbError {
    /// The error's display text.
    pub fn to_string(&self) -> (r: String)
        ensures
            r@ == error_text(self@),
    {
        match self {
            QuickDbError::ConnectionError { message } => prefixed("数据库连接失败: ", message),
            QuickDbError::PoolError { message } => prefixed("连接池操作失败: ", message),
            QuickDbError::QueryError { message } => prefixed("查询执行失败: ", message),
            QuickDbError::SerializationError { message } => prefixed("数据序列化失败: ", message),
            QuickDbError::ValidationError { field, message } => {
                let mut s = prefixed("模型验证失败: ", field);
                s.append(" - ");
                s.append(message.as_str());
                s
            },
            QuickDbError::ConfigError { message } => prefixed("配置错误: ", message),
            QuickDbError::AliasNotFound { alias } => {
                let mut s = prefixed("数据库别名 '", alias);
                s.append("' 未找到");
                s
            },
            QuickDbError::UnsupportedDatabase { db_type } => prefixed("不支持的数据库类型: ", db_type),
            QuickDbError::TransactionError { message } => prefixed("事务操作失败: ", message),
            QuickDbError::TaskExecutionError(m) => prefixed("任务执行失败: ", m),
            QuickDbError::IoError(m) => prefixed("IO 操作失败: ", m),
            QuickDbError::JsonError(m) => prefixed("JSON 处理失败: ", m),
            QuickDbError::Other(m) => prefixed("操作失败: ", m),
        }
    }
}

/// Builders for the common error variants.
pub struct ErrorBuilder;

impl ErrorBuilder {
    /// A connection error with the given message.
    pub fn connection_error(message: &str) -> (r: QuickDbError)
        ensures
            r@ == (ErrorView::ConnectionError { message: message@ }),
    {
        QuickDbError::ConnectionError { message: str_to_string(message) }
    }

    /// A pool error with the given message.
    pub fn pool_error(message: &str) -> (r: QuickDbError)
        ensures
            r@ == (ErrorView::PoolError { message: message@ }),
    {
        QuickDbError::PoolError { message: str_to_string(message) }
    }

    /// A query error with the given message.
    pub fn query_error(message: &str) -> (r: QuickDbError)
        ensures
            r@ == (ErrorView::QueryError { message: message@ }),
    {
        QuickDbError::QueryError { message: str_to_string(message) }
    }

    /// A serialisation error with the given message.
    pub fn serialization_error(message: &str) -> (r: QuickDbError)
        ensures
            r@ == (ErrorView::SerializationError { message: message@ }),
    {
        QuickDbError::SerializationError { message: str_to_string(message) }
    }

    /// A validation error for a field.
    pub fn validation_error(field: &str, message: &str) -> (r: QuickDbError)
        ensures
            r@ == (ErrorView::ValidationError { field: field@, message: message@ }),
    {
        QuickDbError::ValidationError { field: str_to_string(field), message: str_to_string(message) }
    }

    /// A configuration error with the given message.
    pub fn config_error(message: &str) -> (r: QuickDbError)
        ensures
            r@ == (ErrorView::ConfigError { message: message@ }),
    {
        QuickDbError::ConfigError { message: str_to_string(message) }
    }

    /// An unknown-alias error.
    pub fn alias_not_found(alias: &str) -> (r: QuickDbError)
        ensures
            r@ == (ErrorView::AliasNotFound { alias: alias@ }),
    {
        QuickDbError::AliasNotFound { alias: str_to_string(alias) }
    }

    /// An unsupported-database error.
    pub fn unsupported_database(db_type: &str) -> (r: QuickDbError)
        ensures
            r@ == (ErrorView::UnsupportedDatabase { db_type: db_type@ }),
    {
        QuickDbError::UnsupportedDatabase { db_type: str_to_string(db_type) }
    }
}

} // verus!
