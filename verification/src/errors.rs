//! Unified error taxonomy: stable numeric codes, categories and severities.
//!
//! Every failure in the subsystem carries an [`ErrorCode`]; the code alone
//! decides the category, the severity and the retry policy, so those rules
//! are stated once here and proved to agree with their specifications.

use vstd::prelude::*;
use crate::strutil;

verus! {

/// How grave an error is.
#[derive(Debug, Clone, Copy, PartialEq, Eq, Structural)]
pub enum ErrorSeverity {
    /// Recoverable.
    Low,
    /// Needs attention.
    Medium,
    /// Serious.
    High,
    /// The subsystem cannot make progress.
    Critical,
}

/// The component an error belongs to; circuit breakers are kept per category.
#[derive(Debug, Clone, Copy, PartialEq, Eq, Hash, Structural)]
pub enum ErrorCategory {
    Configuration,
    Database,
    Model,
    Agent,
    Network,
    System,
    UserInput,
    Internal,
}

/// Stable error codes; `number` gives the value used in logs and telemetry.
#[derive(Debug, Clone, Copy, PartialEq, Eq, Hash, Structural)]
pub enum ErrorCode {
    ConfigFileNotFound,
    ConfigParseError,
    ConfigValidationError,
    ModelPathNotFound,
    TokenizerNotFound,
    StateFileNotFound,
    DatabaseConnectionFailed,
    DatabaseQueryFailed,
    DatabaseTransactionFailed,
    DatabaseMigrationFailed,
    DatabaseTimeout,
    DatabaseCorrupted,
    DatabasePermissionDenied,
    ModelLoadFailed,
    ModelInferenceFailed,
    ModelOutOfMemory,
    ModelTokenizerError,
    ModelStateError,
    ModelQuantizationError,
    AgentNotFound,
    AgentRegistrationFailed,
    AgentConfigurationError,
    AgentPromptError,
    AgentMemoryError,
    AgentToolError,
    NetworkTimeout,
    NetworkConnectionFailed,
    NetworkRequestFailed,
    NetworkAuthenticationFailed,
    SystemOutOfMemory,
    SystemDiskFull,
    SystemPermissionDenied,
    SystemResourceExhausted,
    SystemThreadPanic,
    UserInputTooLong,
    UserInputInvalidFormat,
    UserInputContainsForbidden,
    UserInputEmpty,
    InternalUnknownError,
    InternalLogicError,
    InternalDataCorruption,
    InternalTimeout,
}

/// The numeric code of each error, grouped by component in blocks of 1000.
pub open spec fn spec_code_number(c: ErrorCode) -> u32 {
    match c {
        ErrorCode::ConfigFileNotFound => 1001,
        ErrorCode::ConfigParseError => 1002,
        ErrorCode::ConfigValidationError => 1003,
        ErrorCode::ModelPathNotFound => 1004,
        ErrorCode::TokenizerNotFound => 1005,
        ErrorCode::StateFileNotFound => 1006,
        ErrorCode::DatabaseConnectionFailed => 2001,
        ErrorCode::DatabaseQueryFailed => 2002,
        ErrorCode::DatabaseTransactionFailed => 2003,
        ErrorCode::DatabaseMigrationFailed => 2004,
        ErrorCode::DatabaseTimeout => 2005,
        ErrorCode::DatabaseCorrupted => 2006,
        ErrorCode::DatabasePermissionDenied => 2007,
        ErrorCode::ModelLoadFailed => 3001,
        ErrorCode::ModelInferenceFailed => 3002,
        ErrorCode::ModelOutOfMemory => 3003,
        ErrorCode::ModelTokenizerError => 3004,
        ErrorCode::ModelStateError => 3005,
        ErrorCode::ModelQuantizationError => 3006,
        ErrorCode::AgentNotFound => 4001,
        ErrorCode::AgentRegistrationFailed => 4002,
        ErrorCode::AgentConfigurationError => 4003,
        ErrorCode::AgentPromptError => 4004,
        ErrorCode::AgentMemoryError => 4005,
        ErrorCode::AgentToolError => 4006,
        ErrorCode::NetworkTimeout => 5001,
        ErrorCode::NetworkConnectionFailed => 5002,
        ErrorCode::NetworkRequestFailed => 5003,
        ErrorCode::NetworkAuthenticationFailed => 5004,
        ErrorCode::SystemOutOfMemory => 6001,
        ErrorCode::SystemDiskFull => 6002,
        ErrorCode::SystemPermissionDenied => 6003,
        ErrorCode::SystemResourceExhausted => 6004,
        ErrorCode::SystemThreadPanic => 6005,
        ErrorCode::UserInputTooLong => 7001,
        ErrorCode::UserInputInvalidFormat => 7002,
        ErrorCode::UserInputContainsForbidden => 7003,
        ErrorCode::UserInputEmpty => 7004,
        ErrorCode::InternalUnknownError => 9001,
        ErrorCode::InternalLogicError => 9002,
        ErrorCode::InternalDataCorruption => 9003,
        ErrorCode::InternalTimeout => 9004,
    }
}

/// The category of each code.
pub open spec fn spec_category(c: ErrorCode) -> ErrorCategory {
    match c {
        ErrorCode::ConfigFileNotFound
        | ErrorCode::ConfigParseError
        | ErrorCode::ConfigValidationError
        | ErrorCode::ModelPathNotFound
        | ErrorCode::TokenizerNotFound
        | ErrorCode::StateFileNotFound => ErrorCategory::Configuration,
        ErrorCode::DatabaseConnectionFailed
        | ErrorCode::DatabaseQueryFailed
        | ErrorCode::DatabaseTransactionFailed
        | ErrorCode::DatabaseMigrationFailed
        | ErrorCode::DatabaseTimeout
        | ErrorCode::DatabaseCorrupted
        | ErrorCode::DatabasePermissionDenied => ErrorCategory::Database,
        ErrorCode::ModelLoadFailed
        | ErrorCode::ModelInferenceFailed
        | ErrorCode::ModelOutOfMemory
        | ErrorCode::ModelTokenizerError
        | ErrorCode::ModelStateError
        | ErrorCode::ModelQuantizationError => ErrorCategory::Model,
        ErrorCode::AgentNotFound
        | ErrorCode::AgentRegistrationFailed
        | ErrorCode::AgentConfigurationError
        | ErrorCode::AgentPromptError
        | ErrorCode::AgentMemoryError
        | ErrorCode::AgentToolError => ErrorCategory::Agent,
        ErrorCode::NetworkTimeout
        | ErrorCode::NetworkConnectionFailed
        | ErrorCode::NetworkRequestFailed
        | ErrorCode::NetworkAuthenticationFailed => ErrorCategory::Network,
        ErrorCode::SystemOutOfMemory
        | ErrorCode::SystemDiskFull
        | ErrorCode::SystemPermissionDenied
        | ErrorCode::SystemResourceExhausted
        | ErrorCode::SystemThreadPanic => ErrorCategory::System,
        ErrorCode::UserInputTooLong
        | ErrorCode::UserInputInvalidFormat
        | ErrorCode::UserInputContainsForbidden
        | ErrorCode::UserInputEmpty => ErrorCategory::UserInput,
        ErrorCode::InternalUnknownError
        | ErrorCode::InternalLogicError
        | ErrorCode::InternalDataCorruption
        | ErrorCode::InternalTimeout => ErrorCategory::Internal,
    }
}

/// The severity of each code.
pub open spec fn spec_severity(c: ErrorCode) -> ErrorSeverity {
    match c {
        ErrorCode::ConfigFileNotFound
        | ErrorCode::ModelPathNotFound
        | ErrorCode::TokenizerNotFound
        | ErrorCode::StateFileNotFound => ErrorSeverity::High,
        ErrorCode::ConfigParseError | ErrorCode::ConfigValidationError => ErrorSeverity::Medium,
        ErrorCode::DatabaseConnectionFailed | ErrorCode::DatabaseCorrupted => {
            ErrorSeverity::Critical
        },
        ErrorCode::DatabaseQueryFailed
        | ErrorCode::DatabaseTransactionFailed
        | ErrorCode::DatabaseMigrationFailed => ErrorSeverity::High,
        ErrorCode::DatabaseTimeout | ErrorCode::DatabasePermissionDenied => ErrorSeverity::Medium,
        ErrorCode::ModelLoadFailed => ErrorSeverity::Critical,
        ErrorCode::ModelOutOfMemory => ErrorSeverity::High,
        ErrorCode::ModelInferenceFailed
        | ErrorCode::ModelTokenizerError
        | ErrorCode::ModelStateError
        | ErrorCode::ModelQuantizationError => ErrorSeverity::Medium,
        ErrorCode::AgentNotFound | ErrorCode::AgentConfigurationError => ErrorSeverity::Medium,
        ErrorCode::AgentRegistrationFailed
        | ErrorCode::AgentPromptError
        | ErrorCode::AgentMemoryError
        | ErrorCode::AgentToolError => ErrorSeverity::Low,
        ErrorCode::NetworkTimeout
        | ErrorCode::NetworkConnectionFailed
        | ErrorCode::NetworkRequestFailed => ErrorSeverity::Low,
        ErrorCode::NetworkAuthenticationFailed => ErrorSeverity::Medium,
        ErrorCode::SystemOutOfMemory
        | ErrorCode::SystemDiskFull
        | ErrorCode::SystemResourceExhausted => ErrorSeverity::Critical,
        ErrorCode::SystemThreadPanic => ErrorSeverity::High,
        ErrorCode::SystemPermissionDenied => ErrorSeverity::Medium,
        ErrorCode::UserInputTooLong
        | ErrorCode::UserInputInvalidFormat
        | ErrorCode::UserInputContainsForbidden
        | ErrorCode::UserInputEmpty => ErrorSeverity::Low,
        ErrorCode::InternalDataCorruption => ErrorSeverity::Critical,
        ErrorCode::InternalLogicError => ErrorSeverity::High,
        ErrorCode::InternalUnknownError | ErrorCode::InternalTimeout => ErrorSeverity::Medium,
    }
}

impl ErrorCode {
    /// The numeric code used in logs and telemetry.
    pub fn number(&self) -> (r: u32)
        ensures
            r == spec_code_number(*self),
    {
        match self {
            ErrorCode::ConfigFileNotFound => 1001,
            ErrorCode::ConfigParseError => 1002,
            ErrorCode::ConfigValidationError => 1003,
            ErrorCode::ModelPathNotFound => 1004,
            ErrorCode::TokenizerNotFound => 1005,
            ErrorCode::StateFileNotFound => 1006,
            ErrorCode::DatabaseConnectionFailed => 2001,
            ErrorCode::DatabaseQueryFailed => 2002,
            ErrorCode::DatabaseTransactionFailed => 2003,
            ErrorCode::DatabaseMigrationFailed => 2004,
            ErrorCode::DatabaseTimeout => 2005,
            ErrorCode::DatabaseCorrupted => 2006,
            ErrorCode::DatabasePermissionDenied => 2007,
            ErrorCode::ModelLoadFailed => 3001,
            ErrorCode::ModelInferenceFailed => 3002,
            ErrorCode::ModelOutOfMemory => 3003,
            ErrorCode::ModelTokenizerError => 3004,
            ErrorCode::ModelStateError => 3005,
            ErrorCode::ModelQuantizationError => 3006,
            ErrorCode::AgentNotFound => 4001,
            ErrorCode::AgentRegistrationFailed => 4002,
            ErrorCode::AgentConfigurationError => 4003,
            ErrorCode::AgentPromptError => 4004,
            ErrorCode::AgentMemoryError => 4005,
            ErrorCode::AgentToolError => 4006,
            ErrorCode::NetworkTimeout => 5001,
            ErrorCode::NetworkConnectionFailed => 5002,
            ErrorCode::NetworkRequestFailed => 5003,
            ErrorCode::NetworkAuthenticationFailed => 5004,
            ErrorCode::SystemOutOfMemory => 6001,
            ErrorCode::SystemDiskFull => 6002,
            ErrorCode::SystemPermissionDenied => 6003,
            ErrorCode::SystemResourceExhausted => 6004,
            ErrorCode::SystemThreadPanic => 6005,
            ErrorCode::UserInputTooLong => 7001,
            ErrorCode::UserInputInvalidFormat => 7002,
            ErrorCode::UserInputContainsForbidden => 7003,
            ErrorCode::UserInputEmpty => 7004,
            ErrorCode::InternalUnknownError => 9001,
            ErrorCode::InternalLogicError => 9002,
            ErrorCode::InternalDataCorruption => 9003,
            ErrorCode::InternalTimeout => 9004,
        }
    }

    /// The category this code belongs to.
    pub fn category(&self) -> (r: ErrorCategory)
        ensures
            r == spec_category(*self),
    {
        match self {
            ErrorCode::ConfigFileNotFound
            | ErrorCode::ConfigParseError
            | ErrorCode::ConfigValidationError
            | ErrorCode::ModelPathNotFound
            | ErrorCode::TokenizerNotFound
            | ErrorCode::StateFileNotFound => ErrorCategory::Configuration,
            ErrorCode::DatabaseConnectionFailed
            | ErrorCode::DatabaseQueryFailed
            | ErrorCode::DatabaseTransactionFailed
            | ErrorCode::DatabaseMigrationFailed
            | ErrorCode::DatabaseTimeout
            | ErrorCode::DatabaseCorrupted
            | ErrorCode::DatabasePermissionDenied => ErrorCategory::Database,
            ErrorCode::ModelLoadFailed
            | ErrorCode::ModelInferenceFailed
            | ErrorCode::ModelOutOfMemory
            | ErrorCode::ModelTokenizerError
            | ErrorCode::ModelStateError
            | ErrorCode::ModelQuantizationError => ErrorCategory::Model,
            ErrorCode::AgentNotFound
            | ErrorCode::AgentRegistrationFailed
            | ErrorCode::AgentConfigurationError
            | ErrorCode::AgentPromptError
            | ErrorCode::AgentMemoryError
            | ErrorCode::AgentToolError => ErrorCategory::Agent,
            ErrorCode::NetworkTimeout
            | ErrorCode::NetworkConnectionFailed
            | ErrorCode::NetworkRequestFailed
            | ErrorCode::NetworkAuthenticationFailed => ErrorCategory::Network,
            ErrorCode::SystemOutOfMemory
            | ErrorCode::SystemDiskFull
            | ErrorCode::SystemPermissionDenied
            | ErrorCode::SystemResourceExhausted
            | ErrorCode::SystemThreadPanic => ErrorCategory::System,
            ErrorCode::UserInputTooLong
            | ErrorCode::UserInputInvalidFormat
            | ErrorCode::UserInputContainsForbidden
            | ErrorCode::UserInputEmpty => ErrorCategory::UserInput,
            ErrorCode::InternalUnknownError
            | ErrorCode::InternalLogicError
            | ErrorCode::InternalDataCorruption
            | ErrorCode::InternalTimeout => ErrorCategory::Internal,
        }
    }

    /// The severity of this code.
    pub fn severity(&self) -> (r: ErrorSeverity)
        ensures
            r == spec_severity(*self),
    {
        match self {
            ErrorCode::ConfigFileNotFound
            | ErrorCode::ModelPathNotFound
            | ErrorCode::TokenizerNotFound
            | ErrorCode::StateFileNotFound => ErrorSeverity::High,
            ErrorCode::ConfigParseError | ErrorCode::ConfigValidationError => {
                ErrorSeverity::Medium
            },
            ErrorCode::DatabaseConnectionFailed | ErrorCode::DatabaseCorrupted => {
                ErrorSeverity::Critical
            },
            ErrorCode::DatabaseQueryFailed
            | ErrorCode::DatabaseTransactionFailed
            | ErrorCode::DatabaseMigrationFailed => ErrorSeverity::High,
            ErrorCode::DatabaseTimeout | ErrorCode::DatabasePermissionDenied => {
                ErrorSeverity::Medium
            },
            ErrorCode::ModelLoadFailed => ErrorSeverity::Critical,
            ErrorCode::ModelOutOfMemory => ErrorSeverity::High,
            ErrorCode::ModelInferenceFailed
            | ErrorCode::ModelTokenizerError
            | ErrorCode::ModelStateError
            | ErrorCode::ModelQuantizationError => ErrorSeverity::Medium,
            ErrorCode::AgentNotFound | ErrorCode::AgentConfigurationError => ErrorSeverity::Medium,
            ErrorCode::AgentRegistrationFailed
            | ErrorCode::AgentPromptError
            | ErrorCode::AgentMemoryError
            | ErrorCode::AgentToolError => ErrorSeverity::Low,
            ErrorCode::NetworkTimeout
            | ErrorCode::NetworkConnectionFailed
            | ErrorCode::NetworkRequestFailed => ErrorSeverity::Low,
            ErrorCode::NetworkAuthenticationFailed => ErrorSeverity::Medium,
            ErrorCode::SystemOutOfMemory
            | ErrorCode::SystemDiskFull
            | ErrorCode::SystemResourceExhausted => ErrorSeverity::Critical,
            ErrorCode::SystemThreadPanic => ErrorSeverity::High,
            ErrorCode::SystemPermissionDenied => ErrorSeverity::Medium,
            ErrorCode::UserInputTooLong
            | ErrorCode::UserInputInvalidFormat
            | ErrorCode::UserInputContainsForbidden
            | ErrorCode::UserInputEmpty => ErrorSeverity::Low,
            ErrorCode::InternalDataCorruption => ErrorSeverity::Critical,
            ErrorCode::InternalLogicError => ErrorSeverity::High,
            ErrorCode::InternalUnknownError | ErrorCode::InternalTimeout => ErrorSeverity::Medium,
        }
    }

    /// A short human-readable description of the code.
    pub fn description(&self) -> (r: &'static str)
        ensures
            r@ == spec_description(*self),
    {
        match self {
            ErrorCode::ConfigFileNotFound => "配置文件未找到",
            ErrorCode::ConfigParseError => "配置文件解析失败",
            ErrorCode::ConfigValidationError => "配置验证失败",
            ErrorCode::ModelPathNotFound => "模型文件路径不存在",
            ErrorCode::TokenizerNotFound => "分词器文件未找到",
            ErrorCode::StateFileNotFound => "状态文件未找到",
            ErrorCode::DatabaseConnectionFailed => "数据库连接失败",
            ErrorCode::DatabaseQueryFailed => "数据库查询失败",
            ErrorCode::DatabaseTransactionFailed => "数据库事务失败",
            ErrorCode::DatabaseMigrationFailed => "数据库迁移失败",
            ErrorCode::DatabaseTimeout => "数据库操作超时",
            ErrorCode::DatabaseCorrupted => "数据库损坏",
            ErrorCode::DatabasePermissionDenied => "数据库权限不足",
            ErrorCode::ModelLoadFailed => "模型加载失败",
            ErrorCode::ModelInferenceFailed => "模型推理失败",
            ErrorCode::ModelOutOfMemory => "模型内存不足",
            ErrorCode::ModelTokenizerError => "分词器错误",
            ErrorCode::ModelStateError => "模型状态错误",
            ErrorCode::ModelQuantizationError => "模型量化错误",
            ErrorCode::AgentNotFound => "智能体未找到",
            ErrorCode::AgentRegistrationFailed => "智能体注册失败",
            ErrorCode::AgentConfigurationError => "智能体配置错误",
            ErrorCode::AgentPromptError => "智能体提示词错误",
            ErrorCode::AgentMemoryError => "智能体记忆错误",
            ErrorCode::AgentToolError => "智能体工具错误",
            ErrorCode::NetworkTimeout => "网络超时",
            ErrorCode::NetworkConnectionFailed => "网络连接失败",
            ErrorCode::NetworkRequestFailed => "网络请求失败",
            ErrorCode::NetworkAuthenticationFailed => "网络认证失败",
            ErrorCode::SystemOutOfMemory => "系统内存不足",
            ErrorCode::SystemDiskFull => "磁盘空间不足",
            ErrorCode::SystemPermissionDenied => "系统权限不足",
            ErrorCode::SystemResourceExhausted => "系统资源耗尽",
            ErrorCode::SystemThreadPanic => "线程异常终止",
            ErrorCode::UserInputTooLong => "用户输入过长",
            ErrorCode::UserInputInvalidFormat => "用户输入格式错误",
            ErrorCode::UserInputContainsForbidden => "用户输入包含禁止内容",
            ErrorCode::UserInputEmpty => "用户输入为空",
            ErrorCode::InternalUnknownError => "内部未知错误",
            ErrorCode::InternalLogicError => "内部逻辑错误",
            ErrorCode::InternalDataCorruption => "内部数据损坏",
            ErrorCode::InternalTimeout => "内部操作超时",
        }
    }
}

/// The description text of each code.
pub open spec fn spec_description(c: ErrorCode) -> Seq<char> {
    match c {
        ErrorCode::ConfigFileNotFound => "配置文件未找到"@,
        ErrorCode::ConfigParseError => "配置文件解析失败"@,
        ErrorCode::ConfigValidationError => "配置验证失败"@,
        ErrorCode::ModelPathNotFound => "模型文件路径不存在"@,
        ErrorCode::TokenizerNotFound => "分词器文件未找到"@,
        ErrorCode::StateFileNotFound => "状态文件未找到"@,
        ErrorCode::DatabaseConnectionFailed => "数据库连接失败"@,
        ErrorCode::DatabaseQueryFailed => "数据库查询失败"@,
        ErrorCode::DatabaseTransactionFailed => "数据库事务失败"@,
        ErrorCode::DatabaseMigrationFailed => "数据库迁移失败"@,
        ErrorCode::DatabaseTimeout => "数据库操作超时"@,
        ErrorCode::DatabaseCorrupted => "数据库损坏"@,
        ErrorCode::DatabasePermissionDenied => "数据库权限不足"@,
        ErrorCode::ModelLoadFailed => "模型加载失败"@,
        ErrorCode::ModelInferenceFailed => "模型推理失败"@,
        ErrorCode::ModelOutOfMemory => "模型内存不足"@,
        ErrorCode::ModelTokenizerError => "分词器错误"@,
        ErrorCode::ModelStateError => "模型状态错误"@,
        ErrorCode::ModelQuantizationError => "模型量化错误"@,
        ErrorCode::AgentNotFound => "智能体未找到"@,
        ErrorCode::AgentRegistrationFailed => "智能体注册失败"@,
        ErrorCode::AgentConfigurationError => "智能体配置错误"@,
        ErrorCode::AgentPromptError => "智能体提示词错误"@,
        ErrorCode::AgentMemoryError => "智能体记忆错误"@,
        ErrorCode::AgentToolError => "智能体工具错误"@,
        ErrorCode::NetworkTimeout => "网络超时"@,
        ErrorCode::NetworkConnectionFailed => "网络连接失败"@,
        ErrorCode::NetworkRequestFailed => "网络请求失败"@,
        ErrorCode::NetworkAuthenticationFailed => "网络认证失败"@,
        ErrorCode::SystemOutOfMemory => "系统内存不足"@,
        ErrorCode::SystemDiskFull => "磁盘空间不足"@,
        ErrorCode::SystemPermissionDenied => "系统权限不足"@,
        ErrorCode::SystemResourceExhausted => "系统资源耗尽"@,
        ErrorCode::SystemThreadPanic => "线程异常终止"@,
        ErrorCode::UserInputTooLong => "用户输入过长"@,
        ErrorCode::UserInputInvalidFormat => "用户输入格式错误"@,
        ErrorCode::UserInputContainsForbidden => "用户输入包含禁止内容"@,
        ErrorCode::UserInputEmpty => "用户输入为空"@,
        ErrorCode::InternalUnknownError => "内部未知错误"@,
        ErrorCode::InternalLogicError => "内部逻辑错误"@,
        ErrorCode::InternalDataCorruption => "内部数据损坏"@,
        ErrorCode::InternalTimeout => "内部操作超时"@,
    }
}

/// Whether an error of this severity is recoverable.
pub open spec fn spec_is_recoverable(s: ErrorSeverity) -> bool {
    s == ErrorSeverity::Low || s == ErrorSeverity::Medium
}

/// A failure with its code, message and logging context.
///
/// Timestamps are caller-supplied epoch milliseconds; this layer never reads
/// the clock itself.
#[derive(Debug, Clone, PartialEq)]
pub struct RwkvError {
    /// What failed.
    pub code: ErrorCode,
    /// Free-form message.
    pub message: String,
    /// Where it failed, if known.
    pub context: Option<String>,
    /// When it was recorded, in epoch milliseconds.
    pub timestamp_ms: u64,
    /// Correlation id for logs.
    pub trace_id: Option<String>,
    /// Text of the underlying failure, if any.
    pub source: Option<String>,
}

impl RwkvError {
    /// A fresh error with no context, trace id or source.
    pub fn new(code: ErrorCode, message: String) -> (r: RwkvError)
        ensures
            r.code == code,
            r.message == message,
            r.context is None,
            r.timestamp_ms == 0,
            r.trace_id is None,
            r.source is None,
    {
        RwkvError { code, message, context: None, timestamp_ms: 0, trace_id: None, source: None }
    }

    /// The same error with a context attached.
    pub fn with_context(self, context: String) -> (r: RwkvError)
        ensures
            r == (RwkvError { context: Some(context), ..self }),
    {
        RwkvError { context: Some(context), ..self }
    }

    /// The same error with a trace id attached.
    pub fn with_trace_id(self, trace_id: String) -> (r: RwkvError)
        ensures
            r == (RwkvError { trace_id: Some(trace_id), ..self }),
    {
        RwkvError { trace_id: Some(trace_id), ..self }
    }

    /// The same error with the source failure's text attached.
    pub fn with_source(self, source: String) -> (r: RwkvError)
        ensures
            r == (RwkvError { source: Some(source), ..self }),
    {
        RwkvError { source: Some(source), ..self }
    }

    /// The same error stamped with the given time.
    pub fn with_timestamp_ms(self, timestamp_ms: u64) -> (r: RwkvError)
        ensures
            r == (RwkvError { timestamp_ms, ..self }),
    {
        RwkvError { timestamp_ms, ..self }
    }

    /// The category of this error's code.
    pub fn category(&self) -> (r: ErrorCategory)
        ensures
            r == spec_category(self.code),
    {
        self.code.category()
    }

    /// The severity of this error's code.
    pub fn severity(&self) -> (r: ErrorSeverity)
        ensures
            r == spec_severity(self.code),
    {
        self.code.severity()
    }

    /// Whether the error is recoverable (low or medium severity).
    pub fn is_recoverable(&self) -> (r: bool)
        ensures
            r == spec_is_recoverable(spec_severity(self.code)),
    {
        let s = self.code.severity();
        s == ErrorSeverity::Low || s == ErrorSeverity::Medium
    }

    /// Whether the error is fatal (critical severity).
    pub fn is_fatal(&self) -> (r: bool)
        ensures
            r == (spec_severity(self.code) == ErrorSeverity::Critical),
    {
        self.code.severity() == ErrorSeverity::Critical
    }

    /// The one-line rendering of the error:
    /// `[<number>] <description>: <message>`, followed by
    /// ` (context: <context>)` and ` [trace: <trace_id>]` when present.
    pub fn display_string(&self) -> (r: String)
        ensures
            r@ == spec_display_string(*self),
    {
        let mut s = String::new();
        s.append("[");
        let num = strutil::u64_to_string(self.code.number() as u64);
        s.append(num.as_str());
        s.append("] ");
        s.append(self.code.description());
        s.append(": ");
        s.append(self.message.as_str());
        match &self.context {
            Some(c) => {
                s.append(" (上下文: ");
                s.append(c.as_str());
                s.append(")");
            },
            None => {},
        }
        match &self.trace_id {
            Some(t) => {
                s.append(" [追踪ID: ");
                s.append(t.as_str());
                s.append("]");
            },
            None => {},
        }
        assert(s@ =~= spec_display_string(*self));
        s
    }
}

/// The one-line rendering of an error.
pub open spec fn spec_display_string(e: RwkvError) -> Seq<char> {
    let head = "["@ + strutil::spec_decimal(spec_code_number(e.code) as nat) + "] "@
        + spec_description(e.code) + ": "@ + e.message@;
    let with_ctx = match e.context {
        Some(c) => head + " (上下文: "@ + c@ + ")"@,
        None => head,
    };
    match e.trace_id {
        Some(t) => with_ctx + " [追踪ID: "@ + t@ + "]"@,
        None => with_ctx,
    }
}

/// Result type of the subsystem's fallible operations.
pub type RwkvResult<T> = Result<T, RwkvError>;

} // verus!
