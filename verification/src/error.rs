use vstd::prelude::*;
use vstd::string::StringExecFns;

verus! {

/// Error codes shared by every operation of the library.
#[derive(Debug, Clone, Copy, PartialEq, Eq, Structural)]
pub enum ErrorCode {
    DataReadFailed,
    DataWriteFailed,
    DataSerializeFailed,
    DataDeserializeFailed,
    GameNotFound,
    GameLaunchFailed,
    GameNotRunning,
    FileNotFound,
    FileReadFailed,
    PathInvalid,
    PathNotAbsolute,
    ScanFailed,
    FolderNotFound,
    BackupFailed,
    RestoreFailed,
    SettingsLoadFailed,
    SettingsSaveFailed,
    StartupConfigFailed,
    InternalError,
    InvalidInput,
}

/// The name under which an error code is shown to the user.
pub open spec fn code_name_spec(code: ErrorCode) -> Seq<char> {
    match code {
        ErrorCode::DataReadFailed => "DataReadFailed"@,
        ErrorCode::DataWriteFailed => "DataWriteFailed"@,
        ErrorCode::DataSerializeFailed => "DataSerializeFailed"@,
        ErrorCode::DataDeserializeFailed => "DataDeserializeFailed"@,
        ErrorCode::GameNotFound => "GameNotFound"@,
        ErrorCode::GameLaunchFailed => "GameLaunchFailed"@,
        ErrorCode::GameNotRunning => "GameNotRunning"@,
        ErrorCode::FileNotFound => "FileNotFound"@,
        ErrorCode::FileReadFailed => "FileReadFailed"@,
        ErrorCode::PathInvalid => "PathInvalid"@,
        ErrorCode::PathNotAbsolute => "PathNotAbsolute"@,
        ErrorCode::ScanFailed => "ScanFailed"@,
        ErrorCode::FolderNotFound => "FolderNotFound"@,
        ErrorCode::BackupFailed => "BackupFailed"@,
        ErrorCode::RestoreFailed => "RestoreFailed"@,
        ErrorCode::SettingsLoadFailed => "SettingsLoadFailed"@,
        ErrorCode::SettingsSaveFailed => "SettingsSaveFailed"@,
        ErrorCode::StartupConfigFailed => "StartupConfigFailed"@,
        ErrorCode::InternalError => "InternalError"@,
        ErrorCode::InvalidInput => "InvalidInput"@,
    }
}

/// The name of an error code, as it appears in messages.
pub fn code_name(code: ErrorCode) -> (name: &'static str)
    ensures
        name@ == code_name_spec(code),
{
    match code {
        ErrorCode::DataReadFailed => "DataReadFailed",
        ErrorCode::DataWriteFailed => "DataWriteFailed",
        ErrorCode::DataSerializeFailed => "DataSerializeFailed",
        ErrorCode::DataDeserializeFailed => "DataDeserializeFailed",
        ErrorCode::GameNotFound => "GameNotFound",
        ErrorCode::GameLaunchFailed => "GameLaunchFailed",
        ErrorCode::GameNotRunning => "GameNotRunning",
        ErrorCode::FileNotFound => "FileNotFound",
        ErrorCode::FileReadFailed => "FileReadFailed",
        ErrorCode::PathInvalid => "PathInvalid",
        ErrorCode::PathNotAbsolute => "PathNotAbsolute",
        ErrorCode::ScanFailed => "ScanFailed",
        ErrorCode::FolderNotFound => "FolderNotFound",
        ErrorCode::BackupFailed => "BackupFailed",
        ErrorCode::RestoreFailed => "RestoreFailed",
        ErrorCode::SettingsLoadFailed => "SettingsLoadFailed",
        ErrorCode::SettingsSaveFailed => "SettingsSaveFailed",
        ErrorCode::StartupConfigFailed => "StartupConfigFailed",
        ErrorCode::InternalError => "InternalError",
        ErrorCode::InvalidInput => "InvalidInput",
    }
}

/// The error type of the library: a business error with a code and a message,
/// or a wrapped error that also carries the message of its underlying cause.
#[derive(Debug)]
pub enum AppError {
    Business { code: ErrorCode, message: String },
    Wrapped { code: ErrorCode, message: String, source: String },
}

impl AppError {
    pub open spec fn code_spec(self) -> ErrorCode {
        match self {
            AppError::Business { code, .. } => code,
            AppError::Wrapped { code, .. } => code,
        }
    }

    /// The error is a business error with this code and message.
    pub open spec fn is_business(self, code: ErrorCode, message: Seq<char>) -> bool {
        self matches AppError::Business { code: c, message: m } && c == code && m@ == message
    }

    /// The error wraps a cause and has this code and message.
    pub open spec fn is_wrapped(self, code: ErrorCode, message: Seq<char>) -> bool {
        self matches AppError::Wrapped { code: c, message: m, .. } && c == code && m@ == message
    }

    /// Builds a business error.
    pub fn new(code: ErrorCode, message: String) -> (e: Self)
        ensures
            e == (AppError::Business { code, message }),
    {
        AppError::Business { code, message }
    }

    /// Builds an error that wraps the message of an underlying cause.
    pub fn wrap(code: ErrorCode, message: String, source: String) -> (e: Self)
        ensures
            e == (AppError::Wrapped { code, message, source }),
    {
        AppError::Wrapped { code, message, source }
    }

    /// The error for a failed input or output operation, carrying its cause.
    pub fn from_io_error(cause: String) -> (e: Self)
        ensures
            e == (AppError::Wrapped {
                code: ErrorCode::InternalError,
                message: e->Wrapped_message,
                source: cause,
            }),
            e->Wrapped_message@ == "IO 操作失败"@,
    {
        AppError::wrap(ErrorCode::InternalError, String::from_str("IO 操作失败"), cause)
    }

    /// The error for JSON that could not be written or read, carrying its cause.
    pub fn from_json_error(cause: String) -> (e: Self)
        ensures
            e == (AppError::Wrapped {
                code: ErrorCode::DataSerializeFailed,
                message: e->Wrapped_message,
                source: cause,
            }),
            e->Wrapped_message@ == "数据序列化/反序列化失败"@,
    {
        AppError::wrap(ErrorCode::DataSerializeFailed, String::from_str("数据序列化/反序列化失败"), cause)
    }

    /// The code of the error.
    pub fn code(&self) -> (c: ErrorCode)
        ensures
            c == self.code_spec(),
    {
        match self {
            AppError::Business { code, .. } => *code,
            AppError::Wrapped { code, .. } => *code,
        }
    }
}

/// The full text of an error: `[Code] message`, followed by `: cause` for a wrapped error.
pub open spec fn full_text(err: AppError) -> Seq<char> {
    match err {
        AppError::Business { code, message } =>
            "["@ + code_name_spec(code) + "] "@ + message@,
        AppError::Wrapped { code, message, source } =>
            "["@ + code_name_spec(code) + "] "@ + message@ + ": "@ + source@,
    }
}

/// The message of an error, the part meant for the user.
pub open spec fn user_message(err: AppError) -> Seq<char> {
    match err {
        AppError::Business { message, .. } => message@,
        AppError::Wrapped { message, .. } => message@,
    }
}

impl AppError {
    /// The full text of the error, with its code and, for a wrapped error, its cause.
    pub fn to_text(&self) -> (text: String)
        ensures
            text@ == full_text(*self),
    {
        let mut text = String::from_str("[");
        match self {
            AppError::Business { code, message } => {
                text.append(code_name(*code));
                text.append("] ");
                text.append(message.as_str());
            },
            AppError::Wrapped { code, message, source } => {
                text.append(code_name(*code));
                text.append("] ");
                text.append(message.as_str());
                text.append(": ");
                text.append(source.as_str());
            },
        }
        text
    }
}

/// Turns an error into the text shown to the user: only its message, without the code or
/// the underlying cause.
pub fn to_frontend_error(err: AppError) -> (text: String)
    ensures
        text@ == user_message(err),
{
    match err {
        AppError::Business { message, .. } => message,
        AppError::Wrapped { message, .. } => message,
    }
}

} // verus!
