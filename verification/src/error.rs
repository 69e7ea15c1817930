//! Error types and their mapping to HTTP status codes and machine-readable
//! error codes.
//!
//! Errors raised by outside services (the SQL driver, the HTTP client, the
//! JSON serialiser, the operating system) are carried as their messages.
//! Paths are carried as strings.
use vstd::prelude::*;
use crate::text::{append_str, decimal_i64, decimal_u64, spec_decimal, spec_signed_decimal};

verus! {

/// Main error type.
#[derive(Debug)]
pub enum Error {
    /// Configuration error with context about which setting is invalid.
    Config {
        /// Human-readable error message describing the configuration issue.
        message: String,
        /// The configuration key that caused the error.
        key: Option<String>,
    },
    /// Database operation failed.
    Database(DatabaseError),
    /// Error reported by the SQL driver (its message).
    Sqlx(String),
    /// NNTP protocol or connection error.
    Nntp(String),
    /// Download-related error.
    Download(DownloadError),
    /// Post-processing error (verify, repair, extract, ...).
    PostProcess(PostProcessError),
    /// Invalid NZB file.
    InvalidNzb(String),
    /// I/O error (its message).
    Io(String),
    /// Download not found.
    NotFound(String),
    /// Shutdown in progress: not accepting new downloads.
    ShuttingDown,
    /// Network error reported by the HTTP client (its message).
    Network(String),
    /// Serialization error (its message).
    Serialization(String),
    /// API server error.
    ApiServerError(String),
    /// Folder watching error.
    FolderWatch(String),
    /// Duplicate download detected.
    Duplicate(String),
    /// Insufficient disk space.
    InsufficientSpace {
        /// Number of bytes required for the operation.
        required: u64,
        /// Number of bytes currently available on disk.
        available: u64,
    },
    /// Failed to check disk space.
    DiskSpaceCheckFailed(String),
    /// External tool execution failed (par2, unrar, ...).
    ExternalTool(String),
    /// Operation not supported (missing binary, not implemented, ...).
    NotSupported(String),
    /// Other error.
    Other(String),
}

/// Database-related errors.
#[derive(Debug)]
pub enum DatabaseError {
    /// Failed to connect to database.
    ConnectionFailed(String),
    /// Failed to run migrations.
    MigrationFailed(String),
    /// Query failed.
    QueryFailed(String),
    /// Record not found.
    NotFound(String),
    /// Constraint violation (e.g. duplicate key).
    ConstraintViolation(String),
}

/// Download-related errors.
#[derive(Debug)]
pub enum DownloadError {
    /// Download not found in queue or database.
    NotFound {
        /// The download ID that was not found.
        id: i64,
    },
    /// Download files not found on disk.
    FilesNotFound {
        /// The download ID whose files were not found.
        id: i64,
        /// The path where the files were expected to be.
        path: String,
    },
    /// Download already in requested state.
    AlreadyInState {
        /// The download ID that is already in the requested state.
        id: i64,
        /// The current state.
        state: String,
    },
    /// Cannot perform operation in current state.
    InvalidState {
        /// The download ID in an invalid state for the operation.
        id: i64,
        /// The operation that was attempted.
        operation: String,
        /// The current state that prevents the operation.
        current_state: String,
    },
    /// Insufficient disk space to start download.
    InsufficientSpace {
        /// Number of bytes required for the download.
        required: u64,
        /// Number of bytes currently available on disk.
        available: u64,
    },
}

/// Post-processing errors (PAR2 verify, repair, extraction, ...).
#[derive(Debug)]
pub enum PostProcessError {
    /// PAR2 verification failed.
    VerificationFailed {
        /// The download ID for which verification failed.
        id: i64,
        /// The reason verification failed.
        reason: String,
    },
    /// PAR2 repair failed.
    RepairFailed {
        /// The download ID for which repair failed.
        id: i64,
        /// The reason repair failed.
        reason: String,
    },
    /// Archive extraction failed.
    ExtractionFailed {
        /// The archive file that failed to extract.
        archive: String,
        /// The reason extraction failed.
        reason: String,
    },
    /// Wrong password for encrypted archive.
    WrongPassword {
        /// The encrypted archive that could not be opened.
        archive: String,
    },
    /// All passwords failed for archive extraction.
    AllPasswordsFailed {
        /// The encrypted archive that could not be opened.
        archive: String,
        /// The number of passwords that were tried.
        count: usize,
    },
    /// No passwords available for encrypted archive.
    NoPasswordsAvailable {
        /// The encrypted archive that requires a password.
        archive: String,
    },
    /// File move/rename failed.
    MoveFailed {
        /// The source path of the file being moved.
        source_path: String,
        /// The destination path.
        dest_path: String,
        /// The reason the move failed.
        reason: String,
    },
    /// File collision at destination.
    FileCollision {
        /// The path where the collision occurred.
        path: String,
        /// The reason for the collision.
        reason: String,
    },
    /// Cleanup failed (non-fatal).
    CleanupFailed {
        /// The download ID for which cleanup failed.
        id: i64,
        /// The reason cleanup failed.
        reason: String,
    },
    /// Invalid path encountered during post-processing.
    InvalidPath {
        /// The invalid path.
        path: String,
        /// The reason the path is invalid.
        reason: String,
    },
    /// DirectUnpack failed during download.
    DirectUnpackFailed {
        /// The download ID.
        id: i64,
        /// The reason.
        reason: String,
    },
    /// DirectRename failed during download.
    DirectRenameFailed {
        /// The download ID.
        id: i64,
        /// The reason.
        reason: String,
    },
}

/// The HTTP status code of an error.
pub open spec fn spec_status_code(e: Error) -> u16 {
    match e {
        Error::Config { .. } => 400,
        Error::InvalidNzb(_) => 422,
        Error::Duplicate(_) => 409,
        Error::NotFound(_) => 404,
        Error::Download(d) => match d {
            DownloadError::NotFound { .. } => 404,
            DownloadError::FilesNotFound { .. } => 404,
            DownloadError::AlreadyInState { .. } => 409,
            DownloadError::InvalidState { .. } => 409,
            DownloadError::InsufficientSpace { .. } => 422,
        },
        Error::PostProcess(_) => 422,
        Error::InsufficientSpace { .. } => 422,
        Error::Database(_) => 500,
        Error::Sqlx(_) => 500,
        Error::Io(_) => 500,
        Error::ApiServerError(_) => 500,
        Error::FolderWatch(_) => 500,
        Error::DiskSpaceCheckFailed(_) => 500,
        Error::Other(_) => 500,
        Error::Nntp(_) => 502,
        Error::Network(_) => 502,
        Error::ShuttingDown => 503,
        Error::ExternalTool(_) => 503,
        Error::NotSupported(_) => 501,
        Error::Serialization(_) => 500,
    }
}

/// The machine-readable code of an error.
pub open spec fn spec_error_code(e: Error) -> Seq<char> {
    match e {
        Error::Config { .. } => "config_error"@,
        Error::Database(_) => "database_error"@,
        Error::Sqlx(_) => "database_error"@,
        Error::Nntp(_) => "nntp_error"@,
        Error::Download(d) => match d {
            DownloadError::NotFound { .. } => "download_not_found"@,
            DownloadError::FilesNotFound { .. } => "files_not_found"@,
            DownloadError::AlreadyInState { .. } => "already_in_state"@,
            DownloadError::InvalidState { .. } => "invalid_state"@,
            DownloadError::InsufficientSpace { .. } => "insufficient_space"@,
        },
        Error::PostProcess(p) => match p {
            PostProcessError::VerificationFailed { .. } => "verification_failed"@,
            PostProcessError::RepairFailed { .. } => "repair_failed"@,
            PostProcessError::ExtractionFailed { .. } => "extraction_failed"@,
            PostProcessError::WrongPassword { .. } => "wrong_password"@,
            PostProcessError::AllPasswordsFailed { .. } => "all_passwords_failed"@,
            PostProcessError::NoPasswordsAvailable { .. } => "no_passwords_available"@,
            PostProcessError::MoveFailed { .. } => "move_failed"@,
            PostProcessError::FileCollision { .. } => "file_collision"@,
            PostProcessError::CleanupFailed { .. } => "cleanup_failed"@,
            PostProcessError::InvalidPath { .. } => "invalid_path"@,
            PostProcessError::DirectUnpackFailed { .. } => "direct_unpack_failed"@,
            PostProcessError::DirectRenameFailed { .. } => "direct_rename_failed"@,
        },
        Error::InvalidNzb(_) => "invalid_nzb"@,
        Error::Io(_) => "io_error"@,
        Error::NotFound(_) => "not_found"@,
        Error::ShuttingDown => "shutting_down"@,
        Error::Network(_) => "network_error"@,
        Error::Serialization(_) => "serialization_error"@,
        Error::ApiServerError(_) => "api_server_error"@,
        Error::FolderWatch(_) => "folder_watch_error"@,
        Error::Duplicate(_) => "duplicate"@,
        Error::InsufficientSpace { .. } => "insufficient_space"@,
        Error::DiskSpaceCheckFailed(_) => "disk_space_check_failed"@,
        Error::ExternalTool(_) => "external_tool_error"@,
        Error::NotSupported(_) => "not_supported"@,
        Error::Other(_) => "internal_error"@,
    }
}

/// Conversion of errors to HTTP status codes for API responses.
pub trait ToHttpStatus {
    /// The HTTP status code for this error.
    fn status_code(&self) -> u16;

    /// The machine-readable error code.
    fn error_code(&self) -> &'static str;
}

impl ToHttpStatus for Error {
    fn status_code(&self) -> (r: u16)
        ensures
            r == spec_status_code(*self),
    {
        match self {
            Error::Config { .. } => 400,
            Error::InvalidNzb(_) => 422,
            Error::Duplicate(_) => 409,
            Error::NotFound(_) => 404,
            Error::Download(DownloadError::NotFound { .. }) => 404,
            Error::Download(DownloadError::FilesNotFound { .. }) => 404,
            Error::Download(DownloadError::AlreadyInState { .. }) => 409,
            Error::Download(DownloadError::InvalidState { .. }) => 409,
            Error::PostProcess(_) => 422,
            Error::Download(DownloadError::InsufficientSpace { .. }) => 422,
            Error::InsufficientSpace { .. } => 422,
            Error::Database(_) => 500,
            Error::Sqlx(_) => 500,
            Error::Io(_) => 500,
            Error::ApiServerError(_) => 500,
            Error::FolderWatch(_) => 500,
            Error::DiskSpaceCheckFailed(_) => 500,
            Error::Other(_) => 500,
            Error::Nntp(_) => 502,
            Error::Network(_) => 502,
            Error::ShuttingDown => 503,
            Error::ExternalTool(_) => 503,
            Error::NotSupported(_) => 501,
            Error::Serialization(_) => 500,
        }
    }

    fn error_code(&self) -> (r: &'static str)
        ensures
            r@ == spec_error_code(*self),
    {
        match self {
            Error::Config { .. } => "config_error",
            Error::Database(_) => "database_error",
            Error::Sqlx(_) => "database_error",
            Error::Nntp(_) => "nntp_error",
            Error::Download(e) => match e {
                DownloadError::NotFound { .. } => "download_not_found",
                DownloadError::FilesNotFound { .. } => "files_not_found",
                DownloadError::AlreadyInState { .. } => "already_in_state",
                DownloadError::InvalidState { .. } => "invalid_state",
                DownloadError::InsufficientSpace { .. } => "insufficient_space",
            },
            Error::PostProcess(e) => match e {
                PostProcessError::VerificationFailed { .. } => "verification_failed",
                PostProcessError::RepairFailed { .. } => "repair_failed",
                PostProcessError::ExtractionFailed { .. } => "extraction_failed",
                PostProcessError::WrongPassword { .. } => "wrong_password",
                PostProcessError::AllPasswordsFailed { .. } => "all_passwords_failed",
                PostProcessError::NoPasswordsAvailable { .. } => "no_passwords_available",
                PostProcessError::MoveFailed { .. } => "move_failed",
                PostProcessError::FileCollision { .. } => "file_collision",
                PostProcessError::CleanupFailed { .. } => "cleanup_failed",
                PostProcessError::InvalidPath { .. } => "invalid_path",
                PostProcessError::DirectUnpackFailed { .. } => "direct_unpack_failed",
                PostProcessError::DirectRenameFailed { .. } => "direct_rename_failed",
            },
            Error::InvalidNzb(_) => "invalid_nzb",
            Error::Io(_) => "io_error",
            Error::NotFound(_) => "not_found",
            Error::ShuttingDown => "shutting_down",
            Error::Network(_) => "network_error",
            Error::Serialization(_) => "serialization_error",
            Error::ApiServerError(_) => "api_server_error",
            Error::FolderWatch(_) => "folder_watch_error",
            Error::Duplicate(_) => "duplicate",
            Error::InsufficientSpace { .. } => "insufficient_space",
            Error::DiskSpaceCheckFailed(_) => "disk_space_check_failed",
            Error::ExternalTool(_) => "external_tool_error",
            Error::NotSupported(_) => "not_supported",
            Error::Other(_) => "internal_error",
        }
    }
}

/// `e` is a wrong-password error for `archive`.
pub open spec fn is_wrong_password(e: Error, archive: Seq<char>) -> bool {
    e matches Error::PostProcess(PostProcessError::WrongPassword { archive: a }) && a@ == archive
}

/// `e` is an extraction failure for `archive` with the given reason.
pub open spec fn is_extraction_failed(e: Error, archive: Seq<char>, reason: Seq<char>) -> bool {
    e matches Error::PostProcess(PostProcessError::ExtractionFailed { archive: a, reason: r })
        && a@ == archive && r@ == reason
}

/// `e` is an I/O error with the given message.
pub open spec fn is_io_error(e: Error, message: Seq<char>) -> bool {
    e matches Error::Io(m) && m@ == message
}


// ---------------------------------------------------------------------------
// Messages
// ---------------------------------------------------------------------------

/// The message of a database error.
pub open spec fn spec_database_message(e: DatabaseError) -> Seq<char> {
    match e {
        DatabaseError::ConnectionFailed(m) => "failed to connect to database: "@ + m@,
        DatabaseError::MigrationFailed(m) => "failed to run migrations: "@ + m@,
        DatabaseError::QueryFailed(m) => "query failed: "@ + m@,
        DatabaseError::NotFound(m) => "record not found: "@ + m@,
        DatabaseError::ConstraintViolation(m) => "constraint violation: "@ + m@,
    }
}

/// "insufficient disk space: need {required} bytes, have {available} bytes".
pub open spec fn insufficient_space_message(required: u64, available: u64) -> Seq<char> {
    "insufficient disk space: need "@ + spec_decimal(required as nat) + " bytes, have "@
        + spec_decimal(available as nat) + " bytes"@
}

/// The message of a download error.
pub open spec fn spec_download_message(e: DownloadError) -> Seq<char> {
    match e {
        DownloadError::NotFound { id } => "download "@ + spec_signed_decimal(id as int)
            + " not found"@,
        DownloadError::FilesNotFound { id, path } => "download "@ + spec_signed_decimal(
            id as int,
        ) + " files not found at "@ + path@,
        DownloadError::AlreadyInState { id, state } => "download "@ + spec_signed_decimal(
            id as int,
        ) + " is already "@ + state@,
        DownloadError::InvalidState { id, operation, current_state } => "cannot "@ + operation@
            + " download "@ + spec_signed_decimal(id as int) + " in state "@ + current_state@,
        DownloadError::InsufficientSpace { required, available } => insufficient_space_message(
            required,
            available,
        ),
    }
}

/// "{what} for download {id}: {reason}".
pub open spec fn for_download(what: Seq<char>, id: i64, reason: Seq<char>) -> Seq<char> {
    what + " for download "@ + spec_signed_decimal(id as int) + ": "@ + reason
}

/// The message of a post-processing error.
pub open spec fn spec_post_process_message(e: PostProcessError) -> Seq<char> {
    match e {
        PostProcessError::VerificationFailed { id, reason } => for_download(
            "PAR2 verification failed"@,
            id,
            reason@,
        ),
        PostProcessError::RepairFailed { id, reason } => for_download(
            "PAR2 repair failed"@,
            id,
            reason@,
        ),
        PostProcessError::ExtractionFailed { archive, reason } => "extraction failed for "@
            + archive@ + ": "@ + reason@,
        PostProcessError::WrongPassword { archive } => "wrong password for encrypted archive "@
            + archive@,
        PostProcessError::AllPasswordsFailed { archive, count } => "all "@ + spec_decimal(
            count as nat,
        ) + " passwords failed for archive "@ + archive@,
        PostProcessError::NoPasswordsAvailable { archive } =>
            "no passwords available for encrypted archive "@ + archive@,
        PostProcessError::MoveFailed { source_path, dest_path, reason } => "failed to move "@
            + source_path@ + " to "@ + dest_path@ + ": "@ + reason@,
        PostProcessError::FileCollision { path, reason } => "file collision at "@ + path@
            + ": "@ + reason@,
        PostProcessError::CleanupFailed { id, reason } => for_download(
            "cleanup failed"@,
            id,
            reason@,
        ),
        PostProcessError::InvalidPath { path, reason } => "invalid path "@ + path@ + ": "@
            + reason@,
        PostProcessError::DirectUnpackFailed { id, reason } => for_download(
            "DirectUnpack failed"@,
            id,
            reason@,
        ),
        PostProcessError::DirectRenameFailed { id, reason } => for_download(
            "DirectRename failed"@,
            id,
            reason@,
        ),
    }
}

/// The human-readable message of an error.
pub open spec fn spec_message(e: Error) -> Seq<char> {
    match e {
        Error::Config { message, .. } => "configuration error: "@ + message@,
        Error::Database(d) => "database error: "@ + spec_database_message(d),
        Error::Sqlx(m) => "database error: "@ + m@,
        Error::Nntp(m) => "NNTP error: "@ + m@,
        Error::Download(d) => "download error: "@ + spec_download_message(d),
        Error::PostProcess(p) => "post-processing error: "@ + spec_post_process_message(p),
        Error::InvalidNzb(m) => "invalid NZB: "@ + m@,
        Error::Io(m) => "I/O error: "@ + m@,
        Error::NotFound(m) => "download not found: "@ + m@,
        Error::ShuttingDown => "shutdown in progress: not accepting new downloads"@,
        Error::Network(m) => "network error: "@ + m@,
        Error::Serialization(m) => "serialization error: "@ + m@,
        Error::ApiServerError(m) => "API server error: "@ + m@,
        Error::FolderWatch(m) => "folder watch error: "@ + m@,
        Error::Duplicate(m) => "duplicate download: "@ + m@,
        Error::InsufficientSpace { required, available } => insufficient_space_message(
            required,
            available,
        ),
        Error::DiskSpaceCheckFailed(m) => "failed to check disk space: "@ + m@,
        Error::ExternalTool(m) => "external tool error: "@ + m@,
        Error::NotSupported(m) => "not supported: "@ + m@,
        Error::Other(m) => m@,
    }
}

/// `a` followed by `b`.
fn cat(a: &str, b: &str) -> (r: String)
    ensures
        r@ == a@ + b@,
{
    let mut s = a.to_string();
    append_str(&mut s, b);
    s
}

/// "insufficient disk space: need {required} bytes, have {available} bytes".
fn insufficient_space_text(required: u64, available: u64) -> (r: String)
    ensures
        r@ == insufficient_space_message(required, available),
{
    let mut s = "insufficient disk space: need ".to_string();
    append_str(&mut s, decimal_u64(required).as_str());
    append_str(&mut s, " bytes, have ");
    append_str(&mut s, decimal_u64(available).as_str());
    append_str(&mut s, " bytes");
    s
}

/// "{what} for download {id}: {reason}".
fn for_download_text(what: &str, id: i64, reason: &str) -> (r: String)
    ensures
        r@ == for_download(what@, id, reason@),
{
    let mut s = what.to_string();
    append_str(&mut s, " for download ");
    append_str(&mut s, decimal_i64(id).as_str());
    append_str(&mut s, ": ");
    append_str(&mut s, reason);
    s
}

impl DatabaseError {
    /// The human-readable message of this error.
    pub fn message(&self) -> (r: String)
        ensures
            r@ == spec_database_message(*self),
    {
        match self {
            DatabaseError::ConnectionFailed(m) => cat("failed to connect to database: ", m.as_str()),
            DatabaseError::MigrationFailed(m) => cat("failed to run migrations: ", m.as_str()),
            DatabaseError::QueryFailed(m) => cat("query failed: ", m.as_str()),
            DatabaseError::NotFound(m) => cat("record not found: ", m.as_str()),
            DatabaseError::ConstraintViolation(m) => cat("constraint violation: ", m.as_str()),
        }
    }
}

impl DownloadError {
    /// The human-readable message of this error.
    pub fn message(&self) -> (r: String)
        ensures
            r@ == spec_download_message(*self),
    {
        match self {
            DownloadError::NotFound { id } => {
                let mut s = "download ".to_string();
                append_str(&mut s, decimal_i64(*id).as_str());
                append_str(&mut s, " not found");
                s
            },
            DownloadError::FilesNotFound { id, path } => {
                let mut s = "download ".to_string();
                append_str(&mut s, decimal_i64(*id).as_str());
                append_str(&mut s, " files not found at ");
                append_str(&mut s, path.as_str());
                s
            },
            DownloadError::AlreadyInState { id, state } => {
                let mut s = "download ".to_string();
                append_str(&mut s, decimal_i64(*id).as_str());
                append_str(&mut s, " is already ");
                append_str(&mut s, state.as_str());
                s
            },
            DownloadError::InvalidState { id, operation, current_state } => {
                let mut s = "cannot ".to_string();
                append_str(&mut s, operation.as_str());
                append_str(&mut s, " download ");
                append_str(&mut s, decimal_i64(*id).as_str());
                append_str(&mut s, " in state ");
                append_str(&mut s, current_state.as_str());
                s
            },
            DownloadError::InsufficientSpace { required, available } => insufficient_space_text(
                *required,
                *available,
            ),
        }
    }
}

impl PostProcessError {
    /// The human-readable message of this error.
    pub fn message(&self) -> (r: String)
        ensures
            r@ == spec_post_process_message(*self),
    {
        match self {
            PostProcessError::VerificationFailed { id, reason } => for_download_text(
                "PAR2 verification failed",
                *id,
                reason.as_str(),
            ),
            PostProcessError::RepairFailed { id, reason } => for_download_text(
                "PAR2 repair failed",
                *id,
                reason.as_str(),
            ),
            PostProcessError::ExtractionFailed { archive, reason } => {
                let mut s = cat("extraction failed for ", archive.as_str());
                append_str(&mut s, ": ");
                append_str(&mut s, reason.as_str());
                s
            },
            PostProcessError::WrongPassword { archive } => cat(
                "wrong password for encrypted archive ",
                archive.as_str(),
            ),
            PostProcessError::AllPasswordsFailed { archive, count } => {
                let mut s = "all ".to_string();
                append_str(&mut s, decimal_u64(*count as u64).as_str());
                append_str(&mut s, " passwords failed for archive ");
                append_str(&mut s, archive.as_str());
                s
            },
            PostProcessError::NoPasswordsAvailable { archive } => cat(
                "no passwords available for encrypted archive ",
                archive.as_str(),
            ),
            PostProcessError::MoveFailed { source_path, dest_path, reason } => {
                let mut s = cat("failed to move ", source_path.as_str());
                append_str(&mut s, " to ");
                append_str(&mut s, dest_path.as_str());
                append_str(&mut s, ": ");
                append_str(&mut s, reason.as_str());
                s
            },
            PostProcessError::FileCollision { path, reason } => {
                let mut s = cat("file collision at ", path.as_str());
                append_str(&mut s, ": ");
                append_str(&mut s, reason.as_str());
                s
            },
            PostProcessError::CleanupFailed { id, reason } => for_download_text(
                "cleanup failed",
                *id,
                reason.as_str(),
            ),
            PostProcessError::InvalidPath { path, reason } => {
                let mut s = cat("invalid path ", path.as_str());
                append_str(&mut s, ": ");
                append_str(&mut s, reason.as_str());
                s
            },
            PostProcessError::DirectUnpackFailed { id, reason } => for_download_text(
                "DirectUnpack failed",
                *id,
                reason.as_str(),
            ),
            PostProcessError::DirectRenameFailed { id, reason } => for_download_text(
                "DirectRename failed",
                *id,
                reason.as_str(),
            ),
        }
    }
}

impl Error {
    /// The human-readable message of this error.
    pub fn message(&self) -> (r: String)
        ensures
            r@ == spec_message(*self),
    {
        match self {
            Error::Config { message, .. } => cat("configuration error: ", message.as_str()),
            Error::Database(d) => cat("database error: ", d.message().as_str()),
            Error::Sqlx(m) => cat("database error: ", m.as_str()),
            Error::Nntp(m) => cat("NNTP error: ", m.as_str()),
            Error::Download(d) => cat("download error: ", d.message().as_str()),
            Error::PostProcess(p) => cat("post-processing error: ", p.message().as_str()),
            Error::InvalidNzb(m) => cat("invalid NZB: ", m.as_str()),
            Error::Io(m) => cat("I/O error: ", m.as_str()),
            Error::NotFound(m) => cat("download not found: ", m.as_str()),
            Error::ShuttingDown => "shutdown in progress: not accepting new downloads".to_string(),
            Error::Network(m) => cat("network error: ", m.as_str()),
            Error::Serialization(m) => cat("serialization error: ", m.as_str()),
            Error::ApiServerError(m) => cat("API server error: ", m.as_str()),
            Error::FolderWatch(m) => cat("folder watch error: ", m.as_str()),
            Error::Duplicate(m) => cat("duplicate download: ", m.as_str()),
            Error::InsufficientSpace { required, available } => insufficient_space_text(
                *required,
                *available,
            ),
            Error::DiskSpaceCheckFailed(m) => cat("failed to check disk space: ", m.as_str()),
            Error::ExternalTool(m) => cat("external tool error: ", m.as_str()),
            Error::NotSupported(m) => cat("not supported: ", m.as_str()),
            Error::Other(m) => m.clone(),
        }
    }
}


// ---------------------------------------------------------------------------
// API error responses
// ---------------------------------------------------------------------------

/// A value of the structured context of an API error.
#[derive(Debug, Clone, PartialEq, Eq)]
pub enum DetailValue {
    /// A signed integer.
    Int(i64),
    /// An unsigned integer.
    Unsigned(u64),
    /// A string.
    Text(String),
    /// Any other JSON value, as JSON text.
    Json(String),
}

/// A named value of the structured context of an API error.
#[derive(Debug, Clone, PartialEq, Eq)]
pub struct DetailField {
    /// The field's name.
    pub key: String,
    /// The field's value.
    pub value: DetailValue,
}

/// Structured context of an API error: named values, in order.
#[derive(Debug, Clone, PartialEq, Eq)]
pub struct Details {
    /// The fields.
    pub fields: Vec<DetailField>,
}

/// API error response body: `{"error": {...}}`.
#[derive(Debug, Clone)]
pub struct ApiError {
    /// The error details.
    pub error: ErrorDetail,
}

/// Detailed error information for API responses.
#[derive(Debug, Clone)]
pub struct ErrorDetail {
    /// Machine-readable error code (e.g. "not_found", "validation_error").
    pub code: String,
    /// Human-readable error message.
    pub message: String,
    /// Optional additional context (download id, paths, ...).
    pub details: Option<Details>,
}

/// The field has the given name and the signed integer value `v`.
pub open spec fn int_field(f: DetailField, key: Seq<char>, v: i64) -> bool {
    f.key@ == key && f.value == DetailValue::Int(v)
}

/// The field has the given name and the unsigned integer value `v`.
pub open spec fn unsigned_field(f: DetailField, key: Seq<char>, v: u64) -> bool {
    f.key@ == key && f.value == DetailValue::Unsigned(v)
}

/// The field has the given name and the string value `v`.
pub open spec fn text_field(f: DetailField, key: Seq<char>, v: Seq<char>) -> bool {
    f.key@ == key && (f.value matches DetailValue::Text(t) && t@ == v)
}

/// The structured context that the API response of an error carries: the
/// identifying values of the error for the variants that have them, none for
/// the others.
pub open spec fn details_match(d: Option<Details>, e: Error) -> bool {
    match e {
        Error::Download(DownloadError::NotFound { id }) => d matches Some(x) && x.fields@.len() == 1
            && int_field(x.fields@[0], "download_id"@, id),
        Error::Download(DownloadError::FilesNotFound { id, path }) => d matches Some(x)
            && x.fields@.len() == 2 && int_field(x.fields@[0], "download_id"@, id) && text_field(
            x.fields@[1],
            "path"@,
            path@,
        ),
        Error::Download(DownloadError::AlreadyInState { id, state }) => d matches Some(x)
            && x.fields@.len() == 2 && int_field(x.fields@[0], "download_id"@, id) && text_field(
            x.fields@[1],
            "state"@,
            state@,
        ),
        Error::Download(DownloadError::InvalidState { id, operation, current_state }) => d matches Some(x)
            && x.fields@.len() == 3 && int_field(x.fields@[0], "download_id"@, id) && text_field(
            x.fields@[1],
            "operation"@,
            operation@,
        ) && text_field(x.fields@[2], "current_state"@, current_state@),
        Error::Download(DownloadError::InsufficientSpace { required, available }) => d matches Some(x)
            && x.fields@.len() == 2 && unsigned_field(x.fields@[0], "required_bytes"@, required)
            && unsigned_field(x.fields@[1], "available_bytes"@, available),
        Error::InsufficientSpace { required, available } => d matches Some(x) && x.fields@.len()
            == 2 && unsigned_field(x.fields@[0], "required_bytes"@, required) && unsigned_field(
            x.fields@[1],
            "available_bytes"@,
            available,
        ),
        Error::PostProcess(PostProcessError::FileCollision { path, .. }) => d matches Some(x)
            && x.fields@.len() == 1 && text_field(x.fields@[0], "path"@, path@),
        Error::PostProcess(PostProcessError::WrongPassword { archive }) => d matches Some(x)
            && x.fields@.len() == 1 && text_field(x.fields@[0], "archive"@, archive@),
        Error::PostProcess(PostProcessError::AllPasswordsFailed { archive, count }) => d matches Some(x)
            && x.fields@.len() == 2 && text_field(x.fields@[0], "archive"@, archive@)
            && unsigned_field(x.fields@[1], "password_count"@, count as u64),
        _ => d is None,
    }
}

/// `a` is the API response for the error `e`: its code, its message and its
/// structured context.
pub open spec fn is_api_error_of(a: ApiError, e: Error) -> bool {
    &&& a.error.code@ == spec_error_code(e)
    &&& a.error.message@ == spec_message(e)
    &&& details_match(a.error.details, e)
}

/// A field with a signed integer value.
fn int_detail(key: &str, v: i64) -> (r: DetailField)
    ensures
        int_field(r, key@, v),
{
    DetailField { key: key.to_string(), value: DetailValue::Int(v) }
}

/// A field with an unsigned integer value.
fn unsigned_detail(key: &str, v: u64) -> (r: DetailField)
    ensures
        unsigned_field(r, key@, v),
{
    DetailField { key: key.to_string(), value: DetailValue::Unsigned(v) }
}

/// A field with a string value.
fn text_detail(key: &str, v: &str) -> (r: DetailField)
    ensures
        text_field(r, key@, v@),
{
    DetailField { key: key.to_string(), value: DetailValue::Text(v.to_string()) }
}

/// The structured context of the API response for an error.
fn details_of(error: &Error) -> (r: Option<Details>)
    ensures
        details_match(r, *error),
{
    match error {
        Error::Download(DownloadError::NotFound { id }) => Some(
            Details { fields: vec![int_detail("download_id", *id)] },
        ),
        Error::Download(DownloadError::FilesNotFound { id, path }) => Some(
            Details {
                fields: vec![int_detail("download_id", *id), text_detail("path", path.as_str())],
            },
        ),
        Error::Download(DownloadError::AlreadyInState { id, state }) => Some(
            Details {
                fields: vec![int_detail("download_id", *id), text_detail("state", state.as_str())],
            },
        ),
        Error::Download(DownloadError::InvalidState { id, operation, current_state }) => Some(
            Details {
                fields: vec![
                    int_detail("download_id", *id),
                    text_detail("operation", operation.as_str()),
                    text_detail("current_state", current_state.as_str()),
                ],
            },
        ),
        Error::Download(DownloadError::InsufficientSpace { required, available }) => Some(
            Details {
                fields: vec![
                    unsigned_detail("required_bytes", *required),
                    unsigned_detail("available_bytes", *available),
                ],
            },
        ),
        Error::InsufficientSpace { required, available } => Some(
            Details {
                fields: vec![
                    unsigned_detail("required_bytes", *required),
                    unsigned_detail("available_bytes", *available),
                ],
            },
        ),
        Error::PostProcess(PostProcessError::FileCollision { path, .. }) => Some(
            Details { fields: vec![text_detail("path", path.as_str())] },
        ),
        Error::PostProcess(PostProcessError::WrongPassword { archive }) => Some(
            Details { fields: vec![text_detail("archive", archive.as_str())] },
        ),
        Error::PostProcess(PostProcessError::AllPasswordsFailed { archive, count }) => Some(
            Details {
                fields: vec![
                    text_detail("archive", archive.as_str()),
                    unsigned_detail("password_count", *count as u64),
                ],
            },
        ),
        _ => None,
    }
}

impl Details {
    /// The value of the first field with the given name.
    pub fn get(&self, key: &str) -> (r: Option<&DetailValue>)
        ensures
            r is None <==> forall|i: int| 0 <= i < self.fields@.len() ==> #[trigger] self.fields@[i].key@ != key@,
            r matches Some(v) ==> exists|i: int|
                0 <= i < self.fields@.len() && #[trigger] self.fields@[i].key@ == key@ && self.fields@[i].value == *v
                    && forall|j: int| 0 <= j < i ==> self.fields@[j].key@ != key@,
    {
        let kv = crate::text::chars_of(key);
        let mut i: usize = 0;
        while i < self.fields.len()
            invariant
                i <= self.fields@.len(),
                kv@ == key@,
                forall|j: int| 0 <= j < i ==> #[trigger] self.fields@[j].key@ != key@,
            decreases self.fields@.len() - i,
        {
            let fv = crate::text::chars_of(self.fields[i].key.as_str());
            if crate::text::chars_eq(fv.as_slice(), kv.as_slice()) {
                return Some(&self.fields[i].value);
            }
            i += 1;
        }
        None
    }
}

impl ApiError {
    /// An API error with a code and a message and no details.
    pub fn new(code: &str, message: &str) -> (r: Self)
        ensures
            r.error.code@ == code@,
            r.error.message@ == message@,
            r.error.details is None,
    {
        ApiError {
            error: ErrorDetail { code: code.to_string(), message: message.to_string(), details: None },
        }
    }

    /// An API error with a code, a message and details.
    pub fn with_details(code: &str, message: &str, details: Details) -> (r: Self)
        ensures
            r.error.code@ == code@,
            r.error.message@ == message@,
            r.error.details == Some(details),
    {
        ApiError {
            error: ErrorDetail {
                code: code.to_string(),
                message: message.to_string(),
                details: Some(details),
            },
        }
    }

    /// A "not_found" error with message "{resource} not found".
    pub fn not_found(resource: &str) -> (r: Self)
        ensures
            r.error.code@ == "not_found"@,
            r.error.message@ == resource@ + " not found"@,
            r.error.details is None,
    {
        let m = cat(resource, " not found");
        Self::new("not_found", m.as_str())
    }

    /// A "validation_error" error with the given message.
    pub fn validation(message: &str) -> (r: Self)
        ensures
            r.error.code@ == "validation_error"@,
            r.error.message@ == message@,
            r.error.details is None,
    {
        Self::new("validation_error", message)
    }

    /// A "conflict" error with the given message.
    pub fn conflict(message: &str) -> (r: Self)
        ensures
            r.error.code@ == "conflict"@,
            r.error.message@ == message@,
            r.error.details is None,
    {
        Self::new("conflict", message)
    }

    /// An "internal_error" error with the given message.
    pub fn internal(message: &str) -> (r: Self)
        ensures
            r.error.code@ == "internal_error"@,
            r.error.message@ == message@,
            r.error.details is None,
    {
        Self::new("internal_error", message)
    }

    /// An "unauthorized" error with the given message.
    pub fn unauthorized(message: &str) -> (r: Self)
        ensures
            r.error.code@ == "unauthorized"@,
            r.error.message@ == message@,
            r.error.details is None,
    {
        Self::new("unauthorized", message)
    }

    /// A "service_unavailable" error with the given message.
    pub fn service_unavailable(message: &str) -> (r: Self)
        ensures
            r.error.code@ == "service_unavailable"@,
            r.error.message@ == message@,
            r.error.details is None,
    {
        Self::new("service_unavailable", message)
    }
}

impl From<Error> for ApiError {
    /// The API response for an error: its machine-readable code, its message
    /// and, for the errors that identify a download, an archive, a path or
    /// byte counts, those values as details.
    fn from(error: Error) -> (r: Self)
        ensures
            is_api_error_of(r, error),
    {
        let code = error.error_code().to_string();
        let message = error.message();
        let details = details_of(&error);
        ApiError { error: ErrorDetail { code, message, details } }
    }
}

impl vstd::std_specs::convert::FromSpecImpl<Error> for ApiError {
    /// The conversion is stated as a relation by `from`'s own contract.
    open spec fn obeys_from_spec() -> bool {
        false
    }

    open spec fn from_spec(v: Error) -> Self {
        choose|a: ApiError| is_api_error_of(a, v)
    }
}


/// The I/O error for a failed operation: "{what}: {message}".
pub fn io_failure(what: &str, message: &str) -> (r: Error)
    ensures
        is_io_error(r, what@ + ": "@ + message@),
{
    let mut m = what.to_string();
    append_str(&mut m, ": ");
    append_str(&mut m, message);
    Error::Io(m)
}

} // verus!
