//! A calendar's domain: events, repeat rules, todo projections, agendas and
//! the iCalendar reader, each stated and proved.
use vstd::prelude::*;

pub mod domain;
pub mod ids;
pub mod text;
pub mod time;
pub mod todo;
pub mod recurrence;
pub mod reminder;
pub mod application;
pub mod tui;
pub mod graph;
pub mod interop;
pub mod agenda;
pub mod storage;
pub mod ics;
pub mod config;
pub mod notify;

verus! {

#[verifier::external_type_specification]
#[verifier::external_body]
pub struct ExIoError(std::io::Error);

#[verifier::external_type_specification]
#[verifier::external_body]
pub struct ExJsonError(serde_json::Error);

/// Every way a command can fail, each with a stable code and exit status.
#[derive(Debug)]
pub enum AppError {
    Config(config::ConfigError),
    Storage(storage::StorageError),
    Domain(domain::DomainError),
    Todo(todo::TodoError),
    RequiredInput { field: &'static str },
    InvalidInput(String),
    EventNotFound { event_id: ids::EventId },
    EventVersionConflict { event_id: ids::EventId, expected_version: i64, actual_version: i64 },
    TodoNotFound { todo_id: ids::TodoId },
    Input(std::io::Error),
    Serialization(serde_json::Error),
}

/// The stable machine-readable code of a failure.
pub open spec fn spec_error_code(e: AppError) -> Seq<char> {
    match e {
        AppError::Config(config::ConfigError::InvalidToml { .. }) => "config_invalid"@,
        AppError::Config(_) => "config_unavailable"@,
        AppError::Storage(s) => match s {
            storage::StorageError::InvalidConfiguration(_) => "database_config_invalid"@,
            storage::StorageError::Open(_) => "database_unavailable"@,
            storage::StorageError::MigrationDrift { .. } => "migration_drift"@,
            storage::StorageError::CalendarNotLive { .. } => "calendar_not_live"@,
            storage::StorageError::ProjectNotFound { .. } => "project_not_found"@,
            storage::StorageError::TagAlreadyExists { .. } => "tag_already_exists"@,
            storage::StorageError::TagNotFound { .. } => "tag_not_found"@,
            storage::StorageError::InvalidStoredData(_) => "stored_data_invalid"@,
            storage::StorageError::ImportInvalid { .. } => "import_invalid"@,
            storage::StorageError::ImportConflict { .. } => "import_conflict"@,
            storage::StorageError::Query(_) => "database_error"@,
            storage::StorageError::EventNotFound { .. } => "event_not_found"@,
            storage::StorageError::EventVersionConflict { .. } => "event_version_conflict"@,
            storage::StorageError::InvalidEdit { .. } => "edit_invalid"@,
        },
        AppError::Domain(_) | AppError::Todo(_) | AppError::InvalidInput(_) => "invalid_input"@,
        AppError::RequiredInput { .. } => "required_input_missing"@,
        AppError::EventNotFound { .. } => "event_not_found"@,
        AppError::EventVersionConflict { .. } => "event_version_conflict"@,
        AppError::TodoNotFound { .. } => "todo_not_found"@,
        AppError::Input(_) => "input_unavailable"@,
        AppError::Serialization(_) => "serialization_error"@,
    }
}

/// The process exit status of a failure, in the `sysexits` convention.
pub open spec fn spec_exit_code(e: AppError) -> u8 {
    match e {
        AppError::RequiredInput { .. } | AppError::Input(_) => 64,
        AppError::Domain(_) | AppError::Todo(_) | AppError::InvalidInput(_) => 65,
        AppError::EventNotFound { .. } | AppError::TodoNotFound { .. } => 66,
        AppError::Config(_) => 78,
        AppError::EventVersionConflict { .. } => 75,
        AppError::Storage(s) => match s {
            storage::StorageError::TagAlreadyExists { .. } | storage::StorageError::ImportInvalid { .. }
            | storage::StorageError::InvalidEdit { .. } => 65,
            storage::StorageError::TagNotFound { .. } | storage::StorageError::ProjectNotFound { .. } => 66,
            storage::StorageError::EventVersionConflict { .. } => 75,
            _ => 69,
        },
        AppError::Serialization(_) => 70,
    }
}

impl AppError {
    pub fn code(&self) -> (r: &'static str)
        ensures
            r@ == spec_error_code(*self),
    {
        match self {
            AppError::Config(config::ConfigError::InvalidToml { .. }) => "config_invalid",
            AppError::Config(_) => "config_unavailable",
            AppError::Storage(s) => match s {
                storage::StorageError::InvalidConfiguration(_) => "database_config_invalid",
                storage::StorageError::Open(_) => "database_unavailable",
                storage::StorageError::MigrationDrift { .. } => "migration_drift",
                storage::StorageError::CalendarNotLive { .. } => "calendar_not_live",
                storage::StorageError::ProjectNotFound { .. } => "project_not_found",
                storage::StorageError::TagAlreadyExists { .. } => "tag_already_exists",
                storage::StorageError::TagNotFound { .. } => "tag_not_found",
                storage::StorageError::InvalidStoredData(_) => "stored_data_invalid",
                storage::StorageError::ImportInvalid { .. } => "import_invalid",
                storage::StorageError::ImportConflict { .. } => "import_conflict",
                storage::StorageError::Query(_) => "database_error",
                storage::StorageError::EventNotFound { .. } => "event_not_found",
                storage::StorageError::EventVersionConflict { .. } => "event_version_conflict",
                storage::StorageError::InvalidEdit { .. } => "edit_invalid",
            },
            AppError::Domain(_) | AppError::Todo(_) | AppError::InvalidInput(_) => "invalid_input",
            AppError::RequiredInput { .. } => "required_input_missing",
            AppError::EventNotFound { .. } => "event_not_found",
            AppError::EventVersionConflict { .. } => "event_version_conflict",
            AppError::TodoNotFound { .. } => "todo_not_found",
            AppError::Input(_) => "input_unavailable",
            AppError::Serialization(_) => "serialization_error",
        }
    }

    pub fn exit_code(&self) -> (r: u8)
        ensures
            r == spec_exit_code(*self),
    {
        match self {
            AppError::RequiredInput { .. } | AppError::Input(_) => 64,
            AppError::Domain(_) | AppError::Todo(_) | AppError::InvalidInput(_) => 65,
            AppError::EventNotFound { .. } | AppError::TodoNotFound { .. } => 66,
            AppError::Config(_) => 78,
            AppError::EventVersionConflict { .. } => 75,
            AppError::Storage(s) => match s {
                storage::StorageError::TagAlreadyExists { .. } | storage::StorageError::ImportInvalid { .. }
                | storage::StorageError::InvalidEdit { .. } => 65,
                storage::StorageError::TagNotFound { .. } | storage::StorageError::ProjectNotFound { .. } => 66,
                storage::StorageError::EventVersionConflict { .. } => 75,
                _ => 69,
            },
            AppError::Serialization(_) => 70,
        }
    }
}

/// The JSON envelope around a command's result.
#[derive(Debug)]
pub struct Envelope<T> {
    pub schema_version: u8,
    pub command: &'static str,
    pub ok: bool,
    pub data: T,
}

impl<T> Envelope<T> {
    /// A successful result at the current schema version.
    pub fn success(command: &'static str, data: T) -> (r: Envelope<T>)
        ensures
            r.schema_version == 1 && r.command == command && r.ok && r.data == data,
    {
        Envelope { schema_version: 1, command, ok: true, data }
    }
}

/// The JSON envelope around a failure.
#[derive(Debug)]
pub struct ErrorEnvelope<'a> {
    pub schema_version: u8,
    pub ok: bool,
    pub error: ErrorBody<'a>,
}

/// A failure's code and message.
#[derive(Debug)]
pub struct ErrorBody<'a> {
    pub code: &'static str,
    pub message: &'a str,
}

} // verus!
