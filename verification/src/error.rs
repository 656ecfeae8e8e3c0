//! What can go wrong while an app is resolved, installed or migrated.

use vstd::prelude::*;
use vstd::string::StringExecFns;

verus! {

/// The error of `holochain_types` for a DNA bundle that cannot be read.
#[verifier::external_type_specification]
#[verifier::external_body]
pub struct ExDnaError(holochain_types::dna::DnaError);

/// The error of `holochain_serialized_bytes` for a value that cannot be encoded.
#[verifier::external_type_specification]
#[verifier::external_body]
pub struct ExSerializedBytesError(holochain_serialized_bytes::SerializedBytesError);

/// What a `MigrateAppError` stands for.
pub enum MigrateAppErrorView {
    ConductorApiError(Seq<char>),
    AppNotFoundError(Seq<char>),
    InvalidDnaHashError(Seq<char>),
    GetZomeTraitsError(Seq<char>, Seq<char>),
}

/// Why a migration to a new version of an app stopped.
#[derive(Debug, PartialEq, Eq)]
pub enum MigrateAppError {
    /// The conductor refused a request or could not be reached; with its words.
    ConductorApiError(String),
    /// No installed app bears the given id.
    AppNotFoundError(String),
    /// The DNA hash of the named role cannot be determined from the bundle.
    InvalidDnaHashError(String),
    /// The zomes of the named role that can migrate could not be listed; with
    /// the cause.
    GetZomeTraitsError(String, String),
}

impl View for MigrateAppError {
    type V = MigrateAppErrorView;

    open spec fn view(&self) -> MigrateAppErrorView {
        match self {
            MigrateAppError::ConductorApiError(m) => MigrateAppErrorView::ConductorApiError(m@),
            MigrateAppError::AppNotFoundError(id) => MigrateAppErrorView::AppNotFoundError(id@),
            MigrateAppError::InvalidDnaHashError(role) => MigrateAppErrorView::InvalidDnaHashError(
                role@,
            ),
            MigrateAppError::GetZomeTraitsError(role, cause) => {
                MigrateAppErrorView::GetZomeTraitsError(role@, cause@)
            },
        }
    }
}

impl DeepView for MigrateAppError {
    type V = MigrateAppErrorView;

    open spec fn deep_view(&self) -> MigrateAppErrorView {
        self@
    }
}

/// The words of a `MigrateAppError`.
pub open spec fn spec_message(error: MigrateAppErrorView) -> Seq<char> {
    match error {
        MigrateAppErrorView::ConductorApiError(cause) => cause,
        MigrateAppErrorView::AppNotFoundError(app_id) => "The given app was not found: "@ + app_id,
        MigrateAppErrorView::InvalidDnaHashError(role) => "Invalid DNA hash for role: "@ + role,
        MigrateAppErrorView::GetZomeTraitsError(role, cause) => {
            "Failed to find zome traits for role "@ + role + ": "@ + cause
        },
    }
}

impl MigrateAppError {
    /// The error in words.
    pub fn message(&self) -> (text: String)
        ensures
            text@ == spec_message(self@),
    {
        match self {
            MigrateAppError::ConductorApiError(cause) => cause.clone(),
            MigrateAppError::AppNotFoundError(app_id) => {
                let mut text = String::from_str("The given app was not found: ");
                text.append(app_id.as_str());
                text
            },
            MigrateAppError::InvalidDnaHashError(role) => {
                let mut text = String::from_str("Invalid DNA hash for role: ");
                text.append(role.as_str());
                text
            },
            MigrateAppError::GetZomeTraitsError(role, cause) => {
                let mut text = String::from_str("Failed to find zome traits for role ");
                text.append(role.as_str());
                text.append(": ");
                text.append(cause.as_str());
                text
            },
        }
    }
}

/// What an `Error` stands for. Of an error that an outside crate raised, only
/// its kind is kept.
pub enum ErrorView {
    MigrateAppError(MigrateAppErrorView),
    DnaError,
    SerializedBytesError,
    UnsupportedMigration,
}

/// The errors of this library.
#[derive(Debug)]
pub enum Error {
    /// A migration stopped.
    MigrateAppError(MigrateAppError),
    /// A bundled DNA cannot be unpacked or is not sound.
    DnaError(holochain_types::dna::DnaError),
    /// A value could not be encoded for a zome call.
    SerializedBytesError(holochain_serialized_bytes::SerializedBytesError),
    /// Two cells were to be linked that do not differ in exactly one of DNA
    /// and agent.
    UnsupportedMigration,
}

impl View for Error {
    type V = ErrorView;

    open spec fn view(&self) -> ErrorView {
        match self {
            Error::MigrateAppError(e) => ErrorView::MigrateAppError(e@),
            Error::DnaError(_) => ErrorView::DnaError,
            Error::SerializedBytesError(_) => ErrorView::SerializedBytesError,
            Error::UnsupportedMigration => ErrorView::UnsupportedMigration,
        }
    }
}

impl DeepView for Error {
    type V = ErrorView;

    open spec fn deep_view(&self) -> ErrorView {
        self@
    }
}

} // verus!
