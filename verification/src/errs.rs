//! The failure taxonomy of the migration engine, and the per-item outcome
//! record handed back to the batch caller.

use vstd::prelude::*;
use vstd::string::StringExecFns;

verus! {

/// Why one item's migration stopped.  Every phase failure is converted into
/// one of these; nothing escapes the batch boundary as a panic.
#[derive(Clone, Copy, Debug, PartialEq, Eq, Structural)]
pub enum MigrateError {
    /// The source archive could not be obtained: the download failed, the
    /// directory walk failed, or a remote descriptor had no archive location.
    SourceUnavailable,
    /// The archive or its manifest could not be parsed.
    ArchiveFormat,
    /// The archive holds no entry named `package.json`.
    ManifestMissing,
    /// A file became unreadable while building an archive from a directory.
    Io,
    /// The remote rejected the credential.
    Auth,
    /// The transport failed, or the remote answered with a failure status.
    RemoteUnavailable,
    /// The remote answered with a shape this engine cannot decode.
    Protocol,
    /// The remote explicitly refused the final registration.
    RegistrationRejected,
}

impl MigrateError {
    pub open spec fn spec_message(self) -> Seq<char> {
        match self {
            MigrateError::SourceUnavailable => "source archive unavailable"@,
            MigrateError::ArchiveFormat => "archive or manifest malformed"@,
            MigrateError::ManifestMissing => "archive holds no package.json"@,
            MigrateError::Io => "file unreadable while packing"@,
            MigrateError::Auth => "credential rejected"@,
            MigrateError::RemoteUnavailable => "remote unreachable or failed"@,
            MigrateError::Protocol => "remote response undecodable"@,
            MigrateError::RegistrationRejected => "registration refused"@,
        }
    }

    /// A short human-readable description of the failure.
    pub fn message(&self) -> (r: String)
        ensures
            r@ == self.spec_message(),
    {
        match self {
            MigrateError::SourceUnavailable => String::from_str("source archive unavailable"),
            MigrateError::ArchiveFormat => String::from_str("archive or manifest malformed"),
            MigrateError::ManifestMissing => String::from_str("archive holds no package.json"),
            MigrateError::Io => String::from_str("file unreadable while packing"),
            MigrateError::Auth => String::from_str("credential rejected"),
            MigrateError::RemoteUnavailable => String::from_str("remote unreachable or failed"),
            MigrateError::Protocol => String::from_str("remote response undecodable"),
            MigrateError::RegistrationRejected => String::from_str("registration refused"),
        }
    }
}

/// The outcome of one processed descriptor: immutable once produced, one per
/// input, in input order.
#[derive(Clone, Debug)]
pub struct MigrateResult {
    pub success: bool,
    pub name: String,
    pub message: String,
}

/// The outcome of an item whose migration ran to completion: carries the new
/// display name the copy was registered under.
pub fn success_result(new_name: String) -> (r: MigrateResult)
    ensures
        r.success,
        r.name == new_name,
        r.message@ == "migrated"@,
{
    MigrateResult { success: true, name: new_name, message: String::from_str("migrated") }
}

/// The outcome of an item that failed: keeps the item's original display name
/// and carries the failure's description.
pub fn failure_result(name: String, err: MigrateError) -> (r: MigrateResult)
    ensures
        !r.success,
        r.name == name,
        r.message@ == err.spec_message(),
{
    MigrateResult { success: false, name, message: err.message() }
}

} // verus!
