use vstd::prelude::*;

verus! {

/// What can go wrong while reading or changing autostart entries.
#[derive(Debug, Clone)]
pub enum Error {
    Registry(String),
    WindowsApi(String),
    Io(String),
    PermissionDenied { message: String },
    ItemNotFound { id: String },
    BackupFailed { reason: String },
    RestoreFailed { reason: String },
    ChangeFailed,
    ComInitFailed(String),
    ScmAccessDenied,
    Serialization(String),
    TaskScheduler(String),
    InvalidPath(String),
}

impl Error {
    /// The text that describes the error.
    pub open spec fn message_spec(&self) -> Seq<char> {
        match self {
            Error::Registry(s) => "Registry access error: "@ + s@,
            Error::WindowsApi(s) => "Windows API error: "@ + s@,
            Error::Io(s) => "IO error: "@ + s@,
            Error::PermissionDenied { message } => "Permission denied: "@ + message@,
            Error::ItemNotFound { id } => "Item not found: "@ + id@,
            Error::BackupFailed { reason } => "Backup failed: "@ + reason@,
            Error::RestoreFailed { reason } => "Restore failed: "@ + reason@,
            Error::ChangeFailed => "Change failed and was rolled back"@,
            Error::ComInitFailed(s) => "COM initialization failed: "@ + s@,
            Error::ScmAccessDenied => "Service control manager access denied"@,
            Error::Serialization(s) => "Serialization error: "@ + s@,
            Error::TaskScheduler(s) => "Task scheduler error: "@ + s@,
            Error::InvalidPath(s) => "Invalid path: "@ + s@,
        }
    }

    /// A copy with every field the same.
    pub fn duplicate(&self) -> (r: Error)
        ensures
            r == *self,
    {
        match self {
            Error::Registry(s) => Error::Registry(s.clone()),
            Error::WindowsApi(s) => Error::WindowsApi(s.clone()),
            Error::Io(s) => Error::Io(s.clone()),
            Error::PermissionDenied { message } => Error::PermissionDenied { message: message.clone() },
            Error::ItemNotFound { id } => Error::ItemNotFound { id: id.clone() },
            Error::BackupFailed { reason } => Error::BackupFailed { reason: reason.clone() },
            Error::RestoreFailed { reason } => Error::RestoreFailed { reason: reason.clone() },
            Error::ChangeFailed => Error::ChangeFailed,
            Error::ComInitFailed(s) => Error::ComInitFailed(s.clone()),
            Error::ScmAccessDenied => Error::ScmAccessDenied,
            Error::Serialization(s) => Error::Serialization(s.clone()),
            Error::TaskScheduler(s) => Error::TaskScheduler(s.clone()),
            Error::InvalidPath(s) => Error::InvalidPath(s.clone()),
        }
    }

    pub fn message(&self) -> (r: String)
        ensures
            r@ == self.message_spec(),
    {
        match self {
            Error::Registry(s) => String::from_str("Registry access error: ").concat(s.as_str()),
            Error::WindowsApi(s) => String::from_str("Windows API error: ").concat(s.as_str()),
            Error::Io(s) => String::from_str("IO error: ").concat(s.as_str()),
            Error::PermissionDenied { message } => String::from_str("Permission denied: ").concat(
                message.as_str(),
            ),
            Error::ItemNotFound { id } => String::from_str("Item not found: ").concat(id.as_str()),
            Error::BackupFailed { reason } => String::from_str("Backup failed: ").concat(reason.as_str()),
            Error::RestoreFailed { reason } => String::from_str("Restore failed: ").concat(
                reason.as_str(),
            ),
            Error::ChangeFailed => String::from_str("Change failed and was rolled back"),
            Error::ComInitFailed(s) => String::from_str("COM initialization failed: ").concat(s.as_str()),
            Error::ScmAccessDenied => String::from_str("Service control manager access denied"),
            Error::Serialization(s) => String::from_str("Serialization error: ").concat(s.as_str()),
            Error::TaskScheduler(s) => String::from_str("Task scheduler error: ").concat(s.as_str()),
            Error::InvalidPath(s) => String::from_str("Invalid path: ").concat(s.as_str()),
        }
    }
}

} // verus!
