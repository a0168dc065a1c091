use vstd::prelude::*;

verus! {

/// The ways an operation of the store or of the code generator can fail.
#[derive(Debug, Clone, Copy, PartialEq, Eq, Structural)]
pub enum OvaError {
    /// The home directory cannot be found, or the platform is not supported.
    EnvironmentError,
    /// The store file could not be created, opened, read or written.
    IoError,
    /// A name or a secret is blank, or a secret is too short.
    ValidationError,
    /// An entry with that name is already in the store.
    DuplicateKey,
    /// No entry with that name is in the store.
    NotFound,
    /// The secret cannot be used to derive a code.
    InvalidSecret,
    /// The system clock stands before the Unix epoch.
    ClockError,
}

impl OvaError {
    /// A short sentence that describes the error.
    pub fn message(&self) -> (r: &'static str) {
        match self {
            OvaError::EnvironmentError => "Could not locate the store directory",
            OvaError::IoError => "Could not access the store file",
            OvaError::ValidationError => "Name and key cannot be empty, and the key must be at least 16 characters long",
            OvaError::DuplicateKey => "Key already exists",
            OvaError::NotFound => "Key not found",
            OvaError::InvalidSecret => "Key is not a valid secret",
            OvaError::ClockError => "System time is before the Unix epoch",
        }
    }
}

} // verus!
