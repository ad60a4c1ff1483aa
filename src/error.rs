use vstd::prelude::*;

verus! {

/// Why an operation on notes failed.
#[derive(Clone, Copy, Debug, PartialEq, Eq, Structural)]
pub enum SyncError {
    /// The credentials presented were rejected.
    InvalidCredentials,
    /// No note with the given id belongs to the user.
    NotFound,
    /// A note with the given id already belongs to the user.
    Conflict,
    /// The caller's identity is missing or invalid.
    Unauthorized,
    /// The storage behind the notes failed.
    DatabaseError,
}

impl SyncError {
    /// A short description for the caller.
    pub fn message(&self) -> (r: &'static str)
        ensures
            *self == SyncError::InvalidCredentials ==> r@ == "Invalid credentials"@,
            *self == SyncError::NotFound ==> r@ == "Note not found"@,
            *self == SyncError::Conflict ==> r@ == "Note already exists"@,
            *self == SyncError::Unauthorized ==> r@ == "Unauthorized"@,
            *self == SyncError::DatabaseError ==> r@ == "Database error"@,
    {
        match self {
            SyncError::InvalidCredentials => "Invalid credentials",
            SyncError::NotFound => "Note not found",
            SyncError::Conflict => "Note already exists",
            SyncError::Unauthorized => "Unauthorized",
            SyncError::DatabaseError => "Database error",
        }
    }
}

} // verus!
