use crate::plugin::persistence::PersistenceError;
use crate::text::joined;
use vstd::prelude::*;

verus! {

/// The ways in which an operation on the local state can fail.
#[derive(Debug, Clone)]
pub enum Error {
    Persistence(PersistenceError),
    MixpanelClient(crate::error::Error),
    MixpanelError(String),
    SerdeJson(String),
    Tauri(String),
}

impl Error {
    /// Whether this is a usage error with the given message.
    pub open spec fn is_usage(self, message: Seq<char>) -> bool {
        match self {
            Error::MixpanelError(m) => m@ == message,
            _ => false,
        }
    }

    /// The text of `message`.
    pub open spec fn message_view(self) -> Seq<char> {
        match self {
            Error::Persistence(e) => e.message_view(),
            Error::MixpanelClient(e) => e.message_view(),
            Error::MixpanelError(m) => m@,
            Error::SerdeJson(m) => m@,
            Error::Tauri(m) => m@,
        }
    }

    /// What the error says to a reader.
    pub fn message(&self) -> (r: String)
        ensures
            r@ == self.message_view(),
    {
        match self {
            Error::Persistence(e) => e.message(),
            Error::MixpanelClient(e) => e.message(),
            Error::MixpanelError(m) => m.clone(),
            Error::SerdeJson(m) => m.clone(),
            Error::Tauri(m) => m.clone(),
        }
    }
}

impl PersistenceError {
    /// The text of `message`.
    pub open spec fn message_view(self) -> Seq<char> {
        match self {
            PersistenceError::IoError(m) => "I/O error: "@ + m@,
            PersistenceError::SerdeError(m) => "Serialization error: "@ + m@,
            PersistenceError::PathError(m) => "Path error: "@ + m@,
            PersistenceError::LockError(m) => "Lock error: "@ + m@,
        }
    }

    /// What the error says to a reader.
    pub fn message(&self) -> (r: String)
        ensures
            r@ == self.message_view(),
    {
        match self {
            PersistenceError::IoError(m) => joined("I/O error: ", m.as_str()),
            PersistenceError::SerdeError(m) => joined("Serialization error: ", m.as_str()),
            PersistenceError::PathError(m) => joined("Path error: ", m.as_str()),
            PersistenceError::LockError(m) => joined("Lock error: ", m.as_str()),
        }
    }
}

impl From<crate::error::Error> for Error {
    fn from(err: crate::error::Error) -> (r: Self) {
        Error::MixpanelClient(err)
    }
}

impl vstd::std_specs::convert::FromSpecImpl<crate::error::Error> for Error {
    open spec fn obeys_from_spec() -> bool {
        true
    }

    open spec fn from_spec(err: crate::error::Error) -> Self {
        Error::MixpanelClient(err)
    }
}

impl From<PersistenceError> for Error {
    fn from(err: PersistenceError) -> (r: Self) {
        Error::Persistence(err)
    }
}

impl vstd::std_specs::convert::FromSpecImpl<PersistenceError> for Error {
    open spec fn obeys_from_spec() -> bool {
        true
    }

    open spec fn from_spec(err: PersistenceError) -> Self {
        Error::Persistence(err)
    }
}

} // verus!
