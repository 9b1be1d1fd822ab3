use vstd::prelude::*;

verus! {

/// Errors of the signaling server.
#[derive(Debug, Clone)]
pub enum ServerError {
    OpenUserDataFileError,
    WriteUserDataFileError,
    UserDoesNotExist(String),
    PoisonedLock,
    UserNotAvailable(String),
    MapError(String),
    IPNotFound(String),
    FailedToBindAddress,
    ConnectionError,
    ServerOff,
    InvalidFormat,
    ServerFull,
}

/// The abstract content of a [`ServerError`].
pub ghost enum ServerErrorView {
    OpenUserDataFileError,
    WriteUserDataFileError,
    UserDoesNotExist(Seq<char>),
    PoisonedLock,
    UserNotAvailable(Seq<char>),
    MapError(Seq<char>),
    IPNotFound(Seq<char>),
    FailedToBindAddress,
    ConnectionError,
    ServerOff,
    InvalidFormat,
    ServerFull,
}

impl View for ServerError {
    type V = ServerErrorView;

    open spec fn view(&self) -> ServerErrorView {
        match self {
            ServerError::OpenUserDataFileError => ServerErrorView::OpenUserDataFileError,
            ServerError::WriteUserDataFileError => ServerErrorView::WriteUserDataFileError,
            ServerError::UserDoesNotExist(u) => ServerErrorView::UserDoesNotExist(u@),
            ServerError::PoisonedLock => ServerErrorView::PoisonedLock,
            ServerError::UserNotAvailable(u) => ServerErrorView::UserNotAvailable(u@),
            ServerError::MapError(e) => ServerErrorView::MapError(e@),
            ServerError::IPNotFound(e) => ServerErrorView::IPNotFound(e@),
            ServerError::FailedToBindAddress => ServerErrorView::FailedToBindAddress,
            ServerError::ConnectionError => ServerErrorView::ConnectionError,
            ServerError::ServerOff => ServerErrorView::ServerOff,
            ServerError::InvalidFormat => ServerErrorView::InvalidFormat,
            ServerError::ServerFull => ServerErrorView::ServerFull,
        }
    }
}

impl ServerErrorView {
    /// The human-readable message of this error.
    pub open spec fn message(self) -> Seq<char> {
        match self {
            ServerErrorView::OpenUserDataFileError => "Error: failed to open user data file"@,
            ServerErrorView::WriteUserDataFileError => "Error: failed to write user data file"@,
            ServerErrorView::UserDoesNotExist(u) => "Error: user does not exist: "@ + u,
            ServerErrorView::PoisonedLock => "Error: poisoned lock"@,
            ServerErrorView::UserNotAvailable(u) => "Error: user not available: "@ + u,
            ServerErrorView::MapError(e) => "Error: "@ + e,
            ServerErrorView::IPNotFound(e) => "Error: IP not found: "@ + e,
            ServerErrorView::FailedToBindAddress => "Error: failed to bind address"@,
            ServerErrorView::ConnectionError => "Error: failed to connect"@,
            ServerErrorView::ServerOff => "Error: is no longer available"@,
            ServerErrorView::InvalidFormat => "Error: invalid format"@,
            ServerErrorView::ServerFull => "Error: server full"@,
        }
    }
}

impl ServerError {
    /// Formats the error as a human-readable message.
    pub fn to_string(&self) -> (r: String)
        ensures
            r@ == self@.message(),
    {
        match self {
            ServerError::OpenUserDataFileError => String::from_str(
                "Error: failed to open user data file",
            ),
            ServerError::WriteUserDataFileError => String::from_str(
                "Error: failed to write user data file",
            ),
            ServerError::UserDoesNotExist(u) => String::from_str(
                "Error: user does not exist: ",
            ).concat(u.as_str()),
            ServerError::PoisonedLock => String::from_str("Error: poisoned lock"),
            ServerError::UserNotAvailable(u) => String::from_str(
                "Error: user not available: ",
            ).concat(u.as_str()),
            ServerError::MapError(e) => String::from_str("Error: ").concat(e.as_str()),
            ServerError::IPNotFound(e) => String::from_str("Error: IP not found: ").concat(
                e.as_str(),
            ),
            ServerError::FailedToBindAddress => String::from_str("Error: failed to bind address"),
            ServerError::ConnectionError => String::from_str("Error: failed to connect"),
            ServerError::ServerOff => String::from_str("Error: is no longer available"),
            ServerError::InvalidFormat => String::from_str("Error: invalid format"),
            ServerError::ServerFull => String::from_str("Error: server full"),
        }
    }
}

} // verus!
