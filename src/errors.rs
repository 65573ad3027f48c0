use vstd::prelude::*;

verus! {

/// The kinds of failure that the broker reports to its callers.
#[derive(Clone, Copy, Debug, PartialEq, Eq, Structural)]
pub enum ErrorKind {
    /// No such lobby, or no streamer connected to it yet.
    NotFound,
    /// The streamer key does not match.
    NotAllowed,
    /// A streamer is already connected to the lobby.
    AlreadyConnected,
    /// A lobby for this user exists already.
    LobbyAlreadyExists,
    /// An unexpected internal failure.
    Unknown,
}

/// An error with a message meant for the client.
#[derive(Debug, PartialEq, Eq)]
pub enum Errors {
    NotFound(String),
    NotAllowed(String),
    AlreadyConnected(String),
    LobbyAlreadyExists(String),
    Unknown(String),
}

/// The HTTP status that answers an error of the given kind.
pub open spec fn status_of(kind: ErrorKind) -> u16 {
    match kind {
        ErrorKind::NotFound => 404,
        ErrorKind::NotAllowed => 403,
        ErrorKind::AlreadyConnected => 409,
        ErrorKind::LobbyAlreadyExists => 409,
        ErrorKind::Unknown => 500,
    }
}

impl Errors {
    pub open spec fn spec_kind(&self) -> ErrorKind {
        match self {
            Errors::NotFound(_) => ErrorKind::NotFound,
            Errors::NotAllowed(_) => ErrorKind::NotAllowed,
            Errors::AlreadyConnected(_) => ErrorKind::AlreadyConnected,
            Errors::LobbyAlreadyExists(_) => ErrorKind::LobbyAlreadyExists,
            Errors::Unknown(_) => ErrorKind::Unknown,
        }
    }

    /// Which kind of failure this is.
    #[verifier::when_used_as_spec(spec_kind)]
    pub fn kind(&self) -> (r: ErrorKind)
        ensures
            r == self.spec_kind(),
    {
        match self {
            Errors::NotFound(_) => ErrorKind::NotFound,
            Errors::NotAllowed(_) => ErrorKind::NotAllowed,
            Errors::AlreadyConnected(_) => ErrorKind::AlreadyConnected,
            Errors::LobbyAlreadyExists(_) => ErrorKind::LobbyAlreadyExists,
            Errors::Unknown(_) => ErrorKind::Unknown,
        }
    }

    pub open spec fn spec_message(&self) -> Seq<char> {
        match self {
            Errors::NotFound(m) => m@,
            Errors::NotAllowed(m) => m@,
            Errors::AlreadyConnected(m) => m@,
            Errors::LobbyAlreadyExists(m) => m@,
            Errors::Unknown(m) => m@,
        }
    }

    /// The message carried by the error.
    pub fn message(&self) -> (r: &str)
        ensures
            r@ == self.spec_message(),
    {
        match self {
            Errors::NotFound(m) => m.as_str(),
            Errors::NotAllowed(m) => m.as_str(),
            Errors::AlreadyConnected(m) => m.as_str(),
            Errors::LobbyAlreadyExists(m) => m.as_str(),
            Errors::Unknown(m) => m.as_str(),
        }
    }

    /// The HTTP status code that answers this error.
    pub fn status_code(&self) -> (r: u16)
        ensures
            r == status_of(self.kind()),
    {
        match self.kind() {
            ErrorKind::NotFound => 404,
            ErrorKind::NotAllowed => 403,
            ErrorKind::AlreadyConnected => 409,
            ErrorKind::LobbyAlreadyExists => 409,
            ErrorKind::Unknown => 500,
        }
    }
}

/// Relies on `format!("{e:?}")`: the `Debug` rendering of a value.
#[verifier::external_body]
fn debug_text<E: std::fmt::Debug>(e: &E) -> (r: String) {
    format!("{e:?}")
}

/// Turns any failure of a `Result` into an `Unknown` error.
pub trait ResultExt<T, E>: Sized {
    spec fn spec_result(&self) -> Result<T, E>;

    /// Maps an error to `Unknown` with the given message.
    fn unknown_with(self, msg: &str) -> (r: Result<T, Errors>)
        ensures
            match self.spec_result() {
                Ok(v) => r == Ok::<T, Errors>(v),
                Err(_) => r is Err && r->Err_0 is Unknown && r->Err_0.spec_message() == msg@,
            },
    ;

    /// Maps an error to `Unknown`, with the error's `Debug` text as message.
    fn unknown(self) -> (r: Result<T, Errors>) where E: std::fmt::Debug
        ensures
            match self.spec_result() {
                Ok(v) => r == Ok::<T, Errors>(v),
                Err(_) => r is Err && r->Err_0 is Unknown,
            },
    ;
}

impl<T, E> ResultExt<T, E> for Result<T, E> {
    open spec fn spec_result(&self) -> Result<T, E> {
        *self
    }

    fn unknown_with(self, msg: &str) -> (r: Result<T, Errors>) {
        match self {
            Ok(v) => Ok(v),
            Err(_) => Err(Errors::Unknown(msg.to_owned())),
        }
    }

    fn unknown(self) -> (r: Result<T, Errors>) where E: std::fmt::Debug {
        match self {
            Ok(v) => Ok(v),
            Err(e) => Err(Errors::Unknown(debug_text(&e))),
        }
    }
}

} // verus!
