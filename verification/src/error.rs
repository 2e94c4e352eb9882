//! The errors of the application, and how each kind is dealt with.

use vstd::prelude::*;

verus! {

/// The codes that classify an outcome.
#[derive(Clone, Copy, Debug, PartialEq, Eq, Structural)]
pub enum ErrorCodes {
    /// The operation succeeded.
    Success,
}

impl ErrorCodes {
    /// The number of a code.
    pub open spec fn spec_code(self) -> u16 {
        match self {
            ErrorCodes::Success => 200,
        }
    }

    /// The number of a code.
    pub fn code(&self) -> (r: u16)
        ensures
            r == self.spec_code(),
    {
        match self {
            ErrorCodes::Success => 200,
        }
    }
}

/// The kinds of failure, by the way they are dealt with.
#[derive(Clone, Copy, Debug, PartialEq, Eq, Structural)]
pub enum ErrorKind {
    /// The configuration is missing or wrong. Fatal at startup.
    Config,
    /// The pub/sub backend cannot be reached. Fatal at startup; while
    /// running, connecting is tried again.
    TransportConnect,
    /// A fetch failed or timed out. It is tried again after a pause, and the
    /// watermark stays.
    Fetch,
    /// The sink did not take an event. It is offered again a bounded number
    /// of times, and then given up.
    Forward,
    /// The durable store did not take a write. The watermark does not
    /// advance until it does.
    Persistence,
    /// An event could not be read. It is passed over, and the batch goes on.
    Serialization,
}

impl ErrorKind {
    /// Whether a failure of this kind, met at startup, ends the process.
    pub open spec fn spec_fatal_at_startup(self) -> bool {
        self is Config || self is TransportConnect
    }

    /// Whether a failure of this kind, met at startup, ends the process.
    pub fn is_fatal_at_startup(&self) -> (r: bool)
        ensures
            r == self.spec_fatal_at_startup(),
    {
        match self {
            ErrorKind::Config => true,
            ErrorKind::TransportConnect => true,
            _ => false,
        }
    }

    /// Whether a failure of this kind, met while running, is tried again.
    pub open spec fn spec_retried(self) -> bool {
        self is TransportConnect || self is Fetch || self is Forward
    }

    /// Whether a failure of this kind, met while running, is tried again.
    pub fn is_retried(&self) -> (r: bool)
        ensures
            r == self.spec_retried(),
    {
        match self {
            ErrorKind::TransportConnect => true,
            ErrorKind::Fetch => true,
            ErrorKind::Forward => true,
            _ => false,
        }
    }
}

/// What can go wrong. Each variant carries the words of its cause.
#[derive(Debug)]
pub enum Error {
    /// No configuration file at the path given.
    ConfigMissing(String),
    /// The configuration file could not be read as a configuration.
    SerializationError(String),
    /// Reading or writing failed.
    IoError(String),
    /// The tracing system could not be set up.
    TracingError(String),
    /// Anything else, in its own words.
    CustomError(String),
    /// The key of the polled network's client is wrong.
    NostrSdkKeyError(String),
    /// The polled network's client failed.
    NostrSdkClientError(String),
    /// The polled network's local database failed.
    NostrSdkDBError(String),
    /// The database that keeps the watermarks and the ledger failed.
    SeaOrmDBError(String),
    /// The pub/sub backend could not be reached.
    TransportConnectError(String),
    /// The sink did not take an event.
    ForwardError(String),
    /// An event could not be read.
    MalformedEvent(String),
}

impl Error {
    /// The words of the cause.
    pub open spec fn spec_cause(&self) -> Seq<char> {
        match self {
            Error::ConfigMissing(cause) => cause@,
            Error::SerializationError(cause) => cause@,
            Error::IoError(cause) => cause@,
            Error::TracingError(cause) => cause@,
            Error::CustomError(cause) => cause@,
            Error::NostrSdkKeyError(cause) => cause@,
            Error::NostrSdkClientError(cause) => cause@,
            Error::NostrSdkDBError(cause) => cause@,
            Error::SeaOrmDBError(cause) => cause@,
            Error::TransportConnectError(cause) => cause@,
            Error::ForwardError(cause) => cause@,
            Error::MalformedEvent(cause) => cause@,
        }
    }

    /// What the message of an error starts with, before the words of its
    /// cause. The errors of the outside clients speak for themselves.
    pub open spec fn spec_prefix(&self) -> Seq<char> {
        match self {
            Error::ConfigMissing(_) => "No operator config found at this path: "@,
            Error::SerializationError(_) => "Config deserialization error: "@,
            Error::IoError(_) => "Error while performing IO for the Operator: "@,
            Error::TracingError(_) => "Tracing error: "@,
            Error::CustomError(_) => "Custom error: "@,
            Error::NostrSdkKeyError(_) => Seq::empty(),
            Error::NostrSdkClientError(_) => Seq::empty(),
            Error::NostrSdkDBError(_) => Seq::empty(),
            Error::SeaOrmDBError(_) => Seq::empty(),
            Error::TransportConnectError(_) => "Transport connect error: "@,
            Error::ForwardError(_) => "Forward error: "@,
            Error::MalformedEvent(_) => "Malformed event: "@,
        }
    }

    /// The kind of an error.
    pub open spec fn spec_kind(&self) -> ErrorKind {
        match self {
            Error::ConfigMissing(_) => ErrorKind::Config,
            Error::SerializationError(_) => ErrorKind::Config,
            Error::IoError(_) => ErrorKind::Config,
            Error::TracingError(_) => ErrorKind::Config,
            Error::CustomError(_) => ErrorKind::Config,
            Error::NostrSdkKeyError(_) => ErrorKind::Config,
            Error::NostrSdkClientError(_) => ErrorKind::Fetch,
            Error::NostrSdkDBError(_) => ErrorKind::Fetch,
            Error::SeaOrmDBError(_) => ErrorKind::Persistence,
            Error::TransportConnectError(_) => ErrorKind::TransportConnect,
            Error::ForwardError(_) => ErrorKind::Forward,
            Error::MalformedEvent(_) => ErrorKind::Serialization,
        }
    }

    /// The kind of the error.
    pub fn kind(&self) -> (r: ErrorKind)
        ensures
            r == self.spec_kind(),
    {
        match self {
            Error::ConfigMissing(_) => ErrorKind::Config,
            Error::SerializationError(_) => ErrorKind::Config,
            Error::IoError(_) => ErrorKind::Config,
            Error::TracingError(_) => ErrorKind::Config,
            Error::CustomError(_) => ErrorKind::Config,
            Error::NostrSdkKeyError(_) => ErrorKind::Config,
            Error::NostrSdkClientError(_) => ErrorKind::Fetch,
            Error::NostrSdkDBError(_) => ErrorKind::Fetch,
            Error::SeaOrmDBError(_) => ErrorKind::Persistence,
            Error::TransportConnectError(_) => ErrorKind::TransportConnect,
            Error::ForwardError(_) => ErrorKind::Forward,
            Error::MalformedEvent(_) => ErrorKind::Serialization,
        }
    }

    /// The code of the error. Every error has the code of success.
    pub fn error_code(&self) -> (r: u16)
        ensures
            r == ErrorCodes::Success.spec_code(),
    {
        ErrorCodes::Success.code()
    }

    /// The message of the error: what it starts with, then the words of its
    /// cause.
    pub fn error_message(&self) -> (r: String)
        ensures
            r@ == self.spec_prefix() + self.spec_cause(),
    {
        let (prefix, cause) = match self {
            Error::ConfigMissing(cause) => ("No operator config found at this path: ", cause),
            Error::SerializationError(cause) => ("Config deserialization error: ", cause),
            Error::IoError(cause) => ("Error while performing IO for the Operator: ", cause),
            Error::TracingError(cause) => ("Tracing error: ", cause),
            Error::CustomError(cause) => ("Custom error: ", cause),
            Error::NostrSdkKeyError(cause) => ("", cause),
            Error::NostrSdkClientError(cause) => ("", cause),
            Error::NostrSdkDBError(cause) => ("", cause),
            Error::SeaOrmDBError(cause) => ("", cause),
            Error::TransportConnectError(cause) => ("Transport connect error: ", cause),
            Error::ForwardError(cause) => ("Forward error: ", cause),
            Error::MalformedEvent(cause) => ("Malformed event: ", cause),
        };
        proof {
            reveal_strlit("");
            assert(""@ =~= Seq::<char>::empty());
        }
        let mut message = prefix.to_owned();
        message.append(cause.as_str());
        message
    }
}

} // verus!
