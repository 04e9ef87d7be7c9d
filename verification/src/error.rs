use vstd::prelude::*;

verus! {

/// `std::io::Error`, carried inside `TrojanError::Io` and never inspected.
#[verifier::external_type_specification]
#[verifier::external_body]
pub struct ExIoError(std::io::Error);

/// Every failure the proxy can report.
#[derive(Debug)]
pub enum TrojanError {
    Io(std::io::Error),
    Tls(String),
    Protocol(String),
    AuthenticationFailed,
    InvalidAddressType(u8),
    InvalidCommand(u8),
    Config(String),
    Timeout,
    InvalidUtf8,
    RemoteConnectFailed(String),
    Join(String),
}

/// Mathematical view of an error: the variant and the text it carries.
pub enum TrojanErrorView {
    Io,
    Tls(Seq<char>),
    Protocol(Seq<char>),
    AuthenticationFailed,
    InvalidAddressType(u8),
    InvalidCommand(u8),
    Config(Seq<char>),
    Timeout,
    InvalidUtf8,
    RemoteConnectFailed(Seq<char>),
    Join(Seq<char>),
}

impl View for TrojanError {
    type V = TrojanErrorView;

    open spec fn view(&self) -> TrojanErrorView {
        match self {
            TrojanError::Io(_) => TrojanErrorView::Io,
            TrojanError::Tls(m) => TrojanErrorView::Tls(m@),
            TrojanError::Protocol(m) => TrojanErrorView::Protocol(m@),
            TrojanError::AuthenticationFailed => TrojanErrorView::AuthenticationFailed,
            TrojanError::InvalidAddressType(t) => TrojanErrorView::InvalidAddressType(*t),
            TrojanError::InvalidCommand(c) => TrojanErrorView::InvalidCommand(*c),
            TrojanError::Config(m) => TrojanErrorView::Config(m@),
            TrojanError::Timeout => TrojanErrorView::Timeout,
            TrojanError::InvalidUtf8 => TrojanErrorView::InvalidUtf8,
            TrojanError::RemoteConnectFailed(m) => TrojanErrorView::RemoteConnectFailed(m@),
            TrojanError::Join(m) => TrojanErrorView::Join(m@),
        }
    }
}

pub type Result<T> = std::result::Result<T, TrojanError>;

impl From<std::io::Error> for TrojanError {
    fn from(e: std::io::Error) -> (r: Self) {
        TrojanError::Io(e)
    }
}

impl vstd::std_specs::convert::FromSpecImpl<std::io::Error> for TrojanError {
    open spec fn obeys_from_spec() -> bool {
        true
    }

    open spec fn from_spec(e: std::io::Error) -> Self {
        TrojanError::Io(e)
    }
}

/// `r` is the error whose view is `e`.
pub open spec fn fails_with<T>(r: Result<T>, e: TrojanErrorView) -> bool {
    r matches Err(x) && x@ == e
}

/// `err` is a protocol error whose message reads `msg`.
pub open spec fn is_protocol_error(err: TrojanError, msg: Seq<char>) -> bool {
    err@ == TrojanErrorView::Protocol(msg)
}

/// `err` is a configuration error whose message reads `msg`.
pub open spec fn is_config_error(err: TrojanError, msg: Seq<char>) -> bool {
    err@ == TrojanErrorView::Config(msg)
}

/// A protocol error carrying `msg`.
pub(crate) fn protocol_error(msg: &str) -> (r: TrojanError)
    ensures
        is_protocol_error(r, msg@),
{
    TrojanError::Protocol(String::from_str(msg))
}

/// A configuration error carrying `msg`.
pub(crate) fn config_error(msg: String) -> (r: TrojanError)
    ensures
        is_config_error(r, msg@),
{
    TrojanError::Config(msg)
}

} // verus!
