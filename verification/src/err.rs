use vstd::prelude::*;
use vstd::std_specs::convert::FromSpecImpl;
use vstd::string::to_string_from_display_ensures;
use std::time::SystemTimeError;

verus! {

/// Errors of the network layer.
#[derive(Debug, Clone)]
pub enum NetError {
    IoError(String),
    Custom(String),
    TcpReadTimeout,
    TcpDisconnected,
    UknowError,
    AddressError(String),
    LargePackage,
    ShutdownServer(String),
    NoError,
    Close,
}

/// The text that a `NetError` displays.
pub open spec fn net_error_text(e: NetError) -> Seq<char> {
    match e {
        NetError::IoError(s) => "IoError: "@ + s@,
        NetError::Custom(s) => s@,
        NetError::TcpReadTimeout => "tcp read timeout"@,
        NetError::TcpDisconnected => "tcp disconnected"@,
        NetError::UknowError => "UknowError"@,
        NetError::AddressError(s) => s@ + " Address error"@,
        NetError::LargePackage => "package is too large"@,
        NetError::ShutdownServer(s) => "ShutdownServer,reason: "@ + s@,
        NetError::NoError => "no error"@,
        NetError::Close => "close no error"@,
    }
}

impl NetError {
    /// A custom error that carries the given text.
    pub fn new_with_string(s: String) -> (e: NetError)
        ensures
            e == NetError::Custom(s),
            net_error_text(e) == s@,
    {
        NetError::Custom(s)
    }

    /// The text of the error, as it is displayed.
    pub fn to_string(&self) -> (res: String)
        ensures
            res@ == net_error_text(*self),
    {
        match self {
            NetError::IoError(s) => String::from_str("IoError: ").concat(s.as_str()),
            NetError::Custom(s) => s.clone(),
            NetError::TcpReadTimeout => String::from_str("tcp read timeout"),
            NetError::TcpDisconnected => String::from_str("tcp disconnected"),
            NetError::UknowError => String::from_str("UknowError"),
            NetError::AddressError(s) => s.clone().concat(" Address error"),
            NetError::LargePackage => String::from_str("package is too large"),
            NetError::ShutdownServer(s) => String::from_str("ShutdownServer,reason: ").concat(
                s.as_str(),
            ),
            NetError::NoError => String::from_str("no error"),
            NetError::Close => String::from_str("close no error"),
        }
    }
}

/// `std::io::Error`, carried as it is.
#[verifier::external_type_specification]
#[verifier::external_body]
pub struct ExIoError(std::io::Error);

/// `std::time::SystemTimeError`, carried as it is.
#[verifier::external_type_specification]
#[verifier::external_body]
pub struct ExSystemTimeError(SystemTimeError);

/// An I/O error is an `IoError` with the text of the I/O error.
impl From<std::io::Error> for NetError {
    fn from(err: std::io::Error) -> (res: NetError)
        ensures
            res matches NetError::IoError(s) && to_string_from_display_ensures(&err, s),
    {
        NetError::IoError(err.to_string())
    }
}

impl FromSpecImpl<std::io::Error> for NetError {
    open spec fn obeys_from_spec() -> bool {
        false
    }

    open spec fn from_spec(v: std::io::Error) -> NetError {
        NetError::UknowError
    }
}

/// A clock error is a custom error with the text of the clock error.
impl From<SystemTimeError> for NetError {
    fn from(err: SystemTimeError) -> (res: NetError)
        ensures
            res matches NetError::Custom(s) && to_string_from_display_ensures(&err, s),
    {
        NetError::Custom(err.to_string())
    }
}

impl FromSpecImpl<SystemTimeError> for NetError {
    open spec fn obeys_from_spec() -> bool {
        false
    }

    open spec fn from_spec(v: SystemTimeError) -> NetError {
        NetError::UknowError
    }
}

} // verus!
