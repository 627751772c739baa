use vstd::prelude::*;
use crate::err::{NetError, net_error_text};
use vstd::std_specs::convert::FromSpecImpl;
use vstd::string::to_string_from_display_ensures;
use std::num::ParseIntError;
use std::string::FromUtf8Error;

verus! {

/// Errors of the HTTP codec.
#[derive(Debug, Clone)]
pub enum HttpError {
    Internal(String),
    NotFound,
    PermissionDenied,
    InvalidArgument(String),
    IoError(String),
    Http2RawNotSopport,
    Custom(String),
    TcpReadTimeout,
    TcpDisconnected,
    UknowError,
    AddressError(String),
    TooManyRedirects,
    LargePackage,
}

/// The text that an `HttpError` displays.
pub open spec fn http_error_text(e: HttpError) -> Seq<char> {
    match e {
        HttpError::Internal(_) => "Internal error."@,
        HttpError::NotFound => "Not found."@,
        HttpError::PermissionDenied => "Permission Denied."@,
        HttpError::InvalidArgument(s) => "Invalid argument: "@ + s@,
        HttpError::IoError(s) => "IoError: "@ + s@,
        HttpError::Http2RawNotSopport => "http2 raw not support."@,
        HttpError::Custom(s) => s@,
        HttpError::TcpReadTimeout => "tcp read timeout"@,
        HttpError::TcpDisconnected => "tcp disconnected"@,
        HttpError::UknowError => "UknowError"@,
        HttpError::AddressError(s) => s@ + " Address error"@,
        HttpError::TooManyRedirects => "Too_Many_Redirects"@,
        HttpError::LargePackage => "package is too large"@,
    }
}

impl HttpError {
    /// A custom error that carries the given text.
    pub fn new_with_string(s: String) -> (e: HttpError)
        ensures
            e == HttpError::Custom(s),
            http_error_text(e) == s@,
    {
        HttpError::Custom(s)
    }

    /// The text of the error, as it is displayed.
    pub fn to_string(&self) -> (res: String)
        ensures
            res@ == http_error_text(*self),
    {
        match self {
            HttpError::Internal(_) => String::from_str("Internal error."),
            HttpError::NotFound => String::from_str("Not found."),
            HttpError::PermissionDenied => String::from_str("Permission Denied."),
            HttpError::InvalidArgument(s) => String::from_str("Invalid argument: ").concat(
                s.as_str(),
            ),
            HttpError::IoError(s) => String::from_str("IoError: ").concat(s.as_str()),
            HttpError::Http2RawNotSopport => String::from_str("http2 raw not support."),
            HttpError::Custom(s) => s.clone(),
            HttpError::TcpReadTimeout => String::from_str("tcp read timeout"),
            HttpError::TcpDisconnected => String::from_str("tcp disconnected"),
            HttpError::UknowError => String::from_str("UknowError"),
            HttpError::AddressError(s) => s.clone().concat(" Address error"),
            HttpError::TooManyRedirects => String::from_str("Too_Many_Redirects"),
            HttpError::LargePackage => String::from_str("package is too large"),
        }
    }
}

/// A network error seen by the HTTP layer becomes an I/O error that carries
/// the network error's text.
impl From<NetError> for HttpError {
    fn from(err: NetError) -> (res: HttpError)
        ensures
            res matches HttpError::IoError(s) && s@ == net_error_text(err),
    {
        HttpError::IoError(err.to_string())
    }
}

impl FromSpecImpl<NetError> for HttpError {
    open spec fn obeys_from_spec() -> bool {
        false
    }

    open spec fn from_spec(v: NetError) -> HttpError {
        HttpError::UknowError
    }
}

/// An HTTP error seen by the network layer becomes a custom error that
/// carries the HTTP error's text.
impl From<HttpError> for NetError {
    fn from(err: HttpError) -> (res: NetError)
        ensures
            res matches NetError::Custom(s) && s@ == http_error_text(err),
    {
        NetError::Custom(err.to_string())
    }
}

impl FromSpecImpl<HttpError> for NetError {
    open spec fn obeys_from_spec() -> bool {
        false
    }

    open spec fn from_spec(v: HttpError) -> NetError {
        NetError::UknowError
    }
}

/// `std::num::ParseIntError`, carried as it is.
#[verifier::external_type_specification]
#[verifier::external_body]
pub struct ExParseIntError(ParseIntError);

/// `std::string::FromUtf8Error`, carried as it is.
#[verifier::external_type_specification]
#[verifier::external_body]
pub struct ExFromUtf8Error(FromUtf8Error);

/// A number that did not parse is an invalid argument, with the text of the
/// parse error.
impl From<ParseIntError> for HttpError {
    fn from(err: ParseIntError) -> (res: HttpError)
        ensures
            res matches HttpError::InvalidArgument(s) && to_string_from_display_ensures(&err, s),
    {
        HttpError::InvalidArgument(err.to_string())
    }
}

impl FromSpecImpl<ParseIntError> for HttpError {
    open spec fn obeys_from_spec() -> bool {
        false
    }

    open spec fn from_spec(v: ParseIntError) -> HttpError {
        HttpError::UknowError
    }
}

/// An I/O error is an `IoError` with the text of the I/O error.
impl From<std::io::Error> for HttpError {
    fn from(err: std::io::Error) -> (res: HttpError)
        ensures
            res matches HttpError::IoError(s) && to_string_from_display_ensures(&err, s),
    {
        HttpError::IoError(err.to_string())
    }
}

impl FromSpecImpl<std::io::Error> for HttpError {
    open spec fn obeys_from_spec() -> bool {
        false
    }

    open spec fn from_spec(v: std::io::Error) -> HttpError {
        HttpError::UknowError
    }
}

/// Bytes that are not UTF-8 are an invalid argument, with the text of the
/// decoding error.
impl From<FromUtf8Error> for HttpError {
    fn from(err: FromUtf8Error) -> (res: HttpError)
        ensures
            res matches HttpError::InvalidArgument(s) && to_string_from_display_ensures(&err, s),
    {
        HttpError::InvalidArgument(err.to_string())
    }
}

impl FromSpecImpl<FromUtf8Error> for HttpError {
    open spec fn obeys_from_spec() -> bool {
        false
    }

    open spec fn from_spec(v: FromUtf8Error) -> HttpError {
        HttpError::UknowError
    }
}

/// An HTTP error handed to the network layer displays the same text.
pub proof fn law_http_to_net_keeps_text(e: HttpError, n: NetError)
    requires
        n matches NetError::Custom(s) && s@ == http_error_text(e),
    ensures
        net_error_text(n) == http_error_text(e),
{
}

/// A network error handed to the HTTP layer displays its text after
/// `IoError: `.
pub proof fn law_net_to_http_prefixes_text(n: NetError, e: HttpError)
    requires
        e matches HttpError::IoError(s) && s@ == net_error_text(n),
    ensures
        http_error_text(e) == "IoError: "@ + net_error_text(n),
{
}

} // verus!
