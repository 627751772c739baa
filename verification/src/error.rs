use vstd::prelude::*;

verus! {

/// Errors of the message protocol.
#[allow(non_camel_case_types)]
#[derive(Debug, Clone)]
pub enum Error {
    UknowError,
    errMsgLen,
    errMsgDataLen,
    Custom(String),
}

/// The text that an `Error` displays.
pub open spec fn protocol_error_text(e: Error) -> Seq<char> {
    match e {
        Error::UknowError => "UknowError"@,
        Error::errMsgLen => "消息长度不够解析一条msg"@,
        Error::errMsgDataLen => "消息长度不够解析data"@,
        Error::Custom(s) => s@,
    }
}

impl Error {
    /// A custom error that carries the given text.
    pub fn new_with_string(s: String) -> (e: Error)
        ensures
            e == Error::Custom(s),
            protocol_error_text(e) == s@,
    {
        Error::Custom(s)
    }

    /// The text of the error, as it is displayed.
    pub fn to_string(&self) -> (res: String)
        ensures
            res@ == protocol_error_text(*self),
    {
        match self {
            Error::UknowError => String::from_str("UknowError"),
            Error::errMsgLen => String::from_str("消息长度不够解析一条msg"),
            Error::errMsgDataLen => String::from_str("消息长度不够解析data"),
            Error::Custom(s) => s.clone(),
        }
    }
}

} // verus!
