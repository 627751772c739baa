use vstd::prelude::*;
use crate::err::NetError;
use crate::http_error::HttpError;
use crate::http1::{ContentType, Request};

verus! {

/// A response read over a request: its status code and how its body
/// length is known.
pub struct Response<'a> {
    pub code: u16,
    request: &'a mut Request,
    body_length: ContentType,
}

impl<'a> Response<'a> {
    /// The status code.
    pub closed spec fn code_spec(&self) -> u16 {
        self.code
    }

    /// How the length of the body is known.
    pub closed spec fn body_length_spec(&self) -> ContentType {
        self.body_length
    }

    /// The request the response belongs to.
    pub closed spec fn request_spec(&self) -> Request {
        *self.request
    }

    /// The response to a request whose head was read: it takes the request's
    /// status code and body length.
    pub fn from_request(req: &'a mut Request) -> (res: Result<Response<'a>, HttpError>)
        ensures
            res matches Ok(resp) && resp.code_spec() == old(req).code && resp.body_length_spec()
                == old(req).content_length && resp.request_spec() == *old(req),
    {
        let resp = Response { code: req.code, body_length: req.content_length, request: req };
        Ok(resp)
    }

    /// Reading the body is not supported: it always fails with `UknowError`.
    pub fn read_by_maxsize(&mut self, maxsize: usize) -> (res: Result<Vec<u8>, HttpError>)
        ensures
            res matches Err(HttpError::UknowError),
    {
        Err(HttpError::UknowError)
    }

    /// Writing a text is not supported: it succeeds and sends nothing.
    pub fn writestring(&mut self, str: &str) -> (res: Result<(), NetError>)
        ensures
            res is Ok,
            *final(self) == *old(self),
    {
        Ok(())
    }
}

} // verus!
