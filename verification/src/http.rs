//! The request and response values that the pipeline threads from stage to
//! stage. The transport that produces requests and carries finished
//! responses back to the client lives outside the library.

use vstd::prelude::*;

verus! {

/// The request methods the static-file stage distinguishes; every other
/// method is `Other` and passes through the stage untouched.
#[derive(Clone, Copy, PartialEq, Eq, Structural, Debug)]
pub enum Method {
    Get,
    Head,
    Other,
}

/// An in-flight request. The path is the raw request-target, which may still
/// carry a query suffix; the body, if any, stays with the transport.
pub struct Request {
    pub method: Method,
    pub path: String,
    pub headers: Vec<(String, String)>,
}

/// A write-once response: once the body has been streamed the response is
/// committed and no later stage may write to it again.
pub struct Response {
    status: u16,
    body: Vec<u8>,
    committed: bool,
}

impl Response {
    pub closed spec fn status(&self) -> u16 {
        self.status
    }

    pub closed spec fn body(&self) -> Seq<u8> {
        self.body@
    }

    pub closed spec fn is_committed(&self) -> bool {
        self.committed
    }

    /// A fresh response with an empty, still-writable body.
    pub fn new() -> (r: Response)
        ensures
            r.status() == 200u16,
            r.body() == Seq::<u8>::empty(),
            !r.is_committed(),
    {
        Response { status: 200, body: Vec::new(), committed: false }
    }

    /// Stream a file's complete contents into the body in a single pass and
    /// close the body: the committed response can never be written again.
    pub fn send_file(self, contents: Vec<u8>) -> (r: Response)
        requires
            !self.is_committed(),
        ensures
            r.is_committed(),
            r.body() == contents@,
            r.status() == self.status(),
    {
        Response { status: self.status, body: contents, committed: true }
    }

    pub fn status_code(&self) -> (s: u16)
        ensures
            s == self.status(),
    {
        self.status
    }

    pub fn body_bytes(&self) -> (b: &Vec<u8>)
        ensures
            b@ == self.body(),
    {
        &self.body
    }

    pub fn committed(&self) -> (c: bool)
        ensures
            c == self.is_committed(),
    {
        self.committed
    }
}

} // verus!
