use vstd::prelude::*;

verus! {

/// The two ways a request can fail.
#[derive(Debug)]
pub enum RequestError {
    /// The method text is not an HTTP method token; nothing was sent.
    InvalidMethod(String),
    /// The transport failed while connecting, sending or receiving.
    Transport(String),
}

impl RequestError {
    /// The diagnostic text carried by the error.
    pub open spec fn text(&self) -> Seq<char> {
        match self {
            RequestError::InvalidMethod(m) => m@,
            RequestError::Transport(m) => m@,
        }
    }

    /// The error as the text handed back to the caller.
    pub fn message(&self) -> (r: String)
        ensures
            r@ == self.text(),
    {
        match self {
            RequestError::InvalidMethod(m) => m.clone(),
            RequestError::Transport(m) => m.clone(),
        }
    }
}

} // verus!
