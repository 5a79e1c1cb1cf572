use vstd::prelude::*;

verus! {

/// A service-level failure, carried to the caller as the response body text.
/// `RedisError` wraps the message of a failed key-value store operation;
/// `RawErr` wraps any other textual failure.
#[derive(Debug)]
pub enum Myerror {
    RedisError(String),
    RawErr(String),
}

impl Myerror {
    /// The message text carried by either variant.
    pub open spec fn text(&self) -> Seq<char> {
        match self {
            Myerror::RedisError(s) => s@,
            Myerror::RawErr(s) => s@,
        }
    }

    /// Wraps the message of a failed store operation.
    pub fn from_store_error(msg: String) -> (r: Myerror)
        ensures
            r matches Myerror::RedisError(s) && s@ == msg@,
    {
        Myerror::RedisError(msg)
    }

    /// Borrows the message text, for the response body.
    pub fn message(&self) -> (r: &String)
        ensures
            r@ == self.text(),
    {
        match self {
            Myerror::RedisError(s) => s,
            Myerror::RawErr(s) => s,
        }
    }
}

impl From<String> for Myerror {
    /// Any plain textual failure becomes a `RawErr`.
    fn from(err: String) -> (r: Myerror) {
        Myerror::RawErr(err)
    }
}

impl vstd::std_specs::convert::FromSpecImpl<String> for Myerror {
    open spec fn obeys_from_spec() -> bool {
        true
    }

    open spec fn from_spec(err: String) -> Myerror {
        Myerror::RawErr(err)
    }
}

} // verus!
