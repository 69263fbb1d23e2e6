//! The remote procedure interface of the oracle: its handle on the client
//! and its error codes.

use std::marker::PhantomData;
use std::sync::Arc;
use vstd::prelude::*;
use vstd::std_specs::convert::FromSpecImpl;

verus! {

/// The handle through which the remote procedures reach the chain client.
pub struct DiaOracleRpc<C, P> {
    client: Arc<C>,
    _marker: PhantomData<P>,
}

impl<C, P> DiaOracleRpc<C, P> {
    /// The client that the handle was made with.
    pub closed spec fn client_of(&self) -> Arc<C> {
        self.client
    }

    /// Makes the handle for the given client.
    pub fn new(client: Arc<C>) -> (rpc: Self)
        ensures
            rpc.client_of() == client,
    {
        DiaOracleRpc { client, _marker: PhantomData }
    }

    /// The client that the handle reaches.
    pub fn client(&self) -> (client: &Arc<C>)
        ensures
            *client == self.client_of(),
    {
        &self.client
    }
}

/// Why a remote procedure failed.
#[derive(Debug, Clone, Copy, PartialEq, Eq, Structural)]
pub enum Error {
    /// The request could not be decoded.
    DecodeError,
    /// The call into the runtime failed.
    RuntimeError,
}

/// The code under which an error is reported to the caller.
pub open spec fn error_code(e: Error) -> i32 {
    match e {
        Error::RuntimeError => 1,
        Error::DecodeError => 2,
    }
}

impl From<Error> for i32 {
    fn from(e: Error) -> (code: i32) {
        match e {
            Error::RuntimeError => 1,
            Error::DecodeError => 2,
        }
    }
}

impl FromSpecImpl<Error> for i32 {
    open spec fn obeys_from_spec() -> bool {
        true
    }

    open spec fn from_spec(e: Error) -> i32 {
        error_code(e)
    }
}

} // verus!
