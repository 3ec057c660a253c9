//! The handle that serves the total-power query to clients.

use vstd::prelude::*;
use std::marker::PhantomData;
use std::sync::Arc;

verus! {

/// A query handle over a client of the chain.
pub struct Kp<C, M> {
    client: Arc<C>,
    _marker: PhantomData<M>,
}

impl<C, M> Kp<C, M> {
    /// The client that the handle queries.
    pub closed spec fn client_spec(&self) -> Arc<C> {
        self.client
    }

    /// A handle over the given client.
    pub fn new(client: Arc<C>) -> (r: Self)
        ensures
            r.client_spec() == client,
    {
        Kp { client, _marker: PhantomData }
    }

    /// The client that the handle queries.
    pub fn client(&self) -> (r: &Arc<C>)
        ensures
            *r == self.client_spec(),
    {
        &self.client
    }
}

/// Why a query failed.
#[derive(Clone, Copy, Debug, PartialEq, Eq, Structural)]
pub enum Error {
    /// The transaction was not decodable.
    DecodeError,
    /// The call to the runtime failed.
    RuntimeError,
}

/// The numeric code of a query error.
pub open spec fn error_code(e: Error) -> i32 {
    match e {
        Error::RuntimeError => 1,
        Error::DecodeError => 2,
    }
}

impl From<Error> for i32 {
    fn from(e: Error) -> (r: i32) {
        match e {
            Error::RuntimeError => 1,
            Error::DecodeError => 2,
        }
    }
}

impl vstd::std_specs::convert::FromSpecImpl<Error> for i32 {
    open spec fn obeys_from_spec() -> bool {
        true
    }

    open spec fn from_spec(e: Error) -> i32 {
        error_code(e)
    }
}

} // verus!
