use vstd::prelude::*;

verus! {

/// The three fatal conditions of a node: a bad identity store, a peer-to-peer
/// layer that could not be built or prepared, and a dispatcher that met an
/// event it must never see.
#[derive(Debug, PartialEq, Eq)]
pub enum Error {
    BadBookkeeper(String),
    P2pSwarmError(String),
    P2pDispatcherError(String),
}

impl Error {
    /// The detail carried by the error, whatever its kind.
    pub fn detail(&self) -> (r: &String)
        ensures
            r == match self {
                Error::BadBookkeeper(m) => m,
                Error::P2pSwarmError(m) => m,
                Error::P2pDispatcherError(m) => m,
            },
    {
        match self {
            Error::BadBookkeeper(m) => m,
            Error::P2pSwarmError(m) => m,
            Error::P2pDispatcherError(m) => m,
        }
    }
}

} // verus!
