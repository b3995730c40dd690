//! The federation stub: the value types two servers would exchange.
//! Only the shapes are fixed here; no federation logic runs in this
//! core.

use vstd::prelude::*;

verus! {

/// A message from a peer client or server.
pub enum ClientMessage {
    PublishInitKey(PublishInitKey),
    RequestInitKey(RequestInitKey),
    Federate(Federate),
}

/// A request to federate with the server at a URL.
#[derive(Clone, PartialEq, Eq, Debug)]
pub struct Federate {
    pub url: String,
}

/// Publication of an initial key under an id.
pub struct PublishInitKey {
    pub id: u128,
    pub key: InitKey,
}

/// A lookup of a previously published initial key.
#[derive(Clone, Copy, PartialEq, Eq, Structural, Debug)]
pub struct RequestInitKey {
    pub id: u128,
}

/// The answer of the federation endpoint.
pub enum ServerMessage {
    Success,
    Error(Error),
}

/// An error of the federation endpoint.
#[derive(Clone, Copy, PartialEq, Eq, Structural, Debug)]
pub enum Error {
    InvalidMessage,
    InvalidInitKey,
    UnexpectedTextFrame,
}

/// An initial key blob.
pub struct InitKey {
    pub bin: Vec<u8>,
}

impl InitKey {
    /// Wraps raw bytes as a key. Every byte string is accepted here;
    /// validation belongs to the peers exchanging the key.
    pub fn try_from(bin: Vec<u8>) -> (r: InitKey)
        ensures
            r.bin@ == bin@,
    {
        InitKey { bin }
    }

    /// The key's bytes.
    pub fn bytes(&self) -> (r: Vec<u8>)
        ensures
            r@ == self.bin@,
    {
        crate::store::copy_bytes(&self.bin)
    }
}

} // verus!
