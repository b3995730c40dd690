//! The client-side credential cache: the one stored `(device, token)`
//! pair a client installation keeps between runs.

use vstd::prelude::*;
use crate::{AuthToken, DeviceId};

verus! {

/// The parameters a client needs to reconnect: the device it was
/// registered as and the token issued to it.
#[derive(Clone, Copy, PartialEq, Eq, Structural, Debug)]
pub struct AuthParameters {
    pub device: DeviceId,
    pub token: AuthToken,
}

/// The client's credential cache; it holds at most one stored login.
pub struct TokenStore {
    pub stored: Option<AuthParameters>,
}

impl TokenStore {
    /// An empty cache.
    pub fn new() -> (r: TokenStore)
        ensures
            r.stored is None,
    {
        TokenStore { stored: None }
    }
}

/// Stores login parameters, replacing whatever was cached.
pub fn store_token(store: &mut TokenStore, parameters: AuthParameters)
    ensures
        final(store).stored == Some(parameters),
{
    store.stored = Some(parameters);
}

/// The cached login parameters, if any.
pub fn get_stored_token(store: &TokenStore) -> (r: Option<AuthParameters>)
    ensures
        r == store.stored,
{
    store.stored
}

/// Forgets the cached login; forgetting an empty cache is a no-op.
pub fn forget_token(store: &mut TokenStore)
    ensures
        final(store).stored is None,
{
    store.stored = None;
}

} // verus!
