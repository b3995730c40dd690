//! Core runtime of a community chat server: credential and token
//! authentication, an in-memory relational store of users, communities,
//! rooms, messages and invite codes, per-community event fanout with
//! origin-device deduplication, a per-device session registry, a keyed
//! rate limiter, and the framed transport codec.

use vstd::prelude::*;

pub mod auth;
pub mod codec;
pub mod community;
pub mod federation;
pub mod handler;
pub mod laws;
pub mod proto;
pub mod ratelimit;
pub mod session;
pub mod store;
pub mod token_store;
pub mod wrappers;

verus! {

/// Identifier of a registered user (an opaque 128-bit value).
#[derive(Clone, Copy, PartialEq, Eq, Structural, Debug, Hash)]
pub struct UserId(pub u128);

/// Identifier of one authenticated client installation. Tokens, sessions
/// and rate limiting are all keyed by device.
#[derive(Clone, Copy, PartialEq, Eq, Structural, Debug, Hash)]
pub struct DeviceId(pub u128);

/// Identifier of a community (a named collection of rooms and members).
#[derive(Clone, Copy, PartialEq, Eq, Structural, Debug, Hash)]
pub struct CommunityId(pub u128);

/// Identifier of a room within a community.
#[derive(Clone, Copy, PartialEq, Eq, Structural, Debug, Hash)]
pub struct RoomId(pub u128);

/// Identifier of a persisted message. Ids are assigned from a counter
/// when the message is persisted, so within one store they are ordered
/// exactly as the messages were handled.
#[derive(Clone, Copy, PartialEq, Eq, Structural, Debug, Hash)]
pub struct MessageId(pub u64);

/// Version counter of a user's profile; it increases by exactly one on
/// every change to the username or display name, so clients may cache a
/// profile by `(user, version)`. The counter wraps at the type bound,
/// so strict monotonicity holds for the first `u32::MAX` changes.
#[derive(Clone, Copy, PartialEq, Eq, Structural, Debug, Hash)]
pub struct ProfileVersion(pub u32);

/// The opaque login token handed to a client when a device is registered.
/// Only a digest of it is stored server-side.
#[derive(Clone, Copy, PartialEq, Eq, Structural, Debug)]
pub struct AuthToken(pub u128);

/// A short URL-safe invite code resolving to a community.
#[derive(Clone, PartialEq, Eq, Debug)]
pub struct InviteCode(pub Vec<u8>);

/// Permission to send and edit messages.
pub const PERM_SEND_MESSAGES: u64 = 1u64 << 0;
/// Permission to change the account's username.
pub const PERM_CHANGE_USERNAME: u64 = 1u64 << 1;
/// Permission to change the account's display name.
pub const PERM_CHANGE_DISPLAY_NAME: u64 = 1u64 << 2;
/// Permission to create new communities.
pub const PERM_CREATE_COMMUNITIES: u64 = 1u64 << 3;
/// Permission to join communities by invite code.
pub const PERM_JOIN_COMMUNITIES: u64 = 1u64 << 4;
/// Permission to create rooms in joined communities.
pub const PERM_CREATE_ROOMS: u64 = 1u64 << 5;
/// Permission to create invite codes for joined communities.
pub const PERM_CREATE_INVITES: u64 = 1u64 << 6;
/// All token permissions at once.
pub const PERM_ALL: u64 = 0x7fu64;

/// The permission bitset carried by a login token. Every request made on
/// the session bound to the token is pre-checked against these bits.
#[derive(Clone, Copy, PartialEq, Eq, Structural, Debug)]
pub struct TokenPermissionFlags(pub u64);

impl TokenPermissionFlags {
    /// True when every bit of `flags` is set in `self`.
    pub open spec fn spec_has_perms(self, flags: u64) -> bool {
        self.0 & flags == flags
    }

    /// Checks that every bit of `flags` is set in `self`.
    pub fn has_perms(self, flags: u64) -> (r: bool)
        ensures
            r == self.spec_has_perms(flags),
    {
        self.0 & flags == flags
    }
}

/// All administrator permissions; meant for the server owner.
pub const ADMIN_PERM_ALL: i64 = 1;
/// Permission to ban users.
pub const ADMIN_PERM_BAN: i64 = 1i64 << 1;

/// The permission bitset of a server administrator.
#[derive(Clone, Copy, PartialEq, Eq, Structural, Debug)]
pub struct AdminPermissionFlags(pub i64);

impl AdminPermissionFlags {
    /// True when every bit of `flags` is set in `self`.
    pub open spec fn spec_has_perms(self, flags: i64) -> bool {
        self.0 & flags == flags
    }

    /// Checks that every bit of `flags` is set in `self`.
    pub fn has_perms(self, flags: i64) -> (r: bool)
        ensures
            r == self.spec_has_perms(flags),
    {
        self.0 & flags == flags
    }
}

/// How many requests one device may issue within a single one-minute
/// rate-limit window.
pub const RATELIMIT_BURST_PER_MIN: u32 = 30;

/// Length of one rate-limit window, in seconds.
pub const RATELIMIT_WINDOW_SECS: u64 = 60;

/// Base heartbeat interval of a session, in seconds. A session missing
/// pings for twice this long is closed.
pub const HEARTBEAT_INTERVAL_SECS: u64 = 2;

/// Seconds in one day; used when a token-expiry window given in days is
/// compared against timestamps in seconds.
pub const SECONDS_PER_DAY: u64 = 86400;

/// Longest accepted username, in bytes, after normalization.
pub const MAX_USERNAME_LENGTH: usize = 64;

/// Shortest accepted username, in bytes, after normalization.
pub const MIN_USERNAME_LENGTH: usize = 1;

/// Shortest accepted password, in bytes.
pub const MIN_PASSWORD_LENGTH: usize = 1;

/// Longest accepted invite code, in bytes.
pub const MAX_INVITE_CODE_LENGTH: usize = 11;

} // verus!
