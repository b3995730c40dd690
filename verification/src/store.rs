//! The persistent state of the server, modeled as one owned value: users,
//! login tokens, administrators, communities, memberships, rooms,
//! messages, per-user room-read state, and invite codes. Every operation
//! keeps the store's well-formedness: unique keys everywhere, message ids
//! strictly increasing in the order the messages were handled, and
//! last-read markers that always point at a message of their room.

use vstd::prelude::*;
use crate::auth::HashSchemeVersion;
use crate::{AdminPermissionFlags, CommunityId, DeviceId, MessageId, ProfileVersion, RoomId, TokenPermissionFlags, UserId};

pub mod communities;
pub mod invites;
pub mod messages;
pub mod tokens;
pub mod users;

verus! {

/// A registered user, as stored. The username holds the normalized
/// (trimmed, case-folded) bytes the account is unique under.
pub struct UserRecord {
    pub id: UserId,
    pub username: Vec<u8>,
    pub display_name: String,
    pub profile_version: ProfileVersion,
    pub password_hash: u64,
    pub hash_scheme_version: HashSchemeVersion,
    pub compromised: bool,
    pub locked: bool,
    pub banned: bool,
}

impl UserRecord {
    /// A fresh record for a new account: version zero, no flags set, and
    /// a randomly drawn id.
    pub fn new(
        username: Vec<u8>,
        display_name: String,
        password_hash: u64,
        hash_scheme_version: HashSchemeVersion,
    ) -> (r: UserRecord)
        ensures
            r.username == username,
            r.display_name == display_name,
            r.password_hash == password_hash,
            r.hash_scheme_version == hash_scheme_version,
            r.profile_version == (ProfileVersion(0)),
            !r.compromised,
            !r.locked,
            !r.banned,
    {
        UserRecord {
            id: UserId(crate::wrappers::fresh_id_bits()),
            username,
            display_name,
            profile_version: ProfileVersion(0),
            password_hash,
            hash_scheme_version,
            compromised: false,
            locked: false,
            banned: false,
        }
    }
}

/// A login token, keyed by the device it was issued to. Only the digest
/// of the token value is stored.
pub struct Token {
    pub token_hash: u64,
    pub hash_scheme_version: HashSchemeVersion,
    pub user: UserId,
    pub device: DeviceId,
    pub device_name: Option<String>,
    pub last_used: u64,
    pub expiration_date: Option<u64>,
    pub permission_flags: TokenPermissionFlags,
}

/// An administrator entry.
#[derive(Clone, Copy, PartialEq, Eq, Structural, Debug)]
pub struct AdminRecord {
    pub user: UserId,
    pub permission_flags: AdminPermissionFlags,
}

/// A community's stored metadata.
pub struct CommunityRecord {
    pub id: CommunityId,
    pub name: String,
    pub description: Option<String>,
}

/// A membership row: `user` belongs to `community`.
#[derive(Clone, Copy, PartialEq, Eq, Structural, Debug)]
pub struct Membership {
    pub community: CommunityId,
    pub user: UserId,
}

/// A room's stored metadata.
pub struct RoomRecord {
    pub id: RoomId,
    pub community: CommunityId,
    pub name: String,
}

/// A persisted message.
pub struct MessageRecord {
    pub id: MessageId,
    pub community: CommunityId,
    pub room: RoomId,
    pub author: UserId,
    pub author_profile_version: ProfileVersion,
    pub sent_at: u64,
    pub content: String,
    pub edited: bool,
}

/// How eagerly a user wants to be notified about a room.
#[derive(Clone, Copy, PartialEq, Eq, Structural, Debug)]
pub enum WatchLevel {
    Watching,
    MentionsOnly,
    Ignore,
}

/// Per-user, per-room reading state.
#[derive(Clone, Copy, PartialEq, Eq, Structural, Debug)]
pub struct UserRoomState {
    pub user: UserId,
    pub room: RoomId,
    pub watch_level: WatchLevel,
    pub last_read: Option<MessageId>,
}

/// An invite code resolving to a community until its expiration date (in
/// seconds) has passed.
pub struct InviteRecord {
    pub code: Vec<u8>,
    pub community: CommunityId,
    pub expiration_date: Option<u64>,
}

/// Error of registration: the username (or the drawn id) is already
/// taken.
#[derive(Clone, Copy, PartialEq, Eq, Structural, Debug)]
pub struct UsernameConflict;

/// Error of a user mutation: no user has the given id.
#[derive(Clone, Copy, PartialEq, Eq, Structural, Debug)]
pub struct NonexistentUser;

/// Error of a username change.
#[derive(Clone, Copy, PartialEq, Eq, Structural, Debug)]
pub enum ChangeUsernameError {
    NonexistentUser,
    UsernameConflict,
}

/// Error of promoting a user to administrator.
#[derive(Clone, Copy, PartialEq, Eq, Structural, Debug)]
pub enum CreateAdminError {
    InvalidUser,
    AlreadyAdmin,
}

/// Error of updating an administrator's permissions: the user is no
/// administrator.
#[derive(Clone, Copy, PartialEq, Eq, Structural, Debug)]
pub struct InvalidUser;

/// Error of revoking a token: no token is bound to the device.
#[derive(Clone, Copy, PartialEq, Eq, Structural, Debug)]
pub struct NonexistentDevice;

/// Error of a history query: the selector's reference message is not in
/// the room.
#[derive(Clone, Copy, PartialEq, Eq, Structural, Debug)]
pub struct InvalidMessageSelector;

/// Error of a read-state update.
#[derive(Clone, Copy, PartialEq, Eq, Structural, Debug)]
pub enum SetUserRoomStateError {
    InvalidRoom,
    InvalidUser,
}

/// The whole stored state of one server.
pub struct Database {
    pub users: Vec<UserRecord>,
    pub tokens: Vec<Token>,
    pub admins: Vec<AdminRecord>,
    pub communities: Vec<CommunityRecord>,
    pub memberships: Vec<Membership>,
    pub rooms: Vec<RoomRecord>,
    pub messages: Vec<MessageRecord>,
    pub room_states: Vec<UserRoomState>,
    pub invite_codes: Vec<InviteRecord>,
    /// Devices whose token the expiry sweep removed. A reconnect on
    /// such a device reports the expiry rather than an unknown token;
    /// issuing a new token for a device shadows its entry here.
    pub expired_devices: Vec<DeviceId>,
    pub next_message_id: u64,
}

impl Database {
    /// An empty store.
    pub fn new() -> (r: Database)
        ensures
            r.wf(),
            r.users@.len() == 0,
            r.tokens@.len() == 0,
            r.admins@.len() == 0,
            r.communities@.len() == 0,
            r.memberships@.len() == 0,
            r.rooms@.len() == 0,
            r.messages@.len() == 0,
            r.room_states@.len() == 0,
            r.invite_codes@.len() == 0,
            r.expired_devices@.len() == 0,
            r.next_message_id == 1,
    {
        Database {
            users: Vec::new(),
            tokens: Vec::new(),
            admins: Vec::new(),
            communities: Vec::new(),
            memberships: Vec::new(),
            rooms: Vec::new(),
            messages: Vec::new(),
            room_states: Vec::new(),
            invite_codes: Vec::new(),
            expired_devices: Vec::new(),
            next_message_id: 1,
        }
    }

    /// There is a user with this id.
    pub open spec fn has_user(self, id: UserId) -> bool {
        exists|i: int| 0 <= i < self.users@.len() && (#[trigger] self.users@[i]).id == id
    }

    /// There is a user stored under this normalized username.
    pub open spec fn has_username(self, name: Seq<u8>) -> bool {
        exists|i: int| 0 <= i < self.users@.len() && (#[trigger] self.users@[i]).username@ == name
    }

    /// There is a token bound to this device.
    pub open spec fn has_device(self, device: DeviceId) -> bool {
        exists|i: int| 0 <= i < self.tokens@.len() && (#[trigger] self.tokens@[i]).device == device
    }

    /// The expiry sweep removed this device's token.
    pub open spec fn device_swept(self, device: DeviceId) -> bool {
        exists|i: int|
            0 <= i < self.expired_devices@.len() && #[trigger] self.expired_devices@[i] == device
    }

    /// There is a community with this id.
    pub open spec fn has_community(self, id: CommunityId) -> bool {
        exists|i: int|
            0 <= i < self.communities@.len() && (#[trigger] self.communities@[i]).id == id
    }

    /// There is a room with this id in this community.
    pub open spec fn has_room(self, community: CommunityId, room: RoomId) -> bool {
        exists|i: int|
            0 <= i < self.rooms@.len() && (#[trigger] self.rooms@[i]).id == room
                && self.rooms@[i].community == community
    }

    /// `user` is a member of `community`.
    pub open spec fn is_member(self, community: CommunityId, user: UserId) -> bool {
        exists|i: int|
            0 <= i < self.memberships@.len() && #[trigger] self.memberships@[i] == (Membership {
                community,
                user,
            })
    }

    /// There is a message with this id in this room.
    pub open spec fn room_has_message(self, room: RoomId, id: MessageId) -> bool {
        seq_room_has_message(self.messages@, room, id)
    }

    /// The messages of one room, oldest first, exactly as persisted.
    pub open spec fn room_messages(self, community: CommunityId, room: RoomId) -> Seq<
        MessageRecord,
    > {
        crate::store::messages::room_msgs_of(self.messages@, community, room)
    }

    /// Well-formedness of the store: all keys unique, message ids
    /// strictly increasing in handling order and below the counter, and
    /// every last-read marker pointing at a message of its room.
    pub open spec fn wf(self) -> bool {
        &&& users_distinct(self.users@)
        &&& tokens_distinct(self.tokens@)
        &&& admins_distinct(self.admins@)
        &&& communities_distinct(self.communities@)
        &&& rooms_distinct(self.rooms@)
        &&& memberships_distinct(self.memberships@)
        &&& room_states_distinct(self.room_states@)
        &&& invites_distinct(self.invite_codes@)
        &&& messages_ordered(self.messages@, self.next_message_id)
        &&& read_marks_valid(self.room_states@, self.messages@)
    }
}

/// No two users share an id or a username.
pub open spec fn users_distinct(s: Seq<UserRecord>) -> bool {
    forall|i: int, j: int|
        0 <= i < j < s.len() ==> (#[trigger] s[i]).id != (#[trigger] s[j]).id && s[i].username@
            != s[j].username@
}

/// No two tokens share a device.
pub open spec fn tokens_distinct(s: Seq<Token>) -> bool {
    forall|i: int, j: int|
        0 <= i < j < s.len() ==> (#[trigger] s[i]).device != (#[trigger] s[j]).device
}

/// No user appears twice in the administrator table.
pub open spec fn admins_distinct(s: Seq<AdminRecord>) -> bool {
    forall|i: int, j: int| 0 <= i < j < s.len() ==> (#[trigger] s[i]).user != (#[trigger] s[j]).user
}

/// No two communities share an id.
pub open spec fn communities_distinct(s: Seq<CommunityRecord>) -> bool {
    forall|i: int, j: int| 0 <= i < j < s.len() ==> (#[trigger] s[i]).id != (#[trigger] s[j]).id
}

/// No two rooms share an id.
pub open spec fn rooms_distinct(s: Seq<RoomRecord>) -> bool {
    forall|i: int, j: int| 0 <= i < j < s.len() ==> (#[trigger] s[i]).id != (#[trigger] s[j]).id
}

/// No membership row appears twice.
pub open spec fn memberships_distinct(s: Seq<Membership>) -> bool {
    forall|i: int, j: int| 0 <= i < j < s.len() ==> #[trigger] s[i] != #[trigger] s[j]
}

/// No `(user, room)` pair appears twice in the read-state table.
pub open spec fn room_states_distinct(s: Seq<UserRoomState>) -> bool {
    forall|i: int, j: int|
        0 <= i < j < s.len() ==> !((#[trigger] s[i]).user == (#[trigger] s[j]).user && s[i].room
            == s[j].room)
}

/// No two invite codes share their code bytes.
pub open spec fn invites_distinct(s: Seq<InviteRecord>) -> bool {
    forall|i: int, j: int|
        0 <= i < j < s.len() ==> (#[trigger] s[i]).code@ != (#[trigger] s[j]).code@
}

/// Message ids grow strictly with storage order and stay below the
/// counter the next id will be drawn from.
pub open spec fn messages_ordered(s: Seq<MessageRecord>, next: u64) -> bool {
    &&& forall|i: int, j: int|
        0 <= i < j < s.len() ==> (#[trigger] s[i]).id.0 < (#[trigger] s[j]).id.0
    &&& forall|i: int| 0 <= i < s.len() ==> (#[trigger] s[i]).id.0 < next
}

/// Some message of `msgs` has this id and lies in this room.
pub open spec fn seq_room_has_message(msgs: Seq<MessageRecord>, room: RoomId, id: MessageId) -> bool {
    exists|i: int| 0 <= i < msgs.len() && (#[trigger] msgs[i]).id == id && msgs[i].room == room
}

/// Every last-read marker points at a message of its room.
pub open spec fn read_marks_valid(states: Seq<UserRoomState>, msgs: Seq<MessageRecord>) -> bool {
    forall|i: int|
        0 <= i < states.len() ==> ((#[trigger] states[i]).last_read matches Some(m)
            ==> seq_room_has_message(msgs, states[i].room, m))
}

impl Database {
    /// Checks whether the expiry sweep removed this device's token.
    pub fn is_device_swept(&self, device: DeviceId) -> (r: bool)
        ensures
            r == self.device_swept(device),
    {
        let mut i: usize = 0;
        while i < self.expired_devices.len()
            invariant
                i <= self.expired_devices@.len(),
                forall|j: int| 0 <= j < i ==> #[trigger] self.expired_devices@[j] != device,
            decreases self.expired_devices@.len() - i,
        {
            if self.expired_devices[i] == device {
                return true;
            }
            i = i + 1;
        }
        false
    }
}

/// Equality of two byte vectors.
pub fn bytes_eq(a: &Vec<u8>, b: &Vec<u8>) -> (r: bool)
    ensures
        r == (a@ == b@),
{
    if a.len() != b.len() {
        proof {
            assert(a@ != b@);
        }
        return false;
    }
    let mut i: usize = 0;
    while i < a.len()
        invariant
            i <= a@.len(),
            a@.len() == b@.len(),
            forall|j: int| 0 <= j < i ==> a@[j] == b@[j],
        decreases a@.len() - i,
    {
        if a[i] != b[i] {
            proof {
                assert(a@[i as int] != b@[i as int]);
            }
            return false;
        }
        i = i + 1;
    }
    proof {
        assert(a@ =~= b@);
    }
    true
}

/// A fresh copy of a byte vector.
pub fn copy_bytes(v: &Vec<u8>) -> (r: Vec<u8>)
    ensures
        r@ == v@,
{
    let mut out: Vec<u8> = Vec::new();
    let mut i: usize = 0;
    while i < v.len()
        invariant
            i <= v@.len(),
            out@ =~= v@.take(i as int),
        decreases v@.len() - i,
    {
        out.push(v[i]);
        proof {
            assert(out@ =~= v@.take(i + 1 as int));
        }
        i = i + 1;
    }
    proof {
        assert(out@ =~= v@);
    }
    out
}

} // verus!
