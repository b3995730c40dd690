//! The value types that cross the wire between client and server:
//! requests, responses, server-originated events, and the records they
//! carry.

use vstd::prelude::*;
use crate::{CommunityId, DeviceId, InviteCode, MessageId, ProfileVersion, RoomId, TokenPermissionFlags, UserId};

verus! {

/// Credentials presented at registration, token creation and password
/// change.
#[derive(Clone, PartialEq, Eq, Debug)]
pub struct UserCredentials {
    pub username: String,
    pub password: String,
}

/// Options of a token-creation request.
#[derive(Clone, PartialEq, Eq, Debug)]
pub struct TokenCreationOptions {
    pub device_name: Option<String>,
    pub expiration_date: Option<u64>,
    pub permission_flags: TokenPermissionFlags,
}

/// A user profile as served to clients; cached client-side by
/// `(user, version)`.
#[derive(Clone, PartialEq, Eq, Debug)]
pub struct Profile {
    pub version: ProfileVersion,
    pub username: Vec<u8>,
    pub display_name: String,
}

/// A message a client asks to have delivered to a room.
#[derive(Clone, PartialEq, Eq, Debug)]
pub struct ClientSentMessage {
    pub to_community: CommunityId,
    pub to_room: RoomId,
    pub content: String,
}

/// An edit of a previously delivered message.
#[derive(Clone, PartialEq, Eq, Debug)]
pub struct Edit {
    pub community: CommunityId,
    pub room: RoomId,
    pub message: MessageId,
    pub new_content: String,
}

/// An inclusive or exclusive reference bound of a message selector.
#[derive(Clone, Copy, PartialEq, Eq, Structural, Debug)]
pub enum Bound {
    Inclusive(MessageId),
    Exclusive(MessageId),
}

impl Bound {
    /// The message id the bound refers to.
    pub open spec fn spec_message(self) -> MessageId {
        match self {
            Bound::Inclusive(id) => id,
            Bound::Exclusive(id) => id,
        }
    }

    /// Returns the message id the bound refers to.
    pub fn message(self) -> (r: MessageId)
        ensures
            r == self.spec_message(),
    {
        match self {
            Bound::Inclusive(id) => id,
            Bound::Exclusive(id) => id,
        }
    }
}

/// Which slice of a room's history a client asks for.
#[derive(Clone, Copy, PartialEq, Eq, Structural, Debug)]
pub enum MessageSelector {
    Before(Bound),
    After(Bound),
    Around(MessageId),
}

/// A persisted message as served to clients.
#[derive(Clone, PartialEq, Eq, Debug)]
pub struct Message {
    pub id: MessageId,
    pub author: UserId,
    pub author_profile_version: ProfileVersion,
    pub sent: u64,
    pub content: String,
}

/// A batch of messages, newest first.
#[derive(Clone, PartialEq, Eq, Debug)]
pub struct MessageHistory {
    pub messages: Vec<Message>,
}

/// What the sender of a message gets back once the message is persisted.
#[derive(Clone, Copy, PartialEq, Eq, Structural, Debug)]
pub struct MessageConfirmation {
    pub id: MessageId,
    pub time: u64,
}

/// The answer to a room-update request: the reader's last-read marker,
/// the newest messages, and whether that batch connects without a gap to
/// what the client already holds.
#[derive(Clone, PartialEq, Eq, Debug)]
pub struct RoomUpdate {
    pub last_read: Option<MessageId>,
    pub continuous: bool,
    pub new_messages: MessageHistory,
}

/// A room as described to clients.
#[derive(Clone, PartialEq, Eq, Debug)]
pub struct RoomStructure {
    pub id: RoomId,
    pub name: String,
    pub unread: bool,
}

/// A community as described to clients: metadata plus its room list.
#[derive(Clone, PartialEq, Eq, Debug)]
pub struct CommunityStructure {
    pub id: CommunityId,
    pub name: String,
    pub description: Option<String>,
    pub rooms: Vec<RoomStructure>,
}

/// The snapshot a freshly authenticated session receives before any
/// other event.
#[derive(Clone, PartialEq, Eq, Debug)]
pub struct ClientReady {
    pub user: UserId,
    pub profile: Profile,
    pub communities: Vec<CommunityStructure>,
}

/// A request issued by a client over its session, identified on the wire
/// by a request id chosen by the client.
#[derive(Clone, PartialEq, Eq, Debug)]
pub enum ClientRequest {
    SendMessage(ClientSentMessage),
    EditMessage(Edit),
    JoinCommunity(InviteCode),
    CreateCommunity { name: String },
    LogOut,
    GetUserProfile(UserId),
    ChangeUsername { new_username: String },
    ChangeDisplayName { new_display_name: String },
    ChangePassword { old_password: String, new_password: String },
    CreateRoom { name: String, community: CommunityId },
    CreateInvite { community: CommunityId, expiration_date: Option<u64> },
    GetRoomUpdate {
        community: CommunityId,
        room: RoomId,
        last_received: Option<MessageId>,
        message_count: usize,
    },
    SelectRoom { community: CommunityId, room: RoomId },
    DeselectRoom,
    GetMessages {
        community: CommunityId,
        room: RoomId,
        selector: MessageSelector,
        count: usize,
    },
    SetAsRead { community: CommunityId, room: RoomId },
}

/// The successful result of a request.
#[derive(Clone, PartialEq, Eq, Debug)]
pub enum OkResponse {
    NoData,
    ConfirmMessage(MessageConfirmation),
    Profile(Profile),
    AddCommunity(CommunityStructure),
    AddRoom { community: CommunityId, room: RoomStructure },
    NewInvite(InviteCode),
    RoomUpdate(RoomUpdate),
    MessageHistory(MessageHistory),
}

/// The failed result of a request.
#[derive(Clone, Copy, PartialEq, Eq, Structural, Debug)]
pub enum ErrResponse {
    Internal,
    InvalidMessage,
    InvalidCommunity,
    InvalidRoom,
    InvalidUser,
    InvalidMessageSelector,
    InvalidInviteCode,
    TooManyInviteCodes,
    AccessDenied,
    RateLimited,
    AlreadyInCommunity,
    UsernameAlreadyExists,
    IncorrectUsernameOrPassword,
    InvalidUsername,
    InvalidDisplayName,
    InvalidPassword,
    UserDeleted,
    UserLocked,
    UserBanned,
    UserCompromised,
    DeviceDoesNotExist,
}

/// The result a session hands back for one request.
pub type ResponseResult = Result<OkResponse, ErrResponse>;

/// An error of the credential endpoints.
#[derive(Clone, Copy, PartialEq, Eq, Structural, Debug)]
pub enum AuthError {
    Internal,
    WrongEndpoint,
    IncorrectCredentials,
    InvalidToken,
    TokenExpired,
    TokenInUse,
    UserLocked,
    UserBanned,
    UserCompromised,
    UserDeleted,
    UsernameAlreadyExists,
    InvalidUsername,
    InvalidDisplayName,
    InvalidPassword,
    DidNotUpgrade,
}

/// An event the server originates towards a session, outside any
/// request/response pair.
#[derive(Clone, PartialEq, Eq, Debug)]
pub enum ServerEvent {
    ClientReady(ClientReady),
    AddMessage {
        community: CommunityId,
        room: RoomId,
        author: UserId,
        message: Message,
    },
    MessageEdited(Edit),
    AddCommunity(CommunityStructure),
    AddRoom { community: CommunityId, room: RoomStructure },
    SessionLoggedOut,
}

/// A delivery of one event to one device's session mailbox, as produced
/// by a community fanout.
#[derive(Clone, PartialEq, Eq, Debug)]
pub struct Delivery {
    pub user: UserId,
    pub device: DeviceId,
    pub event: ServerEvent,
}

} // verus!
