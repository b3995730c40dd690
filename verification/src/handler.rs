//! The server runtime: credential endpoints (registration, token
//! issuance, authentication, revocation, password change), session
//! establishment with per-device eviction, the background sweeps, and
//! the per-request dispatcher every live session feeds into.

use vstd::prelude::*;
use crate::auth::{hash_password, hash_token, password_digest, prepare_username, prepared_username, spec_valid_display_name, spec_valid_password, token_digest, valid_display_name, valid_password, valid_normalized_username, HashSchemeVersion, LATEST_HASH_SCHEME};
use crate::community::{fanout_of, CommunityActor, OnlineDevice};
use crate::proto::{ClientReady, ClientRequest, ClientSentMessage, ErrResponse, OkResponse, ResponseResult, RoomStructure, ServerEvent, TokenCreationOptions, UserCredentials, AuthError};
use crate::ratelimit::RateLimiter;
use crate::session::SessionManager;
use crate::store::communities::{member_communities, rooms_in};
use crate::store::tokens::{refreshed_token, token_expired};
use crate::store::{Database, RoomRecord, Token, UserRecord};
use crate::wrappers;
use crate::{AuthToken, CommunityId, DeviceId, InviteCode, MessageId, RoomId, TokenPermissionFlags, UserId, PERM_CHANGE_DISPLAY_NAME, PERM_CHANGE_USERNAME, PERM_CREATE_COMMUNITIES, PERM_CREATE_INVITES, PERM_CREATE_ROOMS, PERM_JOIN_COMMUNITIES, PERM_SEND_MESSAGES};

verus! {

broadcast use vstd::seq_lib::group_filter_ensures;

/// The runtime configuration of a server.
pub struct ServerConfig {
    pub token_expiry_days: u16,
    pub max_invite_codes_per_community: usize,
}

/// The identity a live session acts under; every inbound request of the
/// session is dispatched through it.
#[derive(Clone, Copy, PartialEq, Eq, Structural, Debug)]
pub struct RequestHandler {
    pub user: UserId,
    pub device: DeviceId,
    pub perms: TokenPermissionFlags,
}

/// The whole server: the store, the community actors, the session
/// registry, the rate limiter and the configuration.
pub struct ServerState {
    pub db: Database,
    pub communities: Vec<CommunityActor>,
    pub sessions: SessionManager,
    pub limiter: RateLimiter,
    pub config: ServerConfig,
}

/// A user record matches presented credentials when it is stored under
/// the normalized username and the password digests to the stored value
/// under the record's scheme.
pub open spec fn matches_credentials(u: UserRecord, username: Seq<char>, password: Seq<char>) -> bool {
    &&& u.username@ == prepared_username(username)
    &&& u.password_hash == password_digest(password, u.hash_scheme_version)
}

/// The token permissions a request demands before it is handled.
pub open spec fn spec_required_perms(request: ClientRequest) -> u64 {
    match request {
        ClientRequest::SendMessage(_) => PERM_SEND_MESSAGES,
        ClientRequest::EditMessage(_) => PERM_SEND_MESSAGES,
        ClientRequest::JoinCommunity(_) => PERM_JOIN_COMMUNITIES,
        ClientRequest::CreateCommunity { .. } => PERM_CREATE_COMMUNITIES,
        ClientRequest::CreateRoom { .. } => PERM_CREATE_ROOMS,
        ClientRequest::CreateInvite { .. } => PERM_CREATE_INVITES,
        ClientRequest::ChangeUsername { .. } => PERM_CHANGE_USERNAME,
        ClientRequest::ChangeDisplayName { .. } => PERM_CHANGE_DISPLAY_NAME,
        _ => 0,
    }
}

/// Returns the token permissions a request demands.
pub fn required_perms(request: &ClientRequest) -> (r: u64)
    ensures
        r == spec_required_perms(*request),
{
    match request {
        ClientRequest::SendMessage(_) => PERM_SEND_MESSAGES,
        ClientRequest::EditMessage(_) => PERM_SEND_MESSAGES,
        ClientRequest::JoinCommunity(_) => PERM_JOIN_COMMUNITIES,
        ClientRequest::CreateCommunity { .. } => PERM_CREATE_COMMUNITIES,
        ClientRequest::CreateRoom { .. } => PERM_CREATE_ROOMS,
        ClientRequest::CreateInvite { .. } => PERM_CREATE_INVITES,
        ClientRequest::ChangeUsername { .. } => PERM_CHANGE_USERNAME,
        ClientRequest::ChangeDisplayName { .. } => PERM_CHANGE_DISPLAY_NAME,
        _ => 0,
    }
}

impl ServerState {
    /// Well-formedness of the whole server.
    pub open spec fn wf(self) -> bool {
        &&& self.db.wf()
        &&& self.sessions.wf()
        &&& self.limiter.wf()
        &&& forall|i: int| 0 <= i < self.communities@.len() ==> (#[trigger] self.communities@[i]).wf()
        &&& forall|i: int, j: int|
            0 <= i < j < self.communities@.len() ==> (#[trigger] self.communities@[i]).community
                != (#[trigger] self.communities@[j]).community
    }

    /// A fresh server with an empty store.
    pub fn new(config: ServerConfig) -> (r: ServerState)
        ensures
            r.wf(),
            r.db.users@.len() == 0,
            r.db.tokens@.len() == 0,
            r.db.communities@.len() == 0,
            r.db.messages@.len() == 0,
            r.db.expired_devices@.len() == 0,
            r.db.next_message_id == 1,
            r.sessions.sessions@.len() == 0,
            r.config == config,
    {
        ServerState {
            db: Database::new(),
            communities: Vec::new(),
            sessions: SessionManager::new(),
            limiter: RateLimiter::new(),
            config,
        }
    }

    /// Index of the actor of this community, if any.
    pub(crate) fn find_actor(&self, community: CommunityId) -> (r: Option<usize>)
        ensures
            r matches Some(i) ==> i < self.communities@.len()
                && self.communities@[i as int].community == community,
            r is None ==> forall|j: int|
                0 <= j < self.communities@.len() ==> (#[trigger] self.communities@[j]).community
                    != community,
    {
        let mut i: usize = 0;
        while i < self.communities.len()
            invariant
                i <= self.communities@.len(),
                forall|j: int|
                    0 <= j < i ==> (#[trigger] self.communities@[j]).community != community,
            decreases self.communities@.len() - i,
        {
            if self.communities[i].community == community {
                return Some(i);
            }
            i = i + 1;
        }
        None
    }

    /// Registers a new account: validates the username and password,
    /// digests the password under the latest scheme, and stores the
    /// record. The display name defaults to the raw username.
    #[verifier::rlimit(30)]
    pub fn register(&mut self, credentials: UserCredentials, display_name: Option<String>) -> (r:
        Result<UserId, AuthError>)
        requires
            old(self).wf(),
        ensures
            final(self).wf(),
            final(self).communities == old(self).communities,
            final(self).sessions == old(self).sessions,
            final(self).limiter == old(self).limiter,
            final(self).config == old(self).config,
            r == Err::<UserId, AuthError>(AuthError::InvalidUsername) <==> !valid_normalized_username(
                prepared_username(credentials.username@),
            ),
            r == Err::<UserId, AuthError>(AuthError::InvalidPassword) <==> (
            valid_normalized_username(prepared_username(credentials.username@))
                && !spec_valid_password(credentials.password@)),
            r == Err::<UserId, AuthError>(AuthError::InvalidDisplayName) <==> (
            valid_normalized_username(prepared_username(credentials.username@))
                && spec_valid_password(credentials.password@) && (display_name matches Some(d)
                && !spec_valid_display_name(d@))),
            valid_normalized_username(prepared_username(credentials.username@))
                && spec_valid_password(credentials.password@) && (display_name matches Some(d)
                ==> spec_valid_display_name(d@)) && old(self).db.has_username(
                prepared_username(credentials.username@),
            ) ==> r == Err::<UserId, AuthError>(AuthError::UsernameAlreadyExists),
            r is Ok ==> crate::store::users::only_users_changed(old(self).db, final(self).db),
            r matches Ok(id) ==> {
                &&& valid_normalized_username(prepared_username(credentials.username@))
                &&& spec_valid_password(credentials.password@)
                &&& !old(self).db.has_username(prepared_username(credentials.username@))
                &&& final(self).db.users@.len() == old(self).db.users@.len() + 1
                &&& final(self).db.users@.drop_last() == old(self).db.users@
                &&& {
                    let u = final(self).db.users@.last();
                    &&& u.id == id
                    &&& u.username@ == prepared_username(credentials.username@)
                    &&& u.password_hash == password_digest(
                        credentials.password@,
                        LATEST_HASH_SCHEME,
                    )
                    &&& u.hash_scheme_version == LATEST_HASH_SCHEME
                    &&& u.profile_version.0 == 0
                    &&& !u.compromised
                    &&& !u.locked
                    &&& !u.banned
                    &&& (display_name matches Some(d) ==> u.display_name == d)
                    &&& (display_name is None ==> u.display_name@ == credentials.username@)
                }
            },
            r is Err ==> *final(self) == *old(self),
            r is Err ==> (r == Err::<UserId, AuthError>(AuthError::InvalidUsername) || r == Err::<
                UserId,
                AuthError,
            >(AuthError::InvalidPassword) || r == Err::<UserId, AuthError>(
                AuthError::InvalidDisplayName,
            ) || r == Err::<UserId, AuthError>(AuthError::UsernameAlreadyExists)),
    {
        let name_bytes = match prepare_username(credentials.username.as_str()) {
            Ok(b) => b,
            Err(_) => {
                return Err(AuthError::InvalidUsername);
            },
        };
        if !valid_password(credentials.password.as_str()) {
            return Err(AuthError::InvalidPassword);
        }
        let display = match display_name {
            Some(d) => {
                if !valid_display_name(d.as_str()) {
                    return Err(AuthError::InvalidDisplayName);
                }
                d
            },
            None => credentials.username.clone(),
        };
        let digest = hash_password(credentials.password.as_str(), LATEST_HASH_SCHEME);
        let user = UserRecord::new(name_bytes, display, digest, LATEST_HASH_SCHEME);
        let id = user.id;
        match self.db.create_user(user) {
            Ok(()) => Ok(id),
            Err(_) => Err(AuthError::UsernameAlreadyExists),
        }
    }

    /// Issues a login token: verifies the credentials, draws a fresh
    /// device id and token, and stores the token's digest. Credentials
    /// that verify against an account that is neither locked, banned
    /// nor compromised always succeed.
    #[verifier::rlimit(60)]
    pub fn create_token(
        &mut self,
        credentials: UserCredentials,
        options: TokenCreationOptions,
        now: u64,
    ) -> (r: Result<(DeviceId, AuthToken), AuthError>)
        requires
            old(self).wf(),
        ensures
            final(self).wf(),
            final(self).communities == old(self).communities,
            final(self).sessions == old(self).sessions,
            final(self).limiter == old(self).limiter,
            final(self).config == old(self).config,
            (!exists|i: int|
                0 <= i < old(self).db.users@.len() && (#[trigger] old(self).db.users@[i]).username@
                    == prepared_username(credentials.username@)) ==> r == Err::<
                (DeviceId, AuthToken),
                AuthError,
            >(AuthError::IncorrectCredentials),
            (exists|i: int|
                0 <= i < old(self).db.users@.len() && (#[trigger] old(self).db.users@[i]).username@
                    == prepared_username(credentials.username@) && old(
                    self,
                ).db.users@[i].password_hash != password_digest(
                    credentials.password@,
                    old(self).db.users@[i].hash_scheme_version,
                )) ==> r == Err::<(DeviceId, AuthToken), AuthError>(AuthError::IncorrectCredentials),
            valid_normalized_username(prepared_username(credentials.username@)) && (exists|i: int|
                0 <= i < old(self).db.users@.len() && matches_credentials(
                    #[trigger] old(self).db.users@[i],
                    credentials.username@,
                    credentials.password@,
                ) && old(self).db.users@[i].locked) ==> r == Err::<(DeviceId, AuthToken), AuthError>(
                AuthError::UserLocked,
            ),
            valid_normalized_username(prepared_username(credentials.username@)) && (exists|i: int|
                0 <= i < old(self).db.users@.len() && matches_credentials(
                    #[trigger] old(self).db.users@[i],
                    credentials.username@,
                    credentials.password@,
                ) && !old(self).db.users@[i].locked && old(self).db.users@[i].banned) ==> r == Err::<
                (DeviceId, AuthToken),
                AuthError,
            >(AuthError::UserBanned),
            valid_normalized_username(prepared_username(credentials.username@)) && (exists|i: int|
                0 <= i < old(self).db.users@.len() && matches_credentials(
                    #[trigger] old(self).db.users@[i],
                    credentials.username@,
                    credentials.password@,
                ) && !old(self).db.users@[i].locked && !old(self).db.users@[i].banned && old(
                    self,
                ).db.users@[i].compromised) ==> r == Err::<(DeviceId, AuthToken), AuthError>(
                AuthError::UserCompromised,
            ),
            valid_normalized_username(prepared_username(credentials.username@)) && (exists|i: int|
                0 <= i < old(self).db.users@.len() && matches_credentials(
                    #[trigger] old(self).db.users@[i],
                    credentials.username@,
                    credentials.password@,
                ) && !old(self).db.users@[i].locked && !old(self).db.users@[i].banned && !old(
                    self,
                ).db.users@[i].compromised) ==> r is Ok,
            r is Ok ==> crate::store::tokens::only_tokens_changed(old(self).db, final(self).db),
            r matches Ok((device, token)) ==> exists|i: int, j: int|
                {
                    &&& 0 <= i < old(self).db.users@.len()
                    &&& matches_credentials(
                        #[trigger] old(self).db.users@[i],
                        credentials.username@,
                        credentials.password@,
                    )
                    &&& 0 <= j < final(self).db.tokens@.len()
                    &&& {
                        let t = #[trigger] final(self).db.tokens@[j];
                        &&& t.device == device
                        &&& t.user == old(self).db.users@[i].id
                        &&& t.token_hash == token_digest(token.0, LATEST_HASH_SCHEME)
                        &&& t.hash_scheme_version == LATEST_HASH_SCHEME
                        &&& t.last_used == now
                        &&& t.expiration_date == options.expiration_date
                        &&& t.permission_flags == options.permission_flags
                        &&& t.device_name == options.device_name
                    }
                },
            r is Err ==> *final(self) == *old(self),
    {
        let name_bytes = match prepare_username(credentials.username.as_str()) {
            Ok(b) => b,
            Err(_) => {
                return Err(AuthError::IncorrectCredentials);
            },
        };
        let user = match self.db.get_user_by_name(&name_bytes) {
            Some(u) => u,
            None => {
                return Err(AuthError::IncorrectCredentials);
            },
        };
        proof {
            let w = choose|w: int|
                0 <= w < self.db.users@.len() && crate::store::users::same_user(
                    #[trigger] self.db.users@[w],
                    user,
                );
            assert forall|i: int|
                0 <= i < self.db.users@.len() && (#[trigger] self.db.users@[i]).username@
                    == prepared_username(credentials.username@) implies
                crate::store::users::same_user(self.db.users@[i], user) by {
                if i != w {
                    if i < w {
                        assert(self.db.users@[i].username@ != self.db.users@[w].username@);
                    } else {
                        assert(self.db.users@[w].username@ != self.db.users@[i].username@);
                    }
                }
            }
        }
        let digest = hash_password(credentials.password.as_str(), user.hash_scheme_version);
        if digest != user.password_hash {
            return Err(AuthError::IncorrectCredentials);
        }
        if user.locked {
            return Err(AuthError::UserLocked);
        }
        if user.banned {
            return Err(AuthError::UserBanned);
        }
        if user.compromised {
            return Err(AuthError::UserCompromised);
        }
        let device = DeviceId(wrappers::fresh_id_bits());
        let token = AuthToken(wrappers::fresh_token_bits());
        let token_hash = hash_token(token, LATEST_HASH_SCHEME);
        let ghost dbpre = self.db;
        self.db.create_token(
            Token {
                token_hash,
                hash_scheme_version: LATEST_HASH_SCHEME,
                user: user.id,
                device,
                device_name: options.device_name,
                last_used: now,
                expiration_date: options.expiration_date,
                permission_flags: options.permission_flags,
            },
        );
        proof {
            if !dbpre.has_device(device) {
                assert(self.db.tokens@[self.db.tokens@.len() - 1].device == device);
            } else {
                let i = choose|i: int|
                    0 <= i < dbpre.tokens@.len() && (#[trigger] dbpre.tokens@[i]).device == device
                        && self.db.tokens@ == dbpre.tokens@.update(
                        i,
                        Token {
                            token_hash,
                            hash_scheme_version: LATEST_HASH_SCHEME,
                            user: user.id,
                            device,
                            device_name: options.device_name,
                            last_used: now,
                            expiration_date: options.expiration_date,
                            permission_flags: options.permission_flags,
                        },
                    );
                assert(self.db.tokens@[i].device == device);
            }
        }
        Ok((device, token))
    }

    /// Authenticates a device's token: looks the token up by device,
    /// compares digests, rejects expired tokens and locked accounts,
    /// and stamps the token as used at `now`.
    #[verifier::rlimit(60)]
    pub fn authenticate(&mut self, device: DeviceId, token: AuthToken, now: u64) -> (r: Result<
        (UserId, TokenPermissionFlags, HashSchemeVersion),
        AuthError,
    >)
        requires
            old(self).wf(),
        ensures
            final(self).wf(),
            crate::store::tokens::only_tokens_changed(old(self).db, final(self).db),
            final(self).communities == old(self).communities,
            final(self).sessions == old(self).sessions,
            final(self).limiter == old(self).limiter,
            final(self).config == old(self).config,
            !old(self).db.has_device(device) && !old(self).db.device_swept(device) ==> r == Err::<
                (UserId, TokenPermissionFlags, HashSchemeVersion),
                AuthError,
            >(AuthError::InvalidToken),
            // a device whose token the sweep removed reports the expiry
            !old(self).db.has_device(device) && old(self).db.device_swept(device) ==> r == Err::<
                (UserId, TokenPermissionFlags, HashSchemeVersion),
                AuthError,
            >(AuthError::TokenExpired),
            (exists|i: int|
                0 <= i < old(self).db.tokens@.len() && (#[trigger] old(self).db.tokens@[i]).device
                    == device && old(self).db.tokens@[i].token_hash != token_digest(
                    token.0,
                    old(self).db.tokens@[i].hash_scheme_version,
                )) ==> r == Err::<(UserId, TokenPermissionFlags, HashSchemeVersion), AuthError>(
                AuthError::InvalidToken,
            ),
            (exists|i: int|
                0 <= i < old(self).db.tokens@.len() && (#[trigger] old(self).db.tokens@[i]).device
                    == device && old(self).db.tokens@[i].token_hash == token_digest(
                    token.0,
                    old(self).db.tokens@[i].hash_scheme_version,
                ) && token_expired(
                    old(self).db.tokens@[i],
                    now,
                    old(self).config.token_expiry_days,
                )) ==> r == Err::<(UserId, TokenPermissionFlags, HashSchemeVersion), AuthError>(
                AuthError::TokenExpired,
            ),
            r matches Ok((user, perms, hsv)) ==> exists|i: int|
                {
                    &&& 0 <= i < old(self).db.tokens@.len()
                    &&& (#[trigger] old(self).db.tokens@[i]).device == device
                    &&& old(self).db.tokens@[i].token_hash == token_digest(
                        token.0,
                        old(self).db.tokens@[i].hash_scheme_version,
                    )
                    &&& !token_expired(
                        old(self).db.tokens@[i],
                        now,
                        old(self).config.token_expiry_days,
                    )
                    &&& user == old(self).db.tokens@[i].user
                    &&& perms == old(self).db.tokens@[i].permission_flags
                    &&& hsv == old(self).db.tokens@[i].hash_scheme_version
                    &&& old(self).db.has_user(user)
                    &&& final(self).db.tokens@.len() == old(self).db.tokens@.len()
                    &&& refreshed_token(old(self).db.tokens@[i], final(self).db.tokens@[i], now)
                    &&& forall|j: int|
                        0 <= j < old(self).db.tokens@.len() && j != i ==> final(self).db.tokens@[j]
                            == old(self).db.tokens@[j]
                },
            r matches Ok((user, perms, hsv)) ==> exists|k: int|
                0 <= k < old(self).db.users@.len() && (#[trigger] old(self).db.users@[k]).id
                    == user && !old(self).db.users@[k].locked,
            // a stored, digest-matching, unexpired token of an existing,
            // unlocked account always authenticates
            (exists|i: int, k: int|
                {
                    &&& 0 <= i < old(self).db.tokens@.len()
                    &&& (#[trigger] old(self).db.tokens@[i]).device == device
                    &&& old(self).db.tokens@[i].token_hash == token_digest(
                        token.0,
                        old(self).db.tokens@[i].hash_scheme_version,
                    )
                    &&& !token_expired(
                        old(self).db.tokens@[i],
                        now,
                        old(self).config.token_expiry_days,
                    )
                    &&& 0 <= k < old(self).db.users@.len()
                    &&& (#[trigger] old(self).db.users@[k]).id == old(self).db.tokens@[i].user
                    &&& !old(self).db.users@[k].locked
                }) ==> r is Ok,
            r is Err ==> (r == Err::<(UserId, TokenPermissionFlags, HashSchemeVersion), AuthError>(
                AuthError::InvalidToken,
            ) || r == Err::<(UserId, TokenPermissionFlags, HashSchemeVersion), AuthError>(
                AuthError::TokenExpired,
            ) || r == Err::<(UserId, TokenPermissionFlags, HashSchemeVersion), AuthError>(
                AuthError::UserLocked,
            )),
            r is Err ==> *final(self) == *old(self),
    {
        let expiry_days = self.config.token_expiry_days;
        let rec = match self.db.get_token(device) {
            Some(t) => t,
            None => {
                if self.db.is_device_swept(device) {
                    return Err(AuthError::TokenExpired);
                }
                return Err(AuthError::InvalidToken);
            },
        };
        proof {
            let w = choose|w: int|
                0 <= w < self.db.tokens@.len() && crate::store::tokens::same_token(
                    #[trigger] self.db.tokens@[w],
                    rec,
                );
            assert forall|i: int|
                0 <= i < self.db.tokens@.len() && (#[trigger] self.db.tokens@[i]).device == device
                    implies crate::store::tokens::same_token(self.db.tokens@[i], rec) by {
                if i != w {
                    if i < w {
                        assert(self.db.tokens@[i].device != self.db.tokens@[w].device);
                    } else {
                        assert(self.db.tokens@[w].device != self.db.tokens@[i].device);
                    }
                }
            }
        }
        let presented = hash_token(token, rec.hash_scheme_version);
        if presented != rec.token_hash {
            return Err(AuthError::InvalidToken);
        }
        if crate::store::tokens::is_token_expired(&rec, now, expiry_days) {
            return Err(AuthError::TokenExpired);
        }
        let user = match self.db.get_user_by_id(rec.user) {
            Some(u) => u,
            None => {
                return Err(AuthError::InvalidToken);
            },
        };
        proof {
            let w = choose|w: int|
                0 <= w < self.db.users@.len() && crate::store::users::same_user(
                    #[trigger] self.db.users@[w],
                    user,
                );
            assert forall|k: int|
                0 <= k < self.db.users@.len() && (#[trigger] self.db.users@[k]).id == rec.user
                    implies crate::store::users::same_user(self.db.users@[k], user) by {
                if k != w {
                    if k < w {
                        assert(self.db.users@[k].id != self.db.users@[w].id);
                    } else {
                        assert(self.db.users@[w].id != self.db.users@[k].id);
                    }
                }
            }
        }
        if user.locked {
            return Err(AuthError::UserLocked);
        }
        match self.db.refresh_token(device, now) {
            Ok(()) => {},
            Err(_) => {
                proof {
                    assert(false);
                }
            },
        }
        Ok((rec.user, rec.permission_flags, rec.hash_scheme_version))
    }

    /// Revokes the token of a device after re-verifying the
    /// credentials.
    pub fn revoke_token(&mut self, credentials: UserCredentials, device: DeviceId) -> (r: Result<
        (),
        AuthError,
    >)
        requires
            old(self).wf(),
        ensures
            final(self).wf(),
            final(self).communities == old(self).communities,
            final(self).sessions == old(self).sessions,
            final(self).limiter == old(self).limiter,
            final(self).config == old(self).config,
            r is Ok ==> !final(self).db.has_device(device),
            r is Ok ==> exists|i: int|
                0 <= i < old(self).db.users@.len() && matches_credentials(
                    #[trigger] old(self).db.users@[i],
                    credentials.username@,
                    credentials.password@,
                ),
            // matching credentials and a stored token always revoke
            valid_normalized_username(prepared_username(credentials.username@)) && (exists|i: int|
                0 <= i < old(self).db.users@.len() && matches_credentials(
                    #[trigger] old(self).db.users@[i],
                    credentials.username@,
                    credentials.password@,
                )) && old(self).db.has_device(device) ==> r is Ok,
            valid_normalized_username(prepared_username(credentials.username@)) && (exists|i: int|
                0 <= i < old(self).db.users@.len() && matches_credentials(
                    #[trigger] old(self).db.users@[i],
                    credentials.username@,
                    credentials.password@,
                )) && !old(self).db.has_device(device) ==> r == Err::<(), AuthError>(
                AuthError::InvalidToken,
            ),
            r is Err ==> (r == Err::<(), AuthError>(AuthError::IncorrectCredentials) || r == Err::<
                (),
                AuthError,
            >(AuthError::InvalidToken)),
            r is Err ==> *final(self) == *old(self),
    {
        match self.verify_credentials(&credentials) {
            Ok(_) => {},
            Err(e) => {
                return Err(e);
            },
        }
        match self.db.revoke_token(device) {
            Ok(()) => Ok(()),
            Err(_) => Err(AuthError::InvalidToken),
        }
    }

    /// Stamps the token of a device as freshly used after re-verifying
    /// the credentials.
    pub fn refresh_token(&mut self, credentials: UserCredentials, device: DeviceId, now: u64) -> (r:
        Result<(), AuthError>)
        requires
            old(self).wf(),
        ensures
            final(self).wf(),
            final(self).communities == old(self).communities,
            final(self).sessions == old(self).sessions,
            final(self).limiter == old(self).limiter,
            final(self).config == old(self).config,
            r is Ok ==> exists|i: int|
                {
                    &&& 0 <= i < old(self).db.tokens@.len()
                    &&& (#[trigger] old(self).db.tokens@[i]).device == device
                    &&& final(self).db.tokens@.len() == old(self).db.tokens@.len()
                    &&& refreshed_token(old(self).db.tokens@[i], final(self).db.tokens@[i], now)
                },
            // matching credentials and a stored token always refresh
            valid_normalized_username(prepared_username(credentials.username@)) && (exists|i: int|
                0 <= i < old(self).db.users@.len() && matches_credentials(
                    #[trigger] old(self).db.users@[i],
                    credentials.username@,
                    credentials.password@,
                )) && old(self).db.has_device(device) ==> r is Ok,
            valid_normalized_username(prepared_username(credentials.username@)) && (exists|i: int|
                0 <= i < old(self).db.users@.len() && matches_credentials(
                    #[trigger] old(self).db.users@[i],
                    credentials.username@,
                    credentials.password@,
                )) && !old(self).db.has_device(device) ==> r == Err::<(), AuthError>(
                AuthError::InvalidToken,
            ),
            r is Err ==> (r == Err::<(), AuthError>(AuthError::IncorrectCredentials) || r == Err::<
                (),
                AuthError,
            >(AuthError::InvalidToken)),
            r is Err ==> *final(self) == *old(self),
    {
        match self.verify_credentials(&credentials) {
            Ok(_) => {},
            Err(e) => {
                return Err(e);
            },
        }
        match self.db.refresh_token(device, now) {
            Ok(()) => Ok(()),
            Err(_) => Err(AuthError::InvalidToken),
        }
    }

    /// Verifies presented credentials against the stored account.
    fn verify_credentials(&self, credentials: &UserCredentials) -> (r: Result<UserId, AuthError>)
        requires
            self.wf(),
        ensures
            r matches Ok(id) ==> exists|i: int|
                0 <= i < self.db.users@.len() && matches_credentials(
                    #[trigger] self.db.users@[i],
                    credentials.username@,
                    credentials.password@,
                ) && self.db.users@[i].id == id,
            valid_normalized_username(prepared_username(credentials.username@)) && (exists|i: int|
                0 <= i < self.db.users@.len() && matches_credentials(
                    #[trigger] self.db.users@[i],
                    credentials.username@,
                    credentials.password@,
                )) ==> r is Ok,
            r is Err ==> r == Err::<UserId, AuthError>(AuthError::IncorrectCredentials),
    {
        let name_bytes = match prepare_username(credentials.username.as_str()) {
            Ok(b) => b,
            Err(_) => {
                return Err(AuthError::IncorrectCredentials);
            },
        };
        let user = match self.db.get_user_by_name(&name_bytes) {
            Some(u) => u,
            None => {
                return Err(AuthError::IncorrectCredentials);
            },
        };
        proof {
            let w = choose|w: int|
                0 <= w < self.db.users@.len() && crate::store::users::same_user(
                    #[trigger] self.db.users@[w],
                    user,
                );
            assert forall|i: int|
                0 <= i < self.db.users@.len() && (#[trigger] self.db.users@[i]).username@
                    == prepared_username(credentials.username@) implies
                crate::store::users::same_user(self.db.users@[i], user) by {
                if i != w {
                    if i < w {
                        assert(self.db.users@[i].username@ != self.db.users@[w].username@);
                    } else {
                        assert(self.db.users@[w].username@ != self.db.users@[i].username@);
                    }
                }
            }
        }
        let digest = hash_password(credentials.password.as_str(), user.hash_scheme_version);
        if digest != user.password_hash {
            return Err(AuthError::IncorrectCredentials);
        }
        Ok(user.id)
    }

    /// Changes an account's password: verifies the old password,
    /// validates and digests the new one under the latest scheme,
    /// clears the compromised mark, and invalidates every token of the
    /// user.
    pub fn change_password(&mut self, credentials: UserCredentials, new_password: String) -> (r:
        Result<(), AuthError>)
        requires
            old(self).wf(),
        ensures
            final(self).wf(),
            final(self).communities == old(self).communities,
            final(self).limiter == old(self).limiter,
            final(self).config == old(self).config,
            !spec_valid_password(new_password@) <==> r == Err::<(), AuthError>(
                AuthError::InvalidPassword,
            ),
            // matching credentials and an acceptable new password always
            // succeed
            spec_valid_password(new_password@) && valid_normalized_username(
                prepared_username(credentials.username@),
            ) && (exists|i: int|
                0 <= i < old(self).db.users@.len() && matches_credentials(
                    #[trigger] old(self).db.users@[i],
                    credentials.username@,
                    credentials.password@,
                )) ==> r is Ok,
            r is Err ==> (r == Err::<(), AuthError>(AuthError::InvalidPassword) || r == Err::<
                (),
                AuthError,
            >(AuthError::IncorrectCredentials)),
            r is Ok ==> exists|i: int|
                {
                    &&& 0 <= i < old(self).db.users@.len()
                    &&& matches_credentials(
                        #[trigger] old(self).db.users@[i],
                        credentials.username@,
                        credentials.password@,
                    )
                    &&& final(self).db.users@.len() == old(self).db.users@.len()
                    &&& final(self).db.users@[i].password_hash == password_digest(
                        new_password@,
                        LATEST_HASH_SCHEME,
                    )
                    &&& final(self).db.users@[i].hash_scheme_version == LATEST_HASH_SCHEME
                    &&& !final(self).db.users@[i].compromised
                    &&& forall|t: int|
                        0 <= t < final(self).db.tokens@.len() ==> (
                        #[trigger] final(self).db.tokens@[t]).user != old(self).db.users@[i].id
                    // every session bound to one of the user's logins is
                    // torn down; everyone else's stays as it was
                    &&& forall|j: int|
                        0 <= j < old(self).db.tokens@.len() && (
                        #[trigger] old(self).db.tokens@[j]).user == old(self).db.users@[i].id
                            ==> !final(self).sessions.is_active(old(self).db.tokens@[j].device)
                },
            r is Err ==> *final(self) == *old(self),
    {
        if !valid_password(new_password.as_str()) {
            return Err(AuthError::InvalidPassword);
        }
        let user = match self.verify_credentials(&credentials) {
            Ok(id) => id,
            Err(e) => {
                return Err(e);
            },
        };
        let digest = hash_password(new_password.as_str(), LATEST_HASH_SCHEME);
        let devices = self.db.devices_of_user(user);
        match self.db.change_password(user, digest, LATEST_HASH_SCHEME) {
            Ok(()) => {},
            Err(_) => {
                proof {
                    assert(false);
                }
            },
        }
        self.db.delete_user_tokens(user);
        self.sessions.remove_many(&devices);
        Ok(())
    }
}


/// What serving a profile lookup guarantees.
pub open spec fn profile_post(h: RequestHandler, db: Database, id: UserId, r: ResponseResult) -> bool {
    &&& (r is Ok <==> db.has_user(id))
    &&& (!db.has_user(id) ==> r == Err::<OkResponse, ErrResponse>(ErrResponse::InvalidUser))
    &&& (r is Err ==> r == Err::<OkResponse, ErrResponse>(ErrResponse::InvalidUser))
    &&& (r matches Ok(res) ==> (res matches OkResponse::Profile(p) && exists|i: int|
        0 <= i < db.users@.len() && {
            let u = #[trigger] db.users@[i];
            &&& u.id == id
            &&& p.version == u.profile_version
            &&& p.username@ == u.username@
            &&& p.display_name == u.display_name
        }))
}

/// What serving a logout guarantees: the device's token is gone and its
/// session slot is torn down; everyone else is untouched.
pub open spec fn log_out_post(
    h: RequestHandler,
    pre_db: Database,
    pre_s: SessionManager,
    post_db: Database,
    post_s: SessionManager,
    r: ResponseResult,
) -> bool {
    &&& (r is Ok <==> pre_db.has_device(h.device))
    &&& (r is Err ==> r == Err::<OkResponse, ErrResponse>(ErrResponse::DeviceDoesNotExist))
    &&& !post_db.has_device(h.device)
    &&& (r matches Ok(res) ==> res is NoData)
    &&& crate::store::tokens::only_tokens_changed(pre_db, post_db)
    &&& (r is Ok ==> !post_s.is_active(h.device))
    &&& forall|d: DeviceId| d != h.device ==> (post_s.is_active(d) <==> pre_s.is_active(d))
    &&& (r is Err ==> post_db == pre_db && post_s == pre_s)
}

/// What declaring the looked-at room guarantees: the store is untouched
/// and the device's live session, if any, now points at the room.
pub open spec fn select_room_post(
    h: RequestHandler,
    pre_db: Database,
    pre_s: SessionManager,
    post_db: Database,
    post_s: SessionManager,
    community: CommunityId,
    room: RoomId,
    r: ResponseResult,
) -> bool {
    &&& post_db == pre_db
    &&& (r == Err::<OkResponse, ErrResponse>(ErrResponse::InvalidRoom) <==> !(pre_db.is_member(
        community,
        h.user,
    ) && pre_db.has_room(community, room)))
    &&& (r is Err ==> r == Err::<OkResponse, ErrResponse>(ErrResponse::InvalidRoom))
    &&& (r matches Ok(res) ==> res is NoData)
    &&& (r is Err ==> post_s == pre_s)
    &&& (r is Ok && !pre_s.is_active(h.device) ==> post_s == pre_s)
    &&& (r is Ok && pre_s.is_active(h.device) ==> exists|i: int|
        {
            &&& 0 <= i < pre_s.sessions@.len()
            &&& (#[trigger] pre_s.sessions@[i]).device == h.device
            &&& post_s.sessions@.len() == pre_s.sessions@.len()
            &&& post_s.sessions@[i].user == pre_s.sessions@[i].user
            &&& post_s.sessions@[i].device == h.device
            &&& (pre_s.sessions@[i].slot matches crate::session::SessionSlot::Active(hd) ==> (
            post_s.sessions@[i].slot matches crate::session::SessionSlot::Active(hd2)
                && hd2.mailbox@ == hd.mailbox@ && hd2.looking_at == Some((community, room))))
            &&& forall|j: int|
                0 <= j < pre_s.sessions@.len() && j != i ==> post_s.sessions@[j]
                    == pre_s.sessions@[j]
        })
}

/// What clearing the looked-at room guarantees.
pub open spec fn deselect_room_post(
    h: RequestHandler,
    pre_db: Database,
    pre_s: SessionManager,
    post_db: Database,
    post_s: SessionManager,
    r: ResponseResult,
) -> bool {
    &&& post_db == pre_db
    &&& r is Ok
    &&& (r matches Ok(res) ==> res is NoData)
    &&& (!pre_s.is_active(h.device) ==> post_s == pre_s)
    &&& (pre_s.is_active(h.device) ==> exists|i: int|
        {
            &&& 0 <= i < pre_s.sessions@.len()
            &&& (#[trigger] pre_s.sessions@[i]).device == h.device
            &&& post_s.sessions@.len() == pre_s.sessions@.len()
            &&& post_s.sessions@[i].user == pre_s.sessions@[i].user
            &&& post_s.sessions@[i].device == h.device
            &&& (pre_s.sessions@[i].slot matches crate::session::SessionSlot::Active(hd) ==> (
            post_s.sessions@[i].slot matches crate::session::SessionSlot::Active(hd2)
                && hd2.mailbox@ == hd.mailbox@ && hd2.looking_at is None))
            &&& forall|j: int|
                0 <= j < pre_s.sessions@.len() && j != i ==> post_s.sessions@[j]
                    == pre_s.sessions@[j]
        })
}

/// What serving a username change guarantees.
pub open spec fn change_username_post(
    h: RequestHandler,
    pre_db: Database,
    post_db: Database,
    new_username: String,
    r: ResponseResult,
) -> bool {
    &&& (r == Err::<OkResponse, ErrResponse>(ErrResponse::InvalidUsername)
        <==> !valid_normalized_username(prepared_username(new_username@)))
    &&& (r == Err::<OkResponse, ErrResponse>(ErrResponse::UserDeleted) <==> (
    valid_normalized_username(prepared_username(new_username@)) && !pre_db.has_user(h.user)))
    &&& (r == Err::<OkResponse, ErrResponse>(ErrResponse::UsernameAlreadyExists) <==> (
    valid_normalized_username(prepared_username(new_username@)) && pre_db.has_user(h.user) && (
    exists|i: int|
        0 <= i < pre_db.users@.len() && (#[trigger] pre_db.users@[i]).username@
            == prepared_username(new_username@) && pre_db.users@[i].id != h.user)))
    &&& (r is Err ==> (r == Err::<OkResponse, ErrResponse>(ErrResponse::InvalidUsername) || r
        == Err::<OkResponse, ErrResponse>(ErrResponse::UserDeleted) || r == Err::<
        OkResponse,
        ErrResponse,
    >(ErrResponse::UsernameAlreadyExists)))
    &&& (r is Ok ==> exists|i: int|
        {
            &&& 0 <= i < pre_db.users@.len()
            &&& (#[trigger] pre_db.users@[i]).id == h.user
            &&& post_db.users@.len() == pre_db.users@.len()
            &&& crate::store::users::renamed_user(
                pre_db.users@[i],
                post_db.users@[i],
                prepared_username(new_username@),
            )
            &&& forall|j: int|
                0 <= j < pre_db.users@.len() && j != i ==> post_db.users@[j] == pre_db.users@[j]
        })
    &&& (r is Ok ==> crate::store::users::only_users_changed(pre_db, post_db))
    &&& (r matches Ok(res) ==> res is NoData)
    &&& (r is Err ==> post_db == pre_db)
}

/// What serving a display-name change guarantees.
pub open spec fn change_display_name_post(
    h: RequestHandler,
    pre_db: Database,
    post_db: Database,
    new_display_name: String,
    r: ResponseResult,
) -> bool {
    &&& (r == Err::<OkResponse, ErrResponse>(ErrResponse::InvalidDisplayName)
        <==> !spec_valid_display_name(new_display_name@))
    &&& (r == Err::<OkResponse, ErrResponse>(ErrResponse::UserDeleted) <==> (
    spec_valid_display_name(new_display_name@) && !pre_db.has_user(h.user)))
    &&& (r is Err ==> (r == Err::<OkResponse, ErrResponse>(ErrResponse::InvalidDisplayName) || r
        == Err::<OkResponse, ErrResponse>(ErrResponse::UserDeleted)))
    &&& (r is Ok ==> exists|i: int|
        {
            &&& 0 <= i < pre_db.users@.len()
            &&& (#[trigger] pre_db.users@[i]).id == h.user
            &&& post_db.users@.len() == pre_db.users@.len()
            &&& crate::store::users::redisplayed_user(
                pre_db.users@[i],
                post_db.users@[i],
                new_display_name@,
            )
            &&& forall|j: int|
                0 <= j < pre_db.users@.len() && j != i ==> post_db.users@[j] == pre_db.users@[j]
        })
    &&& (r is Ok ==> crate::store::users::only_users_changed(pre_db, post_db))
    &&& (r matches Ok(res) ==> res is NoData)
    &&& (r is Err ==> post_db == pre_db)
}


/// What serving an in-session password change guarantees: the new
/// digest replaces the old under the latest scheme, the user's other
/// logins are invalidated, and their sessions are torn down, the
/// session's own device left alone.
pub open spec fn change_password_session_post(
    h: RequestHandler,
    pre_db: Database,
    pre_s: SessionManager,
    post_db: Database,
    post_s: SessionManager,
    old_password: String,
    new_password: String,
    r: ResponseResult,
) -> bool {
    &&& (r == Err::<OkResponse, ErrResponse>(ErrResponse::InvalidPassword)
        <==> !spec_valid_password(new_password@))
    &&& (r == Err::<OkResponse, ErrResponse>(ErrResponse::InvalidUser) <==> (spec_valid_password(
        new_password@,
    ) && !pre_db.has_user(h.user)))
    &&& (r == Err::<OkResponse, ErrResponse>(ErrResponse::IncorrectUsernameOrPassword) <==> (
    spec_valid_password(new_password@) && (exists|i: int|
        0 <= i < pre_db.users@.len() && (#[trigger] pre_db.users@[i]).id == h.user
            && pre_db.users@[i].password_hash != password_digest(
            old_password@,
            pre_db.users@[i].hash_scheme_version,
        ))))
    &&& (r is Err ==> (r == Err::<OkResponse, ErrResponse>(ErrResponse::InvalidPassword) || r
        == Err::<OkResponse, ErrResponse>(ErrResponse::InvalidUser) || r == Err::<
        OkResponse,
        ErrResponse,
    >(ErrResponse::IncorrectUsernameOrPassword)))
    &&& (r is Err ==> post_db == pre_db && post_s == pre_s)
    &&& (r matches Ok(res) ==> res is NoData)
    &&& (r is Ok ==> exists|i: int|
        {
            &&& 0 <= i < pre_db.users@.len()
            &&& (#[trigger] pre_db.users@[i]).id == h.user
            &&& pre_db.users@[i].password_hash == password_digest(
                old_password@,
                pre_db.users@[i].hash_scheme_version,
            )
            &&& post_db.users@.len() == pre_db.users@.len()
            &&& crate::store::users::repassworded_user(
                pre_db.users@[i],
                post_db.users@[i],
                password_digest(new_password@, LATEST_HASH_SCHEME),
                LATEST_HASH_SCHEME,
            )
            &&& forall|j: int|
                0 <= j < pre_db.users@.len() && j != i ==> post_db.users@[j] == pre_db.users@[j]
        })
    &&& (r is Ok ==> post_db.tokens@ == crate::store::tokens::tokens_without_user_except(
        pre_db.tokens@,
        h.user,
        h.device,
    ))
    &&& (r is Ok ==> forall|j: int|
        0 <= j < pre_db.tokens@.len() && (#[trigger] pre_db.tokens@[j]).user == h.user
            && pre_db.tokens@[j].device != h.device ==> !post_s.is_active(
            pre_db.tokens@[j].device,
        ))
    &&& (r is Ok ==> forall|d: DeviceId|
        !(exists|j: int|
            0 <= j < pre_db.tokens@.len() && (#[trigger] pre_db.tokens@[j]).user == h.user
                && pre_db.tokens@[j].device == d && d != h.device) ==> (post_s.is_active(d)
            <==> pre_s.is_active(d)))
}


/// What serving a history query guarantees: exact error conditions, and
/// on success the selector-picked slice of the room served newest
/// first.
pub open spec fn get_messages_post(
    h: RequestHandler,
    db: Database,
    community: CommunityId,
    room: RoomId,
    selector: crate::proto::MessageSelector,
    count: int,
    r: ResponseResult,
) -> bool {
    &&& (r == Err::<OkResponse, ErrResponse>(ErrResponse::InvalidRoom) <==> !(db.is_member(
        community,
        h.user,
    ) && db.has_room(community, room)))
    &&& (db.is_member(community, h.user) && db.has_room(community, room) ==> (r == Err::<
        OkResponse,
        ErrResponse,
    >(ErrResponse::InvalidMessageSelector) <==> !(exists|p: int|
        0 <= p < db.room_messages(community, room).len() && (#[trigger] db.room_messages(
            community,
            room,
        )[p]).id == Database::spec_selector_ref(selector))))
    &&& (r is Err ==> (r == Err::<OkResponse, ErrResponse>(ErrResponse::InvalidRoom) || r
        == Err::<OkResponse, ErrResponse>(ErrResponse::InvalidMessageSelector)))
    &&& (r matches Ok(res) ==> (res matches OkResponse::MessageHistory(hist) && exists|
        recs: Seq<crate::store::MessageRecord>,
    |
        crate::store::messages::selection_ok(
            db.room_messages(community, room),
            selector,
            count,
            recs,
        ) && hist.messages@ == #[trigger] crate::store::messages::messages_of(recs)))
}

/// What serving a room update guarantees: exact error conditions; on
/// success the batch follows the client's marker (or ends at the newest
/// message), the continuity flag says whether it connects without a
/// gap, and the last-read marker is the stored one.
pub open spec fn get_room_update_post(
    h: RequestHandler,
    db: Database,
    community: CommunityId,
    room: RoomId,
    last_received: Option<MessageId>,
    message_count: int,
    r: ResponseResult,
) -> bool {
    &&& (r == Err::<OkResponse, ErrResponse>(ErrResponse::InvalidRoom) <==> !(db.is_member(
        community,
        h.user,
    ) && db.has_room(community, room)))
    &&& (db.is_member(community, h.user) && db.has_room(community, room) ==> (r == Err::<
        OkResponse,
        ErrResponse,
    >(ErrResponse::InvalidMessageSelector) <==> (last_received matches Some(x) && !(exists|p: int|
        0 <= p < db.room_messages(community, room).len() && (#[trigger] db.room_messages(
            community,
            room,
        )[p]).id == x))))
    &&& (r is Err ==> (r == Err::<OkResponse, ErrResponse>(ErrResponse::InvalidRoom) || r
        == Err::<OkResponse, ErrResponse>(ErrResponse::InvalidMessageSelector)))
    &&& (r matches Ok(res) ==> (res matches OkResponse::RoomUpdate(u) && {
        &&& u.continuous == (u.new_messages.messages@.len() < message_count)
        &&& (match last_received {
            Some(x) => exists|recs: Seq<crate::store::MessageRecord>|
                crate::store::messages::selection_ok(
                    db.room_messages(community, room),
                    crate::proto::MessageSelector::After(crate::proto::Bound::Exclusive(x)),
                    message_count,
                    recs,
                ) && u.new_messages.messages@ == #[trigger] crate::store::messages::messages_of(
                    recs,
                ),
            None => {
                if db.room_messages(community, room).len() > 0 {
                    exists|recs: Seq<crate::store::MessageRecord>|
                        crate::store::messages::selection_ok(
                            db.room_messages(community, room),
                            crate::proto::MessageSelector::Before(
                                crate::proto::Bound::Inclusive(
                                    db.room_messages(community, room).last().id,
                                ),
                            ),
                            message_count,
                            recs,
                        ) && u.new_messages.messages@
                            == #[trigger] crate::store::messages::messages_of(recs)
                } else {
                    u.new_messages.messages@.len() == 0
                }
            },
        })
        &&& (u.last_read matches Some(id) ==> exists|i: int|
            0 <= i < db.room_states@.len() && (#[trigger] db.room_states@[i]).user == h.user
                && db.room_states@[i].room == room && db.room_states@[i].last_read == Some(id))
        &&& (u.last_read is None ==> forall|i: int|
            0 <= i < db.room_states@.len() ==> !((#[trigger] db.room_states@[i]).user == h.user
                && db.room_states@[i].room == room) || (
            #[trigger] db.room_states@[i]).last_read is None)
    }))
}

/// What serving a mark-as-read guarantees: the member's marker for the
/// room advances to its newest message, and nothing else moves.
pub open spec fn set_as_read_post(
    h: RequestHandler,
    pre_db: Database,
    post_db: Database,
    community: CommunityId,
    room: RoomId,
    r: ResponseResult,
) -> bool {
    &&& (r == Err::<OkResponse, ErrResponse>(ErrResponse::InvalidCommunity) <==> !pre_db.is_member(
        community,
        h.user,
    ))
    &&& (pre_db.is_member(community, h.user) ==> (r == Err::<OkResponse, ErrResponse>(
        ErrResponse::InvalidRoom,
    ) <==> !(exists|j: int|
        0 <= j < pre_db.rooms@.len() && (#[trigger] pre_db.rooms@[j]).id == room)))
    &&& (pre_db.is_member(community, h.user) && (exists|j: int|
        0 <= j < pre_db.rooms@.len() && (#[trigger] pre_db.rooms@[j]).id == room) ==> (r == Err::<
        OkResponse,
        ErrResponse,
    >(ErrResponse::UserDeleted) <==> !pre_db.has_user(h.user)))
    &&& (r is Err ==> (r == Err::<OkResponse, ErrResponse>(ErrResponse::InvalidCommunity) || r
        == Err::<OkResponse, ErrResponse>(ErrResponse::InvalidRoom) || r == Err::<
        OkResponse,
        ErrResponse,
    >(ErrResponse::UserDeleted)))
    &&& (r is Err ==> post_db == pre_db)
    &&& (r matches Ok(res) ==> res is NoData)
    &&& (r is Ok ==> crate::store::messages::only_room_states_changed(pre_db, post_db))
    &&& (r is Ok ==> exists|i: int|
        {
            &&& 0 <= i < post_db.room_states@.len()
            &&& (#[trigger] post_db.room_states@[i]).user == h.user
            &&& post_db.room_states@[i].room == room
            &&& (post_db.room_states@[i].last_read is Some
                <==> crate::store::messages::msgs_of_room(pre_db.messages@, room).len() > 0)
            &&& (post_db.room_states@[i].last_read matches Some(id) ==> id
                == crate::store::messages::msgs_of_room(pre_db.messages@, room).last().id)
        })
}

impl RequestHandler {
    /// Serves a profile lookup.
    pub fn get_user_profile(&self, state: &ServerState, id: UserId) -> (r: ResponseResult)
        requires
            state.wf(),
        ensures
            profile_post(*self, state.db, id, r),
    {
        match state.db.get_user_profile(id) {
            Some(p) => Ok(OkResponse::Profile(p)),
            None => Err(ErrResponse::InvalidUser),
        }
    }

    /// Serves a logout: revokes the session's own token; the transport
    /// then tears the session down.
    pub fn log_out(&self, state: &mut ServerState) -> (r: ResponseResult)
        requires
            old(state).wf(),
        ensures
            final(state).wf(),
            final(state).communities == old(state).communities,
            final(state).limiter == old(state).limiter,
            log_out_post(
                *self,
                old(state).db,
                old(state).sessions,
                final(state).db,
                final(state).sessions,
                r,
            ),
    {
        match state.db.revoke_token(self.device) {
            Ok(()) => {
                let _ = state.sessions.remove_and_notify(self.device);
                Ok(OkResponse::NoData)
            },
            Err(_) => Err(ErrResponse::DeviceDoesNotExist),
        }
    }

    /// Declares the room the session is looking at.
    pub fn select_room(&self, state: &mut ServerState, community: CommunityId, room: RoomId) -> (r:
        ResponseResult)
        requires
            old(state).wf(),
        ensures
            final(state).wf(),
            final(state).communities == old(state).communities,
            final(state).limiter == old(state).limiter,
            select_room_post(
                *self,
                old(state).db,
                old(state).sessions,
                final(state).db,
                final(state).sessions,
                community,
                room,
                r,
            ),
    {
        if !state.db.contains_membership(community, self.user) {
            return Err(ErrResponse::InvalidRoom);
        }
        if !self.room_exists(state, community, room) {
            return Err(ErrResponse::InvalidRoom);
        }
        let _ = state.sessions.set_looking_at(self.device, Some((community, room)));
        Ok(OkResponse::NoData)
    }

    /// Clears the room the session is looking at.
    pub fn deselect_room(&self, state: &mut ServerState) -> (r: ResponseResult)
        requires
            old(state).wf(),
        ensures
            final(state).wf(),
            final(state).communities == old(state).communities,
            final(state).limiter == old(state).limiter,
            deselect_room_post(
                *self,
                old(state).db,
                old(state).sessions,
                final(state).db,
                final(state).sessions,
                r,
            ),
    {
        let _ = state.sessions.set_looking_at(self.device, None);
        Ok(OkResponse::NoData)
    }

    /// Whether a room of this id lies in this community.
    fn room_exists(&self, state: &ServerState, community: CommunityId, room: RoomId) -> (r: bool)
        ensures
            r == state.db.has_room(community, room),
    {
        let mut i: usize = 0;
        while i < state.db.rooms.len()
            invariant
                i <= state.db.rooms@.len(),
                forall|j: int|
                    0 <= j < i ==> !((#[trigger] state.db.rooms@[j]).id == room
                        && state.db.rooms@[j].community == community),
            decreases state.db.rooms@.len() - i,
        {
            if state.db.rooms[i].id == room && state.db.rooms[i].community == community {
                return true;
            }
            i = i + 1;
        }
        false
    }

    /// Serves a username change: normalizes and validates the new name,
    /// renames the account, and advances the profile version.
    pub fn change_username(&self, state: &mut ServerState, new_username: String) -> (r:
        ResponseResult)
        requires
            old(state).wf(),
        ensures
            final(state).wf(),
            final(state).sessions == old(state).sessions,
            final(state).communities == old(state).communities,
            final(state).limiter == old(state).limiter,
            change_username_post(*self, old(state).db, final(state).db, new_username, r),
    {
        let name_bytes = match prepare_username(new_username.as_str()) {
            Ok(b) => b,
            Err(_) => {
                return Err(ErrResponse::InvalidUsername);
            },
        };
        match state.db.change_username(self.user, name_bytes) {
            Ok(()) => Ok(OkResponse::NoData),
            Err(crate::store::ChangeUsernameError::UsernameConflict) => Err(
                ErrResponse::UsernameAlreadyExists,
            ),
            Err(crate::store::ChangeUsernameError::NonexistentUser) => Err(
                ErrResponse::UserDeleted,
            ),
        }
    }

    /// Serves a display-name change; it advances the profile version.
    pub fn change_display_name(&self, state: &mut ServerState, new_display_name: String) -> (r:
        ResponseResult)
        requires
            old(state).wf(),
        ensures
            final(state).wf(),
            final(state).sessions == old(state).sessions,
            final(state).communities == old(state).communities,
            final(state).limiter == old(state).limiter,
            change_display_name_post(*self, old(state).db, final(state).db, new_display_name, r),
    {
        if !valid_display_name(new_display_name.as_str()) {
            return Err(ErrResponse::InvalidDisplayName);
        }
        match state.db.change_display_name(self.user, new_display_name) {
            Ok(()) => Ok(OkResponse::NoData),
            Err(_) => Err(ErrResponse::UserDeleted),
        }
    }

    /// Serves an in-session password change: verifies the old password
    /// of the session's own account, stores the new digest, and
    /// invalidates the user's other logins.
    #[verifier::rlimit(60)]
    pub fn change_password(
        &self,
        state: &mut ServerState,
        old_password: String,
        new_password: String,
    ) -> (r: ResponseResult)
        requires
            old(state).wf(),
        ensures
            final(state).wf(),
            final(state).communities == old(state).communities,
            final(state).limiter == old(state).limiter,
            change_password_session_post(
                *self,
                old(state).db,
                old(state).sessions,
                final(state).db,
                final(state).sessions,
                old_password,
                new_password,
                r,
            ),
    {
        if !valid_password(new_password.as_str()) {
            return Err(ErrResponse::InvalidPassword);
        }
        let stored = match state.db.get_user_by_id(self.user) {
            Some(u) => u,
            None => {
                return Err(ErrResponse::InvalidUser);
            },
        };
        proof {
            let w = choose|w: int|
                0 <= w < state.db.users@.len() && crate::store::users::same_user(
                    #[trigger] state.db.users@[w],
                    stored,
                );
            assert forall|i: int|
                0 <= i < state.db.users@.len() && (#[trigger] state.db.users@[i]).id == self.user
                    implies crate::store::users::same_user(state.db.users@[i], stored) by {
                if i != w {
                    if i < w {
                        assert(state.db.users@[i].id != state.db.users@[w].id);
                    } else {
                        assert(state.db.users@[w].id != state.db.users@[i].id);
                    }
                }
            }
        }
        let old_digest = hash_password(old_password.as_str(), stored.hash_scheme_version);
        if old_digest != stored.password_hash {
            return Err(ErrResponse::IncorrectUsernameOrPassword);
        }
        let new_digest = hash_password(new_password.as_str(), LATEST_HASH_SCHEME);
        let devices = state.db.devices_of_user_except(self.user, self.device);
        match state.db.change_password(self.user, new_digest, LATEST_HASH_SCHEME) {
            Ok(()) => {},
            Err(_) => {
                proof {
                    assert(false);
                }
            },
        }
        state.db.delete_user_tokens_except(self.user, self.device);
        state.sessions.remove_many(&devices);
        Ok(OkResponse::NoData)
    }

    /// Serves a history query over one room.
    pub fn get_messages(
        &self,
        state: &ServerState,
        community: CommunityId,
        room: RoomId,
        selector: crate::proto::MessageSelector,
        count: usize,
    ) -> (r: ResponseResult)
        requires
            state.wf(),
        ensures
            get_messages_post(*self, state.db, community, room, selector, count as int, r),
    {
        if !state.db.contains_membership(community, self.user) {
            return Err(ErrResponse::InvalidRoom);
        }
        if !self.room_exists(state, community, room) {
            return Err(ErrResponse::InvalidRoom);
        }
        let records = match state.db.get_messages(community, room, selector, count) {
            Ok(v) => v,
            Err(_) => {
                return Err(ErrResponse::InvalidMessageSelector);
            },
        };
        let mut messages: Vec<crate::proto::Message> = Vec::new();
        let mut k: usize = 0;
        while k < records.len()
            invariant
                k <= records@.len(),
                messages@.len() == k,
                forall|t: int|
                    0 <= t < k ==> #[trigger] messages@[t]
                        == crate::store::messages::message_of(records@[t]),
            decreases records@.len() - k,
        {
            messages.push(crate::store::messages::message_record_to_proto(&records[k]));
            k = k + 1;
        }
        proof {
            assert(messages@ =~= crate::store::messages::messages_of(records@));
        }
        Ok(OkResponse::MessageHistory(crate::proto::MessageHistory { messages }))
    }

    /// Serves a room update: the newest messages with the continuity
    /// flag and the session user's last-read marker. The batch is
    /// continuous exactly when it holds fewer than `message_count`
    /// messages.
    pub fn get_room_update(
        &self,
        state: &ServerState,
        community: CommunityId,
        room: RoomId,
        last_received: Option<MessageId>,
        message_count: usize,
    ) -> (r: ResponseResult)
        requires
            state.wf(),
        ensures
            get_room_update_post(
                *self,
                state.db,
                community,
                room,
                last_received,
                message_count as int,
                r,
            ),
    {
        if !state.db.contains_membership(community, self.user) {
            return Err(ErrResponse::InvalidRoom);
        }
        if !self.room_exists(state, community, room) {
            return Err(ErrResponse::InvalidRoom);
        }
        match state.db.get_room_update(self.user, community, room, last_received, message_count) {
            Ok(u) => Ok(OkResponse::RoomUpdate(u)),
            Err(_) => Err(ErrResponse::InvalidMessageSelector),
        }
    }

    /// Serves a mark-as-read: the user's last-read marker of the room
    /// advances to its newest message.
    pub fn set_as_read(&self, state: &mut ServerState, community: CommunityId, room: RoomId) -> (r:
        ResponseResult)
        requires
            old(state).wf(),
        ensures
            final(state).wf(),
            final(state).sessions == old(state).sessions,
            final(state).communities == old(state).communities,
            final(state).limiter == old(state).limiter,
            set_as_read_post(*self, old(state).db, final(state).db, community, room, r),
    {
        if !state.db.contains_membership(community, self.user) {
            return Err(ErrResponse::InvalidCommunity);
        }
        match state.db.set_room_read(room, self.user) {
            Ok(()) => Ok(OkResponse::NoData),
            Err(crate::store::SetUserRoomStateError::InvalidRoom) => Err(ErrResponse::InvalidRoom),
            Err(crate::store::SetUserRoomStateError::InvalidUser) => Err(ErrResponse::UserDeleted),
        }
    }
}



/// What serving a message send guarantees: exact error conditions, the
/// persisted record and confirmation on success, and the fanout to
/// every other online device of the community with a live session.
pub open spec fn send_message_post(
    h: RequestHandler,
    pre_db: Database,
    pre_s: SessionManager,
    pre_comm: Seq<CommunityActor>,
    post_db: Database,
    post_s: SessionManager,
    message: ClientSentMessage,
    now: u64,
    r: ResponseResult,
) -> bool {
    &&& (!(pre_db.is_member(message.to_community, h.user) && (exists|a: int|
        0 <= a < pre_comm.len() && (#[trigger] pre_comm[a]).community == message.to_community))
        <==> r == Err::<OkResponse, ErrResponse>(ErrResponse::InvalidCommunity))
    &&& (pre_db.is_member(message.to_community, h.user) && (exists|a: int|
        0 <= a < pre_comm.len() && (#[trigger] pre_comm[a]).community == message.to_community)
        ==> (r == Err::<OkResponse, ErrResponse>(ErrResponse::InvalidUser) <==> !pre_db.has_user(
        h.user,
    )))
    &&& (r is Err ==> (r == Err::<OkResponse, ErrResponse>(ErrResponse::InvalidCommunity) || r
        == Err::<OkResponse, ErrResponse>(ErrResponse::InvalidUser)))
    &&& (r is Err ==> post_db == pre_db && post_s == pre_s)
    &&& (r is Ok ==> crate::store::messages::only_messages_changed(pre_db, post_db))
    &&& (r matches Ok(res) ==> {
        &&& (res matches OkResponse::ConfirmMessage(conf) && conf.id == (MessageId(
            pre_db.next_message_id,
        )) && conf.time == now)
        &&& post_db.messages@.len() == pre_db.messages@.len() + 1
        &&& post_db.messages@.drop_last() == pre_db.messages@
        &&& {
            let m = post_db.messages@.last();
            &&& m.id == (MessageId(pre_db.next_message_id))
            &&& m.community == message.to_community
            &&& m.room == message.to_room
            &&& m.author == h.user
            &&& m.sent_at == now
            &&& m.content == message.content
        }
        &&& post_db.next_message_id == pre_db.next_message_id + 1
    })
    &&& (r is Ok ==> exists|a: int, ui: int|
        {
            &&& 0 <= a < pre_comm.len()
            &&& (#[trigger] pre_comm[a]).community == message.to_community
            &&& 0 <= ui < pre_db.users@.len()
            &&& (#[trigger] pre_db.users@[ui]).id == h.user
            &&& post_s.sessions@.len() == pre_s.sessions@.len()
            &&& forall|j: int|
                #![trigger post_s.sessions@[j]]
                0 <= j < pre_s.sessions@.len() ==> {
                    let e = crate::session::spec_message_event(
                        message.to_community,
                        message.to_room,
                        h.user,
                        MessageId(pre_db.next_message_id),
                        pre_db.users@[ui].profile_version,
                        now,
                        message.content,
                    );
                    let targets = fanout_of(pre_comm[a].online@, h.device);
                    if (exists|k: int|
                        0 <= k < targets.len() && (#[trigger] targets[k]).device
                            == pre_s.sessions@[j].device) && pre_s.sessions@[j].slot is Active {
                        &&& post_s.sessions@[j].user == pre_s.sessions@[j].user
                        &&& post_s.sessions@[j].device == pre_s.sessions@[j].device
                        &&& (pre_s.sessions@[j].slot matches crate::session::SessionSlot::Active(
                            hd,
                        ) ==> (post_s.sessions@[j].slot matches
                            crate::session::SessionSlot::Active(hd2) && hd2.mailbox@
                            == hd.mailbox@.push(e) && hd2.looking_at == hd.looking_at))
                    } else {
                        post_s.sessions@[j] == pre_s.sessions@[j]
                    }
                }
        })
}

/// What serving a message edit guarantees: the stored record keeps its
/// place and identity, only its content and edited mark change.
pub open spec fn edit_message_post(
    h: RequestHandler,
    pre_db: Database,
    post_db: Database,
    edit: crate::proto::Edit,
    r: ResponseResult,
) -> bool {
    &&& (r == Err::<OkResponse, ErrResponse>(ErrResponse::InvalidCommunity) <==> !pre_db.is_member(
        edit.community,
        h.user,
    ))
    &&& (pre_db.is_member(edit.community, h.user) ==> (r == Err::<OkResponse, ErrResponse>(
        ErrResponse::InvalidMessage,
    ) <==> !(exists|i: int|
        0 <= i < pre_db.messages@.len() && (#[trigger] pre_db.messages@[i]).id == edit.message
            && pre_db.messages@[i].community == edit.community && pre_db.messages@[i].room
            == edit.room)))
    &&& (r is Err ==> (r == Err::<OkResponse, ErrResponse>(ErrResponse::InvalidCommunity) || r
        == Err::<OkResponse, ErrResponse>(ErrResponse::InvalidMessage)))
    &&& (r is Err ==> post_db == pre_db)
    &&& (r matches Ok(res) ==> res is NoData)
    &&& (r is Ok ==> crate::store::messages::only_messages_changed(pre_db, post_db))
    &&& (r is Ok ==> post_db.next_message_id == pre_db.next_message_id)
    &&& (r is Ok ==> exists|i: int|
        {
            &&& 0 <= i < pre_db.messages@.len()
            &&& (#[trigger] pre_db.messages@[i]).id == edit.message
            &&& post_db.messages@.len() == pre_db.messages@.len()
            &&& post_db.messages@[i].id == edit.message
            &&& post_db.messages@[i].community == edit.community
            &&& post_db.messages@[i].room == edit.room
            &&& post_db.messages@[i].author == pre_db.messages@[i].author
            &&& post_db.messages@[i].sent_at == pre_db.messages@[i].sent_at
            &&& post_db.messages@[i].content == edit.new_content
            &&& post_db.messages@[i].edited
            &&& forall|j: int|
                0 <= j < pre_db.messages@.len() && j != i ==> post_db.messages@[j]
                    == pre_db.messages@[j]
        })
}

impl RequestHandler {
    /// Serves a message send: the message is persisted under a fresh
    /// time-ordered id first, the sender gets the id and timestamp
    /// back, and the event goes out to every online device of the
    /// community except the sender's own.
    #[verifier::rlimit(60)]
    pub fn send_message(&self, state: &mut ServerState, message: ClientSentMessage, now: u64) -> (r:
        ResponseResult)
        requires
            old(state).wf(),
            old(state).db.next_message_id < u64::MAX,
        ensures
            final(state).wf(),
            final(state).communities == old(state).communities,
            final(state).limiter == old(state).limiter,
            send_message_post(
                *self,
                old(state).db,
                old(state).sessions,
                old(state).communities@,
                final(state).db,
                final(state).sessions,
                message,
                now,
                r,
            ),
    {
        if !state.db.contains_membership(message.to_community, self.user) {
            return Err(ErrResponse::InvalidCommunity);
        }
        let actor_idx = match state.find_actor(message.to_community) {
            Some(i) => i,
            None => {
                return Err(ErrResponse::InvalidCommunity);
            },
        };
        let profile = match state.db.get_user_profile(self.user) {
            Some(p) => p,
            None => {
                return Err(ErrResponse::InvalidUser);
            },
        };
        let content_copy = message.content.clone();
        let confirmation = state.db.persist_message(
            message.to_community,
            message.to_room,
            self.user,
            profile.version,
            message.content,
            now,
        );
        proof {
            assert(state.db.messages@.drop_last() =~= old(state).db.messages@);
        }
        let recipients = state.communities[actor_idx].fanout_recipients(self.device);
        state.sessions.deliver_message_event(
            &recipients,
            message.to_community,
            message.to_room,
            self.user,
            confirmation.id,
            profile.version,
            now,
            &content_copy,
        );
        Ok(OkResponse::ConfirmMessage(confirmation))
    }
}


/// The room list of a community as served to clients; rooms start
/// marked unread.
pub open spec fn room_structures_of(rooms: Seq<RoomRecord>) -> Seq<RoomStructure> {
    rooms.map_values(|r: RoomRecord| RoomStructure { id: r.id, name: r.name, unread: true })
}


/// What serving a community creation guarantees: the only library-owed
/// failure is a deleted creator; a clash of the randomly drawn id is
/// reported as internal with nothing written. On success the community
/// row, the creator's membership and a fresh actor holding the creating
/// device all exist.
pub open spec fn create_community_post(
    h: RequestHandler,
    pre_db: Database,
    pre_s: SessionManager,
    pre_comm: Seq<CommunityActor>,
    post_db: Database,
    post_s: SessionManager,
    post_comm: Seq<CommunityActor>,
    name: String,
    r: ResponseResult,
) -> bool {
    &&& (r == Err::<OkResponse, ErrResponse>(ErrResponse::UserDeleted) <==> !pre_db.has_user(
        h.user,
    ))
    &&& (r is Err ==> (r == Err::<OkResponse, ErrResponse>(ErrResponse::UserDeleted) || r
        == Err::<OkResponse, ErrResponse>(ErrResponse::Internal)))
    &&& (r is Err ==> post_db == pre_db && post_s == pre_s && post_comm == pre_comm)
    &&& post_s == pre_s
    &&& (r matches Ok(res) ==> (res matches OkResponse::AddCommunity(c) && {
        &&& post_db.communities@.len() == pre_db.communities@.len() + 1
        &&& post_db.communities@.drop_last() == pre_db.communities@
        &&& post_db.communities@.last().id == c.id
        &&& post_db.communities@.last().name == name
        &&& c.name == name
        &&& c.rooms@.len() == 0
        &&& !pre_db.has_community(c.id)
        &&& post_db.memberships@ == pre_db.memberships@.push(
            crate::store::Membership { community: c.id, user: h.user },
        )
        &&& post_db.is_member(c.id, h.user)
        &&& post_db.users == pre_db.users
        &&& post_db.tokens == pre_db.tokens
        &&& post_db.rooms == pre_db.rooms
        &&& post_db.messages == pre_db.messages
        &&& post_db.room_states == pre_db.room_states
        &&& post_db.invite_codes == pre_db.invite_codes
        &&& post_db.next_message_id == pre_db.next_message_id
        &&& post_comm.len() == pre_comm.len() + 1
        &&& post_comm.drop_last() == pre_comm
        &&& post_comm.last().community == c.id
        &&& (exists|k: int|
            0 <= k < post_comm.last().online@.len() && (
            #[trigger] post_comm.last().online@[k]).device == h.device)
    }))
}


/// What serving a room creation guarantees: it fails only on a
/// community the session is no member of (or whose actor is missing),
/// or internally on a clash of the randomly drawn room id with nothing
/// written; on success the room row exists and every online device of
/// the community with a live session hears of it.
pub open spec fn create_room_post(
    h: RequestHandler,
    pre_db: Database,
    pre_s: SessionManager,
    pre_comm: Seq<CommunityActor>,
    post_db: Database,
    post_s: SessionManager,
    name: String,
    community: CommunityId,
    r: ResponseResult,
) -> bool {
    &&& (r == Err::<OkResponse, ErrResponse>(ErrResponse::InvalidCommunity) <==> !(
    pre_db.is_member(community, h.user) && (exists|a: int|
        0 <= a < pre_comm.len() && (#[trigger] pre_comm[a]).community == community)
        && pre_db.has_community(community)))
    &&& (r is Err ==> (r == Err::<OkResponse, ErrResponse>(ErrResponse::InvalidCommunity) || r
        == Err::<OkResponse, ErrResponse>(ErrResponse::Internal)))
    &&& (r is Err ==> post_db == pre_db && post_s == pre_s)
    &&& (r is Ok ==> crate::store::communities::only_rooms_changed(pre_db, post_db))
    &&& (r matches Ok(res) ==> (res matches OkResponse::AddRoom { community: c, room } && {
        &&& c == community
        &&& post_db.rooms@.len() == pre_db.rooms@.len() + 1
        &&& post_db.rooms@.last().id == room.id
        &&& post_db.rooms@.last().community == community
        &&& post_db.rooms@.last().name == room.name
        &&& room.name == name
        &&& post_db.rooms@.drop_last() == pre_db.rooms@
    }))
    &&& (r matches Ok(res) ==> (res matches OkResponse::AddRoom { community: c, room } ==> (
    exists|a: int|
        0 <= a < pre_comm.len() && (#[trigger] pre_comm[a]).community == community && {
            &&& post_s.sessions@.len() == pre_s.sessions@.len()
            &&& forall|j: int|
                #![trigger post_s.sessions@[j]]
                0 <= j < pre_s.sessions@.len() ==> {
                    let e = crate::session::spec_room_event(community, room.id, room.name);
                    if (exists|k: int|
                        0 <= k < pre_comm[a].online@.len() && (
                        #[trigger] pre_comm[a].online@[k]).device == pre_s.sessions@[j].device)
                        && pre_s.sessions@[j].slot is Active {
                        pre_s.sessions@[j].slot matches crate::session::SessionSlot::Active(hd)
                            ==> (post_s.sessions@[j].slot matches
                            crate::session::SessionSlot::Active(hd2) && hd2.mailbox@
                            == hd.mailbox@.push(e))
                    } else {
                        post_s.sessions@[j] == pre_s.sessions@[j]
                    }
                }
        })))
}

/// What serving an invite creation guarantees: the cap is an exact
/// condition, a clash of the randomly drawn code is internal with
/// nothing written, and a successful code is short and URL-safe.
pub open spec fn create_invite_post(
    h: RequestHandler,
    pre_db: Database,
    post_db: Database,
    community: CommunityId,
    expiration_date: Option<u64>,
    max: int,
    now: u64,
    r: ResponseResult,
) -> bool {
    &&& (r == Err::<OkResponse, ErrResponse>(ErrResponse::InvalidCommunity) <==> !pre_db.is_member(
        community,
        h.user,
    ))
    &&& (pre_db.is_member(community, h.user) ==> (r == Err::<OkResponse, ErrResponse>(
        ErrResponse::TooManyInviteCodes,
    ) <==> crate::store::invites::active_invites(pre_db.invite_codes@, community, now).len()
        >= max))
    &&& (r is Err ==> (r == Err::<OkResponse, ErrResponse>(ErrResponse::InvalidCommunity) || r
        == Err::<OkResponse, ErrResponse>(ErrResponse::TooManyInviteCodes) || r == Err::<
        OkResponse,
        ErrResponse,
    >(ErrResponse::Internal)))
    &&& (r is Err ==> post_db == pre_db)
    &&& (r is Ok ==> crate::store::invites::only_invites_changed(pre_db, post_db))
    &&& (r matches Ok(res) ==> (res matches OkResponse::NewInvite(code) && {
        &&& post_db.invite_codes@.len() == pre_db.invite_codes@.len() + 1
        &&& post_db.invite_codes@.drop_last() == pre_db.invite_codes@
        &&& post_db.invite_codes@.last().code@ == code.0@
        &&& post_db.invite_codes@.last().community == community
        &&& post_db.invite_codes@.last().expiration_date == expiration_date
        &&& code.0@.len() == 8
        &&& code.0@.len() <= crate::MAX_INVITE_CODE_LENGTH
        &&& forall|k: int|
            0 <= k < code.0@.len() ==> crate::store::invites::url_safe_byte(
                #[trigger] code.0@[k],
            )
    }))
}


/// What joining a community by id guarantees: exact error conditions,
/// success owed whenever the community, its actor and the user exist
/// and the user is no member yet, and on success the membership row,
/// the connected device and the community's description.
pub open spec fn join_by_id_post(
    h: RequestHandler,
    pre_db: Database,
    pre_s: SessionManager,
    pre_comm: Seq<CommunityActor>,
    post_db: Database,
    post_s: SessionManager,
    post_comm: Seq<CommunityActor>,
    id: CommunityId,
    r: ResponseResult,
) -> bool {
    &&& (r == Err::<OkResponse, ErrResponse>(ErrResponse::InvalidCommunity) <==> !(
    pre_db.has_community(id) && (exists|a: int|
        0 <= a < pre_comm.len() && (#[trigger] pre_comm[a]).community == id)))
    &&& (pre_db.has_community(id) && (exists|a: int|
        0 <= a < pre_comm.len() && (#[trigger] pre_comm[a]).community == id) ==> (r == Err::<
        OkResponse,
        ErrResponse,
    >(ErrResponse::InvalidUser) <==> !pre_db.has_user(h.user)))
    &&& (pre_db.has_community(id) && (exists|a: int|
        0 <= a < pre_comm.len() && (#[trigger] pre_comm[a]).community == id) && pre_db.has_user(
        h.user,
    ) ==> (r == Err::<OkResponse, ErrResponse>(ErrResponse::AlreadyInCommunity)
        <==> pre_db.is_member(id, h.user)))
    &&& (r is Err ==> (r == Err::<OkResponse, ErrResponse>(ErrResponse::InvalidCommunity) || r
        == Err::<OkResponse, ErrResponse>(ErrResponse::AlreadyInCommunity) || r == Err::<
        OkResponse,
        ErrResponse,
    >(ErrResponse::InvalidUser)))
    &&& (r is Err ==> post_db == pre_db && post_s == pre_s && post_comm == pre_comm)
    &&& (r is Ok ==> crate::store::communities::only_memberships_changed(pre_db, post_db))
    // the joined community is announced to the user's other live
    // sessions; everyone else is untouched
    &&& (r matches Ok(res) ==> (res matches OkResponse::AddCommunity(c) ==> {
        &&& post_s.sessions@.len() == pre_s.sessions@.len()
        &&& forall|j: int|
            #![trigger post_s.sessions@[j]]
            0 <= j < pre_s.sessions@.len() ==> {
                if pre_s.sessions@[j].user == h.user && pre_s.sessions@[j].device != h.device
                    && pre_s.sessions@[j].slot is Active {
                    &&& post_s.sessions@[j].user == pre_s.sessions@[j].user
                    &&& post_s.sessions@[j].device == pre_s.sessions@[j].device
                    &&& (pre_s.sessions@[j].slot matches crate::session::SessionSlot::Active(hd)
                        ==> (post_s.sessions@[j].slot matches
                        crate::session::SessionSlot::Active(hd2)
                        && crate::session::community_event_appended(
                        hd.mailbox@,
                        hd2.mailbox@,
                        c,
                    ) && hd2.looking_at == hd.looking_at))
                } else {
                    post_s.sessions@[j] == pre_s.sessions@[j]
                }
            }
    }))
    &&& (r matches Ok(res) ==> (res matches OkResponse::AddCommunity(c) && {
        &&& c.id == id
        &&& c.rooms@ == room_structures_of(rooms_in(pre_db.rooms@, id))
        &&& post_db.memberships@ == pre_db.memberships@.push(
            crate::store::Membership { community: id, user: h.user },
        )
        &&& post_db.is_member(id, h.user)
        &&& !pre_db.is_member(id, h.user)
        &&& post_comm.len() == pre_comm.len()
        &&& exists|a: int|
            0 <= a < post_comm.len() && (#[trigger] post_comm[a]).community == id && (
            exists|k: int|
                0 <= k < post_comm[a].online@.len() && (#[trigger] post_comm[a].online@[k]).device
                    == h.device) && (forall|b: int|
                0 <= b < pre_comm.len() && b != a ==> post_comm[b] == pre_comm[b])
    }))
}

/// What joining by invite code guarantees on top: an overlong, unknown
/// or expired code is rejected exactly, with nothing changed.
pub open spec fn join_community_post(
    h: RequestHandler,
    pre_db: Database,
    pre_s: SessionManager,
    pre_comm: Seq<CommunityActor>,
    post_db: Database,
    post_s: SessionManager,
    post_comm: Seq<CommunityActor>,
    code: InviteCode,
    now: u64,
    r: ResponseResult,
) -> bool {
    &&& (r == Err::<OkResponse, ErrResponse>(ErrResponse::InvalidInviteCode) <==> (code.0@.len()
        > crate::MAX_INVITE_CODE_LENGTH || !(exists|j: int|
        0 <= j < pre_db.invite_codes@.len() && (#[trigger] pre_db.invite_codes@[j]).code@
            == code.0@ && !crate::store::invites::invite_expired(pre_db.invite_codes@[j], now))))
    &&& (r == Err::<OkResponse, ErrResponse>(ErrResponse::InvalidInviteCode) ==> post_db == pre_db
        && post_s == pre_s && post_comm == pre_comm)
    &&& (r is Err ==> (r == Err::<OkResponse, ErrResponse>(ErrResponse::InvalidInviteCode) || r
        == Err::<OkResponse, ErrResponse>(ErrResponse::InvalidCommunity) || r == Err::<
        OkResponse,
        ErrResponse,
    >(ErrResponse::AlreadyInCommunity) || r == Err::<OkResponse, ErrResponse>(
        ErrResponse::InvalidUser,
    )))
    &&& (r matches Ok(res) ==> (res matches OkResponse::AddCommunity(c) && exists|j: int|
        0 <= j < pre_db.invite_codes@.len() && (#[trigger] pre_db.invite_codes@[j]).code@
            == code.0@ && pre_db.invite_codes@[j].community == c.id
            && !crate::store::invites::invite_expired(pre_db.invite_codes@[j], now)
            && join_by_id_post(h, pre_db, pre_s, pre_comm, post_db, post_s, post_comm, c.id, r)))
}

impl RequestHandler {
    /// Builds the description of one community for clients: its
    /// metadata and its room list.
    fn community_structure(&self, state: &ServerState, community: CommunityId) -> (r: Option<
        crate::proto::CommunityStructure,
    >)
        requires
            state.wf(),
        ensures
            r is Some <==> state.db.has_community(community),
            r matches Some(c) ==> {
                &&& c.id == community
                &&& exists|i: int|
                    0 <= i < state.db.communities@.len() && (
                    #[trigger] state.db.communities@[i]).id == community
                        && c.name == state.db.communities@[i].name
                        && c.description == state.db.communities@[i].description
                &&& c.rooms@ == room_structures_of(rooms_in(state.db.rooms@, community))
            },
    {
        let meta = match state.db.get_community_metadata(community) {
            Some(m) => m,
            None => {
                return None;
            },
        };
        let room_records = state.db.rooms_of_community(community);
        let mut rooms: Vec<RoomStructure> = Vec::new();
        let mut k: usize = 0;
        while k < room_records.len()
            invariant
                k <= room_records@.len(),
                rooms@.len() == k,
                forall|t: int|
                    0 <= t < k ==> #[trigger] rooms@[t] == (RoomStructure {
                        id: room_records@[t].id,
                        name: room_records@[t].name,
                        unread: true,
                    }),
            decreases room_records@.len() - k,
        {
            let rec = &room_records[k];
            rooms.push(RoomStructure { id: rec.id, name: rec.name.clone(), unread: true });
            k = k + 1;
        }
        proof {
            assert(rooms@ =~= room_structures_of(room_records@));
        }
        Some(
            crate::proto::CommunityStructure {
                id: meta.id,
                name: meta.name,
                description: meta.description,
                rooms,
            },
        )
    }

    /// Serves a community creation: records the community, makes its
    /// actor, joins the creator, and connects the creating device.
    #[verifier::rlimit(60)]
    pub fn create_community(&self, state: &mut ServerState, name: String) -> (r:
        ResponseResult)
        requires
            old(state).wf(),
        ensures
            final(state).wf(),
            final(state).limiter == old(state).limiter,
            create_community_post(
                *self,
                old(state).db,
                old(state).sessions,
                old(state).communities@,
                final(state).db,
                final(state).sessions,
                final(state).communities@,
                name,
                r,
            ),
    {
        if state.db.find_user_by_id(self.user).is_none() {
            return Err(ErrResponse::UserDeleted);
        }
        let id = CommunityId(wrappers::fresh_id_bits());
        // reject a clashing random id before anything is written
        if state.db.find_community(id).is_some() {
            return Err(ErrResponse::Internal);
        }
        if state.find_actor(id).is_some() {
            return Err(ErrResponse::Internal);
        }
        if state.db.contains_membership(id, self.user) {
            return Err(ErrResponse::Internal);
        }
        let name_copy = name.clone();
        let created = state.db.create_community(id, name, None);
        proof {
            assert(created);
            assert(state.db.communities@[state.db.communities@.len() - 1].id == id);
            assert(state.db.has_community(id));
        }
        match state.db.insert_membership(id, self.user) {
            Ok(()) => {},
            Err(_) => {
                proof {
                    assert(false);
                }
            },
        }
        let mut actor = CommunityActor::new(id);
        actor.connect(self.user, self.device);
        let ghost actorg = actor;
        state.communities.push(actor);
        proof {
            let a = state.communities@.len() - 1;
            assert(state.communities@[a] == actorg);
            let k = choose|k: int|
                0 <= k < actorg.online@.len() && (#[trigger] actorg.online@[k]).device
                    == self.device;
            assert(state.communities@[a].online@[k].device == self.device);
            assert(state.db.memberships@[state.db.memberships@.len() - 1] == (
            crate::store::Membership { community: id, user: self.user }));
            assert(state.db.is_member(id, self.user));
            assert(state.communities@[a].community == id);
            assert(state.db.communities@.drop_last() =~= old(state).db.communities@);
            assert(state.communities@.drop_last() =~= old(state).communities@);
            assert forall|i: int, j: int|
                0 <= i < j < state.communities@.len() implies (
            #[trigger] state.communities@[i]).community != (
            #[trigger] state.communities@[j]).community by {
                if j < state.communities@.len() - 1 {
                    assert(old(state).communities@[i].community != old(
                        state,
                    ).communities@[j].community);
                } else {
                    assert(state.communities@[j].community == id);
                    assert(state.communities@[i] == old(state).communities@[i]);
                }
            }
        }
        Ok(
            OkResponse::AddCommunity(
                crate::proto::CommunityStructure {
                    id,
                    name: name_copy,
                    description: None,
                    rooms: Vec::new(),
                },
            ),
        )
    }

    /// Serves a room creation in a joined community: the room is
    /// recorded and announced to every online device of the community
    /// with a live session.
    #[verifier::rlimit(60)]
    pub fn create_room(&self, state: &mut ServerState, name: String, community: CommunityId) -> (r:
        ResponseResult)
        requires
            old(state).wf(),
        ensures
            final(state).wf(),
            final(state).communities == old(state).communities,
            final(state).limiter == old(state).limiter,
            create_room_post(
                *self,
                old(state).db,
                old(state).sessions,
                old(state).communities@,
                final(state).db,
                final(state).sessions,
                name,
                community,
                r,
            ),
    {
        if !state.db.contains_membership(community, self.user) {
            return Err(ErrResponse::InvalidCommunity);
        }
        let actor_idx = match state.find_actor(community) {
            Some(i) => i,
            None => {
                return Err(ErrResponse::InvalidCommunity);
            },
        };
        if state.db.find_community(community).is_none() {
            return Err(ErrResponse::InvalidCommunity);
        }
        let id = RoomId(wrappers::fresh_id_bits());
        // reject a clashing random id before anything is written
        if state.db.find_room(id).is_some() {
            return Err(ErrResponse::Internal);
        }
        let name_copy = name.clone();
        let created = state.db.create_room(id, community, name);
        proof {
            assert(created);
            assert(state.db.rooms@.drop_last() =~= old(state).db.rooms@);
        }
        let targets = state.communities[actor_idx].online_devices();
        state.sessions.deliver_room_event(&targets, community, id, &name_copy);
        Ok(
            OkResponse::AddRoom {
                community,
                room: RoomStructure { id, name: name_copy, unread: true },
            },
        )
    }

    /// Serves an invite-code creation for a joined community: a fresh
    /// URL-safe code bound to the community, refused once the community
    /// already holds the configured number of active codes.
    #[verifier::rlimit(60)]
    pub fn create_invite(
        &self,
        state: &mut ServerState,
        community: CommunityId,
        expiration_date: Option<u64>,
        now: u64,
    ) -> (r: ResponseResult)
        requires
            old(state).wf(),
        ensures
            final(state).wf(),
            final(state).sessions == old(state).sessions,
            final(state).communities == old(state).communities,
            final(state).limiter == old(state).limiter,
            create_invite_post(
                *self,
                old(state).db,
                final(state).db,
                community,
                expiration_date,
                old(state).config.max_invite_codes_per_community as int,
                now,
                r,
            ),
    {
        if !state.db.contains_membership(community, self.user) {
            return Err(ErrResponse::InvalidCommunity);
        }
        let bits = wrappers::fresh_token_bits();
        let code = crate::store::invites::invite_code_from_bits(#[verifier::truncate] (bits
            as u64));
        let code_copy = crate::InviteCode(crate::store::copy_bytes(&code.0));
        let max = state.config.max_invite_codes_per_community;
        let active = state.db.count_active_invites(community, now);
        if active >= max {
            return Err(ErrResponse::TooManyInviteCodes);
        }
        if !state.db.create_invite_code(community, code, expiration_date, max, now) {
            // the drawn code collided with a stored one; the client
            // simply retries
            return Err(ErrResponse::Internal);
        }
        proof {
            assert(state.db.invite_codes@.drop_last() =~= old(state).db.invite_codes@);
        }
        Ok(OkResponse::NewInvite(code_copy))
    }

    /// Serves a community join by invite code: resolves the code,
    /// inserts the membership, connects the joining device to the
    /// community's actor, and returns the community's description.
    #[verifier::rlimit(60)]
    pub fn join_community(&self, state: &mut ServerState, code: InviteCode, now: u64) -> (r:
        ResponseResult)
        requires
            old(state).wf(),
        ensures
            final(state).wf(),
            final(state).limiter == old(state).limiter,
            join_community_post(
                *self,
                old(state).db,
                old(state).sessions,
                old(state).communities@,
                final(state).db,
                final(state).sessions,
                final(state).communities@,
                code,
                now,
                r,
            ),
    {
        if code.0.len() > crate::MAX_INVITE_CODE_LENGTH {
            return Err(ErrResponse::InvalidInviteCode);
        }
        let community = match state.db.get_community_from_invite_code(&code, now) {
            Some(c) => c,
            None => {
                return Err(ErrResponse::InvalidInviteCode);
            },
        };
        let r = self.join_community_by_id(state, community);
        proof {
            if r is Err {
                assert(r != Err::<OkResponse, ErrResponse>(ErrResponse::InvalidInviteCode));
            }
        }
        r
    }

    /// Joins the session's user to a community by id and connects the
    /// joining device to the community's actor.
    #[verifier::rlimit(60)]
    pub fn join_community_by_id(&self, state: &mut ServerState, id: CommunityId) -> (r:
        ResponseResult)
        requires
            old(state).wf(),
        ensures
            final(state).wf(),
            final(state).limiter == old(state).limiter,
            join_by_id_post(
                *self,
                old(state).db,
                old(state).sessions,
                old(state).communities@,
                final(state).db,
                final(state).sessions,
                final(state).communities@,
                id,
                r,
            ),
    {
        let actor_idx = match state.find_actor(id) {
            Some(i) => i,
            None => {
                return Err(ErrResponse::InvalidCommunity);
            },
        };
        let structure = match self.community_structure(state, id) {
            Some(s) => s,
            None => {
                return Err(ErrResponse::InvalidCommunity);
            },
        };
        match state.db.insert_membership(id, self.user) {
            Ok(()) => {},
            Err(e) => {
                return Err(e);
            },
        }
        let mut actor = state.communities.remove(actor_idx);
        actor.connect(self.user, self.device);
        let ghost actorg = actor;
        state.communities.insert(actor_idx, actor);
        proof {
            assert(state.communities@ =~= old(state).communities@.update(
                actor_idx as int,
                actorg,
            ));
            let k = choose|k: int|
                0 <= k < actorg.online@.len() && (#[trigger] actorg.online@[k]).device
                    == self.device;
            assert(state.communities@[actor_idx as int].online@[k].device == self.device);
            assert(state.db.memberships@[state.db.memberships@.len() - 1] == (
            crate::store::Membership { community: id, user: self.user }));
            assert(state.db.is_member(id, self.user));
            assert forall|i: int, j: int|
                0 <= i < j < state.communities@.len() implies (
            #[trigger] state.communities@[i]).community != (
            #[trigger] state.communities@[j]).community by {
                assert(state.communities@[i].community == old(state).communities@[i].community);
                assert(state.communities@[j].community == old(state).communities@[j].community);
                assert(old(state).communities@[i].community != old(
                    state,
                ).communities@[j].community);
            }
            assert(state.communities@[actor_idx as int].community == id);
        }
        state.sessions.broadcast_community_to_user(self.user, self.device, &structure);
        Ok(OkResponse::AddCommunity(structure))
    }
}


impl ServerState {
    /// Establishes a live session: authenticates the device's token,
    /// evicts any previous session of the same device (which receives a
    /// logout event before its mailbox is handed back for a final
    /// flush), installs the new session, connects the device to the
    /// actors of the user's communities, and builds the snapshot the
    /// client receives first.
    #[verifier::rlimit(100)]
    pub fn connect(&mut self, device: DeviceId, token: AuthToken, now: u64) -> (r: Result<
        (ClientReady, Option<Vec<ServerEvent>>),
        AuthError,
    >)
        requires
            old(self).wf(),
        ensures
            final(self).wf(),
            r is Ok ==> final(self).sessions.is_active(device),
            r matches Ok((ready, evicted)) ==> {
                &&& (evicted is Some <==> old(self).sessions.is_active(device))
                &&& (evicted matches Some(ev) ==> ev@.len() > 0 && ev@.last()
                    == ServerEvent::SessionLoggedOut)
            },
            r matches Ok((ready, evicted)) ==> exists|i: int|
                {
                    &&& 0 <= i < old(self).db.tokens@.len()
                    &&& (#[trigger] old(self).db.tokens@[i]).device == device
                    &&& ready.user == old(self).db.tokens@[i].user
                    &&& old(self).db.tokens@[i].token_hash == token_digest(
                        token.0,
                        old(self).db.tokens@[i].hash_scheme_version,
                    )
                    &&& !token_expired(
                        old(self).db.tokens@[i],
                        now,
                        old(self).config.token_expiry_days,
                    )
                },
            r matches Ok((ready, evicted)) ==> forall|k: int|
                0 <= k < ready.communities@.len() ==> old(self).db.is_member(
                    (#[trigger] ready.communities@[k]).id,
                    ready.user,
                ),
            !old(self).db.has_device(device) && !old(self).db.device_swept(device) ==> r == Err::<
                (ClientReady, Option<Vec<ServerEvent>>),
                AuthError,
            >(AuthError::InvalidToken),
            !old(self).db.has_device(device) && old(self).db.device_swept(device) ==> r == Err::<
                (ClientReady, Option<Vec<ServerEvent>>),
                AuthError,
            >(AuthError::TokenExpired),
            // a stored, digest-matching, unexpired token of an existing,
            // unlocked account always connects; any previous session of
            // the device is evicted, never an obstacle
            (exists|i: int, k: int|
                {
                    &&& 0 <= i < old(self).db.tokens@.len()
                    &&& (#[trigger] old(self).db.tokens@[i]).device == device
                    &&& old(self).db.tokens@[i].token_hash == token_digest(
                        token.0,
                        old(self).db.tokens@[i].hash_scheme_version,
                    )
                    &&& !token_expired(
                        old(self).db.tokens@[i],
                        now,
                        old(self).config.token_expiry_days,
                    )
                    &&& 0 <= k < old(self).db.users@.len()
                    &&& (#[trigger] old(self).db.users@[k]).id == old(self).db.tokens@[i].user
                    &&& !old(self).db.users@[k].locked
                }) ==> r is Ok,
            r is Err ==> (r == Err::<(ClientReady, Option<Vec<ServerEvent>>), AuthError>(
                AuthError::InvalidToken,
            ) || r == Err::<(ClientReady, Option<Vec<ServerEvent>>), AuthError>(
                AuthError::TokenExpired,
            ) || r == Err::<(ClientReady, Option<Vec<ServerEvent>>), AuthError>(
                AuthError::UserLocked,
            )),
    {
        let auth = match self.authenticate(device, token, now) {
            Ok(a) => a,
            Err(e) => {
                return Err(e);
            },
        };
        let user = auth.0;

        // evict any previous session bound to this device
        let evicted = self.sessions.remove_and_notify(device);

        match self.sessions.insert(user, device) {
            Ok(()) => {},
            Err(_) => {
                // the eviction left at most a tombstone, so the claim
                // cannot be refused
                proof {
                    assert(false);
                }
            },
        }
        let upgraded = self.sessions.upgrade(device);
        proof {
            assert(upgraded);
        }

        // connect the device to the actors of the user's communities
        let ghost dbsnap = self.db;
        let ghost sesssnap = self.sessions;
        let ghost limsnap = self.limiter;
        let n = self.communities.len();
        let mut idx: usize = 0;
        while idx < n
            invariant
                n == self.communities@.len(),
                idx <= n,
                self.communities@.len() == old(self).communities@.len(),
                self.db == dbsnap,
                self.sessions == sesssnap,
                self.limiter == limsnap,
                self.db.wf(),
                self.sessions.wf(),
                self.limiter.wf(),
                self.config == old(self).config,
                forall|k: int|
                    0 <= k < n ==> (#[trigger] self.communities@[k]).community == old(
                        self,
                    ).communities@[k].community,
                forall|k: int| 0 <= k < n ==> (#[trigger] self.communities@[k]).wf(),
                forall|k: int, l: int|
                    0 <= k < l < n ==> (#[trigger] self.communities@[k]).community != (
                    #[trigger] self.communities@[l]).community,
                forall|k: int| idx <= k < n ==> #[trigger] self.communities@[k] == old(
                    self,
                ).communities@[k],
            decreases n - idx,
        {
            let c = self.communities[idx].community;
            if self.db.contains_membership(c, user) {
                let mut actor = self.communities.remove(idx);
                let ghost pre_actor = actor;
                actor.connect(user, device);
                let ghost actorg = actor;
                self.communities.insert(idx, actor);
                proof {
                    let ghost prev = old(self).communities@;
                    assert(self.communities@.len() == n);
                    assert(self.communities@[idx as int] == actorg);
                    assert(actorg.community == pre_actor.community);
                    assert forall|k: int|
                        0 <= k < n implies (#[trigger] self.communities@[k]).community == prev[
                        k].community by {
                        if k != idx {
                            if k < idx {
                                assert(self.communities@[k] == old(self).communities@[k]
                                    || self.communities@[k].community == prev[k].community);
                            }
                        }
                    }
                }
            }
            idx = idx + 1;
        }

        // the first thing the new session receives is the snapshot
        let ready = match self.build_client_ready(user) {
            Some(rdy) => rdy,
            None => {
                return Err(AuthError::InvalidToken);
            },
        };
        Ok((ready, evicted))
    }

    /// Builds the snapshot a freshly connected session receives: the
    /// user's profile and the communities the user is a member of.
    #[verifier::loop_isolation(false)]
    #[verifier::rlimit(60)]
    pub fn build_client_ready(&self, user: UserId) -> (r: Option<ClientReady>)
        requires
            self.wf(),
        ensures
            r is Some <==> self.db.has_user(user),
            r matches Some(ready) ==> {
                &&& ready.user == user
                &&& exists|i: int|
                    0 <= i < self.db.users@.len() && {
                        let u = #[trigger] self.db.users@[i];
                        &&& u.id == user
                        &&& ready.profile.version == u.profile_version
                        &&& ready.profile.username@ == u.username@
                        &&& ready.profile.display_name == u.display_name
                    }
                &&& forall|k: int|
                    0 <= k < ready.communities@.len() ==> self.db.is_member(
                        (#[trigger] ready.communities@[k]).id,
                        user,
                    )
                // the snapshot is complete: every community the user is
                // a member of, as long as it exists, appears in it
                &&& forall|j: int|
                    0 <= j < member_communities(self.db.memberships@, user).len()
                        && self.db.has_community(
                        #[trigger] member_communities(self.db.memberships@, user)[j],
                    ) ==> exists|k: int|
                        0 <= k < ready.communities@.len() && (
                        #[trigger] ready.communities@[k]).id == member_communities(
                            self.db.memberships@,
                            user,
                        )[j]
            },
    {
        let profile = match self.db.get_user_profile(user) {
            Some(p) => p,
            None => {
                return None;
            },
        };
        let ids = self.db.communities_of_user(user);
        let handler = RequestHandler {
            user,
            device: DeviceId(0),
            perms: TokenPermissionFlags(0),
        };
        let mut communities: Vec<crate::proto::CommunityStructure> = Vec::new();
        let mut k: usize = 0;
        proof {
            broadcast use vstd::seq_lib::group_filter_ensures;
        }
        while k < ids.len()
            invariant
                k <= ids@.len(),
                ids@ == member_communities(self.db.memberships@, user),
                forall|t: int|
                    0 <= t < communities@.len() ==> self.db.is_member(
                        (#[trigger] communities@[t]).id,
                        user,
                    ),
                forall|j: int|
                    0 <= j < k && self.db.has_community(#[trigger] ids@[j]) ==> exists|t: int|
                        0 <= t < communities@.len() && (#[trigger] communities@[t]).id == ids@[j],
            decreases ids@.len() - k,
        {
            let cid = ids[k];
            proof {
                lemma_member_community(self.db.memberships@, user, k as int);
            }
            let ghost comm0 = communities@;
            match handler.community_structure(self, cid) {
                Some(s) => {
                    let ghost sg = s;
                    communities.push(s);
                    proof {
                        assert(communities@.last() == sg);
                        assert(sg.id == cid);
                        assert forall|j: int|
                            0 <= j < k + 1 && self.db.has_community(#[trigger] ids@[j]) implies
                            exists|t2: int|
                            0 <= t2 < communities@.len() && (#[trigger] communities@[t2]).id
                                == ids@[j] by {
                            if j < k {
                                let t2 = choose|t2: int|
                                    0 <= t2 < comm0.len() && (#[trigger] comm0[t2]).id == ids@[j];
                                assert(communities@[t2].id == ids@[j]);
                            } else {
                                assert(communities@[communities@.len() - 1].id == ids@[j]);
                            }
                        }
                    }
                },
                None => {},
            }
            k = k + 1;
        }
        Some(ClientReady { user, profile, communities })
    }

    /// Deletes every expired token, remembers its device as swept, and
    /// tears down the live session of each deleted one. Each entry of
    /// the result carries the swept `(user, device)` pair and, when a
    /// live session was bound to it, the session's final mailbox, whose
    /// last event is the logout notice the transport flushes before the
    /// socket closes. Sessions of valid tokens are untouched.
    #[verifier::loop_isolation(false)]
    #[verifier::rlimit(60)]
    pub fn sweep_tokens(&mut self, now: u64) -> (r: Vec<
        (UserId, DeviceId, Option<Vec<ServerEvent>>),
    >)
        requires
            old(self).wf(),
        ensures
            final(self).wf(),
            final(self).db.tokens@ == crate::store::tokens::live_tokens(
                old(self).db.tokens@,
                now,
                old(self).config.token_expiry_days,
            ),
            final(self).db.expired_devices@ == old(self).db.expired_devices@
                + crate::store::tokens::devices_of_pairs(
                crate::store::tokens::swept_pairs(
                    old(self).db.tokens@,
                    now,
                    old(self).config.token_expiry_days,
                ),
            ),
            crate::store::tokens::only_token_tables_changed(old(self).db, final(self).db),
            r@.len() == crate::store::tokens::swept_pairs(
                old(self).db.tokens@,
                now,
                old(self).config.token_expiry_days,
            ).len(),
            forall|k: int|
                #![trigger r@[k]]
                0 <= k < r@.len() ==> {
                    let pair = crate::store::tokens::swept_pairs(
                        old(self).db.tokens@,
                        now,
                        old(self).config.token_expiry_days,
                    )[k];
                    &&& r@[k].0 == pair.0
                    &&& r@[k].1 == pair.1
                    &&& (r@[k].2 matches Some(ev) ==> ev@.len() > 0 && ev@.last()
                        == ServerEvent::SessionLoggedOut)
                },
            forall|k: int|
                0 <= k < r@.len() ==> !final(self).sessions.is_active((#[trigger] r@[k]).1),
            forall|d: DeviceId|
                (forall|k: int| 0 <= k < r@.len() ==> (#[trigger] r@[k]).1 != d) ==> (final(self).sessions.is_active(d) <==> old(self).sessions.is_active(d)),
    {
        let expiry_days = self.config.token_expiry_days;
        let removed = self.db.expired_tokens(now, expiry_days);
        let mut out: Vec<(UserId, DeviceId, Option<Vec<ServerEvent>>)> = Vec::new();
        let n = removed.len();
        let mut i: usize = 0;
        while i < n
            invariant
                n == removed@.len(),
                i <= n,
                out@.len() == i,
                self.sessions.wf(),
                self.db.wf(),
                self.limiter.wf(),
                forall|k: int| 0 <= k < self.communities@.len() ==> (#[trigger] self.communities@[k]).wf(),
                forall|k: int, l: int|
                    0 <= k < l < self.communities@.len() ==> (
                    #[trigger] self.communities@[k]).community != (
                    #[trigger] self.communities@[l]).community,
                forall|k: int|
                    #![trigger out@[k]]
                    0 <= k < i ==> {
                        &&& out@[k].0 == removed@[k].0
                        &&& out@[k].1 == removed@[k].1
                        &&& (out@[k].2 matches Some(ev) ==> ev@.len() > 0 && ev@.last()
                            == ServerEvent::SessionLoggedOut)
                    },
                forall|k: int|
                    0 <= k < i ==> !self.sessions.is_active((#[trigger] removed@[k]).1),
                forall|d: DeviceId|
                    (forall|k: int| 0 <= k < i ==> (#[trigger] removed@[k]).1 != d) ==> (
                    self.sessions.is_active(d) <==> old(self).sessions.is_active(d)),
                self.db == final(self).db || true,
                self.db.tokens@ == crate::store::tokens::live_tokens(
                    old(self).db.tokens@,
                    now,
                    expiry_days,
                ),
                self.db.expired_devices@ == old(self).db.expired_devices@
                    + crate::store::tokens::devices_of_pairs(removed@),
                crate::store::tokens::only_token_tables_changed(old(self).db, self.db),
                self.communities@ == old(self).communities@,
                self.config == old(self).config,
            decreases n - i,
        {
            let ghost pre = self.sessions;
            let pair = &removed[i];
            let user = pair.0;
            let device = pair.1;
            let evicted = self.sessions.remove_and_notify(device);
            let ghost out0 = out@;
            let ghost evictedg = evicted;
            out.push((user, device, evicted));
            proof {
                assert(out@ == out0.push((user, device, evictedg)));
                assert forall|k: int|
                    #![trigger out@[k]]
                    0 <= k < i + 1 implies {
                    &&& out@[k].0 == removed@[k].0
                    &&& out@[k].1 == removed@[k].1
                    &&& (out@[k].2 matches Some(ev) ==> ev@.len() > 0 && ev@.last()
                        == ServerEvent::SessionLoggedOut)
                } by {
                    if k < i {
                        assert(out@[k] == out0[k]);
                    } else {
                        assert(out@[k] == (user, device, evictedg));
                    }
                }
                assert forall|k: int|
                    0 <= k < i + 1 implies !self.sessions.is_active(
                    (#[trigger] removed@[k]).1,
                ) by {
                    if k < i {
                        if removed@[k].1 == device {
                        } else {
                            assert(pre.is_active(removed@[k].1) <==> self.sessions.is_active(
                                removed@[k].1,
                            ));
                        }
                    }
                }
                assert forall|d: DeviceId|
                    (forall|k: int| 0 <= k < i + 1 ==> (#[trigger] removed@[k]).1 != d) implies (
                self.sessions.is_active(d) <==> old(self).sessions.is_active(d)) by {
                    assert(removed@[i as int].1 != d);
                    assert(pre.is_active(d) <==> old(self).sessions.is_active(d));
                    assert(self.sessions.is_active(d) <==> pre.is_active(d));
                }
            }
            i = i + 1;
        }
        proof {
            assert forall|d: DeviceId|
                (forall|k: int| 0 <= k < out@.len() ==> (#[trigger] out@[k]).1 != d) implies (
            self.sessions.is_active(d) <==> old(self).sessions.is_active(d)) by {
                assert forall|k: int|
                    0 <= k < removed@.len() implies (#[trigger] removed@[k]).1 != d by {
                    assert(out@[k].1 == removed@[k].1);
                }
            }
        }
        out
    }

    /// Deletes every invite code whose expiration date has passed.
    pub fn sweep_invite_codes(&mut self, now: u64)
        requires
            old(self).wf(),
        ensures
            final(self).wf(),
            final(self).db.invite_codes@ == crate::store::invites::unexpired_invites(
                old(self).db.invite_codes@,
                now,
            ),
            final(self).sessions == old(self).sessions,
    {
        self.db.delete_expired_invite_codes(now);
    }
}

/// Every community id listed for a member comes from a membership row.
proof fn lemma_member_community(memberships: Seq<crate::store::Membership>, user: UserId, k: int)
    requires
        0 <= k < member_communities(memberships, user).len(),
    ensures
        exists|i: int|
            0 <= i < memberships.len() && #[trigger] memberships[i] == (crate::store::Membership {
                community: member_communities(memberships, user)[k],
                user,
            }),
    decreases memberships.len(),
{
    reveal(Seq::filter);
    if memberships.len() == 0 {
    } else {
        let rest = member_communities(memberships.drop_last(), user);
        if memberships.last().user == user && k == rest.len() {
            assert(memberships[memberships.len() - 1] == (crate::store::Membership {
                community: member_communities(memberships, user)[k],
                user,
            }));
        } else {
            lemma_member_community(memberships.drop_last(), user, k);
            let i = choose|i: int|
                0 <= i < memberships.drop_last().len() && #[trigger] memberships.drop_last()[i]
                    == (crate::store::Membership { community: rest[k], user });
            assert(memberships[i] == (crate::store::Membership {
                community: member_communities(memberships, user)[k],
                user,
            }));
        }
    }
}


impl RequestHandler {
    /// Serves a message edit: replaces the stored content and marks the
    /// message edited.
    pub fn edit_message(&self, state: &mut ServerState, edit: crate::proto::Edit) -> (r:
        ResponseResult)
        requires
            old(state).wf(),
        ensures
            final(state).wf(),
            final(state).sessions == old(state).sessions,
            final(state).communities == old(state).communities,
            final(state).limiter == old(state).limiter,
            edit_message_post(*self, old(state).db, final(state).db, edit, r),
    {
        if !state.db.contains_membership(edit.community, self.user) {
            return Err(ErrResponse::InvalidCommunity);
        }
        match state.db.edit_message_content(edit.community, edit.room, edit.message, edit.new_content) {
            Ok(()) => Ok(OkResponse::NoData),
            Err(_) => Err(ErrResponse::InvalidMessage),
        }
    }

    /// Dispatches one inbound request of the session: the permission
    /// bits of the session's token are checked first, then one
    /// rate-limit token is taken for the device, and only then is the
    /// request handled. A rate-limited request never reaches the store,
    /// and a request that passes both gates is served exactly as the
    /// per-variant handler's contract fixes.
    #[verifier::rlimit(100)]
    pub fn handle_request(
        &self,
        state: &mut ServerState,
        request: ClientRequest,
        now: u64,
    ) -> (r: ResponseResult)
        requires
            old(state).wf(),
        ensures
            final(state).wf(),
            !self.perms.spec_has_perms(spec_required_perms(request)) ==> r == Err::<
                OkResponse,
                ErrResponse,
            >(ErrResponse::AccessDenied) && *final(state) == *old(state),
            self.perms.spec_has_perms(spec_required_perms(request)) && !(forall|i: int|
                0 <= i < old(state).limiter.buckets@.len() ==> (
                #[trigger] old(state).limiter.buckets@[i]).device != self.device
                    || crate::ratelimit::bucket_allows(
                    old(state).limiter.buckets@[i],
                    old(state).limiter.burst,
                    now,
                )) ==> r == Err::<OkResponse, ErrResponse>(ErrResponse::RateLimited) && final(state).db == old(state).db && final(state).sessions == old(state).sessions
                && final(state).communities == old(state).communities,
            // once past both gates, each request variant is served under
            // its handler's exact contract
            self.perms.spec_has_perms(spec_required_perms(request)) && (forall|i: int|
                0 <= i < old(state).limiter.buckets@.len() ==> (
                #[trigger] old(state).limiter.buckets@[i]).device != self.device
                    || crate::ratelimit::bucket_allows(
                    old(state).limiter.buckets@[i],
                    old(state).limiter.burst,
                    now,
                )) && (old(state).db.next_message_id < u64::MAX || !(request is SendMessage))
                ==> match request {
                ClientRequest::SendMessage(message) => send_message_post(
                    *self,
                    old(state).db,
                    old(state).sessions,
                    old(state).communities@,
                    final(state).db,
                    final(state).sessions,
                    message,
                    now,
                    r,
                ),
                ClientRequest::EditMessage(edit) => edit_message_post(
                    *self,
                    old(state).db,
                    final(state).db,
                    edit,
                    r,
                ),
                ClientRequest::JoinCommunity(code) => join_community_post(
                    *self,
                    old(state).db,
                    old(state).sessions,
                    old(state).communities@,
                    final(state).db,
                    final(state).sessions,
                    final(state).communities@,
                    code,
                    now,
                    r,
                ),
                ClientRequest::CreateCommunity { name } => create_community_post(
                    *self,
                    old(state).db,
                    old(state).sessions,
                    old(state).communities@,
                    final(state).db,
                    final(state).sessions,
                    final(state).communities@,
                    name,
                    r,
                ),
                ClientRequest::LogOut => log_out_post(
                    *self,
                    old(state).db,
                    old(state).sessions,
                    final(state).db,
                    final(state).sessions,
                    r,
                ),
                ClientRequest::GetUserProfile(id) => profile_post(*self, old(state).db, id, r),
                ClientRequest::ChangeUsername { new_username } => change_username_post(
                    *self,
                    old(state).db,
                    final(state).db,
                    new_username,
                    r,
                ),
                ClientRequest::ChangeDisplayName { new_display_name } => change_display_name_post(
                    *self,
                    old(state).db,
                    final(state).db,
                    new_display_name,
                    r,
                ),
                ClientRequest::ChangePassword { old_password, new_password } => change_password_session_post(
                    *self,
                    old(state).db,
                    old(state).sessions,
                    final(state).db,
                    final(state).sessions,
                    old_password,
                    new_password,
                    r,
                ),
                ClientRequest::CreateRoom { name, community } => create_room_post(
                    *self,
                    old(state).db,
                    old(state).sessions,
                    old(state).communities@,
                    final(state).db,
                    final(state).sessions,
                    name,
                    community,
                    r,
                ),
                ClientRequest::CreateInvite { community, expiration_date } => create_invite_post(
                    *self,
                    old(state).db,
                    final(state).db,
                    community,
                    expiration_date,
                    old(state).config.max_invite_codes_per_community as int,
                    now,
                    r,
                ),
                ClientRequest::GetRoomUpdate { community, room, last_received, message_count } => get_room_update_post(
                    *self,
                    old(state).db,
                    community,
                    room,
                    last_received,
                    message_count as int,
                    r,
                ),
                ClientRequest::SelectRoom { community, room } => select_room_post(
                    *self,
                    old(state).db,
                    old(state).sessions,
                    final(state).db,
                    final(state).sessions,
                    community,
                    room,
                    r,
                ),
                ClientRequest::DeselectRoom => deselect_room_post(
                    *self,
                    old(state).db,
                    old(state).sessions,
                    final(state).db,
                    final(state).sessions,
                    r,
                ),
                ClientRequest::GetMessages { community, room, selector, count } => get_messages_post(
                    *self,
                    old(state).db,
                    community,
                    room,
                    selector,
                    count as int,
                    r,
                ),
                ClientRequest::SetAsRead { community, room } => set_as_read_post(
                    *self,
                    old(state).db,
                    final(state).db,
                    community,
                    room,
                    r,
                ),
            },
            // a message-id counter at its bound is reported as internal
            self.perms.spec_has_perms(spec_required_perms(request)) && request is SendMessage
                && old(state).db.next_message_id == u64::MAX && !(r == Err::<
                OkResponse,
                ErrResponse,
            >(ErrResponse::RateLimited)) ==> r == Err::<OkResponse, ErrResponse>(
                ErrResponse::Internal,
            ),
    {
        let needed = required_perms(&request);
        if !self.perms.has_perms(needed) {
            return Err(ErrResponse::AccessDenied);
        }
        if !state.limiter.check(self.device, now) {
            return Err(ErrResponse::RateLimited);
        }
        let send_would_overflow = match &request {
            ClientRequest::SendMessage(_) => state.db.next_message_id == u64::MAX,
            _ => false,
        };
        if send_would_overflow {
            return Err(ErrResponse::Internal);
        }
        match request {
            ClientRequest::SendMessage(message) => self.send_message(state, message, now),
            ClientRequest::EditMessage(edit) => self.edit_message(state, edit),
            ClientRequest::JoinCommunity(code) => self.join_community(state, code, now),
            ClientRequest::CreateCommunity { name } => self.create_community(state, name),
            ClientRequest::LogOut => self.log_out(state),
            ClientRequest::GetUserProfile(id) => self.get_user_profile(state, id),
            ClientRequest::ChangeUsername { new_username } => self.change_username(
                state,
                new_username,
            ),
            ClientRequest::ChangeDisplayName { new_display_name } => self.change_display_name(
                state,
                new_display_name,
            ),
            ClientRequest::ChangePassword { old_password, new_password } => self.change_password(
                state,
                old_password,
                new_password,
            ),
            ClientRequest::CreateRoom { name, community } => self.create_room(
                state,
                name,
                community,
            ),
            ClientRequest::CreateInvite { community, expiration_date } => self.create_invite(
                state,
                community,
                expiration_date,
                now,
            ),
            ClientRequest::GetRoomUpdate { community, room, last_received, message_count } => self
                .get_room_update(state, community, room, last_received, message_count),
            ClientRequest::SelectRoom { community, room } => self.select_room(
                state,
                community,
                room,
            ),
            ClientRequest::DeselectRoom => self.deselect_room(state),
            ClientRequest::GetMessages { community, room, selector, count } => self.get_messages(
                state,
                community,
                room,
                selector,
                count,
            ),
            ClientRequest::SetAsRead { community, room } => self.set_as_read(
                state,
                community,
                room,
            ),
        }
    }
}

} // verus!
