//! The session runtime end to end: connecting, sending, fanout,
//! eviction, rate limiting, sweeps and room updates.

use vertex::handler::{RequestHandler, ServerConfig, ServerState};
use vertex::proto::{
    AuthError, ClientRequest, ClientSentMessage, ErrResponse, OkResponse, ServerEvent,
    TokenCreationOptions, UserCredentials,
};
use vertex::proto::{Bound, MessageSelector};
use vertex::session::SessionSlot;
use vertex::{
    AuthToken, CommunityId, DeviceId, MessageId, RoomId, TokenPermissionFlags, UserId, PERM_ALL,
    RATELIMIT_BURST_PER_MIN,
};

fn config() -> ServerConfig {
    ServerConfig { token_expiry_days: 30, max_invite_codes_per_community: 1 }
}

fn creds(username: &str, password: &str) -> UserCredentials {
    UserCredentials { username: username.to_string(), password: password.to_string() }
}

fn options() -> TokenCreationOptions {
    TokenCreationOptions {
        device_name: None,
        expiration_date: None,
        permission_flags: TokenPermissionFlags(PERM_ALL),
    }
}

struct Session {
    user: UserId,
    device: DeviceId,
    token: AuthToken,
}

fn register_and_connect(state: &mut ServerState, name: &str, now: u64) -> Session {
    let user = match state.register(creds(name, "pw!"), None) {
        Ok(id) => id,
        Err(AuthError::UsernameAlreadyExists) => {
            state.db.get_user_by_name(&name.as_bytes().to_vec()).unwrap().id
        }
        Err(e) => panic!("registration failed: {:?}", e),
    };
    let (device, token) = state.create_token(creds(name, "pw!"), options(), now).unwrap();
    state.connect(device, token, now).expect("connect should succeed");
    Session { user, device, token }
}

fn handler_for(s: &Session) -> RequestHandler {
    RequestHandler { user: s.user, device: s.device, perms: TokenPermissionFlags(PERM_ALL) }
}

fn mailbox_of(state: &ServerState, device: DeviceId) -> Vec<ServerEvent> {
    for entry in state.sessions.sessions.iter() {
        if entry.device == device {
            match &entry.slot {
                SessionSlot::Active(h) => return h.mailbox.clone(),
                _ => return Vec::new(),
            }
        }
    }
    Vec::new()
}

fn create_community_and_room(
    state: &mut ServerState,
    s: &Session,
    now: u64,
) -> (CommunityId, RoomId) {
    let h = handler_for(s);
    let community = match h.handle_request(
        state,
        ClientRequest::CreateCommunity { name: "c".to_string() },
        now,
    ) {
        Ok(OkResponse::AddCommunity(c)) => c.id,
        other => panic!("unexpected response: {:?}", other),
    };
    let room = match h.handle_request(
        state,
        ClientRequest::CreateRoom { name: "general".to_string(), community },
        now,
    ) {
        Ok(OkResponse::AddRoom { room, .. }) => room.id,
        other => panic!("unexpected response: {:?}", other),
    };
    (community, room)
}

#[test]
fn register_login_send() {
    let mut state = ServerState::new(config());
    let alice = register_and_connect(&mut state, "alice", 100);

    // the fresh session sees no communities yet
    let (ready, evicted) = state.connect(alice.device, alice.token, 101).unwrap();
    assert!(evicted.is_some()); // the re-connect evicted the first session
    assert_eq!(ready.communities.len(), 0);

    let (community, room) = create_community_and_room(&mut state, &alice, 102);
    let h = handler_for(&alice);
    match h.handle_request(
        &mut state,
        ClientRequest::SendMessage(ClientSentMessage {
            to_community: community,
            to_room: room,
            content: "hi".to_string(),
        }),
        103,
    ) {
        Ok(OkResponse::ConfirmMessage(conf)) => {
            assert_eq!(conf.id, MessageId(1));
            assert_eq!(conf.time, 103);
        }
        other => panic!("unexpected response: {:?}", other),
    }
}

#[test]
fn second_device_receives_fanout_but_sender_does_not() {
    let mut state = ServerState::new(config());
    let alice = register_and_connect(&mut state, "alice", 100);
    let (community, room) = create_community_and_room(&mut state, &alice, 101);

    // a second device of the same user connects; membership already
    // exists, so the connect wires it into the community
    let (device2, token2) = state.create_token(creds("alice", "pw!"), options(), 102).unwrap();
    state.connect(device2, token2, 102).unwrap();

    let before_sender = mailbox_of(&state, alice.device).len();
    let before_second = mailbox_of(&state, device2).len();

    let h = handler_for(&alice);
    h.handle_request(
        &mut state,
        ClientRequest::SendMessage(ClientSentMessage {
            to_community: community,
            to_room: room,
            content: "x".to_string(),
        }),
        103,
    )
    .expect("send should succeed");

    // the second device got the message event; the sender did not
    let second_box = mailbox_of(&state, device2);
    assert_eq!(second_box.len(), before_second + 1);
    match second_box.last().unwrap() {
        ServerEvent::AddMessage { author, message, .. } => {
            assert_eq!(*author, alice.user);
            assert_eq!(message.content, "x".to_string());
        }
        other => panic!("unexpected event: {:?}", other),
    }
    assert_eq!(mailbox_of(&state, alice.device).len(), before_sender);
}

#[test]
fn second_connect_on_same_device_evicts_with_logout_event() {
    let mut state = ServerState::new(config());
    let alice = register_and_connect(&mut state, "alice", 100);

    let (_ready, evicted) = state.connect(alice.device, alice.token, 101).unwrap();
    let events = evicted.expect("previous session should have been evicted");
    assert_eq!(events.last().unwrap(), &ServerEvent::SessionLoggedOut);
}

#[test]
fn invalid_community_is_rejected() {
    let mut state = ServerState::new(config());
    let alice = register_and_connect(&mut state, "alice", 100);
    let h = handler_for(&alice);
    let r = h.handle_request(
        &mut state,
        ClientRequest::SendMessage(ClientSentMessage {
            to_community: CommunityId(0xdead),
            to_room: RoomId(0xbeef),
            content: "hi".to_string(),
        }),
        101,
    );
    assert_eq!(r, Err(ErrResponse::InvalidCommunity));
}

#[test]
fn rate_limit_kicks_in_after_burst() {
    let mut state = ServerState::new(config());
    let alice = register_and_connect(&mut state, "alice", 100);
    let h = handler_for(&alice);

    for _ in 0..RATELIMIT_BURST_PER_MIN {
        let r = h.handle_request(&mut state, ClientRequest::GetUserProfile(alice.user), 200);
        assert!(r.is_ok());
    }
    let r = h.handle_request(&mut state, ClientRequest::GetUserProfile(alice.user), 210);
    assert_eq!(r, Err(ErrResponse::RateLimited));

    // a fresh window opens after a minute
    let r = h.handle_request(&mut state, ClientRequest::GetUserProfile(alice.user), 261);
    assert!(r.is_ok());
}

#[test]
fn missing_permission_is_denied() {
    let mut state = ServerState::new(config());
    let alice = register_and_connect(&mut state, "alice", 100);
    let h = RequestHandler {
        user: alice.user,
        device: alice.device,
        perms: TokenPermissionFlags(0),
    };
    let r = h.handle_request(
        &mut state,
        ClientRequest::CreateCommunity { name: "c".to_string() },
        101,
    );
    assert_eq!(r, Err(ErrResponse::AccessDenied));
}

#[test]
fn expired_token_sweep_tears_down_session() {
    let mut state = ServerState::new(ServerConfig {
        token_expiry_days: 0,
        max_invite_codes_per_community: 1,
    });
    let alice = register_and_connect(&mut state, "alice", 1_000);
    assert!(mailbox_of(&state, alice.device).is_empty());

    // with a zero-day window the token is already expired a moment later
    assert_eq!(
        state.authenticate(alice.device, alice.token, 1_001),
        Err(AuthError::TokenExpired)
    );

    let swept = state.sweep_tokens(1_001);
    assert_eq!(swept.len(), 1);
    assert_eq!(swept[0].0, alice.user);
    assert_eq!(swept[0].1, alice.device);

    // the torn-down session's final mailbox ends in the logout notice
    let events = swept[0].2.as_ref().expect("the live session should have been torn down");
    assert_eq!(events.last().unwrap(), &ServerEvent::SessionLoggedOut);

    // the session is gone, and reconnecting with the swept token
    // reports the expiry
    let mut still_active = false;
    for entry in state.sessions.sessions.iter() {
        if entry.device == alice.device {
            still_active = matches!(entry.slot, SessionSlot::Active(_));
        }
    }
    assert!(!still_active);
    assert_eq!(
        state.connect(alice.device, alice.token, 1_002).err(),
        Some(AuthError::TokenExpired)
    );
}

#[test]
fn log_out_tears_down_the_session() {
    let mut state = ServerState::new(config());
    let alice = register_and_connect(&mut state, "alice", 100);
    let h = handler_for(&alice);

    h.handle_request(&mut state, ClientRequest::LogOut, 101).expect("logout should succeed");

    let mut still_active = false;
    for entry in state.sessions.sessions.iter() {
        if entry.device == alice.device {
            still_active = matches!(entry.slot, SessionSlot::Active(_));
        }
    }
    assert!(!still_active);
    assert_eq!(
        state.authenticate(alice.device, alice.token, 102),
        Err(AuthError::InvalidToken)
    );
}

#[test]
fn in_session_password_change_spares_own_device() {
    let mut state = ServerState::new(config());
    let alice = register_and_connect(&mut state, "alice", 100);
    let (device2, token2) = state.create_token(creds("alice", "pw!"), options(), 101).unwrap();
    state.connect(device2, token2, 101).unwrap();

    let h = handler_for(&alice);
    h.handle_request(
        &mut state,
        ClientRequest::ChangePassword {
            old_password: "pw!".to_string(),
            new_password: "fresh".to_string(),
        },
        102,
    )
    .expect("password change should succeed");

    // the other device's login is gone and its session torn down
    assert_eq!(state.authenticate(device2, token2, 103), Err(AuthError::InvalidToken));
    let mut other_active = false;
    for entry in state.sessions.sessions.iter() {
        if entry.device == device2 {
            other_active = matches!(entry.slot, SessionSlot::Active(_));
        }
    }
    assert!(!other_active);

    // the session's own token still authenticates
    assert!(state.authenticate(alice.device, alice.token, 103).is_ok());
}

#[test]
fn sweep_keeps_valid_tokens() {
    let mut state = ServerState::new(config());
    state.register(creds("alice", "pw!"), None).unwrap();
    let (fresh_device, fresh_token) =
        state.create_token(creds("alice", "pw!"), options(), 30 * vertex::SECONDS_PER_DAY).unwrap();
    let (old_device, _old_token) =
        state.create_token(creds("alice", "pw!"), options(), 0).unwrap();

    let now = 31 * vertex::SECONDS_PER_DAY;
    let swept = state.sweep_tokens(now);
    assert_eq!(swept.len(), 1);
    assert_eq!(swept[0].1, old_device);
    assert!(state.authenticate(fresh_device, fresh_token, now).is_ok());
}

#[test]
fn room_update_continuity() {
    let mut state = ServerState::new(config());
    let alice = register_and_connect(&mut state, "alice", 100);
    let (community, room) = create_community_and_room(&mut state, &alice, 101);
    let h = handler_for(&alice);

    let mut ids: Vec<MessageId> = Vec::new();
    for k in 0..10u64 {
        match h.send_message(
            &mut state,
            ClientSentMessage {
                to_community: community,
                to_room: room,
                content: format!("m{}", k + 1),
            },
            200 + k,
        ) {
            Ok(OkResponse::ConfirmMessage(conf)) => ids.push(conf.id),
            other => panic!("unexpected response: {:?}", other),
        }
    }
    // ids are strictly increasing in handling order
    for k in 1..ids.len() {
        assert!(ids[k - 1].0 < ids[k].0);
    }

    // everything after m3 fits in a batch of 50: continuous
    let update = match h.get_room_update(&state, community, room, Some(ids[2]), 50) {
        Ok(OkResponse::RoomUpdate(u)) => u,
        other => panic!("unexpected response: {:?}", other),
    };
    assert!(update.continuous);
    assert_eq!(update.new_messages.messages.len(), 7);
    // newest first: m10 down to m4
    assert_eq!(update.new_messages.messages[0].content, "m10".to_string());
    assert_eq!(update.new_messages.messages[6].content, "m4".to_string());

    // a batch of 4 cannot be contiguous with the newest state
    let update = match h.get_room_update(&state, community, room, Some(ids[2]), 4) {
        Ok(OkResponse::RoomUpdate(u)) => u,
        other => panic!("unexpected response: {:?}", other),
    };
    assert!(!update.continuous);
    assert_eq!(update.new_messages.messages.len(), 4);
    assert_eq!(update.new_messages.messages[0].content, "m7".to_string());
    assert_eq!(update.new_messages.messages[3].content, "m4".to_string());
}

#[test]
fn profile_version_increments_by_one() {
    let mut state = ServerState::new(config());
    let alice = register_and_connect(&mut state, "alice", 100);
    let h = handler_for(&alice);

    let v0 = state.db.get_user_profile(alice.user).unwrap().version.0;
    h.change_username(&mut state, "alice2".to_string()).unwrap();
    let v1 = state.db.get_user_profile(alice.user).unwrap().version.0;
    assert_eq!(v1, v0 + 1);
    h.change_display_name(&mut state, "Alice".to_string()).unwrap();
    let v2 = state.db.get_user_profile(alice.user).unwrap().version.0;
    assert_eq!(v2, v1 + 1);
}

#[test]
fn invites_resolve_until_expired_and_are_capped() {
    let mut state = ServerState::new(config());
    let alice = register_and_connect(&mut state, "alice", 100);
    let (community, _room) = create_community_and_room(&mut state, &alice, 101);
    let h = handler_for(&alice);

    let code = match h.create_invite(&mut state, community, Some(1_000), 102) {
        Ok(OkResponse::NewInvite(code)) => code,
        other => panic!("unexpected response: {:?}", other),
    };

    // the community already holds its one allowed active code
    assert_eq!(
        h.create_invite(&mut state, community, None, 103),
        Err(ErrResponse::TooManyInviteCodes)
    );

    // a second user joins through the code
    let bob = register_and_connect(&mut state, "bob", 104);
    let hb = handler_for(&bob);
    match hb.join_community(&mut state, code.clone(), 105) {
        Ok(OkResponse::AddCommunity(c)) => assert_eq!(c.id, community),
        other => panic!("unexpected response: {:?}", other),
    }

    // joining twice is refused
    assert_eq!(
        hb.join_community(&mut state, code.clone(), 106),
        Err(ErrResponse::AlreadyInCommunity)
    );

    // past its expiration date the code no longer resolves
    state.sweep_invite_codes(2_000);
    let carol = register_and_connect(&mut state, "carol", 107);
    let hc = handler_for(&carol);
    assert_eq!(
        hc.join_community(&mut state, code, 2_001),
        Err(ErrResponse::InvalidInviteCode)
    );
}

#[test]
fn set_as_read_tracks_newest_message() {
    let mut state = ServerState::new(config());
    let alice = register_and_connect(&mut state, "alice", 100);
    let (community, room) = create_community_and_room(&mut state, &alice, 101);
    let h = handler_for(&alice);

    let conf = match h.send_message(
        &mut state,
        ClientSentMessage {
            to_community: community,
            to_room: room,
            content: "hello".to_string(),
        },
        102,
    ) {
        Ok(OkResponse::ConfirmMessage(c)) => c,
        other => panic!("unexpected response: {:?}", other),
    };

    h.set_as_read(&mut state, community, room).expect("mark as read should succeed");
    assert_eq!(state.db.get_last_read(alice.user, room), Some(conf.id));
}

#[test]
fn edit_message_updates_content() {
    let mut state = ServerState::new(config());
    let alice = register_and_connect(&mut state, "alice", 100);
    let (community, room) = create_community_and_room(&mut state, &alice, 101);
    let h = handler_for(&alice);

    let conf = match h.send_message(
        &mut state,
        ClientSentMessage {
            to_community: community,
            to_room: room,
            content: "tpyo".to_string(),
        },
        102,
    ) {
        Ok(OkResponse::ConfirmMessage(c)) => c,
        other => panic!("unexpected response: {:?}", other),
    };

    h.edit_message(
        &mut state,
        vertex::proto::Edit {
            community,
            room,
            message: conf.id,
            new_content: "typo".to_string(),
        },
    )
    .expect("edit should succeed");

    let update = match h.get_room_update(&state, community, room, None, 10) {
        Ok(OkResponse::RoomUpdate(u)) => u,
        other => panic!("unexpected response: {:?}", other),
    };
    assert_eq!(update.new_messages.messages[0].content, "typo".to_string());
}

#[test]
fn history_selectors_pick_the_right_slices() {
    let mut state = ServerState::new(config());
    let alice = register_and_connect(&mut state, "alice", 100);
    let (community, room) = create_community_and_room(&mut state, &alice, 101);
    let h = handler_for(&alice);

    let mut ids: Vec<MessageId> = Vec::new();
    for k in 0..5u64 {
        match h.send_message(
            &mut state,
            ClientSentMessage {
                to_community: community,
                to_room: room,
                content: format!("m{}", k + 1),
            },
            200 + k,
        ) {
            Ok(OkResponse::ConfirmMessage(conf)) => ids.push(conf.id),
            other => panic!("unexpected response: {:?}", other),
        }
    }

    // everything strictly before m4, newest first
    let history = match h.get_messages(
        &state,
        community,
        room,
        MessageSelector::Before(Bound::Exclusive(ids[3])),
        10,
    ) {
        Ok(OkResponse::MessageHistory(hist)) => hist,
        other => panic!("unexpected response: {:?}", other),
    };
    assert_eq!(history.messages.len(), 3);
    assert_eq!(history.messages[0].content, "m3".to_string());
    assert_eq!(history.messages[2].content, "m1".to_string());

    // two messages centered at m3
    let history = match h.get_messages(
        &state,
        community,
        room,
        MessageSelector::Around(ids[2]),
        2,
    ) {
        Ok(OkResponse::MessageHistory(hist)) => hist,
        other => panic!("unexpected response: {:?}", other),
    };
    assert_eq!(history.messages.len(), 2);
    assert_eq!(history.messages[0].content, "m3".to_string());
    assert_eq!(history.messages[1].content, "m2".to_string());

    // an unknown reference message is refused
    let r = h.get_messages(
        &state,
        community,
        room,
        MessageSelector::After(Bound::Exclusive(MessageId(999))),
        10,
    );
    assert_eq!(r, Err(ErrResponse::InvalidMessageSelector));
}

#[test]
fn compromised_marking_follows_scheme_version() {
    let mut state = ServerState::new(config());
    let alice = register_and_connect(&mut state, "alice", 100);

    // current-scheme accounts are untouched, and their tokens survive
    state.db.set_accounts_with_old_hashes_compromised();
    assert!(!state.db.get_user_by_id(alice.user).unwrap().compromised);
    assert!(!state.db.tokens.is_empty());

    // a blanket compromise marks everyone and clears every token
    state.db.set_all_accounts_compromised();
    assert!(state.db.get_user_by_id(alice.user).unwrap().compromised);
    assert!(state.db.tokens.is_empty());
    assert_eq!(
        state.create_token(creds("alice", "pw!"), options(), 200),
        Err(vertex::proto::AuthError::UserCompromised)
    );
}

#[test]
fn room_creation_is_announced_to_online_devices() {
    let mut state = ServerState::new(config());
    let alice = register_and_connect(&mut state, "alice", 100);
    let (community, _room) = create_community_and_room(&mut state, &alice, 101);

    let (device2, token2) = state.create_token(creds("alice", "pw!"), options(), 102).unwrap();
    state.connect(device2, token2, 102).unwrap();

    let h = handler_for(&alice);
    let created = match h.create_room(&mut state, "lounge".to_string(), community) {
        Ok(OkResponse::AddRoom { room, .. }) => room,
        other => panic!("unexpected response: {:?}", other),
    };

    let second_box = mailbox_of(&state, device2);
    match second_box.last().unwrap() {
        ServerEvent::AddRoom { community: c, room } => {
            assert_eq!(*c, community);
            assert_eq!(room.id, created.id);
            assert_eq!(room.name, "lounge".to_string());
        }
        other => panic!("unexpected event: {:?}", other),
    }
}

#[test]
fn joining_is_announced_to_the_users_other_devices() {
    let mut state = ServerState::new(config());
    let alice = register_and_connect(&mut state, "alice", 100);
    let (community, _room) = create_community_and_room(&mut state, &alice, 101);
    let ha = handler_for(&alice);
    let code = match ha.create_invite(&mut state, community, None, 102) {
        Ok(OkResponse::NewInvite(code)) => code,
        other => panic!("unexpected response: {:?}", other),
    };

    // bob is connected on two devices; he joins from the first
    let bob = register_and_connect(&mut state, "bob", 103);
    let (device2, token2) = state.create_token(creds("bob", "pw!"), options(), 104).unwrap();
    state.connect(device2, token2, 104).unwrap();

    let hb = handler_for(&bob);
    hb.join_community(&mut state, code, 105).expect("join should succeed");

    // the second device hears of the new community; the joining one
    // does not get an echo
    let second_box = mailbox_of(&state, device2);
    match second_box.last().unwrap() {
        ServerEvent::AddCommunity(c) => assert_eq!(c.id, community),
        other => panic!("unexpected event: {:?}", other),
    }
    assert!(mailbox_of(&state, bob.device).is_empty());
}
