//! The process-wide session registry: at most one live session per
//! device, enforced by an atomic slot transition. A second successful
//! authentication on a device evicts the previous session, which
//! receives a logout event as the last entry of its outbound mailbox
//! before the slot is reclaimed.

use vstd::prelude::*;
use crate::community::OnlineDevice;
use crate::proto::{CommunityStructure, Message, RoomStructure, ServerEvent};
use crate::{CommunityId, DeviceId, MessageId, ProfileVersion, RoomId, UserId};

verus! {

/// The state of one device's slot in the registry.
pub enum SessionSlot {
    /// Credentials verified, socket not yet upgraded.
    Inserting,
    /// A live session with its outbound mailbox.
    Active(SessionHandle),
    /// A tombstone left behind by logout or eviction.
    Logout,
}

/// The server-side handle of a live session: the events queued towards
/// the client in delivery order, and the room the client has declared as
/// its foreground.
pub struct SessionHandle {
    pub mailbox: Vec<ServerEvent>,
    pub looking_at: Option<(CommunityId, RoomId)>,
}

/// One device's entry in the registry.
pub struct DeviceSession {
    pub user: UserId,
    pub device: DeviceId,
    pub slot: SessionSlot,
}

/// Error of claiming a device slot that is already claimed.
#[derive(Clone, Copy, PartialEq, Eq, Structural, Debug)]
pub struct TokenInUse;


/// The mailbox grew by exactly one community announcement carrying this
/// content.
pub open spec fn community_event_appended(
    pre_mailbox: Seq<ServerEvent>,
    post_mailbox: Seq<ServerEvent>,
    structure: CommunityStructure,
) -> bool {
    &&& post_mailbox.len() == pre_mailbox.len() + 1
    &&& post_mailbox.drop_last() == pre_mailbox
    &&& (post_mailbox.last() matches ServerEvent::AddCommunity(c) && c.id == structure.id
        && c.name == structure.name && c.description == structure.description && c.rooms@
        == structure.rooms@)
}

/// A fresh copy of a community description with the same content.
fn copy_structure(s: &CommunityStructure) -> (r: CommunityStructure)
    ensures
        r.id == s.id,
        r.name == s.name,
        r.description == s.description,
        r.rooms@ == s.rooms@,
{
    let mut rooms: Vec<RoomStructure> = Vec::new();
    let mut i: usize = 0;
    while i < s.rooms.len()
        invariant
            i <= s.rooms@.len(),
            rooms@.len() == i,
            forall|j: int| 0 <= j < i ==> #[trigger] rooms@[j] == s.rooms@[j],
        decreases s.rooms@.len() - i,
    {
        let rm = &s.rooms[i];
        rooms.push(RoomStructure { id: rm.id, name: rm.name.clone(), unread: rm.unread });
        i = i + 1;
    }
    proof {
        assert(rooms@ =~= s.rooms@);
    }
    CommunityStructure {
        id: s.id,
        name: s.name.clone(),
        description: match &s.description {
            Some(d) => Some(d.clone()),
            None => None,
        },
        rooms,
    }
}

/// The room event a fanout delivers for one freshly created room.
pub open spec fn spec_room_event(community: CommunityId, room: RoomId, name: String) -> ServerEvent {
    ServerEvent::AddRoom {
        community,
        room: crate::proto::RoomStructure { id: room, name, unread: true },
    }
}

/// The message event a fanout delivers for one persisted message.
pub open spec fn spec_message_event(
    community: CommunityId,
    room: RoomId,
    author: UserId,
    id: MessageId,
    author_profile_version: ProfileVersion,
    sent: u64,
    content: String,
) -> ServerEvent {
    ServerEvent::AddMessage {
        community,
        room,
        author,
        message: Message { id, author, author_profile_version, sent, content },
    }
}

/// The process-wide registry of device sessions.
pub struct SessionManager {
    pub sessions: Vec<DeviceSession>,
}

impl SessionManager {
    /// No device appears twice in the registry.
    pub open spec fn wf(self) -> bool {
        forall|i: int, j: int|
            0 <= i < j < self.sessions@.len() ==> (#[trigger] self.sessions@[i]).device != (
            #[trigger] self.sessions@[j]).device
    }

    /// The slot of this device is live.
    pub open spec fn is_active(self, device: DeviceId) -> bool {
        exists|i: int|
            0 <= i < self.sessions@.len() && (#[trigger] self.sessions@[i]).device == device
                && self.sessions@[i].slot is Active
    }

    /// An empty registry.
    pub fn new() -> (r: SessionManager)
        ensures
            r.wf(),
            r.sessions@.len() == 0,
    {
        SessionManager { sessions: Vec::new() }
    }

    /// Index of this device's entry, if any.
    pub(crate) fn find_session(&self, device: DeviceId) -> (r: Option<usize>)
        ensures
            r matches Some(i) ==> i < self.sessions@.len() && self.sessions@[i as int].device
                == device,
            r is None ==> forall|j: int|
                0 <= j < self.sessions@.len() ==> (#[trigger] self.sessions@[j]).device != device,
    {
        let mut i: usize = 0;
        while i < self.sessions.len()
            invariant
                i <= self.sessions@.len(),
                forall|j: int| 0 <= j < i ==> (#[trigger] self.sessions@[j]).device != device,
            decreases self.sessions@.len() - i,
        {
            if self.sessions[i].device == device {
                return Some(i);
            }
            i = i + 1;
        }
        None
    }

    /// Atomically claims the device slot for a session being set up:
    /// succeeds when the device has no entry or only a tombstone, and
    /// rejects a device whose slot is being set up or is live.
    #[verifier::rlimit(30)]
    pub fn insert(&mut self, user: UserId, device: DeviceId) -> (r: Result<(), TokenInUse>)
        requires
            old(self).wf(),
        ensures
            final(self).wf(),
            r is Ok <==> (forall|i: int|
                0 <= i < old(self).sessions@.len() ==> (#[trigger] old(self).sessions@[i]).device
                    != device || old(self).sessions@[i].slot is Logout),
            r is Ok ==> exists|i: int|
                0 <= i < final(self).sessions@.len() && (#[trigger] final(self).sessions@[i]).device
                    == device && final(self).sessions@[i].user == user && final(self).sessions@[i].slot is Inserting,
            r is Err ==> *final(self) == *old(self),
    {
        match self.find_session(device) {
            Some(i) => {
                let tombstone = match &self.sessions[i].slot {
                    SessionSlot::Logout => true,
                    _ => false,
                };
                if !tombstone {
                    return Err(TokenInUse);
                }
                let _ = self.sessions.remove(i);
                self.sessions.insert(
                    i,
                    DeviceSession { user, device, slot: SessionSlot::Inserting },
                );
                proof {
                    assert(self.sessions@ =~= old(self).sessions@.update(
                        i as int,
                        DeviceSession { user, device, slot: SessionSlot::Inserting },
                    ));
                    assert forall|a: int, b: int|
                        0 <= a < b < self.sessions@.len() implies (
                    #[trigger] self.sessions@[a]).device != (#[trigger] self.sessions@[b]).device by {
                        assert(old(self).sessions@[a].device != old(self).sessions@[b].device);
                    }
                    assert(self.sessions@[i as int].device == device);
                    assert forall|k: int|
                        0 <= k < old(self).sessions@.len() implies (
                    #[trigger] old(self).sessions@[k]).device != device || old(
                        self,
                    ).sessions@[k].slot is Logout by {
                        if k != i && old(self).sessions@[k].device == device {
                            if k < i {
                                assert(old(self).sessions@[k].device != old(
                                    self,
                                ).sessions@[i as int].device);
                            } else {
                                assert(old(self).sessions@[i as int].device != old(
                                    self,
                                ).sessions@[k].device);
                            }
                        }
                    }
                }
                Ok(())
            },
            None => {
                self.sessions.push(DeviceSession { user, device, slot: SessionSlot::Inserting });
                proof {
                    assert(self.sessions@[old(self).sessions@.len() as int].device == device);
                }
                Ok(())
            },
        }
    }

    /// Replaces a claimed slot with a live session holding an empty
    /// mailbox. A slot that was reclaimed in the interim is left alone
    /// and the caller drops the connection.
    #[verifier::rlimit(30)]
    pub fn upgrade(&mut self, device: DeviceId) -> (r: bool)
        requires
            old(self).wf(),
        ensures
            final(self).wf(),
            r <==> exists|i: int|
                0 <= i < old(self).sessions@.len() && (#[trigger] old(self).sessions@[i]).device
                    == device && old(self).sessions@[i].slot is Inserting,
            r ==> exists|i: int|
                {
                    &&& 0 <= i < old(self).sessions@.len()
                    &&& (#[trigger] old(self).sessions@[i]).device == device
                    &&& final(self).sessions@.len() == old(self).sessions@.len()
                    &&& final(self).sessions@[i].user == old(self).sessions@[i].user
                    &&& final(self).sessions@[i].device == device
                    &&& (final(self).sessions@[i].slot matches SessionSlot::Active(h)
                        && h.mailbox@.len() == 0 && h.looking_at is None)
                    &&& forall|j: int|
                        0 <= j < old(self).sessions@.len() && j != i ==> final(self).sessions@[j]
                            == old(self).sessions@[j]
                },
            !r ==> *final(self) == *old(self),
    {
        match self.find_session(device) {
            Some(i) => {
                let inserting = match &self.sessions[i].slot {
                    SessionSlot::Inserting => true,
                    _ => false,
                };
                if !inserting {
                    proof {
                        assert forall|k: int|
                            0 <= k < self.sessions@.len() implies !((
                        #[trigger] self.sessions@[k]).device == device
                            && self.sessions@[k].slot is Inserting) by {
                            if k != i && self.sessions@[k].device == device {
                                if k < i {
                                    assert(self.sessions@[k].device
                                        != self.sessions@[i as int].device);
                                } else {
                                    assert(self.sessions@[i as int].device
                                        != self.sessions@[k].device);
                                }
                            }
                        }
                    }
                    return false;
                }
                let entry = self.sessions.remove(i);
                let user = entry.user;
                self.sessions.insert(
                    i,
                    DeviceSession {
                        user,
                        device,
                        slot: SessionSlot::Active(
                            SessionHandle { mailbox: Vec::new(), looking_at: None },
                        ),
                    },
                );
                proof {
                    assert(self.sessions@.len() == old(self).sessions@.len());
                    assert(self.sessions@[i as int].device == device);
                    assert forall|j: int|
                        0 <= j < old(self).sessions@.len() && j != i implies self.sessions@[j]
                            == old(self).sessions@[j] by {
                        if j < i {
                            assert(self.sessions@[j] == old(self).sessions@[j]);
                        }
                    }
                    assert forall|a: int, b: int|
                        0 <= a < b < self.sessions@.len() implies (
                    #[trigger] self.sessions@[a]).device != (#[trigger] self.sessions@[b]).device by {
                        assert(self.sessions@[a].device == old(self).sessions@[a].device);
                        assert(self.sessions@[b].device == old(self).sessions@[b].device);
                        assert(old(self).sessions@[a].device != old(self).sessions@[b].device);
                    }
                }
                true
            },
            None => false,
        }
    }

    /// Replaces the device's slot with a tombstone. A live session gets
    /// a logout event appended to its mailbox, which is handed back so
    /// the transport can flush it before the socket closes; the logout
    /// event is its last entry.
    #[verifier::rlimit(30)]
    pub fn remove_and_notify(&mut self, device: DeviceId) -> (r: Option<Vec<ServerEvent>>)
        requires
            old(self).wf(),
        ensures
            final(self).wf(),
            !final(self).is_active(device),
            r is Some <==> old(self).is_active(device),
            // whatever entry the device had is now a tombstone, so a
            // following claim of the slot always succeeds
            forall|k: int|
                0 <= k < final(self).sessions@.len() && (#[trigger] final(self).sessions@[k]).device
                    == device ==> final(self).sessions@[k].slot is Logout,
            forall|d2: DeviceId|
                d2 != device ==> (final(self).is_active(d2) <==> old(self).is_active(d2)),
            r matches Some(events) ==> events@.len() > 0 && events@.last()
                == ServerEvent::SessionLoggedOut && exists|i: int|
                {
                    &&& 0 <= i < old(self).sessions@.len()
                    &&& (#[trigger] old(self).sessions@[i]).device == device
                    &&& old(self).sessions@[i].slot matches SessionSlot::Active(h)
                        && events@ == h.mailbox@.push(ServerEvent::SessionLoggedOut)
                    &&& final(self).sessions@ == old(self).sessions@.update(
                        i,
                        DeviceSession {
                            user: old(self).sessions@[i].user,
                            device,
                            slot: SessionSlot::Logout,
                        },
                    )
                },
    {
        match self.find_session(device) {
            Some(i) => {
                let entry = self.sessions.remove(i);
                let user = entry.user;
                match entry.slot {
                    SessionSlot::Active(handle) => {
                        let mut events = handle.mailbox;
                        events.push(ServerEvent::SessionLoggedOut);
                        self.sessions.insert(
                            i,
                            DeviceSession { user, device, slot: SessionSlot::Logout },
                        );
                        proof {
                            assert(self.sessions@ =~= old(self).sessions@.update(
                                i as int,
                                DeviceSession {
                                    user: old(self).sessions@[i as int].user,
                                    device,
                                    slot: SessionSlot::Logout,
                                },
                            ));
                            assert forall|a: int, b: int|
                                0 <= a < b < self.sessions@.len() implies (
                            #[trigger] self.sessions@[a]).device != (
                            #[trigger] self.sessions@[b]).device by {
                                assert(old(self).sessions@[a].device != old(
                                    self,
                                ).sessions@[b].device);
                            }
                            assert forall|k: int|
                                0 <= k < self.sessions@.len() implies !((
                            #[trigger] self.sessions@[k]).device == device
                                && self.sessions@[k].slot is Active) by {
                                if k != i && self.sessions@[k].device == device {
                                    if k < i {
                                        assert(self.sessions@[k].device
                                            != self.sessions@[i as int].device);
                                    } else {
                                        assert(self.sessions@[i as int].device
                                            != self.sessions@[k].device);
                                    }
                                }
                            }
                            assert forall|k: int|
                                0 <= k < self.sessions@.len() && (
                            #[trigger] self.sessions@[k]).device == device implies
                                self.sessions@[k].slot is Logout by {
                                if k != i {
                                    if k < i {
                                        assert(self.sessions@[k].device
                                            != self.sessions@[i as int].device);
                                    } else {
                                        assert(self.sessions@[i as int].device
                                            != self.sessions@[k].device);
                                    }
                                }
                            }
                            assert forall|d2: DeviceId|
                                d2 != device implies (self.is_active(d2) <==> old(self).is_active(
                                d2,
                            )) by {
                                if old(self).is_active(d2) {
                                    let w = choose|w: int|
                                        0 <= w < old(self).sessions@.len() && (
                                        #[trigger] old(self).sessions@[w]).device == d2 && old(
                                            self,
                                        ).sessions@[w].slot is Active;
                                    assert(w != i);
                                    assert(self.sessions@[w] == old(self).sessions@[w]);
                                }
                                if self.is_active(d2) {
                                    let w = choose|w: int|
                                        0 <= w < self.sessions@.len() && (
                                        #[trigger] self.sessions@[w]).device == d2
                                            && self.sessions@[w].slot is Active;
                                    assert(w != i);
                                    assert(self.sessions@[w] == old(self).sessions@[w]);
                                }
                            }
                        }
                        Some(events)
                    },
                    _ => {
                        self.sessions.insert(
                            i,
                            DeviceSession { user, device, slot: SessionSlot::Logout },
                        );
                        proof {
                            assert(self.sessions@ =~= old(self).sessions@.update(
                                i as int,
                                DeviceSession {
                                    user: old(self).sessions@[i as int].user,
                                    device,
                                    slot: SessionSlot::Logout,
                                },
                            ));
                            assert forall|a: int, b: int|
                                0 <= a < b < self.sessions@.len() implies (
                            #[trigger] self.sessions@[a]).device != (
                            #[trigger] self.sessions@[b]).device by {
                                assert(old(self).sessions@[a].device != old(
                                    self,
                                ).sessions@[b].device);
                            }
                            assert forall|k: int|
                                0 <= k < self.sessions@.len() implies !((
                            #[trigger] self.sessions@[k]).device == device
                                && self.sessions@[k].slot is Active) by {
                                if k != i && self.sessions@[k].device == device {
                                    if k < i {
                                        assert(self.sessions@[k].device
                                            != self.sessions@[i as int].device);
                                    } else {
                                        assert(self.sessions@[i as int].device
                                            != self.sessions@[k].device);
                                    }
                                }
                            }
                            assert forall|k: int|
                                0 <= k < old(self).sessions@.len() implies !((
                            #[trigger] old(self).sessions@[k]).device == device && old(
                                self,
                            ).sessions@[k].slot is Active) by {
                                if k != i && old(self).sessions@[k].device == device {
                                    if k < i {
                                        assert(old(self).sessions@[k].device != old(
                                            self,
                                        ).sessions@[i as int].device);
                                    } else {
                                        assert(old(self).sessions@[i as int].device != old(
                                            self,
                                        ).sessions@[k].device);
                                    }
                                }
                            }
                            assert forall|d2: DeviceId|
                                d2 != device implies (self.is_active(d2) <==> old(self).is_active(
                                d2,
                            )) by {
                                if old(self).is_active(d2) {
                                    let w = choose|w: int|
                                        0 <= w < old(self).sessions@.len() && (
                                        #[trigger] old(self).sessions@[w]).device == d2 && old(
                                            self,
                                        ).sessions@[w].slot is Active;
                                    assert(w != i);
                                    assert(self.sessions@[w] == old(self).sessions@[w]);
                                }
                                if self.is_active(d2) {
                                    let w = choose|w: int|
                                        0 <= w < self.sessions@.len() && (
                                        #[trigger] self.sessions@[w]).device == d2
                                            && self.sessions@[w].slot is Active;
                                    assert(w != i);
                                    assert(self.sessions@[w] == old(self).sessions@[w]);
                                }
                            }
                        }
                        None
                    },
                }
            },
            None => None,
        }
    }

    /// Queues one event towards a live session. Delivery is
    /// best-effort: a device without a live session drops the event.
    #[verifier::rlimit(30)]
    pub fn deliver(&mut self, device: DeviceId, event: ServerEvent) -> (r: bool)
        requires
            old(self).wf(),
        ensures
            final(self).wf(),
            r <==> old(self).is_active(device),
            r ==> exists|i: int|
                {
                    &&& 0 <= i < old(self).sessions@.len()
                    &&& (#[trigger] old(self).sessions@[i]).device == device
                    &&& final(self).sessions@.len() == old(self).sessions@.len()
                    &&& final(self).sessions@[i].user == old(self).sessions@[i].user
                    &&& final(self).sessions@[i].device == device
                    &&& (old(self).sessions@[i].slot matches SessionSlot::Active(h) ==> (final(self).sessions@[i].slot matches SessionSlot::Active(h2) && h2.mailbox@
                        == h.mailbox@.push(event) && h2.looking_at == h.looking_at))
                    &&& forall|j: int|
                        0 <= j < old(self).sessions@.len() && j != i ==> final(self).sessions@[j]
                            == old(self).sessions@[j]
                },
            !r ==> *final(self) == *old(self),
    {
        match self.find_session(device) {
            Some(i) => {
                let active = match &self.sessions[i].slot {
                    SessionSlot::Active(_) => true,
                    _ => false,
                };
                if !active {
                    proof {
                        assert forall|k: int|
                            0 <= k < self.sessions@.len() implies !((
                        #[trigger] self.sessions@[k]).device == device
                            && self.sessions@[k].slot is Active) by {
                            if k != i && self.sessions@[k].device == device {
                                if k < i {
                                    assert(self.sessions@[k].device
                                        != self.sessions@[i as int].device);
                                } else {
                                    assert(self.sessions@[i as int].device
                                        != self.sessions@[k].device);
                                }
                            }
                        }
                    }
                    return false;
                }
                let entry = self.sessions.remove(i);
                let user = entry.user;
                match entry.slot {
                    SessionSlot::Active(handle) => {
                        let mut mailbox = handle.mailbox;
                        let looking_at = handle.looking_at;
                        let ghost mailbox0 = mailbox@;
                        mailbox.push(event);
                        self.sessions.insert(
                            i,
                            DeviceSession {
                                user,
                                device,
                                slot: SessionSlot::Active(SessionHandle { mailbox, looking_at }),
                            },
                        );
                        proof {
                            assert(mailbox0 == old(self).sessions@[i as int].slot->Active_0.mailbox@);
                            assert(self.sessions@.len() == old(self).sessions@.len());
                            assert(self.sessions@[i as int].device == device);
                            assert forall|j: int|
                                0 <= j < old(self).sessions@.len() && j != i implies
                                self.sessions@[j] == old(self).sessions@[j] by {
                                if j < i {
                                    assert(self.sessions@[j] == old(self).sessions@[j]);
                                }
                            }
                            assert forall|a: int, b: int|
                                0 <= a < b < self.sessions@.len() implies (
                            #[trigger] self.sessions@[a]).device != (
                            #[trigger] self.sessions@[b]).device by {
                                assert(self.sessions@[a].device == old(self).sessions@[a].device);
                                assert(self.sessions@[b].device == old(self).sessions@[b].device);
                                assert(old(self).sessions@[a].device != old(
                                    self,
                                ).sessions@[b].device);
                            }
                        }
                        true
                    },
                    _ => {
                        proof {
                            assert(false);
                        }
                        false
                    },
                }
            },
            None => false,
        }
    }


    /// Replaces every listed device's slot with a tombstone, tearing
    /// down their live sessions; devices not listed are untouched.
    #[verifier::loop_isolation(false)]
    pub fn remove_many(&mut self, devices: &Vec<DeviceId>)
        requires
            old(self).wf(),
        ensures
            final(self).wf(),
            forall|k: int|
                0 <= k < devices@.len() ==> !final(self).is_active(#[trigger] devices@[k]),
            forall|d: DeviceId|
                (forall|k: int| 0 <= k < devices@.len() ==> #[trigger] devices@[k] != d) ==> (
                final(self).is_active(d) <==> old(self).is_active(d)),
    {
        let n = devices.len();
        let mut i: usize = 0;
        while i < n
            invariant
                n == devices@.len(),
                i <= n,
                self.wf(),
                forall|k: int| 0 <= k < i ==> !self.is_active(#[trigger] devices@[k]),
                forall|d: DeviceId|
                    (forall|k: int| 0 <= k < i ==> #[trigger] devices@[k] != d) ==> (
                    self.is_active(d) <==> old(self).is_active(d)),
            decreases n - i,
        {
            let ghost pre = *self;
            let device = devices[i];
            let _ = self.remove_and_notify(device);
            proof {
                assert forall|k: int|
                    0 <= k < i + 1 implies !self.is_active(#[trigger] devices@[k]) by {
                    if k < i && devices@[k] != device {
                        assert(pre.is_active(devices@[k]) <==> self.is_active(devices@[k]));
                    }
                }
                assert forall|d: DeviceId|
                    (forall|k: int| 0 <= k < i + 1 ==> #[trigger] devices@[k] != d) implies (
                self.is_active(d) <==> old(self).is_active(d)) by {
                    assert(devices@[i as int] != d);
                    assert(pre.is_active(d) <==> old(self).is_active(d));
                    assert(self.is_active(d) <==> pre.is_active(d));
                }
            }
            i = i + 1;
        }
    }


    /// Announces a freshly joined community to every other live session
    /// of the same user; the joining device and everyone else are
    /// untouched.
    #[verifier::loop_isolation(false)]
    #[verifier::rlimit(60)]
    pub fn broadcast_community_to_user(
        &mut self,
        user: UserId,
        except: DeviceId,
        structure: &CommunityStructure,
    )
        requires
            old(self).wf(),
        ensures
            final(self).wf(),
            final(self).sessions@.len() == old(self).sessions@.len(),
            forall|j: int|
                #![trigger final(self).sessions@[j]]
                0 <= j < old(self).sessions@.len() ==> {
                    if old(self).sessions@[j].user == user && old(self).sessions@[j].device
                        != except && old(self).sessions@[j].slot is Active {
                        &&& final(self).sessions@[j].user == old(self).sessions@[j].user
                        &&& final(self).sessions@[j].device == old(self).sessions@[j].device
                        &&& (old(self).sessions@[j].slot matches SessionSlot::Active(hd) ==> (
                        final(self).sessions@[j].slot matches SessionSlot::Active(hd2)
                            && community_event_appended(hd.mailbox@, hd2.mailbox@, *structure)
                            && hd2.looking_at == hd.looking_at))
                    } else {
                        final(self).sessions@[j] == old(self).sessions@[j]
                    }
                },
    {
        let n = self.sessions.len();
        let mut j: usize = 0;
        while j < n
            invariant
                n == self.sessions@.len(),
                j <= n,
                self.wf(),
                self.sessions@.len() == old(self).sessions@.len(),
                forall|k: int|
                    #![trigger self.sessions@[k]]
                    0 <= k < j ==> {
                        if old(self).sessions@[k].user == user && old(self).sessions@[k].device
                            != except && old(self).sessions@[k].slot is Active {
                            &&& self.sessions@[k].user == old(self).sessions@[k].user
                            &&& self.sessions@[k].device == old(self).sessions@[k].device
                            &&& (old(self).sessions@[k].slot matches SessionSlot::Active(hd) ==> (
                            self.sessions@[k].slot matches SessionSlot::Active(hd2)
                                && community_event_appended(
                                hd.mailbox@,
                                hd2.mailbox@,
                                *structure,
                            ) && hd2.looking_at == hd.looking_at))
                        } else {
                            self.sessions@[k] == old(self).sessions@[k]
                        }
                    },
                forall|k: int|
                    #![trigger self.sessions@[k]]
                    j <= k < n ==> self.sessions@[k] == old(self).sessions@[k],
            decreases n - j,
        {
            let ghost mid = self.sessions@;
            let deliver_here = self.sessions[j].user == user && !(self.sessions[j].device
                == except) && match &self.sessions[j].slot {
                SessionSlot::Active(_) => true,
                _ => false,
            };
            if deliver_here {
                let device = self.sessions[j].device;
                let event = ServerEvent::AddCommunity(copy_structure(structure));
                let ghost eg = event;
                let delivered = self.deliver(device, event);
                proof {
                    assert(mid[j as int].slot is Active);
                    assert(delivered);
                    let w = choose|w: int|
                        {
                            &&& 0 <= w < mid.len()
                            &&& (#[trigger] mid[w]).device == device
                            &&& self.sessions@.len() == mid.len()
                            &&& self.sessions@[w].user == mid[w].user
                            &&& self.sessions@[w].device == device
                            &&& (mid[w].slot matches SessionSlot::Active(hd) ==> (
                            self.sessions@[w].slot matches SessionSlot::Active(hd2)
                                && hd2.mailbox@ == hd.mailbox@.push(eg) && hd2.looking_at
                                == hd.looking_at))
                            &&& forall|k2: int|
                                0 <= k2 < mid.len() && k2 != w ==> self.sessions@[k2] == mid[k2]
                        };
                    // the delivery hit exactly this entry
                    if w != j {
                        if w < j as int {
                            assert(mid[w].device != mid[j as int].device);
                        } else {
                            assert(mid[j as int].device != mid[w].device);
                        }
                    }
                    assert(w == j);
                    assert(eg matches ServerEvent::AddCommunity(c) && c.id == structure.id
                        && c.name == structure.name && c.description == structure.description
                        && c.rooms@ == structure.rooms@);
                    if mid[j as int].slot is Active && self.sessions@[j as int].slot is Active {
                        let hd = mid[j as int].slot->Active_0;
                        let hd2 = self.sessions@[j as int].slot->Active_0;
                        assert(hd2.mailbox@ == hd.mailbox@.push(eg));
                        assert(hd2.mailbox@.drop_last() =~= hd.mailbox@);
                        assert(community_event_appended(hd.mailbox@, hd2.mailbox@, *structure));
                    }
                }
            }
            j = j + 1;
        }
    }

    /// Records the room a live session is looking at (or clears it).
    /// A device without a live session is left alone.
    #[verifier::rlimit(30)]
    pub fn set_looking_at(&mut self, device: DeviceId, looking_at: Option<(CommunityId, RoomId)>)
        -> (r: bool)
        requires
            old(self).wf(),
        ensures
            final(self).wf(),
            r <==> old(self).is_active(device),
            r ==> exists|i: int|
                {
                    &&& 0 <= i < old(self).sessions@.len()
                    &&& (#[trigger] old(self).sessions@[i]).device == device
                    &&& final(self).sessions@.len() == old(self).sessions@.len()
                    &&& final(self).sessions@[i].user == old(self).sessions@[i].user
                    &&& final(self).sessions@[i].device == device
                    &&& (old(self).sessions@[i].slot matches SessionSlot::Active(h) ==> (final(self).sessions@[i].slot matches SessionSlot::Active(h2) && h2.mailbox@
                        == h.mailbox@ && h2.looking_at == looking_at))
                    &&& forall|j: int|
                        0 <= j < old(self).sessions@.len() && j != i ==> final(self).sessions@[j]
                            == old(self).sessions@[j]
                },
            !r ==> *final(self) == *old(self),
    {
        match self.find_session(device) {
            Some(i) => {
                let active = match &self.sessions[i].slot {
                    SessionSlot::Active(_) => true,
                    _ => false,
                };
                if !active {
                    proof {
                        assert forall|k: int|
                            0 <= k < self.sessions@.len() implies !((
                        #[trigger] self.sessions@[k]).device == device
                            && self.sessions@[k].slot is Active) by {
                            if k != i && self.sessions@[k].device == device {
                                if k < i {
                                    assert(self.sessions@[k].device
                                        != self.sessions@[i as int].device);
                                } else {
                                    assert(self.sessions@[i as int].device
                                        != self.sessions@[k].device);
                                }
                            }
                        }
                    }
                    return false;
                }
                let entry = self.sessions.remove(i);
                let user = entry.user;
                match entry.slot {
                    SessionSlot::Active(handle) => {
                        let mailbox = handle.mailbox;
                        self.sessions.insert(
                            i,
                            DeviceSession {
                                user,
                                device,
                                slot: SessionSlot::Active(SessionHandle { mailbox, looking_at }),
                            },
                        );
                        proof {
                            assert(self.sessions@.len() == old(self).sessions@.len());
                            assert(self.sessions@[i as int].device == device);
                            assert forall|j: int|
                                0 <= j < old(self).sessions@.len() && j != i implies
                                self.sessions@[j] == old(self).sessions@[j] by {
                                if j < i {
                                    assert(self.sessions@[j] == old(self).sessions@[j]);
                                }
                            }
                            assert forall|a: int, b: int|
                                0 <= a < b < self.sessions@.len() implies (
                            #[trigger] self.sessions@[a]).device != (
                            #[trigger] self.sessions@[b]).device by {
                                assert(self.sessions@[a].device == old(self).sessions@[a].device);
                                assert(self.sessions@[b].device == old(self).sessions@[b].device);
                                assert(old(self).sessions@[a].device != old(
                                    self,
                                ).sessions@[b].device);
                            }
                        }
                        true
                    },
                    _ => {
                        proof {
                            assert(false);
                        }
                        false
                    },
                }
            },
            None => false,
        }
    }

    /// Queues one freshly persisted message towards every fanout
    /// target: each target device with a live session gets the message
    /// event appended to its mailbox; every other session, including
    /// the author's own device, is untouched.
    #[verifier::loop_isolation(false)]
    #[verifier::rlimit(60)]
    pub fn deliver_message_event(
        &mut self,
        targets: &Vec<OnlineDevice>,
        community: CommunityId,
        room: RoomId,
        author: UserId,
        id: MessageId,
        author_profile_version: ProfileVersion,
        sent: u64,
        content: &String,
    )
        requires
            old(self).wf(),
            forall|a: int, b: int|
                0 <= a < b < targets@.len() ==> (#[trigger] targets@[a]).device != (
                #[trigger] targets@[b]).device,
        ensures
            final(self).wf(),
            final(self).sessions@.len() == old(self).sessions@.len(),
            forall|j: int|
                #![trigger final(self).sessions@[j]]
                0 <= j < old(self).sessions@.len() ==> {
                    let e = spec_message_event(
                        community,
                        room,
                        author,
                        id,
                        author_profile_version,
                        sent,
                        *content,
                    );
                    if (exists|k: int|
                        0 <= k < targets@.len() && (#[trigger] targets@[k]).device == old(
                            self,
                        ).sessions@[j].device) && old(self).sessions@[j].slot is Active {
                        &&& final(self).sessions@[j].user == old(self).sessions@[j].user
                        &&& final(self).sessions@[j].device == old(self).sessions@[j].device
                        &&& (old(self).sessions@[j].slot matches SessionSlot::Active(h) ==> (
                        final(self).sessions@[j].slot matches SessionSlot::Active(h2)
                            && h2.mailbox@ == h.mailbox@.push(e) && h2.looking_at == h.looking_at))
                    } else {
                        final(self).sessions@[j] == old(self).sessions@[j]
                    }
                },
    {
        let n = targets.len();
        let mut t: usize = 0;
        while t < n
            invariant
                n == targets@.len(),
                t <= n,
                self.wf(),
                self.sessions@.len() == old(self).sessions@.len(),
                forall|j: int|
                    #![trigger self.sessions@[j]]
                    0 <= j < old(self).sessions@.len() ==> {
                        let e = spec_message_event(
                            community,
                            room,
                            author,
                            id,
                            author_profile_version,
                            sent,
                            *content,
                        );
                        if (exists|k: int|
                            0 <= k < t && (#[trigger] targets@[k]).device == old(
                                self,
                            ).sessions@[j].device) && old(self).sessions@[j].slot is Active {
                            &&& self.sessions@[j].user == old(self).sessions@[j].user
                            &&& self.sessions@[j].device == old(self).sessions@[j].device
                            &&& (old(self).sessions@[j].slot matches SessionSlot::Active(h) ==> (
                            self.sessions@[j].slot matches SessionSlot::Active(h2) && h2.mailbox@
                                == h.mailbox@.push(e) && h2.looking_at == h.looking_at))
                        } else {
                            self.sessions@[j] == old(self).sessions@[j]
                        }
                    },
            decreases n - t,
        {
            let ghost mid = self.sessions@;
            let target = targets[t];
            let event = ServerEvent::AddMessage {
                community,
                room,
                author,
                message: Message {
                    id,
                    author,
                    author_profile_version,
                    sent,
                    content: content.clone(),
                },
            };
            proof {
                assert(event == spec_message_event(
                    community,
                    room,
                    author,
                    id,
                    author_profile_version,
                    sent,
                    *content,
                ));
            }
            let delivered = self.deliver(target.device, event);
            proof {
                let e = spec_message_event(
                    community,
                    room,
                    author,
                    id,
                    author_profile_version,
                    sent,
                    *content,
                );
                assert forall|j: int|
                    #![trigger self.sessions@[j]]
                    0 <= j < old(self).sessions@.len() implies {
                    if (exists|k: int|
                        0 <= k < t + 1 && (#[trigger] targets@[k]).device == old(
                            self,
                        ).sessions@[j].device) && old(self).sessions@[j].slot is Active {
                        &&& self.sessions@[j].user == old(self).sessions@[j].user
                        &&& self.sessions@[j].device == old(self).sessions@[j].device
                        &&& (old(self).sessions@[j].slot matches SessionSlot::Active(h) ==> (
                        self.sessions@[j].slot matches SessionSlot::Active(h2) && h2.mailbox@
                            == h.mailbox@.push(e) && h2.looking_at == h.looking_at))
                    } else {
                        self.sessions@[j] == old(self).sessions@[j]
                    }
                } by {
                    if old(self).sessions@[j].device == target.device {
                        // this is the entry the present delivery touched
                        if old(self).sessions@[j].slot is Active {
                            assert(mid[j] == old(self).sessions@[j]);
                            assert(delivered);
                        } else {
                            assert(mid[j] == old(self).sessions@[j]);
                        }
                    } else {
                        // untouched by this delivery; only earlier targets count
                        if (exists|k: int|
                            0 <= k < t + 1 && (#[trigger] targets@[k]).device == old(
                                self,
                            ).sessions@[j].device) {
                            let k = choose|k: int|
                                0 <= k < t + 1 && (#[trigger] targets@[k]).device == old(
                                    self,
                                ).sessions@[j].device;
                            assert(k < t);
                        }
                        assert(self.sessions@[j] == mid[j]);
                    }
                }
            }
            t = t + 1;
        }
    }

    /// Queues one freshly created room towards every target device with
    /// a live session; every other session is untouched.
    #[verifier::loop_isolation(false)]
    #[verifier::rlimit(60)]
    pub fn deliver_room_event(
        &mut self,
        targets: &Vec<OnlineDevice>,
        community: CommunityId,
        room: RoomId,
        name: &String,
    )
        requires
            old(self).wf(),
            forall|a: int, b: int|
                0 <= a < b < targets@.len() ==> (#[trigger] targets@[a]).device != (
                #[trigger] targets@[b]).device,
        ensures
            final(self).wf(),
            final(self).sessions@.len() == old(self).sessions@.len(),
            forall|j: int|
                #![trigger final(self).sessions@[j]]
                0 <= j < old(self).sessions@.len() ==> {
                    let e = spec_room_event(community, room, *name);
                    if (exists|k: int|
                        0 <= k < targets@.len() && (#[trigger] targets@[k]).device == old(
                            self,
                        ).sessions@[j].device) && old(self).sessions@[j].slot is Active {
                        &&& final(self).sessions@[j].user == old(self).sessions@[j].user
                        &&& final(self).sessions@[j].device == old(self).sessions@[j].device
                        &&& (old(self).sessions@[j].slot matches SessionSlot::Active(h) ==> (
                        final(self).sessions@[j].slot matches SessionSlot::Active(h2)
                            && h2.mailbox@ == h.mailbox@.push(e) && h2.looking_at == h.looking_at))
                    } else {
                        final(self).sessions@[j] == old(self).sessions@[j]
                    }
                },
    {
        let n = targets.len();
        let mut t: usize = 0;
        while t < n
            invariant
                n == targets@.len(),
                t <= n,
                self.wf(),
                self.sessions@.len() == old(self).sessions@.len(),
                forall|j: int|
                    #![trigger self.sessions@[j]]
                    0 <= j < old(self).sessions@.len() ==> {
                        let e = spec_room_event(community, room, *name);
                        if (exists|k: int|
                            0 <= k < t && (#[trigger] targets@[k]).device == old(
                                self,
                            ).sessions@[j].device) && old(self).sessions@[j].slot is Active {
                            &&& self.sessions@[j].user == old(self).sessions@[j].user
                            &&& self.sessions@[j].device == old(self).sessions@[j].device
                            &&& (old(self).sessions@[j].slot matches SessionSlot::Active(h) ==> (
                            self.sessions@[j].slot matches SessionSlot::Active(h2) && h2.mailbox@
                                == h.mailbox@.push(e) && h2.looking_at == h.looking_at))
                        } else {
                            self.sessions@[j] == old(self).sessions@[j]
                        }
                    },
            decreases n - t,
        {
            let ghost mid = self.sessions@;
            let target = targets[t];
            let event = ServerEvent::AddRoom {
                community,
                room: crate::proto::RoomStructure { id: room, name: name.clone(), unread: true },
            };
            proof {
                assert(event == spec_room_event(community, room, *name));
            }
            let delivered = self.deliver(target.device, event);
            proof {
                let e = spec_room_event(community, room, *name);
                assert forall|j: int|
                    #![trigger self.sessions@[j]]
                    0 <= j < old(self).sessions@.len() implies {
                    if (exists|k: int|
                        0 <= k < t + 1 && (#[trigger] targets@[k]).device == old(
                            self,
                        ).sessions@[j].device) && old(self).sessions@[j].slot is Active {
                        &&& self.sessions@[j].user == old(self).sessions@[j].user
                        &&& self.sessions@[j].device == old(self).sessions@[j].device
                        &&& (old(self).sessions@[j].slot matches SessionSlot::Active(h) ==> (
                        self.sessions@[j].slot matches SessionSlot::Active(h2) && h2.mailbox@
                            == h.mailbox@.push(e) && h2.looking_at == h.looking_at))
                    } else {
                        self.sessions@[j] == old(self).sessions@[j]
                    }
                } by {
                    if old(self).sessions@[j].device == target.device {
                        if old(self).sessions@[j].slot is Active {
                            assert(mid[j] == old(self).sessions@[j]);
                            assert(delivered);
                        } else {
                            assert(mid[j] == old(self).sessions@[j]);
                        }
                    } else {
                        if (exists|k: int|
                            0 <= k < t + 1 && (#[trigger] targets@[k]).device == old(
                                self,
                            ).sessions@[j].device) {
                            let k = choose|k: int|
                                0 <= k < t + 1 && (#[trigger] targets@[k]).device == old(
                                    self,
                                ).sessions@[j].device;
                            assert(k < t);
                        }
                        assert(self.sessions@[j] == mid[j]);
                    }
                }
            }
            t = t + 1;
        }
    }
}

} // verus!
