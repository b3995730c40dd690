//! Store operations on messages and per-room reading state: persisting a
//! message under a fresh time-ordered id, history queries by selector,
//! room updates with the continuity flag, and last-read markers.

use vstd::prelude::*;
use vstd::pervasive::VecAdditionalExecFns;
use crate::proto::{Bound, Message, MessageSelector};
use crate::proto::{MessageHistory, RoomUpdate};
use crate::store::{Database, InvalidMessageSelector, MessageRecord, SetUserRoomStateError, UserRoomState, WatchLevel, messages_ordered, read_marks_valid, room_states_distinct, seq_room_has_message};
use crate::{CommunityId, MessageId, ProfileVersion, RoomId, UserId};



verus! {

/// The messages of one room, by room id alone, oldest first.
pub open spec fn msgs_of_room(msgs: Seq<MessageRecord>, room: RoomId) -> Seq<MessageRecord> {
    msgs.filter(|m: MessageRecord| m.room == room)
}

/// The messages of one room within one community, oldest first.
pub open spec fn room_msgs_of(
    msgs: Seq<MessageRecord>,
    community: CommunityId,
    room: RoomId,
) -> Seq<MessageRecord> {
    msgs.filter(|m: MessageRecord| m.community == community && m.room == room)
}

/// A batch of records as it is served to clients.
pub open spec fn messages_of(recs: Seq<MessageRecord>) -> Seq<Message> {
    recs.map_values(|m: MessageRecord| message_of(m))
}

/// The message record as it is served to clients.
pub open spec fn message_of(rec: MessageRecord) -> Message {
    Message {
        id: rec.id,
        author: rec.author,
        author_profile_version: rec.author_profile_version,
        sent: rec.sent_at,
        content: rec.content,
    }
}

/// Everything of the store except messages and the id counter is
/// unchanged.
pub open spec fn only_messages_changed(pre: Database, post: Database) -> bool {
    &&& post.users == pre.users
    &&& post.tokens == pre.tokens
    &&& post.admins == pre.admins
    &&& post.communities == pre.communities
    &&& post.memberships == pre.memberships
    &&& post.rooms == pre.rooms
    &&& post.room_states == pre.room_states
    &&& post.invite_codes == pre.invite_codes
    &&& post.expired_devices == pre.expired_devices
}

/// Everything of the store except the read-state table is unchanged.
pub open spec fn only_room_states_changed(pre: Database, post: Database) -> bool {
    &&& post.users == pre.users
    &&& post.tokens == pre.tokens
    &&& post.admins == pre.admins
    &&& post.communities == pre.communities
    &&& post.memberships == pre.memberships
    &&& post.rooms == pre.rooms
    &&& post.messages == pre.messages
    &&& post.invite_codes == pre.invite_codes
    &&& post.expired_devices == pre.expired_devices
    &&& post.next_message_id == pre.next_message_id
}

/// The batch `v` is what the selector picks from the ascending room
/// history `f`, presented newest first: a slice `f[lo..hi]`, reversed,
/// whose bounds are fixed by the selector and `count`.
pub open spec fn selection_ok(
    f: Seq<MessageRecord>,
    selector: MessageSelector,
    count: int,
    v: Seq<MessageRecord>,
) -> bool {
    exists|lo: int, hi: int, pos: int|
        #![trigger f.subrange(lo, hi), f[pos]]
        {
            &&& 0 <= lo <= hi <= f.len()
            &&& 0 <= pos < f.len()
            &&& v == f.subrange(lo, hi).reverse()
            &&& match selector {
                MessageSelector::Before(bound) => {
                    &&& f[pos].id == bound.spec_message()
                    &&& hi == (if bound is Inclusive {
                        pos + 1
                    } else {
                        pos
                    })
                    &&& lo == (if hi - count >= 0 {
                        hi - count
                    } else {
                        0
                    })
                },
                MessageSelector::After(bound) => {
                    &&& f[pos].id == bound.spec_message()
                    &&& lo == (if bound is Inclusive {
                        pos
                    } else {
                        pos + 1
                    })
                    &&& hi == (if lo + count <= f.len() {
                        lo + count
                    } else {
                        f.len() as int
                    })
                },
                MessageSelector::Around(id) => {
                    &&& f[pos].id == id
                    &&& lo == (if pos - count / 2 >= 0 {
                        pos - count / 2
                    } else {
                        0
                    })
                    &&& hi == (if lo + count <= f.len() {
                        lo + count
                    } else {
                        f.len() as int
                    })
                },
            }
        }
}

/// A fresh copy of a message record.
fn clone_message(m: &MessageRecord) -> (r: MessageRecord)
    ensures
        r == *m,
{
    MessageRecord {
        id: m.id,
        community: m.community,
        room: m.room,
        author: m.author,
        author_profile_version: m.author_profile_version,
        sent_at: m.sent_at,
        content: m.content.clone(),
        edited: m.edited,
    }
}

/// Serves one stored message to clients.
pub fn message_record_to_proto(m: &MessageRecord) -> (r: Message)
    ensures
        r == message_of(*m),
{
    Message {
        id: m.id,
        author: m.author,
        author_profile_version: m.author_profile_version,
        sent: m.sent_at,
        content: m.content.clone(),
    }
}

impl Database {
    /// Persists a message under the next time-ordered id and hands back
    /// the id and timestamp the sender is to be told.
    pub fn persist_message(
        &mut self,
        community: CommunityId,
        room: RoomId,
        author: UserId,
        author_profile_version: ProfileVersion,
        content: String,
        now: u64,
    ) -> (r: crate::proto::MessageConfirmation)
        requires
            old(self).wf(),
            old(self).next_message_id < u64::MAX,
        ensures
            final(self).wf(),
            r.id == (MessageId(old(self).next_message_id)),
            r.time == now,
            final(self).messages@ == old(self).messages@.push(
                MessageRecord {
                    id: MessageId(old(self).next_message_id),
                    community,
                    room,
                    author,
                    author_profile_version,
                    sent_at: now,
                    content,
                    edited: false,
                },
            ),
            final(self).next_message_id == old(self).next_message_id + 1,
            only_messages_changed(*old(self), *final(self)),
    {
        let id = MessageId(self.next_message_id);
        let rec = MessageRecord {
            id,
            community,
            room,
            author,
            author_profile_version,
            sent_at: now,
            content,
            edited: false,
        };
        self.messages.push(rec);
        self.next_message_id = self.next_message_id + 1;
        proof {
            assert(messages_ordered(self.messages@, self.next_message_id));
            assert forall|i: int|
                0 <= i < self.room_states@.len() implies ((
            #[trigger] self.room_states@[i]).last_read matches Some(m) ==> seq_room_has_message(
                self.messages@,
                self.room_states@[i].room,
                m,
            )) by {
                if self.room_states@[i].last_read is Some {
                    let m = self.room_states@[i].last_read->0;
                    let w = choose|w: int|
                        0 <= w < old(self).messages@.len() && (#[trigger] old(self).messages@[w]).id
                            == m && old(self).messages@[w].room == self.room_states@[i].room;
                    assert(self.messages@[w].id == m);
                }
            }
            assert(read_marks_valid(self.room_states@, self.messages@));
        }
        crate::proto::MessageConfirmation { id, time: now }
    }

    /// Copies of the messages of one room (within one community), oldest
    /// first.
    #[verifier::loop_isolation(false)]
    pub fn collect_room_messages(&self, community: CommunityId, room: RoomId) -> (r: Vec<
        MessageRecord,
    >)
        ensures
            r@ == self.room_messages(community, room),
    {
        let mut out: Vec<MessageRecord> = Vec::new();
        let n = self.messages.len();
        let mut i: usize = 0;
        proof {
            assert(self.messages@.take(0) =~= Seq::<MessageRecord>::empty());
            reveal(Seq::filter);
        }
        while i < n
            invariant
                n == self.messages@.len(),
                i <= n,
                out@ == room_msgs_of(self.messages@.take(i as int), community, room),
            decreases n - i,
        {
            let m = &self.messages[i];
            let ghost cur = self.messages@[i as int];
            let ghost pre = self.messages@.take(i as int);
            let ghost post = self.messages@.take(i + 1 as int);
            proof {
                reveal(Seq::filter);
                assert(post.drop_last() =~= pre);
                assert(post.last() == cur);
            }
            if m.community == community && m.room == room {
                let copy = clone_message(m);
                let ghost copyg = copy;
                out.push(copy);
                proof {
                    assert(copyg == cur);
                    assert(out@ =~= room_msgs_of(post, community, room));
                }
            } else {
                proof {
                    assert(out@ =~= room_msgs_of(post, community, room));
                }
            }
            i = i + 1;
        }
        proof {
            assert(self.messages@.take(n as int) =~= self.messages@);
        }
        out
    }

    /// The id of the newest message of the room within this community,
    /// if the room holds any message.
    #[verifier::loop_isolation(false)]
    pub fn get_newest_message(&self, community: CommunityId, room: RoomId) -> (r: Option<
        MessageId,
    >)
        ensures
            r is Some <==> self.room_messages(community, room).len() > 0,
            r matches Some(id) ==> id == self.room_messages(community, room).last().id,
    {
        let msgs = self.collect_room_messages(community, room);
        if msgs.len() == 0 {
            None
        } else {
            Some(msgs[msgs.len() - 1].id)
        }
    }

    /// The id of the newest message of the room, by room id alone.
    #[verifier::loop_isolation(false)]
    pub(crate) fn newest_in_room(&self, room: RoomId) -> (r: Option<MessageId>)
        ensures
            r is Some <==> msgs_of_room(self.messages@, room).len() > 0,
            r matches Some(id) ==> id == msgs_of_room(self.messages@, room).last().id,
    {
        let mut newest: Option<MessageId> = None;
        let n = self.messages.len();
        let mut i: usize = 0;
        proof {
            assert(self.messages@.take(0) =~= Seq::<MessageRecord>::empty());
            reveal(Seq::filter);
        }
        while i < n
            invariant
                n == self.messages@.len(),
                i <= n,
                newest is Some <==> msgs_of_room(self.messages@.take(i as int), room).len() > 0,
                newest matches Some(id) ==> id == msgs_of_room(
                    self.messages@.take(i as int),
                    room,
                ).last().id,
            decreases n - i,
        {
            let m = &self.messages[i];
            let ghost pre = self.messages@.take(i as int);
            let ghost post = self.messages@.take(i + 1 as int);
            proof {
                reveal(Seq::filter);
                assert(post.drop_last() =~= pre);
                assert(post.last() == self.messages@[i as int]);
            }
            if m.room == room {
                newest = Some(m.id);
            }
            i = i + 1;
        }
        proof {
            assert(self.messages@.take(n as int) =~= self.messages@);
        }
        newest
    }

    /// Index of the read-state row of `(user, room)`, if any.
    pub(crate) fn find_room_state(&self, user: UserId, room: RoomId) -> (r: Option<usize>)
        ensures
            r matches Some(i) ==> i < self.room_states@.len() && self.room_states@[i as int].user
                == user && self.room_states@[i as int].room == room,
            r is None ==> forall|j: int|
                0 <= j < self.room_states@.len() ==> !((#[trigger] self.room_states@[j]).user
                    == user && self.room_states@[j].room == room),
    {
        let mut i: usize = 0;
        while i < self.room_states.len()
            invariant
                i <= self.room_states@.len(),
                forall|j: int|
                    0 <= j < i ==> !((#[trigger] self.room_states@[j]).user == user
                        && self.room_states@[j].room == room),
            decreases self.room_states@.len() - i,
        {
            if self.room_states[i].user == user && self.room_states[i].room == room {
                return Some(i);
            }
            i = i + 1;
        }
        None
    }

    /// The last-read marker of `(user, room)`: the stored marker, or
    /// nothing when no row exists.
    pub fn get_last_read(&self, user: UserId, room: RoomId) -> (r: Option<MessageId>)
        requires
            self.wf(),
        ensures
            r matches Some(id) ==> exists|i: int|
                0 <= i < self.room_states@.len() && (#[trigger] self.room_states@[i]).user == user
                    && self.room_states@[i].room == room && self.room_states@[i].last_read == Some(
                    id,
                ),
            r is None ==> forall|i: int|
                0 <= i < self.room_states@.len() ==> !((#[trigger] self.room_states@[i]).user
                    == user && self.room_states@[i].room == room) || (
                #[trigger] self.room_states@[i]).last_read is None,
    {
        match self.find_room_state(user, room) {
            Some(i) => {
                proof {
                    if self.room_states@[i as int].last_read is None {
                        assert forall|j: int|
                            0 <= j < self.room_states@.len() implies !((
                        #[trigger] self.room_states@[j]).user == user && self.room_states@[j].room
                            == room) || (#[trigger] self.room_states@[j]).last_read is None by {
                            if j != i && self.room_states@[j].user == user
                                && self.room_states@[j].room == room {
                                if j < i {
                                    assert(!(self.room_states@[j].user
                                        == self.room_states@[i as int].user
                                        && self.room_states@[j].room
                                        == self.room_states@[i as int].room));
                                } else {
                                    assert(!(self.room_states@[i as int].user
                                        == self.room_states@[j].user
                                        && self.room_states@[i as int].room
                                        == self.room_states@[j].room));
                                }
                            }
                        }
                    }
                }
                self.room_states[i].last_read
            },
            None => None,
        }
    }

    /// Marks the room as read for the user: the row's last-read marker
    /// is set to the newest message of the room (or cleared when the
    /// room has none). Fails when the room or the user does not exist.
    #[verifier::rlimit(30)]
    pub fn set_room_read(&mut self, room: RoomId, user: UserId) -> (r: Result<
        (),
        SetUserRoomStateError,
    >)
        requires
            old(self).wf(),
        ensures
            final(self).wf(),
            r == Err::<(), SetUserRoomStateError>(SetUserRoomStateError::InvalidRoom) <==> !(
            exists|i: int|
                0 <= i < old(self).rooms@.len() && (#[trigger] old(self).rooms@[i]).id == room),
            r == Err::<(), SetUserRoomStateError>(SetUserRoomStateError::InvalidUser) <==> ((
            exists|i: int|
                0 <= i < old(self).rooms@.len() && (#[trigger] old(self).rooms@[i]).id == room)
                && !old(self).has_user(user)),
            r is Ok ==> exists|i: int|
                {
                    &&& 0 <= i < final(self).room_states@.len()
                    &&& (#[trigger] final(self).room_states@[i]).user == user
                    &&& final(self).room_states@[i].room == room
                    &&& (final(self).room_states@[i].last_read is Some <==> msgs_of_room(
                        old(self).messages@,
                        room,
                    ).len() > 0)
                    &&& (final(self).room_states@[i].last_read matches Some(id) ==> id
                        == msgs_of_room(old(self).messages@, room).last().id)
                },
            r is Ok ==> only_room_states_changed(*old(self), *final(self)),
            r is Err ==> *final(self) == *old(self),
    {
        if self.find_room(room).is_none() {
            return Err(SetUserRoomStateError::InvalidRoom);
        }
        if self.find_user_by_id(user).is_none() {
            return Err(SetUserRoomStateError::InvalidUser);
        }
        let newest = self.newest_in_room(room);
        proof {
            if newest is Some {
                let f = msgs_of_room(self.messages@, room);
                lemma_msgs_of_room_elem(self.messages@, room, f.len() - 1);
                let w = choose|w: int|
                    0 <= w < self.messages@.len() && #[trigger] self.messages@[w] == f[f.len() - 1];
                assert(self.messages@[w].id == f.last().id && self.messages@[w].room == room);
                assert(seq_room_has_message(self.messages@, room, f.last().id));
            }
        }
        match self.find_room_state(user, room) {
            Some(i) => {
                let st = &self.room_states[i];
                let new_row = UserRoomState {
                    user: st.user,
                    room: st.room,
                    watch_level: st.watch_level,
                    last_read: newest,
                };
                self.room_states.set(i, new_row);
                proof {
                    assert(self.room_states@[i as int].user == user);
                    assert(self.room_states@[i as int].room == room);
                    assert(self.room_states@[i as int].last_read == newest);
                    assert(room_states_distinct(self.room_states@)) by {
                        assert forall|a: int, b: int|
                            0 <= a < b < self.room_states@.len() implies !((
                        #[trigger] self.room_states@[a]).user == (
                        #[trigger] self.room_states@[b]).user && self.room_states@[a].room
                            == self.room_states@[b].room) by {
                            assert(!(old(self).room_states@[a].user == old(
                                self,
                            ).room_states@[b].user && old(self).room_states@[a].room == old(
                                self,
                            ).room_states@[b].room));
                        }
                    }
                    assert(read_marks_valid(self.room_states@, self.messages@)) by {
                        assert forall|k: int|
                            0 <= k < self.room_states@.len() implies ((
                        #[trigger] self.room_states@[k]).last_read matches Some(m)
                            ==> seq_room_has_message(
                            self.messages@,
                            self.room_states@[k].room,
                            m,
                        )) by {
                            if k != i {
                                assert(self.room_states@[k] == old(self).room_states@[k]);
                            }
                        }
                    }
                }
                Ok(())
            },
            None => {
                let new_row = UserRoomState {
                    user,
                    room,
                    watch_level: WatchLevel::Watching,
                    last_read: newest,
                };
                self.room_states.push(new_row);
                proof {
                    let ghost w = self.room_states@.len() - 1;
                    assert(self.room_states@[w].user == user);
                    assert(self.room_states@[w].room == room);
                    assert(self.room_states@[w].last_read == newest);
                    assert(room_states_distinct(self.room_states@)) by {
                        assert forall|a: int, b: int|
                            0 <= a < b < self.room_states@.len() implies !((
                        #[trigger] self.room_states@[a]).user == (
                        #[trigger] self.room_states@[b]).user && self.room_states@[a].room
                            == self.room_states@[b].room) by {
                            if b < old(self).room_states@.len() {
                                assert(!(old(self).room_states@[a].user == old(
                                    self,
                                ).room_states@[b].user && old(self).room_states@[a].room == old(
                                    self,
                                ).room_states@[b].room));
                            } else {
                                assert(self.room_states@[a] == old(self).room_states@[a]);
                            }
                        }
                    }
                    assert(read_marks_valid(self.room_states@, self.messages@)) by {
                        assert forall|k: int|
                            0 <= k < self.room_states@.len() implies ((
                        #[trigger] self.room_states@[k]).last_read matches Some(m)
                            ==> seq_room_has_message(
                            self.messages@,
                            self.room_states@[k].room,
                            m,
                        )) by {
                            if k < old(self).room_states@.len() {
                                assert(self.room_states@[k] == old(self).room_states@[k]);
                            }
                        }
                    }
                }
                Ok(())
            },
        }
    }


    /// Replaces the content of one persisted message and marks it
    /// edited. Fails exactly when no message of this id lies in this
    /// room of this community.
    #[verifier::loop_isolation(false)]
    #[verifier::rlimit(30)]
    pub fn edit_message_content(
        &mut self,
        community: CommunityId,
        room: RoomId,
        message: MessageId,
        new_content: String,
    ) -> (r: Result<(), crate::store::InvalidMessageSelector>)
        requires
            old(self).wf(),
        ensures
            final(self).wf(),
            r is Ok <==> exists|i: int|
                0 <= i < old(self).messages@.len() && (#[trigger] old(self).messages@[i]).id
                    == message && old(self).messages@[i].community == community && old(
                    self,
                ).messages@[i].room == room,
            r is Ok ==> exists|i: int|
                {
                    &&& 0 <= i < old(self).messages@.len()
                    &&& (#[trigger] old(self).messages@[i]).id == message
                    &&& final(self).messages@.len() == old(self).messages@.len()
                    &&& final(self).messages@[i].id == message
                    &&& final(self).messages@[i].community == community
                    &&& final(self).messages@[i].room == room
                    &&& final(self).messages@[i].author == old(self).messages@[i].author
                    &&& final(self).messages@[i].sent_at == old(self).messages@[i].sent_at
                    &&& final(self).messages@[i].content == new_content
                    &&& final(self).messages@[i].edited
                    &&& forall|j: int|
                        0 <= j < old(self).messages@.len() && j != i ==> final(self).messages@[j]
                            == old(self).messages@[j]
                },
            only_messages_changed(*old(self), *final(self)),
            final(self).next_message_id == old(self).next_message_id,
            r is Err ==> *final(self) == *old(self),
    {
        let mut i: usize = 0;
        while i < self.messages.len()
            invariant
                i <= self.messages@.len(),
                *self == *old(self),
                forall|j: int|
                    0 <= j < i ==> !((#[trigger] self.messages@[j]).id == message
                        && self.messages@[j].community == community && self.messages@[j].room
                        == room),
            decreases self.messages@.len() - i,
        {
            let m = &self.messages[i];
            if m.id == message && m.community == community && m.room == room {
                let new_rec = MessageRecord {
                    id: m.id,
                    community: m.community,
                    room: m.room,
                    author: m.author,
                    author_profile_version: m.author_profile_version,
                    sent_at: m.sent_at,
                    content: new_content,
                    edited: true,
                };
                self.messages.set(i, new_rec);
                proof {
                    assert(messages_ordered(self.messages@, self.next_message_id)) by {
                        assert forall|a: int, b: int|
                            0 <= a < b < self.messages@.len() implies (
                        #[trigger] self.messages@[a]).id.0 < (#[trigger] self.messages@[b]).id.0 by {
                            assert(old(self).messages@[a].id.0 < old(self).messages@[b].id.0);
                        }
                        assert forall|a: int|
                            0 <= a < self.messages@.len() implies (
                        #[trigger] self.messages@[a]).id.0 < self.next_message_id by {
                            assert(old(self).messages@[a].id.0 < old(self).next_message_id);
                        }
                    }
                    assert(read_marks_valid(self.room_states@, self.messages@)) by {
                        assert forall|k: int|
                            0 <= k < self.room_states@.len() implies ((
                        #[trigger] self.room_states@[k]).last_read matches Some(mid)
                            ==> seq_room_has_message(
                            self.messages@,
                            self.room_states@[k].room,
                            mid,
                        )) by {
                            if self.room_states@[k].last_read is Some {
                                let mid = self.room_states@[k].last_read->0;
                                let w = choose|w: int|
                                    0 <= w < old(self).messages@.len() && (
                                    #[trigger] old(self).messages@[w]).id == mid && old(
                                        self,
                                    ).messages@[w].room == self.room_states@[k].room;
                                assert(self.messages@[w].id == mid && self.messages@[w].room
                                    == self.room_states@[k].room);
                            }
                        }
                    }
                }
                return Ok(());
            }
            i = i + 1;
        }
        Err(crate::store::InvalidMessageSelector)
    }

    /// The reference message a selector points at.
    pub open spec fn spec_selector_ref(selector: MessageSelector) -> MessageId {
        match selector {
            MessageSelector::Before(bound) => bound.spec_message(),
            MessageSelector::After(bound) => bound.spec_message(),
            MessageSelector::Around(id) => id,
        }
    }

    /// A slice of the room's history picked by the selector, presented
    /// newest first and holding at most `count` messages. Fails exactly
    /// when the selector's reference message is not in the room.
    #[verifier::loop_isolation(false)]
    #[verifier::rlimit(30)]
    pub fn get_messages(
        &self,
        community: CommunityId,
        room: RoomId,
        selector: MessageSelector,
        count: usize,
    ) -> (r: Result<Vec<MessageRecord>, InvalidMessageSelector>)
        ensures
            r is Ok <==> exists|p: int|
                0 <= p < self.room_messages(community, room).len() && (
                #[trigger] self.room_messages(community, room)[p]).id == Self::spec_selector_ref(
                    selector,
                ),
            r matches Ok(v) ==> selection_ok(
                self.room_messages(community, room),
                selector,
                count as int,
                v@,
            ),
    {
        let msgs = self.collect_room_messages(community, room);
        let ghost f = self.room_messages(community, room);
        let reference = match selector {
            MessageSelector::Before(bound) => bound.message(),
            MessageSelector::After(bound) => bound.message(),
            MessageSelector::Around(id) => id,
        };

        // locate the reference message in the room's history
        let mut pos: usize = 0;
        let mut found = false;
        while pos < msgs.len() && !found
            invariant
                pos <= f.len(),
                msgs@ == f,
                !found ==> forall|j: int| 0 <= j < pos ==> (#[trigger] f[j]).id != reference,
                found ==> pos < f.len() && f[pos as int].id == reference,
            decreases f.len() - pos + (if found { 0int } else { 1int }),
        {
            if msgs[pos].id == reference {
                found = true;
            } else {
                pos = pos + 1;
            }
        }
        if !found {
            return Err(InvalidMessageSelector);
        }

        let len = msgs.len();
        let (lo, hi): (usize, usize) = match selector {
            MessageSelector::Before(bound) => {
                let hi = match bound {
                    Bound::Inclusive(_) => pos + 1,
                    Bound::Exclusive(_) => pos,
                };
                let lo = if hi >= count {
                    hi - count
                } else {
                    0
                };
                (lo, hi)
            },
            MessageSelector::After(bound) => {
                let lo = match bound {
                    Bound::Inclusive(_) => pos,
                    Bound::Exclusive(_) => pos + 1,
                };
                let hi = if count <= len - lo {
                    lo + count
                } else {
                    len
                };
                (lo, hi)
            },
            MessageSelector::Around(_) => {
                let half = count / 2;
                let lo = if pos >= half {
                    pos - half
                } else {
                    0
                };
                let hi = if count <= len - lo {
                    lo + count
                } else {
                    len
                };
                (lo, hi)
            },
        };

        // emit the slice newest first
        let mut out: Vec<MessageRecord> = Vec::new();
        let mut k: usize = 0;
        while k < hi - lo
            invariant
                msgs@ == f,
                lo <= hi <= f.len(),
                k <= hi - lo,
                out@.len() == k,
                forall|t: int| 0 <= t < k ==> #[trigger] out@[t] == f[hi - 1 - t],
            decreases hi - lo - k,
        {
            out.push(clone_message(&msgs[hi - 1 - k]));
            k = k + 1;
        }
        proof {
            assert(out@ =~= f.subrange(lo as int, hi as int).reverse());
            assert(f.subrange(lo as int, hi as int) == f.subrange(lo as int, hi as int));
            assert(f[pos as int].id == Self::spec_selector_ref(selector));
            assert(selection_ok(f, selector, count as int, out@));
        }
        Ok(out)
    }

    /// Everything a client needs to catch up on a room: its last-read
    /// marker, the newest messages, and whether that batch connects to
    /// what the client already received. The batch follows the
    /// `last_received` marker when one is given, and otherwise ends at
    /// the newest message; it is continuous exactly when it holds fewer
    /// than `message_count` messages.
    #[verifier::rlimit(30)]
    pub fn get_room_update(
        &self,
        user: UserId,
        community: CommunityId,
        room: RoomId,
        last_received: Option<MessageId>,
        message_count: usize,
    ) -> (r: Result<RoomUpdate, InvalidMessageSelector>)
        requires
            self.wf(),
        ensures
            r matches Ok(u) ==> u.continuous == (u.new_messages.messages@.len() < message_count),
            r matches Ok(u) ==> (match last_received {
                Some(x) => exists|recs: Seq<MessageRecord>|
                    selection_ok(
                        self.room_messages(community, room),
                        MessageSelector::After(Bound::Exclusive(x)),
                        message_count as int,
                        recs,
                    ) && u.new_messages.messages@ == #[trigger] messages_of(recs),
                None => {
                    if self.room_messages(community, room).len() > 0 {
                        exists|recs: Seq<MessageRecord>|
                            selection_ok(
                                self.room_messages(community, room),
                                MessageSelector::Before(
                                    Bound::Inclusive(
                                        self.room_messages(community, room).last().id,
                                    ),
                                ),
                                message_count as int,
                                recs,
                            ) && u.new_messages.messages@ == #[trigger] messages_of(recs)
                    } else {
                        u.new_messages.messages@.len() == 0
                    }
                },
            }),
            r matches Ok(u) ==> (u.last_read matches Some(id) ==> exists|i: int|
                0 <= i < self.room_states@.len() && (#[trigger] self.room_states@[i]).user == user
                    && self.room_states@[i].room == room && self.room_states@[i].last_read == Some(
                    id,
                )),
            r matches Ok(u) ==> (u.last_read is None ==> forall|i: int|
                0 <= i < self.room_states@.len() ==> !((#[trigger] self.room_states@[i]).user
                    == user && self.room_states@[i].room == room) || (
                #[trigger] self.room_states@[i]).last_read is None),
            r is Err <==> (last_received matches Some(x) && !(exists|p: int|
                0 <= p < self.room_messages(community, room).len() && (
                #[trigger] self.room_messages(community, room)[p]).id == x)),
    {
        let last_read = self.get_last_read(user, room);
        let newest = self.get_newest_message(community, room);

        let records = match last_received {
            Some(x) => {
                match self.get_messages(
                    community,
                    room,
                    MessageSelector::After(Bound::Exclusive(x)),
                    message_count,
                ) {
                    Ok(v) => v,
                    Err(e) => {
                        return Err(e);
                    },
                }
            },
            None => {
                match newest {
                    Some(n) => {
                        let ghost f = self.room_messages(community, room);
                        proof {
                            assert(f[f.len() - 1].id == n);
                        }
                        match self.get_messages(
                            community,
                            room,
                            MessageSelector::Before(Bound::Inclusive(n)),
                            message_count,
                        ) {
                            Ok(v) => v,
                            Err(e) => {
                                return Err(e);
                            },
                        }
                    },
                    None => Vec::new(),
                }
            },
        };

        // serve the records to the client
        let mut messages: Vec<Message> = Vec::new();
        let mut k: usize = 0;
        while k < records.len()
            invariant
                k <= records@.len(),
                messages@.len() == k,
                forall|t: int| 0 <= t < k ==> #[trigger] messages@[t] == message_of(records@[t]),
            decreases records@.len() - k,
        {
            messages.push(message_record_to_proto(&records[k]));
            k = k + 1;
        }
        proof {
            assert(messages@ =~= messages_of(records@));
        }

        let continuous = messages.len() < message_count;
        Ok(RoomUpdate { last_read, continuous, new_messages: MessageHistory { messages } })
    }
}

/// Every element of a room's history occurs in the full message table
/// and lies in that room.
pub proof fn lemma_msgs_of_room_elem(s: Seq<MessageRecord>, room: RoomId, k: int)
    requires
        0 <= k < msgs_of_room(s, room).len(),
    ensures
        exists|i: int| 0 <= i < s.len() && #[trigger] s[i] == msgs_of_room(s, room)[k],
        msgs_of_room(s, room)[k].room == room,
    decreases s.len(),
{
    reveal(Seq::filter);
    if s.len() == 0 {
    } else {
        let rest = msgs_of_room(s.drop_last(), room);
        if s.last().room == room && k == rest.len() {
            assert(s[s.len() - 1] == msgs_of_room(s, room)[k]);
        } else {
            lemma_msgs_of_room_elem(s.drop_last(), room, k);
            let i = choose|i: int|
                0 <= i < s.drop_last().len() && #[trigger] s.drop_last()[i] == msgs_of_room(
                    s.drop_last(),
                    room,
                )[k];
            assert(s[i] == msgs_of_room(s, room)[k]);
        }
    }
}

} // verus!
