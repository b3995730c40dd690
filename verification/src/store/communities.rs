//! Store operations on communities, their rooms, memberships and the
//! administrator table.

use vstd::prelude::*;
use vstd::pervasive::VecAdditionalExecFns;
use crate::store::{CommunityRecord, CreateAdminError, Database, InvalidUser, Membership, RoomRecord, AdminRecord};
use crate::{AdminPermissionFlags, CommunityId, RoomId, UserId};

verus! {

/// The two records describe the same community.
pub open spec fn same_community(a: CommunityRecord, b: CommunityRecord) -> bool {
    &&& a.id == b.id
    &&& a.name == b.name
    &&& a.description == b.description
}

impl Database {
    /// Index of the community with this id, if any.
    pub(crate) fn find_community(&self, id: CommunityId) -> (r: Option<usize>)
        ensures
            r matches Some(i) ==> i < self.communities@.len() && self.communities@[i as int].id
                == id,
            r is None ==> !self.has_community(id),
    {
        let mut i: usize = 0;
        while i < self.communities.len()
            invariant
                i <= self.communities@.len(),
                forall|j: int| 0 <= j < i ==> (#[trigger] self.communities@[j]).id != id,
            decreases self.communities@.len() - i,
        {
            if self.communities[i].id == id {
                return Some(i);
            }
            i = i + 1;
        }
        None
    }

    /// Index of the room with this id, if any.
    pub(crate) fn find_room(&self, id: RoomId) -> (r: Option<usize>)
        ensures
            r matches Some(i) ==> i < self.rooms@.len() && self.rooms@[i as int].id == id,
            r is None ==> forall|j: int|
                0 <= j < self.rooms@.len() ==> (#[trigger] self.rooms@[j]).id != id,
    {
        let mut i: usize = 0;
        while i < self.rooms.len()
            invariant
                i <= self.rooms@.len(),
                forall|j: int| 0 <= j < i ==> (#[trigger] self.rooms@[j]).id != id,
            decreases self.rooms@.len() - i,
        {
            if self.rooms[i].id == id {
                return Some(i);
            }
            i = i + 1;
        }
        None
    }

    /// The metadata of this community, if it exists.
    pub fn get_community_metadata(&self, id: CommunityId) -> (r: Option<CommunityRecord>)
        ensures
            r is Some <==> self.has_community(id),
            r matches Some(c) ==> c.id == id && exists|i: int|
                0 <= i < self.communities@.len() && same_community(
                    #[trigger] self.communities@[i],
                    c,
                ),
    {
        match self.find_community(id) {
            Some(i) => {
                let c = &self.communities[i];
                Some(
                    CommunityRecord {
                        id: c.id,
                        name: c.name.clone(),
                        description: match &c.description {
                            Some(d) => Some(d.clone()),
                            None => None,
                        },
                    },
                )
            },
            None => None,
        }
    }

    /// Records a new community under a freshly drawn id. Succeeds
    /// exactly when the id is not taken.
    pub fn create_community(&mut self, id: CommunityId, name: String, description: Option<String>)
        -> (r: bool)
        requires
            old(self).wf(),
        ensures
            final(self).wf(),
            r <==> !old(self).has_community(id),
            r ==> final(self).communities@ == old(self).communities@.push(
                CommunityRecord { id, name, description },
            ),
            r ==> only_communities_changed(*old(self), *final(self)),
            !r ==> *final(self) == *old(self),
    {
        if self.find_community(id).is_some() {
            return false;
        }
        self.communities.push(CommunityRecord { id, name, description });
        true
    }

    /// Records a new room in a community under a freshly drawn id.
    /// Succeeds exactly when the community exists and the room id is not
    /// taken.
    pub fn create_room(&mut self, id: RoomId, community: CommunityId, name: String) -> (r: bool)
        requires
            old(self).wf(),
        ensures
            final(self).wf(),
            r <==> old(self).has_community(community) && !(exists|j: int|
                0 <= j < old(self).rooms@.len() && (#[trigger] old(self).rooms@[j]).id == id),
            r ==> final(self).rooms@ == old(self).rooms@.push(
                RoomRecord { id, community, name },
            ),
            r ==> only_rooms_changed(*old(self), *final(self)),
            !r ==> *final(self) == *old(self),
    {
        if self.find_community(community).is_none() {
            return false;
        }
        if self.find_room(id).is_some() {
            return false;
        }
        self.rooms.push(RoomRecord { id, community, name });
        true
    }

    /// Copies of the rooms of one community, in storage order.
    #[verifier::loop_isolation(false)]
    pub fn rooms_of_community(&self, community: CommunityId) -> (r: Vec<RoomRecord>)
        ensures
            r@ == rooms_in(self.rooms@, community),
    {
        let mut out: Vec<RoomRecord> = Vec::new();
        let n = self.rooms.len();
        let mut i: usize = 0;
        proof {
            assert(self.rooms@.take(0) =~= Seq::<RoomRecord>::empty());
            reveal(Seq::filter);
        }
        while i < n
            invariant
                n == self.rooms@.len(),
                i <= n,
                out@ == rooms_in(self.rooms@.take(i as int), community),
            decreases n - i,
        {
            let rm = &self.rooms[i];
            let ghost cur = self.rooms@[i as int];
            let ghost pre = self.rooms@.take(i as int);
            let ghost post = self.rooms@.take(i + 1 as int);
            proof {
                reveal(Seq::filter);
                assert(post.drop_last() =~= pre);
                assert(post.last() == cur);
            }
            if rm.community == community {
                let copy = RoomRecord { id: rm.id, community: rm.community, name: rm.name.clone() };
                let ghost copyg = copy;
                out.push(copy);
                proof {
                    assert(copyg == cur);
                    assert(out@ =~= rooms_in(post, community));
                }
            } else {
                proof {
                    assert(out@ =~= rooms_in(post, community));
                }
            }
            i = i + 1;
        }
        proof {
            assert(self.rooms@.take(n as int) =~= self.rooms@);
        }
        out
    }

    /// Checks whether the user is a member of the community.
    pub fn contains_membership(&self, community: CommunityId, user: UserId) -> (r: bool)
        ensures
            r == self.is_member(community, user),
    {
        let mut i: usize = 0;
        while i < self.memberships.len()
            invariant
                i <= self.memberships@.len(),
                forall|j: int|
                    0 <= j < i ==> #[trigger] self.memberships@[j] != (Membership {
                        community,
                        user,
                    }),
            decreases self.memberships@.len() - i,
        {
            if self.memberships[i].community == community && self.memberships[i].user == user {
                proof {
                    assert(self.memberships@[i as int] == (Membership { community, user }));
                }
                return true;
            }
            i = i + 1;
        }
        false
    }

    /// Inserts a membership row. Succeeds exactly when the community
    /// and the user exist and the row is not there yet.
    pub fn insert_membership(&mut self, community: CommunityId, user: UserId) -> (r: Result<
        (),
        crate::proto::ErrResponse,
    >)
        requires
            old(self).wf(),
        ensures
            final(self).wf(),
            r == Err::<(), crate::proto::ErrResponse>(
                crate::proto::ErrResponse::InvalidCommunity,
            ) <==> !old(self).has_community(community),
            r == Err::<(), crate::proto::ErrResponse>(crate::proto::ErrResponse::InvalidUser)
                <==> old(self).has_community(community) && !old(self).has_user(user),
            r == Err::<(), crate::proto::ErrResponse>(
                crate::proto::ErrResponse::AlreadyInCommunity,
            ) <==> old(self).has_community(community) && old(self).has_user(user) && old(
                self,
            ).is_member(community, user),
            r is Ok <==> old(self).has_community(community) && old(self).has_user(user) && !old(
                self,
            ).is_member(community, user),
            r is Ok ==> final(self).memberships@ == old(self).memberships@.push(
                Membership { community, user },
            ),
            r is Ok ==> only_memberships_changed(*old(self), *final(self)),
            r is Err ==> *final(self) == *old(self),
    {
        if self.find_community(community).is_none() {
            return Err(crate::proto::ErrResponse::InvalidCommunity);
        }
        if self.find_user_by_id(user).is_none() {
            return Err(crate::proto::ErrResponse::InvalidUser);
        }
        if self.contains_membership(community, user) {
            return Err(crate::proto::ErrResponse::AlreadyInCommunity);
        }
        self.memberships.push(Membership { community, user });
        Ok(())
    }

    /// The communities the user is a member of, in storage order.
    #[verifier::loop_isolation(false)]
    pub fn communities_of_user(&self, user: UserId) -> (r: Vec<CommunityId>)
        ensures
            r@ == member_communities(self.memberships@, user),
    {
        let mut out: Vec<CommunityId> = Vec::new();
        let n = self.memberships.len();
        let mut i: usize = 0;
        proof {
            assert(self.memberships@.take(0) =~= Seq::<Membership>::empty());
            reveal(Seq::filter);
        }
        while i < n
            invariant
                n == self.memberships@.len(),
                i <= n,
                out@ == member_communities(self.memberships@.take(i as int), user),
            decreases n - i,
        {
            let ghost pre = self.memberships@.take(i as int);
            let ghost post = self.memberships@.take(i + 1 as int);
            proof {
                reveal(Seq::filter);
                assert(post.drop_last() =~= pre);
                assert(post.last() == self.memberships@[i as int]);
            }
            if self.memberships[i].user == user {
                out.push(self.memberships[i].community);
                proof {
                    assert(out@ =~= member_communities(post, user));
                }
            } else {
                proof {
                    assert(out@ =~= member_communities(post, user));
                }
            }
            i = i + 1;
        }
        proof {
            assert(self.memberships@.take(n as int) =~= self.memberships@);
        }
        out
    }

    /// Index of the administrator row of this user, if any.
    pub(crate) fn find_admin(&self, user: UserId) -> (r: Option<usize>)
        ensures
            r matches Some(i) ==> i < self.admins@.len() && self.admins@[i as int].user == user,
            r is None ==> forall|j: int|
                0 <= j < self.admins@.len() ==> (#[trigger] self.admins@[j]).user != user,
    {
        let mut i: usize = 0;
        while i < self.admins.len()
            invariant
                i <= self.admins@.len(),
                forall|j: int| 0 <= j < i ==> (#[trigger] self.admins@[j]).user != user,
            decreases self.admins@.len() - i,
        {
            if self.admins[i].user == user {
                return Some(i);
            }
            i = i + 1;
        }
        None
    }

    /// Promotes a user to administrator with the given permissions.
    /// Fails when the user does not exist or is an administrator
    /// already.
    pub fn create_admin(&mut self, user: UserId, permissions: AdminPermissionFlags) -> (r: Result<
        (),
        CreateAdminError,
    >)
        requires
            old(self).wf(),
        ensures
            final(self).wf(),
            r == Err::<(), CreateAdminError>(CreateAdminError::InvalidUser) <==> !old(
                self,
            ).has_user(user),
            r == Err::<(), CreateAdminError>(CreateAdminError::AlreadyAdmin) <==> old(
                self,
            ).has_user(user) && (exists|j: int|
                0 <= j < old(self).admins@.len() && (#[trigger] old(self).admins@[j]).user
                    == user),
            r is Ok <==> old(self).has_user(user) && !(exists|j: int|
                0 <= j < old(self).admins@.len() && (#[trigger] old(self).admins@[j]).user
                    == user),
            r is Ok ==> final(self).admins@ == old(self).admins@.push(
                AdminRecord { user, permission_flags: permissions },
            ),
            r is Ok ==> only_admins_changed(*old(self), *final(self)),
            r is Err ==> *final(self) == *old(self),
    {
        if self.find_user_by_id(user).is_none() {
            return Err(CreateAdminError::InvalidUser);
        }
        if self.find_admin(user).is_some() {
            return Err(CreateAdminError::AlreadyAdmin);
        }
        self.admins.push(AdminRecord { user, permission_flags: permissions });
        Ok(())
    }

    /// The administrator permissions of this user; a user without an
    /// administrator row has none.
    pub fn get_admin_permissions(&self, user: UserId) -> (r: AdminPermissionFlags)
        ensures
            (exists|j: int|
                0 <= j < self.admins@.len() && (#[trigger] self.admins@[j]).user == user
                    && self.admins@[j].permission_flags == r) || (r == (AdminPermissionFlags(0))
                && forall|j: int|
                0 <= j < self.admins@.len() ==> (#[trigger] self.admins@[j]).user != user),
    {
        match self.find_admin(user) {
            Some(i) => self.admins[i].permission_flags,
            None => AdminPermissionFlags(0),
        }
    }

    /// Replaces an administrator's permissions. Fails when the user has
    /// no administrator row.
    pub fn set_admin_permissions(
        &mut self,
        user: UserId,
        permissions: AdminPermissionFlags,
    ) -> (r: Result<(), InvalidUser>)
        requires
            old(self).wf(),
        ensures
            final(self).wf(),
            r is Ok <==> exists|j: int|
                0 <= j < old(self).admins@.len() && (#[trigger] old(self).admins@[j]).user == user,
            r is Ok ==> exists|i: int|
                {
                    &&& 0 <= i < old(self).admins@.len()
                    &&& (#[trigger] old(self).admins@[i]).user == user
                    &&& final(self).admins@ == old(self).admins@.update(
                        i,
                        AdminRecord { user, permission_flags: permissions },
                    )
                },
            r is Ok ==> only_admins_changed(*old(self), *final(self)),
            r is Err ==> *final(self) == *old(self),
    {
        match self.find_admin(user) {
            Some(i) => {
                self.admins.set(i, AdminRecord { user, permission_flags: permissions });
                proof {
                    assert forall|a: int, b: int|
                        0 <= a < b < self.admins@.len() implies (#[trigger] self.admins@[a]).user
                        != (#[trigger] self.admins@[b]).user by {
                        assert(old(self).admins@[a].user != old(self).admins@[b].user);
                    }
                }
                Ok(())
            },
            None => Err(InvalidUser),
        }
    }
}

/// Everything of the store except the administrator table is unchanged.
pub open spec fn only_admins_changed(pre: Database, post: Database) -> bool {
    &&& post.users == pre.users
    &&& post.tokens == pre.tokens
    &&& post.communities == pre.communities
    &&& post.memberships == pre.memberships
    &&& post.rooms == pre.rooms
    &&& post.messages == pre.messages
    &&& post.room_states == pre.room_states
    &&& post.invite_codes == pre.invite_codes
    &&& post.expired_devices == pre.expired_devices
    &&& post.next_message_id == pre.next_message_id
}

/// Everything of the store except the community table is unchanged.
pub open spec fn only_communities_changed(pre: Database, post: Database) -> bool {
    &&& post.users == pre.users
    &&& post.tokens == pre.tokens
    &&& post.admins == pre.admins
    &&& post.memberships == pre.memberships
    &&& post.rooms == pre.rooms
    &&& post.messages == pre.messages
    &&& post.room_states == pre.room_states
    &&& post.invite_codes == pre.invite_codes
    &&& post.expired_devices == pre.expired_devices
    &&& post.next_message_id == pre.next_message_id
}

/// Everything of the store except the room table is unchanged.
pub open spec fn only_rooms_changed(pre: Database, post: Database) -> bool {
    &&& post.users == pre.users
    &&& post.tokens == pre.tokens
    &&& post.admins == pre.admins
    &&& post.communities == pre.communities
    &&& post.memberships == pre.memberships
    &&& post.messages == pre.messages
    &&& post.room_states == pre.room_states
    &&& post.invite_codes == pre.invite_codes
    &&& post.expired_devices == pre.expired_devices
    &&& post.next_message_id == pre.next_message_id
}

/// Everything of the store except the membership table is unchanged.
pub open spec fn only_memberships_changed(pre: Database, post: Database) -> bool {
    &&& post.users == pre.users
    &&& post.tokens == pre.tokens
    &&& post.admins == pre.admins
    &&& post.communities == pre.communities
    &&& post.rooms == pre.rooms
    &&& post.messages == pre.messages
    &&& post.room_states == pre.room_states
    &&& post.invite_codes == pre.invite_codes
    &&& post.expired_devices == pre.expired_devices
    &&& post.next_message_id == pre.next_message_id
}

/// The rooms of one community, in storage order.
pub open spec fn rooms_in(rooms: Seq<RoomRecord>, community: CommunityId) -> Seq<RoomRecord> {
    rooms.filter(|r: RoomRecord| r.community == community)
}

/// The communities a user belongs to, in membership storage order.
pub open spec fn member_communities(memberships: Seq<Membership>, user: UserId) -> Seq<
    CommunityId,
> {
    memberships.filter(|m: Membership| m.user == user).map_values(|m: Membership| m.community)
}

} // verus!
