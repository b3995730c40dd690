//! Store operations on user accounts.

use vstd::prelude::*;
use vstd::pervasive::VecAdditionalExecFns;
use crate::auth::HashSchemeVersion;
use crate::proto::Profile;
use crate::store::{bytes_eq, copy_bytes, users_distinct, ChangeUsernameError, Database, NonexistentUser, UserRecord, UsernameConflict};
use crate::{ProfileVersion, UserId};

verus! {

/// The two records describe the same user state.
pub open spec fn same_user(a: UserRecord, b: UserRecord) -> bool {
    &&& a.id == b.id
    &&& a.username@ == b.username@
    &&& a.display_name == b.display_name
    &&& a.profile_version == b.profile_version
    &&& a.password_hash == b.password_hash
    &&& a.hash_scheme_version == b.hash_scheme_version
    &&& a.compromised == b.compromised
    &&& a.locked == b.locked
    &&& a.banned == b.banned
}

/// `b` is `a` with the given username and the profile version advanced
/// by one (wrapping at the type bound).
pub open spec fn renamed_user(a: UserRecord, b: UserRecord, username: Seq<u8>) -> bool {
    &&& b.id == a.id
    &&& b.username@ == username
    &&& b.display_name == a.display_name
    &&& b.profile_version.0 == vstd::wrapping::u32_specs::wrapping_add(a.profile_version.0, 1)
    &&& b.password_hash == a.password_hash
    &&& b.hash_scheme_version == a.hash_scheme_version
    &&& b.compromised == a.compromised
    &&& b.locked == a.locked
    &&& b.banned == a.banned
}

/// `b` is `a` with the given display name and the profile version
/// advanced by one (wrapping at the type bound).
pub open spec fn redisplayed_user(a: UserRecord, b: UserRecord, display_name: Seq<char>) -> bool {
    &&& b.id == a.id
    &&& b.username@ == a.username@
    &&& b.display_name@ == display_name
    &&& b.profile_version.0 == vstd::wrapping::u32_specs::wrapping_add(a.profile_version.0, 1)
    &&& b.password_hash == a.password_hash
    &&& b.hash_scheme_version == a.hash_scheme_version
    &&& b.compromised == a.compromised
    &&& b.locked == a.locked
    &&& b.banned == a.banned
}

/// `b` is `a` with a new password digest and scheme, and the compromised
/// mark cleared.
pub open spec fn repassworded_user(
    a: UserRecord,
    b: UserRecord,
    digest: u64,
    scheme: HashSchemeVersion,
) -> bool {
    &&& b.id == a.id
    &&& b.username@ == a.username@
    &&& b.display_name == a.display_name
    &&& b.profile_version == a.profile_version
    &&& b.password_hash == digest
    &&& b.hash_scheme_version == scheme
    &&& !b.compromised
    &&& b.locked == a.locked
    &&& b.banned == a.banned
}

/// Everything of the store except the user table is unchanged.
pub open spec fn only_users_changed(pre: Database, post: Database) -> bool {
    &&& post.tokens == pre.tokens
    &&& post.admins == pre.admins
    &&& post.communities == pre.communities
    &&& post.memberships == pre.memberships
    &&& post.rooms == pre.rooms
    &&& post.messages == pre.messages
    &&& post.room_states == pre.room_states
    &&& post.invite_codes == pre.invite_codes
    &&& post.expired_devices == pre.expired_devices
    &&& post.next_message_id == pre.next_message_id
}

/// Replacing one user record by one with the same id and username keeps
/// the store well-formed.
proof fn lemma_update_user_wf(pre: Database, post: Database, i: int, rec: UserRecord)
    requires
        pre.wf(),
        0 <= i < pre.users@.len(),
        post.users@ == pre.users@.update(i, rec),
        rec.id == pre.users@[i].id,
        rec.username@ == pre.users@[i].username@,
        only_users_changed(pre, post),
    ensures
        post.wf(),
{
    assert forall|a: int, b: int| 0 <= a < b < post.users@.len() implies (
    #[trigger] post.users@[a]).id != (#[trigger] post.users@[b]).id && post.users@[a].username@
        != post.users@[b].username@ by {
        assert(pre.users@[a].id != pre.users@[b].id);
        assert(pre.users@[a].username@ != pre.users@[b].username@);
    }
}

/// A fresh copy of a user record.
fn clone_user(u: &UserRecord) -> (r: UserRecord)
    ensures
        same_user(*u, r),
{
    UserRecord {
        id: u.id,
        username: copy_bytes(&u.username),
        display_name: u.display_name.clone(),
        profile_version: u.profile_version,
        password_hash: u.password_hash,
        hash_scheme_version: u.hash_scheme_version,
        compromised: u.compromised,
        locked: u.locked,
        banned: u.banned,
    }
}

impl Database {
    /// Index of the user with this id, if any.
    pub(crate) fn find_user_by_id(&self, id: UserId) -> (r: Option<usize>)
        ensures
            r matches Some(i) ==> i < self.users@.len() && self.users@[i as int].id == id,
            r is None ==> !self.has_user(id),
    {
        let mut i: usize = 0;
        while i < self.users.len()
            invariant
                i <= self.users@.len(),
                forall|j: int| 0 <= j < i ==> (#[trigger] self.users@[j]).id != id,
            decreases self.users@.len() - i,
        {
            if self.users[i].id == id {
                return Some(i);
            }
            i = i + 1;
        }
        None
    }

    /// Index of the user stored under this normalized username, if any.
    pub(crate) fn find_user_by_name(&self, name: &Vec<u8>) -> (r: Option<usize>)
        ensures
            r matches Some(i) ==> i < self.users@.len() && self.users@[i as int].username@
                == name@,
            r is None ==> !self.has_username(name@),
    {
        let mut i: usize = 0;
        while i < self.users.len()
            invariant
                i <= self.users@.len(),
                forall|j: int| 0 <= j < i ==> (#[trigger] self.users@[j]).username@ != name@,
            decreases self.users@.len() - i,
        {
            if bytes_eq(&self.users[i].username, name) {
                return Some(i);
            }
            i = i + 1;
        }
        None
    }

    /// The user with this id, if any.
    pub fn get_user_by_id(&self, id: UserId) -> (r: Option<UserRecord>)
        ensures
            r is Some <==> self.has_user(id),
            r matches Some(u) ==> u.id == id && exists|i: int|
                0 <= i < self.users@.len() && same_user(#[trigger] self.users@[i], u),
    {
        match self.find_user_by_id(id) {
            Some(i) => Some(clone_user(&self.users[i])),
            None => None,
        }
    }

    /// The user stored under this normalized username, if any.
    pub fn get_user_by_name(&self, name: &Vec<u8>) -> (r: Option<UserRecord>)
        ensures
            r is Some <==> self.has_username(name@),
            r matches Some(u) ==> u.username@ == name@ && exists|i: int|
                0 <= i < self.users@.len() && same_user(#[trigger] self.users@[i], u),
    {
        match self.find_user_by_name(name) {
            Some(i) => Some(clone_user(&self.users[i])),
            None => None,
        }
    }

    /// The profile of this user, if the user exists.
    pub fn get_user_profile(&self, id: UserId) -> (r: Option<Profile>)
        ensures
            r is Some <==> self.has_user(id),
            r matches Some(p) ==> exists|i: int|
                0 <= i < self.users@.len() && {
                    let u = #[trigger] self.users@[i];
                    &&& u.id == id
                    &&& p.version == u.profile_version
                    &&& p.username@ == u.username@
                    &&& p.display_name == u.display_name
                },
    {
        match self.find_user_by_id(id) {
            Some(i) => {
                let u = &self.users[i];
                Some(
                    Profile {
                        version: u.profile_version,
                        username: copy_bytes(&u.username),
                        display_name: u.display_name.clone(),
                    },
                )
            },
            None => None,
        }
    }

    /// Inserts a new account. Succeeds exactly when neither the id nor
    /// the username is taken yet; on success the record is appended
    /// unchanged.
    pub fn create_user(&mut self, user: UserRecord) -> (r: Result<(), UsernameConflict>)
        requires
            old(self).wf(),
        ensures
            final(self).wf(),
            r is Ok <==> !old(self).has_user(user.id) && !old(self).has_username(user.username@),
            r is Ok ==> final(self).users@ == old(self).users@.push(user),
            r is Ok ==> only_users_changed(*old(self), *final(self)),
            r is Err ==> *final(self) == *old(self),
    {
        if self.find_user_by_id(user.id).is_some() {
            return Err(UsernameConflict);
        }
        if self.find_user_by_name(&user.username).is_some() {
            return Err(UsernameConflict);
        }
        self.users.push(user);
        Ok(())
    }

    /// Renames an account and advances its profile version by one.
    /// Fails when the user does not exist, or when a different account
    /// already holds the new name.
    #[verifier::loop_isolation(false)]
    pub fn change_username(&mut self, user: UserId, new_username: Vec<u8>) -> (r: Result<
        (),
        ChangeUsernameError,
    >)
        requires
            old(self).wf(),
        ensures
            final(self).wf(),
            r is Ok <==> old(self).has_user(user) && !(exists|i: int|
                0 <= i < old(self).users@.len() && (#[trigger] old(self).users@[i]).username@
                    == new_username@ && old(self).users@[i].id != user),
            r == Err::<(), ChangeUsernameError>(ChangeUsernameError::NonexistentUser) <==> !old(
                self,
            ).has_user(user),
            r is Ok ==> exists|i: int|
                {
                    &&& 0 <= i < old(self).users@.len()
                    &&& (#[trigger] old(self).users@[i]).id == user
                    &&& final(self).users@.len() == old(self).users@.len()
                    &&& renamed_user(old(self).users@[i], final(self).users@[i], new_username@)
                    &&& forall|j: int|
                        0 <= j < old(self).users@.len() && j != i ==> final(self).users@[j] == old(
                            self,
                        ).users@[j]
                },
            r is Ok ==> only_users_changed(*old(self), *final(self)),
            r is Err ==> *final(self) == *old(self),
    {
        let idx = match self.find_user_by_id(user) {
            Some(i) => i,
            None => {
                return Err(ChangeUsernameError::NonexistentUser);
            },
        };
        // reject when another account holds the name
        let mut k: usize = 0;
        while k < self.users.len()
            invariant
                k <= self.users@.len(),
                forall|j: int|
                    0 <= j < k ==> !((#[trigger] self.users@[j]).username@ == new_username@
                        && self.users@[j].id != user),
            decreases self.users@.len() - k,
        {
            if self.users[k].id != user && bytes_eq(&self.users[k].username, &new_username) {
                return Err(ChangeUsernameError::UsernameConflict);
            }
            k = k + 1;
        }
        let old_rec = &self.users[idx];
        let new_rec = UserRecord {
            id: old_rec.id,
            username: new_username,
            display_name: old_rec.display_name.clone(),
            profile_version: ProfileVersion(old_rec.profile_version.0.wrapping_add(1)),
            password_hash: old_rec.password_hash,
            hash_scheme_version: old_rec.hash_scheme_version,
            compromised: old_rec.compromised,
            locked: old_rec.locked,
            banned: old_rec.banned,
        };
        self.users.set(idx, new_rec);
        Ok(())
    }

    /// Changes an account's display name and advances its profile
    /// version by one. Fails only when the user does not exist.
    pub fn change_display_name(&mut self, user: UserId, new_display_name: String) -> (r: Result<
        (),
        NonexistentUser,
    >)
        requires
            old(self).wf(),
        ensures
            final(self).wf(),
            r is Ok <==> old(self).has_user(user),
            r is Ok ==> exists|i: int|
                {
                    &&& 0 <= i < old(self).users@.len()
                    &&& (#[trigger] old(self).users@[i]).id == user
                    &&& final(self).users@.len() == old(self).users@.len()
                    &&& redisplayed_user(
                        old(self).users@[i],
                        final(self).users@[i],
                        new_display_name@,
                    )
                    &&& forall|j: int|
                        0 <= j < old(self).users@.len() && j != i ==> final(self).users@[j] == old(
                            self,
                        ).users@[j]
                },
            r is Ok ==> only_users_changed(*old(self), *final(self)),
            r is Err ==> *final(self) == *old(self),
    {
        let idx = match self.find_user_by_id(user) {
            Some(i) => i,
            None => {
                return Err(NonexistentUser);
            },
        };
        let old_rec = &self.users[idx];
        let new_rec = UserRecord {
            id: old_rec.id,
            username: copy_bytes(&old_rec.username),
            display_name: new_display_name,
            profile_version: ProfileVersion(old_rec.profile_version.0.wrapping_add(1)),
            password_hash: old_rec.password_hash,
            hash_scheme_version: old_rec.hash_scheme_version,
            compromised: old_rec.compromised,
            locked: old_rec.locked,
            banned: old_rec.banned,
        };
        self.users.set(idx, new_rec);
        proof {
            lemma_update_user_wf(*old(self), *self, idx as int, self.users@[idx as int]);
        }
        Ok(())
    }

    /// Replaces an account's password digest and scheme and clears the
    /// compromised mark. Fails only when the user does not exist.
    pub fn change_password(
        &mut self,
        user: UserId,
        new_password_hash: u64,
        hash_scheme_version: HashSchemeVersion,
    ) -> (r: Result<(), NonexistentUser>)
        requires
            old(self).wf(),
        ensures
            final(self).wf(),
            r is Ok <==> old(self).has_user(user),
            r is Ok ==> exists|i: int|
                {
                    &&& 0 <= i < old(self).users@.len()
                    &&& (#[trigger] old(self).users@[i]).id == user
                    &&& final(self).users@.len() == old(self).users@.len()
                    &&& repassworded_user(
                        old(self).users@[i],
                        final(self).users@[i],
                        new_password_hash,
                        hash_scheme_version,
                    )
                    &&& forall|j: int|
                        0 <= j < old(self).users@.len() && j != i ==> final(self).users@[j] == old(
                            self,
                        ).users@[j]
                },
            r is Ok ==> only_users_changed(*old(self), *final(self)),
            r is Err ==> *final(self) == *old(self),
    {
        let idx = match self.find_user_by_id(user) {
            Some(i) => i,
            None => {
                return Err(NonexistentUser);
            },
        };
        let old_rec = &self.users[idx];
        let new_rec = UserRecord {
            id: old_rec.id,
            username: copy_bytes(&old_rec.username),
            display_name: old_rec.display_name.clone(),
            profile_version: old_rec.profile_version,
            password_hash: new_password_hash,
            hash_scheme_version,
            compromised: false,
            locked: old_rec.locked,
            banned: old_rec.banned,
        };
        self.users.set(idx, new_rec);
        proof {
            lemma_update_user_wf(*old(self), *self, idx as int, self.users@[idx as int]);
        }
        Ok(())
    }

    /// Sets or clears the banned mark. Fails only when the user does not
    /// exist.
    pub fn set_banned(&mut self, user: UserId, banned: bool) -> (r: Result<(), NonexistentUser>)
        requires
            old(self).wf(),
        ensures
            final(self).wf(),
            r is Ok <==> old(self).has_user(user),
            r is Ok ==> exists|i: int|
                {
                    &&& 0 <= i < old(self).users@.len()
                    &&& (#[trigger] old(self).users@[i]).id == user
                    &&& final(self).users@.len() == old(self).users@.len()
                    &&& final(self).users@[i].banned == banned
                    &&& final(self).users@[i].id == user
                    &&& final(self).users@[i].username@ == old(self).users@[i].username@
                    &&& final(self).users@[i].display_name == old(self).users@[i].display_name
                    &&& final(self).users@[i].profile_version == old(self).users@[i].profile_version
                    &&& final(self).users@[i].password_hash == old(self).users@[i].password_hash
                    &&& final(self).users@[i].hash_scheme_version == old(
                        self,
                    ).users@[i].hash_scheme_version
                    &&& final(self).users@[i].compromised == old(self).users@[i].compromised
                    &&& final(self).users@[i].locked == old(self).users@[i].locked
                    &&& forall|j: int|
                        0 <= j < old(self).users@.len() && j != i ==> final(self).users@[j] == old(
                            self,
                        ).users@[j]
                },
            r is Ok ==> only_users_changed(*old(self), *final(self)),
            r is Err ==> *final(self) == *old(self),
    {
        let idx = match self.find_user_by_id(user) {
            Some(i) => i,
            None => {
                return Err(NonexistentUser);
            },
        };
        let old_rec = &self.users[idx];
        let new_rec = UserRecord {
            id: old_rec.id,
            username: copy_bytes(&old_rec.username),
            display_name: old_rec.display_name.clone(),
            profile_version: old_rec.profile_version,
            password_hash: old_rec.password_hash,
            hash_scheme_version: old_rec.hash_scheme_version,
            compromised: old_rec.compromised,
            locked: old_rec.locked,
            banned,
        };
        self.users.set(idx, new_rec);
        proof {
            lemma_update_user_wf(*old(self), *self, idx as int, self.users@[idx as int]);
        }
        Ok(())
    }

    /// Sets or clears the locked mark. Fails only when the user does not
    /// exist.
    pub fn set_locked(&mut self, user: UserId, locked: bool) -> (r: Result<(), NonexistentUser>)
        requires
            old(self).wf(),
        ensures
            final(self).wf(),
            r is Ok <==> old(self).has_user(user),
            r is Ok ==> exists|i: int|
                {
                    &&& 0 <= i < old(self).users@.len()
                    &&& (#[trigger] old(self).users@[i]).id == user
                    &&& final(self).users@.len() == old(self).users@.len()
                    &&& final(self).users@[i].locked == locked
                    &&& final(self).users@[i].id == user
                    &&& final(self).users@[i].username@ == old(self).users@[i].username@
                    &&& final(self).users@[i].display_name == old(self).users@[i].display_name
                    &&& final(self).users@[i].profile_version == old(self).users@[i].profile_version
                    &&& final(self).users@[i].password_hash == old(self).users@[i].password_hash
                    &&& final(self).users@[i].hash_scheme_version == old(
                        self,
                    ).users@[i].hash_scheme_version
                    &&& final(self).users@[i].compromised == old(self).users@[i].compromised
                    &&& final(self).users@[i].banned == old(self).users@[i].banned
                    &&& forall|j: int|
                        0 <= j < old(self).users@.len() && j != i ==> final(self).users@[j] == old(
                            self,
                        ).users@[j]
                },
            r is Ok ==> only_users_changed(*old(self), *final(self)),
            r is Err ==> *final(self) == *old(self),
    {
        let idx = match self.find_user_by_id(user) {
            Some(i) => i,
            None => {
                return Err(NonexistentUser);
            },
        };
        let old_rec = &self.users[idx];
        let new_rec = UserRecord {
            id: old_rec.id,
            username: copy_bytes(&old_rec.username),
            display_name: old_rec.display_name.clone(),
            profile_version: old_rec.profile_version,
            password_hash: old_rec.password_hash,
            hash_scheme_version: old_rec.hash_scheme_version,
            compromised: old_rec.compromised,
            locked,
            banned: old_rec.banned,
        };
        self.users.set(idx, new_rec);
        proof {
            lemma_update_user_wf(*old(self), *self, idx as int, self.users@[idx as int]);
        }
        Ok(())
    }


    /// Marks every account compromised and deletes every login token;
    /// used when the whole credential store must be considered leaked.
    #[verifier::loop_isolation(false)]
    #[verifier::rlimit(30)]
    pub fn set_all_accounts_compromised(&mut self)
        requires
            old(self).wf(),
        ensures
            final(self).wf(),
            final(self).users@.len() == old(self).users@.len(),
            forall|i: int|
                0 <= i < final(self).users@.len() ==> (#[trigger] final(self).users@[i]).compromised
                    && final(self).users@[i].id == old(self).users@[i].id && final(self).users@[i].username@ == old(self).users@[i].username@ && final(self).users@[i].password_hash == old(self).users@[i].password_hash,
            final(self).tokens@.len() == 0,
    {
        let n = self.users.len();
        let mut i: usize = 0;
        while i < n
            invariant
                n == old(self).users@.len(),
                i <= n,
                self.users@.len() == n,
                self.tokens == old(self).tokens,
                only_users_changed(*old(self), *self),
                forall|j: int|
                    0 <= j < i ==> (#[trigger] self.users@[j]).compromised && self.users@[j].id
                        == old(self).users@[j].id && self.users@[j].username@ == old(
                        self,
                    ).users@[j].username@ && self.users@[j].password_hash == old(
                        self,
                    ).users@[j].password_hash,
                forall|j: int| i <= j < n ==> #[trigger] self.users@[j] == old(self).users@[j],
                users_distinct(self.users@),
            decreases n - i,
        {
            let u = &self.users[i];
            let new_rec = UserRecord {
                id: u.id,
                username: copy_bytes(&u.username),
                display_name: u.display_name.clone(),
                profile_version: u.profile_version,
                password_hash: u.password_hash,
                hash_scheme_version: u.hash_scheme_version,
                compromised: true,
                locked: u.locked,
                banned: u.banned,
            };
            let ghost pre_users = self.users@;
            self.users.set(i, new_rec);
            proof {
                assert forall|a: int, b: int|
                    0 <= a < b < self.users@.len() implies (#[trigger] self.users@[a]).id != (
                #[trigger] self.users@[b]).id && self.users@[a].username@
                    != self.users@[b].username@ by {
                    assert(pre_users[a].id != pre_users[b].id);
                    assert(pre_users[a].username@ != pre_users[b].username@);
                }
            }
            i = i + 1;
        }
        self.tokens = Vec::new();
    }

    /// Marks every account whose digest scheme is behind the latest one
    /// compromised, and deletes the tokens of every compromised
    /// account; such users may still log in but are re-digested then.
    #[verifier::loop_isolation(false)]
    #[verifier::rlimit(30)]
    pub fn set_accounts_with_old_hashes_compromised(&mut self)
        requires
            old(self).wf(),
        ensures
            final(self).wf(),
            final(self).users@.len() == old(self).users@.len(),
            forall|i: int|
                0 <= i < final(self).users@.len() ==> {
                    let pre = old(self).users@[i];
                    let post = #[trigger] final(self).users@[i];
                    &&& post.id == pre.id
                    &&& post.username@ == pre.username@
                    &&& post.password_hash == pre.password_hash
                    &&& post.hash_scheme_version == pre.hash_scheme_version
                    &&& post.compromised == (pre.compromised
                        || !pre.hash_scheme_version.spec_is_latest())
                },
            forall|t: int|
                0 <= t < final(self).tokens@.len() ==> exists|i: int|
                    0 <= i < final(self).users@.len() && (#[trigger] final(self).users@[i]).id == (
                    #[trigger] final(self).tokens@[t]).user && !final(self).users@[i].compromised,
            // tokens of accounts that stay clean survive the purge
            forall|j: int|
                0 <= j < old(self).tokens@.len() && (exists|i: int|
                    0 <= i < final(self).users@.len() && (#[trigger] final(self).users@[i]).id == (
                    #[trigger] old(self).tokens@[j]).user && !final(self).users@[i].compromised)
                    ==> exists|k: int|
                    0 <= k < final(self).tokens@.len() && final(self).tokens@[k] == old(self).tokens@[j],
    {
        let n = self.users.len();
        let mut i: usize = 0;
        while i < n
            invariant
                n == old(self).users@.len(),
                i <= n,
                self.users@.len() == n,
                self.tokens == old(self).tokens,
                only_users_changed(*old(self), *self),
                forall|j: int|
                    0 <= j < i ==> {
                        let pre = old(self).users@[j];
                        let post = #[trigger] self.users@[j];
                        &&& post.id == pre.id
                        &&& post.username@ == pre.username@
                        &&& post.display_name == pre.display_name
                        &&& post.profile_version == pre.profile_version
                        &&& post.password_hash == pre.password_hash
                        &&& post.hash_scheme_version == pre.hash_scheme_version
                        &&& post.locked == pre.locked
                        &&& post.banned == pre.banned
                        &&& post.compromised == (pre.compromised
                            || !pre.hash_scheme_version.spec_is_latest())
                    },
                forall|j: int| i <= j < n ==> #[trigger] self.users@[j] == old(self).users@[j],
                users_distinct(self.users@),
            decreases n - i,
        {
            let u = &self.users[i];
            let mark = u.compromised || !u.hash_scheme_version.is_latest();
            let new_rec = UserRecord {
                id: u.id,
                username: copy_bytes(&u.username),
                display_name: u.display_name.clone(),
                profile_version: u.profile_version,
                password_hash: u.password_hash,
                hash_scheme_version: u.hash_scheme_version,
                compromised: mark,
                locked: u.locked,
                banned: u.banned,
            };
            let ghost pre_users = self.users@;
            self.users.set(i, new_rec);
            proof {
                assert forall|a: int, b: int|
                    0 <= a < b < self.users@.len() implies (#[trigger] self.users@[a]).id != (
                #[trigger] self.users@[b]).id && self.users@[a].username@
                    != self.users@[b].username@ by {
                    assert(pre_users[a].id != pre_users[b].id);
                    assert(pre_users[a].username@ != pre_users[b].username@);
                }
            }
            i = i + 1;
        }
        // drop the tokens of every account that is now compromised
        let ghost mid = *self;
        let mut kept: Vec<crate::store::Token> = Vec::new();
        let m = self.tokens.len();
        let mut t: usize = 0;
        while t < m
            invariant
                m == mid.tokens@.len(),
                t <= m,
                *self == mid,
                forall|a: int|
                    0 <= a < kept@.len() ==> exists|j: int|
                        0 <= j < t && #[trigger] kept@[a] == mid.tokens@[j],
                forall|a: int| #![trigger kept@[a]]
                    0 <= a < kept@.len() ==> exists|i2: int|
                        0 <= i2 < mid.users@.len() && (#[trigger] mid.users@[i2]).id
                            == kept@[a].user && !mid.users@[i2].compromised,
                forall|j: int|
                    0 <= j < t && (exists|i2: int|
                        0 <= i2 < mid.users@.len() && (#[trigger] mid.users@[i2]).id == (
                        #[trigger] mid.tokens@[j]).user && !mid.users@[i2].compromised) ==> exists|
                        k: int,
                    | 0 <= k < kept@.len() && kept@[k] == mid.tokens@[j],
                forall|a: int, b: int|
                    0 <= a < b < kept@.len() ==> (#[trigger] kept@[a]).device != (
                    #[trigger] kept@[b]).device,
            decreases m - t,
        {
            let token = &self.tokens[t];
            let owner_idx = self.find_user_by_id(token.user);
            let owner_ok = match owner_idx {
                Some(idx) => !self.users[idx].compromised,
                None => false,
            };
            proof {
                if !owner_ok {
                    // no clean owner: every user record of this id is
                    // compromised (or none exists), so the token need
                    // not survive
                    assert forall|i2: int|
                        0 <= i2 < mid.users@.len() && (#[trigger] mid.users@[i2]).id
                            == mid.tokens@[t as int].user implies mid.users@[i2].compromised by {
                        if owner_idx is Some {
                            let idx = owner_idx->0 as int;
                            if i2 != idx {
                                if i2 < idx {
                                    assert(mid.users@[i2].id != mid.users@[idx].id);
                                } else {
                                    assert(mid.users@[idx].id != mid.users@[i2].id);
                                }
                            }
                        }
                    }
                }
            }
            if owner_ok {
                let ghost cur = mid.tokens@[t as int];
                proof {
                    assert forall|a: int|
                        0 <= a < kept@.len() implies (#[trigger] kept@[a]).device
                        != cur.device by {
                        let j = choose|j: int| 0 <= j < t && #[trigger] kept@[a] == mid.tokens@[j];
                        assert(mid.tokens@[j].device != mid.tokens@[t as int].device);
                    }
                }
                let copy = crate::store::tokens::clone_token_record(token);
                let ghost copyg = copy;
                let ghost kept0 = kept@;
                kept.push(copy);
                proof {
                    assert(crate::store::tokens::same_token(cur, copyg));
                    assert(copyg == cur);
                    assert forall|a: int|
                        0 <= a < kept@.len() implies exists|j: int|
                        0 <= j < t + 1 && #[trigger] kept@[a] == mid.tokens@[j] by {
                        if a < kept0.len() {
                            assert(kept@[a] == kept0[a]);
                        } else {
                            assert(kept@[a] == mid.tokens@[t as int]);
                        }
                    }
                    assert forall|j: int|
                        0 <= j < t + 1 && (exists|i2: int|
                            0 <= i2 < mid.users@.len() && (#[trigger] mid.users@[i2]).id == (
                            #[trigger] mid.tokens@[j]).user && !mid.users@[i2].compromised)
                        implies exists|k: int|
                        0 <= k < kept@.len() && kept@[k] == mid.tokens@[j] by {
                        if j < t {
                            let k = choose|k: int|
                                0 <= k < kept0.len() && kept0[k] == mid.tokens@[j];
                            assert(kept@[k] == mid.tokens@[j]);
                        } else {
                            assert(kept@[kept@.len() - 1] == mid.tokens@[j]);
                        }
                    }
                }
            }
            t = t + 1;
        }
        self.tokens = kept;
    }

    /// Copies of all stored user records, in storage order.
    pub fn list_all_server_users(&self) -> (r: Vec<UserRecord>)
        ensures
            r@.len() == self.users@.len(),
            forall|i: int|
                0 <= i < r@.len() ==> same_user(#[trigger] self.users@[i], #[trigger] r@[i]),
    {
        let mut out: Vec<UserRecord> = Vec::new();
        let mut i: usize = 0;
        while i < self.users.len()
            invariant
                i <= self.users@.len(),
                out@.len() == i,
                forall|j: int|
                    0 <= j < i ==> same_user(#[trigger] self.users@[j], #[trigger] out@[j]),
            decreases self.users@.len() - i,
        {
            out.push(clone_user(&self.users[i]));
            i = i + 1;
        }
        out
    }
}

} // verus!
