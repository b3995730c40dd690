//! Store operations on login tokens: lookup, issuance, revocation,
//! refresh of the last-used stamp, and the expiry sweep.

use vstd::prelude::*;
use vstd::pervasive::VecAdditionalExecFns;
use crate::store::{tokens_distinct as tokens_distinct_seq, Database, NonexistentDevice, Token};
use crate::{DeviceId, UserId, SECONDS_PER_DAY};

verus! {

/// The two records describe the same token state.
pub open spec fn same_token(a: Token, b: Token) -> bool {
    &&& a.token_hash == b.token_hash
    &&& a.hash_scheme_version == b.hash_scheme_version
    &&& a.user == b.user
    &&& a.device == b.device
    &&& a.device_name == b.device_name
    &&& a.last_used == b.last_used
    &&& a.expiration_date == b.expiration_date
    &&& a.permission_flags == b.permission_flags
}

/// `b` is `a` with the last-used stamp set to `now`.
pub open spec fn refreshed_token(a: Token, b: Token, now: u64) -> bool {
    &&& b.token_hash == a.token_hash
    &&& b.hash_scheme_version == a.hash_scheme_version
    &&& b.user == a.user
    &&& b.device == a.device
    &&& b.device_name == a.device_name
    &&& b.last_used == now
    &&& b.expiration_date == a.expiration_date
    &&& b.permission_flags == a.permission_flags
}

/// Everything of the store except the token table is unchanged.
pub open spec fn only_tokens_changed(pre: Database, post: Database) -> bool {
    &&& post.users == pre.users
    &&& post.admins == pre.admins
    &&& post.communities == pre.communities
    &&& post.memberships == pre.memberships
    &&& post.rooms == pre.rooms
    &&& post.messages == pre.messages
    &&& post.room_states == pre.room_states
    &&& post.invite_codes == pre.invite_codes
    &&& post.expired_devices == pre.expired_devices
    &&& post.next_message_id == pre.next_message_id
}

/// Everything of the store except the token table and the swept-device
/// list is unchanged.
pub open spec fn only_token_tables_changed(pre: Database, post: Database) -> bool {
    &&& post.users == pre.users
    &&& post.admins == pre.admins
    &&& post.communities == pre.communities
    &&& post.memberships == pre.memberships
    &&& post.rooms == pre.rooms
    &&& post.messages == pre.messages
    &&& post.room_states == pre.room_states
    &&& post.invite_codes == pre.invite_codes
    &&& post.next_message_id == pre.next_message_id
}

/// The device of each pair, in order.
pub open spec fn devices_of_pairs(s: Seq<(UserId, DeviceId)>) -> Seq<DeviceId> {
    s.map_values(|p: (UserId, DeviceId)| p.1)
}

/// A token is invalid at time `now` under an expiry window given in
/// days: either its expiration date has passed, or it has not been used
/// for longer than the window.
pub open spec fn token_expired(t: Token, now: u64, expiry_days: u16) -> bool {
    ||| (t.expiration_date matches Some(e) && e < now)
    ||| now > t.last_used + expiry_days * SECONDS_PER_DAY
}

/// Checks a token for expiry at time `now`.
pub fn is_token_expired(t: &Token, now: u64, expiry_days: u16) -> (r: bool)
    ensures
        r == token_expired(*t, now, expiry_days),
{
    let expired_by_date = match t.expiration_date {
        Some(e) => e < now,
        None => false,
    };
    let window = (expiry_days as u64) * SECONDS_PER_DAY;
    let expired_by_use = now > t.last_used && now - t.last_used > window;
    expired_by_date || expired_by_use
}

/// A fresh copy of a token record.
pub(crate) fn clone_token_record(t: &Token) -> (r: Token)
    ensures
        same_token(*t, r),
{
    clone_token(t)
}

/// A fresh copy of a token record.
fn clone_token(t: &Token) -> (r: Token)
    ensures
        same_token(*t, r),
{
    let device_name = match &t.device_name {
        Some(n) => Some(n.clone()),
        None => None,
    };
    Token {
        token_hash: t.token_hash,
        hash_scheme_version: t.hash_scheme_version,
        user: t.user,
        device: t.device,
        device_name,
        last_used: t.last_used,
        expiration_date: t.expiration_date,
        permission_flags: t.permission_flags,
    }
}

impl Database {
    /// Index of the token bound to this device, if any.
    pub(crate) fn find_token(&self, device: DeviceId) -> (r: Option<usize>)
        ensures
            r matches Some(i) ==> i < self.tokens@.len() && self.tokens@[i as int].device
                == device,
            r is None ==> !self.has_device(device),
    {
        let mut i: usize = 0;
        while i < self.tokens.len()
            invariant
                i <= self.tokens@.len(),
                forall|j: int| 0 <= j < i ==> (#[trigger] self.tokens@[j]).device != device,
            decreases self.tokens@.len() - i,
        {
            if self.tokens[i].device == device {
                return Some(i);
            }
            i = i + 1;
        }
        None
    }

    /// The token bound to this device, if any.
    pub fn get_token(&self, device: DeviceId) -> (r: Option<Token>)
        ensures
            r is Some <==> self.has_device(device),
            r matches Some(t) ==> t.device == device && exists|i: int|
                0 <= i < self.tokens@.len() && same_token(#[trigger] self.tokens@[i], t),
    {
        match self.find_token(device) {
            Some(i) => Some(clone_token(&self.tokens[i])),
            None => None,
        }
    }

    /// Stores a freshly issued token. A token already bound to the same
    /// device is replaced, so issuance cannot fail.
    pub fn create_token(&mut self, token: Token)
        requires
            old(self).wf(),
        ensures
            final(self).wf(),
            final(self).has_device(token.device),
            !old(self).has_device(token.device) ==> final(self).tokens@ == old(self).tokens@.push(
                token,
            ),
            old(self).has_device(token.device) ==> exists|i: int|
                0 <= i < old(self).tokens@.len() && (#[trigger] old(self).tokens@[i]).device
                    == token.device && final(self).tokens@ == old(self).tokens@.update(i, token),
            only_tokens_changed(*old(self), *final(self)),
    {
        match self.find_token(token.device) {
            Some(i) => {
                self.tokens.set(i, token);
                proof {
                    assert(final(self).tokens@[i as int].device == token.device);
                }
            },
            None => {
                self.tokens.push(token);
                proof {
                    assert(final(self).tokens@[old(self).tokens@.len() as int].device
                        == token.device);
                }
            },
        }
    }

    /// Deletes the token bound to this device. Fails exactly when no
    /// such token exists.
    #[verifier::rlimit(100)]
    pub fn revoke_token(&mut self, device: DeviceId) -> (r: Result<(), NonexistentDevice>)
        requires
            old(self).wf(),
        ensures
            final(self).wf(),
            r is Ok <==> old(self).has_device(device),
            !final(self).has_device(device),
            r is Ok ==> exists|i: int|
                0 <= i < old(self).tokens@.len() && (#[trigger] old(self).tokens@[i]).device
                    == device && final(self).tokens@ == old(self).tokens@.remove(i),
            only_tokens_changed(*old(self), *final(self)),
            r is Err ==> *final(self) == *old(self),
    {
        match self.find_token(device) {
            Some(i) => {
                self.tokens.remove(i);
                proof {
                    assert forall|k: int|
                        0 <= k < self.tokens@.len() implies (#[trigger] self.tokens@[k]).device
                        != device by {
                        if k < i {
                            assert(self.tokens@[k] == old(self).tokens@[k]);
                        } else {
                            assert(self.tokens@[k] == old(self).tokens@[k + 1]);
                        }
                    }
                    assert forall|a: int, b: int|
                        0 <= a < b < self.tokens@.len() implies (
                    #[trigger] self.tokens@[a]).device != (#[trigger] self.tokens@[b]).device by {
                        let a0: int = if a < i { a } else { a + 1 };
                        let b0: int = if b < i { b } else { b + 1 };
                        assert(self.tokens@[a] == old(self).tokens@[a0]);
                        assert(self.tokens@[b] == old(self).tokens@[b0]);
                        assert(old(self).tokens@[a0].device != old(self).tokens@[b0].device);
                    }
                    assert(self.wf());
                }
                Ok(())
            },
            None => Err(NonexistentDevice),
        }
    }

    /// Stamps the token bound to this device as used at time `now`.
    /// Fails exactly when no such token exists.
    #[verifier::rlimit(100)]
    pub fn refresh_token(&mut self, device: DeviceId, now: u64) -> (r: Result<
        (),
        NonexistentDevice,
    >)
        requires
            old(self).wf(),
        ensures
            final(self).wf(),
            r is Ok <==> old(self).has_device(device),
            r is Ok ==> exists|i: int|
                {
                    &&& 0 <= i < old(self).tokens@.len()
                    &&& (#[trigger] old(self).tokens@[i]).device == device
                    &&& final(self).tokens@.len() == old(self).tokens@.len()
                    &&& refreshed_token(old(self).tokens@[i], final(self).tokens@[i], now)
                    &&& forall|j: int|
                        0 <= j < old(self).tokens@.len() && j != i ==> final(self).tokens@[j]
                            == old(self).tokens@[j]
                },
            only_tokens_changed(*old(self), *final(self)),
            r is Err ==> *final(self) == *old(self),
    {
        match self.find_token(device) {
            Some(i) => {
                let t = &self.tokens[i];
                let new_rec = Token {
                    token_hash: t.token_hash,
                    hash_scheme_version: t.hash_scheme_version,
                    user: t.user,
                    device: t.device,
                    device_name: match &t.device_name {
                        Some(n) => Some(n.clone()),
                        None => None,
                    },
                    last_used: now,
                    expiration_date: t.expiration_date,
                    permission_flags: t.permission_flags,
                };
                self.tokens.set(i, new_rec);
                proof {
                    assert forall|a: int, b: int|
                        0 <= a < b < self.tokens@.len() implies (
                    #[trigger] self.tokens@[a]).device != (#[trigger] self.tokens@[b]).device by {
                        assert(old(self).tokens@[a].device != old(self).tokens@[b].device);
                    }
                    assert(self.wf());
                }
                Ok(())
            },
            None => Err(NonexistentDevice),
        }
    }


    /// Deletes every token that is expired at time `now` under the given
    /// expiry window and returns the `(user, device)` pair of each
    /// deleted token, so live sessions bound to them can be torn down.
    /// The swept devices are remembered, so a later presentation of a
    /// swept token reports the expiry rather than an unknown token.
    #[verifier::loop_isolation(false)]
    pub fn expired_tokens(&mut self, now: u64, expiry_days: u16) -> (r: Vec<(UserId, DeviceId)>)
        requires
            old(self).wf(),
        ensures
            final(self).wf(),
            final(self).tokens@ == live_tokens(old(self).tokens@, now, expiry_days),
            r@ == swept_pairs(old(self).tokens@, now, expiry_days),
            final(self).expired_devices@ == old(self).expired_devices@ + devices_of_pairs(
                swept_pairs(old(self).tokens@, now, expiry_days),
            ),
            only_token_tables_changed(*old(self), *final(self)),
    {
        let (kept, out) = sweep_expired(&self.tokens, now, expiry_days);
        proof {
            lemma_live_tokens_distinct(self.tokens@, now, expiry_days);
        }
        self.tokens = kept;
        let ghost outg = out@;
        let n = out.len();
        let mut i: usize = 0;
        while i < n
            invariant
                n == outg.len(),
                out@ == outg,
                i <= n,
                self.tokens@ == live_tokens(old(self).tokens@, now, expiry_days),
                tokens_distinct_seq(self.tokens@),
                only_token_tables_changed(*old(self), *self),
                self.expired_devices@ =~= old(self).expired_devices@ + devices_of_pairs(
                    outg.take(i as int),
                ),
            decreases n - i,
        {
            self.expired_devices.push(out[i].1);
            proof {
                assert(self.expired_devices@ =~= old(self).expired_devices@ + devices_of_pairs(
                    outg.take(i + 1 as int),
                ));
            }
            i = i + 1;
        }
        proof {
            assert(outg.take(n as int) =~= outg);
        }
        out
    }


    /// The devices of every token this user holds.
    #[verifier::loop_isolation(false)]
    pub fn devices_of_user(&self, user: UserId) -> (r: Vec<DeviceId>)
        ensures
            r@ == user_token_devices(self.tokens@, user),
            forall|j: int|
                0 <= j < self.tokens@.len() && (#[trigger] self.tokens@[j]).user == user
                    ==> r@.contains(self.tokens@[j].device),
    {
        let mut out: Vec<DeviceId> = Vec::new();
        let n = self.tokens.len();
        let mut i: usize = 0;
        proof {
            assert(self.tokens@.take(0) =~= Seq::<Token>::empty());
            reveal(Seq::filter);
        }
        while i < n
            invariant
                n == self.tokens@.len(),
                i <= n,
                out@ == user_token_devices(self.tokens@.take(i as int), user),
                forall|j: int|
                    0 <= j < i && (#[trigger] self.tokens@[j]).user == user ==> out@.contains(
                        self.tokens@[j].device,
                    ),
            decreases n - i,
        {
            let ghost pre = self.tokens@.take(i as int);
            let ghost post = self.tokens@.take(i + 1 as int);
            proof {
                reveal(Seq::filter);
                assert(post.drop_last() =~= pre);
                assert(post.last() == self.tokens@[i as int]);
            }
            let ghost out0 = out@;
            if self.tokens[i].user == user {
                out.push(self.tokens[i].device);
            }
            proof {
                assert(out@ =~= user_token_devices(post, user));
                assert forall|j: int|
                    0 <= j < i + 1 && (#[trigger] self.tokens@[j]).user == user implies
                    out@.contains(self.tokens@[j].device) by {
                    if j < i {
                        let w = choose|w: int|
                            0 <= w < out0.len() && out0[w] == self.tokens@[j].device;
                        assert(out@[w] == self.tokens@[j].device);
                    } else {
                        assert(out@[out@.len() - 1] == self.tokens@[j].device);
                    }
                }
            }
            i = i + 1;
        }
        proof {
            assert(self.tokens@.take(n as int) =~= self.tokens@);
        }
        out
    }


    /// The devices of every token this user holds except the spared
    /// one.
    #[verifier::loop_isolation(false)]
    pub fn devices_of_user_except(&self, user: UserId, spared: DeviceId) -> (r: Vec<DeviceId>)
        ensures
            r@ == user_token_devices_except(self.tokens@, user, spared),
            forall|j: int|
                0 <= j < self.tokens@.len() && (#[trigger] self.tokens@[j]).user == user
                    && self.tokens@[j].device != spared ==> r@.contains(self.tokens@[j].device),
            forall|k: int| #![trigger r@[k]]
                0 <= k < r@.len() ==> r@[k] != spared && exists|j: int|
                    0 <= j < self.tokens@.len() && (#[trigger] self.tokens@[j]).user == user
                        && self.tokens@[j].device == r@[k],
    {
        let mut out: Vec<DeviceId> = Vec::new();
        let n = self.tokens.len();
        let mut i: usize = 0;
        proof {
            assert(self.tokens@.take(0) =~= Seq::<Token>::empty());
            reveal(Seq::filter);
        }
        while i < n
            invariant
                n == self.tokens@.len(),
                i <= n,
                out@ == user_token_devices_except(self.tokens@.take(i as int), user, spared),
                forall|j: int|
                    0 <= j < i && (#[trigger] self.tokens@[j]).user == user
                        && self.tokens@[j].device != spared ==> out@.contains(
                        self.tokens@[j].device,
                    ),
                forall|k: int| #![trigger out@[k]]
                    0 <= k < out@.len() ==> out@[k] != spared && exists|j: int|
                        0 <= j < i && (#[trigger] self.tokens@[j]).user == user
                            && self.tokens@[j].device == out@[k],
            decreases n - i,
        {
            let ghost pre = self.tokens@.take(i as int);
            let ghost post = self.tokens@.take(i + 1 as int);
            proof {
                reveal(Seq::filter);
                assert(post.drop_last() =~= pre);
                assert(post.last() == self.tokens@[i as int]);
            }
            let ghost out0 = out@;
            if self.tokens[i].user == user && !(self.tokens[i].device == spared) {
                out.push(self.tokens[i].device);
            }
            proof {
                assert(out@ =~= user_token_devices_except(post, user, spared));
                assert forall|j: int|
                    0 <= j < i + 1 && (#[trigger] self.tokens@[j]).user == user
                        && self.tokens@[j].device != spared implies out@.contains(
                    self.tokens@[j].device,
                ) by {
                    if j < i {
                        let w = choose|w: int|
                            0 <= w < out0.len() && out0[w] == self.tokens@[j].device;
                        assert(out@[w] == self.tokens@[j].device);
                    } else {
                        assert(out@[out@.len() - 1] == self.tokens@[j].device);
                    }
                }
                assert forall|k: int| #![trigger out@[k]]
                    0 <= k < out@.len() implies out@[k] != spared && exists|j: int|
                    0 <= j < i + 1 && (#[trigger] self.tokens@[j]).user == user
                        && self.tokens@[j].device == out@[k] by {
                    if k < out0.len() {
                        assert(out@[k] == out0[k]);
                    } else {
                        assert(out@[k] == self.tokens@[i as int].device);
                    }
                }
            }
            i = i + 1;
        }
        proof {
            assert(self.tokens@.take(n as int) =~= self.tokens@);
        }
        out
    }

    /// Deletes every token of one user except the one bound to the
    /// spared device; used when an in-session password change
    /// invalidates the user's other logins.
    pub fn delete_user_tokens_except(&mut self, user: UserId, spared: DeviceId)
        requires
            old(self).wf(),
        ensures
            final(self).wf(),
            final(self).tokens@ == tokens_without_user_except(old(self).tokens@, user, spared),
            forall|i: int|
                0 <= i < final(self).tokens@.len() ==> ((#[trigger] final(self).tokens@[i]).user
                    != user || final(self).tokens@[i].device == spared),
            only_tokens_changed(*old(self), *final(self)),
    {
        let kept = keep_others_except(&self.tokens, user, spared);
        proof {
            lemma_filter_token_distinct(
                self.tokens@,
                |t: Token| t.user != user || t.device == spared,
            );
        }
        self.tokens = kept;
        proof {
            broadcast use vstd::seq_lib::group_filter_ensures;
        }
    }

    /// Deletes every token of one user; used when a password change
    /// invalidates all of the user's logins.
    pub fn delete_user_tokens(&mut self, user: UserId)
        requires
            old(self).wf(),
        ensures
            final(self).wf(),
            final(self).tokens@ == tokens_without_user(old(self).tokens@, user),
            only_tokens_changed(*old(self), *final(self)),
    {
        let kept = keep_other_users(&self.tokens, user);
        proof {
            lemma_tokens_without_user_distinct(self.tokens@, user);
        }
        self.tokens = kept;
    }
}

/// The tokens of `s` that are still valid at `now`, in order.
pub open spec fn live_tokens(s: Seq<Token>, now: u64, expiry_days: u16) -> Seq<Token> {
    s.filter(|t: Token| !token_expired(t, now, expiry_days))
}

/// The `(user, device)` pairs of the tokens of `s` that are expired at
/// `now`, in order.
pub open spec fn swept_pairs(s: Seq<Token>, now: u64, expiry_days: u16) -> Seq<(UserId, DeviceId)> {
    s.filter(|t: Token| token_expired(t, now, expiry_days)).map_values(
        |t: Token| (t.user, t.device),
    )
}


/// The tokens of `s` that either belong to another user or are bound to
/// the one spared device, in order.
pub open spec fn tokens_without_user_except(s: Seq<Token>, user: UserId, spared: DeviceId) -> Seq<
    Token,
> {
    s.filter(|t: Token| t.user != user || t.device == spared)
}

/// The devices of the tokens of one user, in order.
pub open spec fn user_token_devices(s: Seq<Token>, user: UserId) -> Seq<DeviceId> {
    s.filter(|t: Token| t.user == user).map_values(|t: Token| t.device)
}

/// The devices of the tokens of one user, the spared one left out.
pub open spec fn user_token_devices_except(s: Seq<Token>, user: UserId, spared: DeviceId) -> Seq<
    DeviceId,
> {
    s.filter(|t: Token| t.user == user && t.device != spared).map_values(|t: Token| t.device)
}

/// The tokens of `s` not belonging to `user`, in order.
pub open spec fn tokens_without_user(s: Seq<Token>, user: UserId) -> Seq<Token> {
    s.filter(|t: Token| t.user != user)
}

/// Every element of a filtered token table occurs in the unfiltered one.
pub proof fn lemma_filter_token_elem(s: Seq<Token>, pred: spec_fn(Token) -> bool, k: int)
    requires
        0 <= k < s.filter(pred).len(),
    ensures
        exists|i: int| 0 <= i < s.len() && #[trigger] s[i] == s.filter(pred)[k],
    decreases s.len(),
{
    reveal(Seq::filter);
    if s.len() == 0 {
    } else {
        let rest = s.drop_last().filter(pred);
        if pred(s.last()) && k == rest.len() {
            assert(s[s.len() - 1] == s.filter(pred)[k]);
        } else {
            lemma_filter_token_elem(s.drop_last(), pred, k);
            let i = choose|i: int|
                0 <= i < s.drop_last().len() && #[trigger] s.drop_last()[i] == s.drop_last().filter(
                    pred,
                )[k];
            assert(s[i] == s.filter(pred)[k]);
        }
    }
}

/// Filtering keeps the devices of a token table pairwise distinct.
pub proof fn lemma_filter_token_distinct(s: Seq<Token>, pred: spec_fn(Token) -> bool)
    requires
        forall|a: int, b: int|
            0 <= a < b < s.len() ==> (#[trigger] s[a]).device != (#[trigger] s[b]).device,
    ensures
        forall|a: int, b: int|
            0 <= a < b < s.filter(pred).len() ==> (#[trigger] s.filter(pred)[a]).device != (
            #[trigger] s.filter(pred)[b]).device,
    decreases s.len(),
{
    reveal(Seq::filter);
    if s.len() == 0 {
    } else {
        lemma_filter_token_distinct(s.drop_last(), pred);
        let f = s.filter(pred);
        let rest = s.drop_last().filter(pred);
        assert forall|a: int, b: int|
            0 <= a < b < f.len() implies (#[trigger] f[a]).device != (#[trigger] f[b]).device by {
            if b < rest.len() {
                assert(rest[a].device != rest[b].device);
            } else {
                // b is the appended last element of s
                assert(pred(s.last()) && f[b] == s.last());
                lemma_filter_token_elem(s.drop_last(), pred, a);
                let i = choose|i: int|
                    0 <= i < s.drop_last().len() && #[trigger] s.drop_last()[i] == rest[a];
                assert(s[i].device != s[s.len() - 1].device);
            }
        }
    }
}

/// The live tokens of a well-keyed table stay pairwise distinct.
pub proof fn lemma_live_tokens_distinct(s: Seq<Token>, now: u64, expiry_days: u16)
    requires
        forall|a: int, b: int|
            0 <= a < b < s.len() ==> (#[trigger] s[a]).device != (#[trigger] s[b]).device,
    ensures
        forall|a: int, b: int|
            0 <= a < b < live_tokens(s, now, expiry_days).len() ==> (#[trigger] live_tokens(
                s,
                now,
                expiry_days,
            )[a]).device != (#[trigger] live_tokens(s, now, expiry_days)[b]).device,
{
    lemma_filter_token_distinct(s, |t: Token| !token_expired(t, now, expiry_days));
}

/// Dropping one user's tokens keeps the table pairwise distinct.
pub proof fn lemma_tokens_without_user_distinct(s: Seq<Token>, user: UserId)
    requires
        forall|a: int, b: int|
            0 <= a < b < s.len() ==> (#[trigger] s[a]).device != (#[trigger] s[b]).device,
    ensures
        forall|a: int, b: int|
            0 <= a < b < tokens_without_user(s, user).len() ==> (#[trigger] tokens_without_user(
                s,
                user,
            )[a]).device != (#[trigger] tokens_without_user(s, user)[b]).device,
{
    lemma_filter_token_distinct(s, |t: Token| t.user != user);
}

/// Splits a token table into the tokens that are still valid at `now`
/// and the `(user, device)` pairs of those that have expired.
#[verifier::loop_isolation(false)]
fn sweep_expired(tokens: &Vec<Token>, now: u64, expiry_days: u16) -> (res: (
    Vec<Token>,
    Vec<(UserId, DeviceId)>,
))
    ensures
        res.0@ == live_tokens(tokens@, now, expiry_days),
        res.1@ == swept_pairs(tokens@, now, expiry_days),
{
    let mut kept: Vec<Token> = Vec::new();
    let mut out: Vec<(UserId, DeviceId)> = Vec::new();
    let n = tokens.len();
    let mut i: usize = 0;
    proof {
        assert(tokens@.take(0) =~= Seq::<Token>::empty());
        reveal(Seq::filter);
    }
    while i < n
        invariant
            n == tokens@.len(),
            i <= n,
            kept@ == live_tokens(tokens@.take(i as int), now, expiry_days),
            out@ == swept_pairs(tokens@.take(i as int), now, expiry_days),
        decreases n - i,
    {
        let t = &tokens[i];
        let ghost cur = tokens@[i as int];
        let ghost pre = tokens@.take(i as int);
        let ghost post = tokens@.take(i + 1 as int);
        proof {
            reveal(Seq::filter);
            assert(post.drop_last() =~= pre);
            assert(post.last() == cur);
        }
        if is_token_expired(t, now, expiry_days) {
            out.push((t.user, t.device));
            proof {
                assert(post.filter(|t0: Token| token_expired(t0, now, expiry_days)) == pre.filter(
                    |t0: Token| token_expired(t0, now, expiry_days),
                ).push(cur));
                assert(out@ =~= swept_pairs(post, now, expiry_days));
                assert(kept@ =~= live_tokens(post, now, expiry_days));
            }
        } else {
            let copy = clone_token(t);
            let ghost copyg = copy;
            kept.push(copy);
            proof {
                assert(same_token(cur, copyg));
                assert(copyg == cur);
                assert(kept@ =~= live_tokens(post, now, expiry_days));
                assert(out@ =~= swept_pairs(post, now, expiry_days));
            }
        }
        i = i + 1;
    }
    proof {
        assert(tokens@.take(n as int) =~= tokens@);
    }
    (kept, out)
}

/// The tokens of every user but the given one.
#[verifier::loop_isolation(false)]
fn keep_other_users(tokens: &Vec<Token>, user: UserId) -> (kept: Vec<Token>)
    ensures
        kept@ == tokens_without_user(tokens@, user),
{
    let mut kept: Vec<Token> = Vec::new();
    let n = tokens.len();
    let mut i: usize = 0;
    proof {
        assert(tokens@.take(0) =~= Seq::<Token>::empty());
        reveal(Seq::filter);
    }
    while i < n
        invariant
            n == tokens@.len(),
            i <= n,
            kept@ == tokens_without_user(tokens@.take(i as int), user),
        decreases n - i,
    {
        let t = &tokens[i];
        let ghost cur = tokens@[i as int];
        let ghost pre = tokens@.take(i as int);
        let ghost post = tokens@.take(i + 1 as int);
        proof {
            reveal(Seq::filter);
            assert(post.drop_last() =~= pre);
            assert(post.last() == cur);
        }
        if !(t.user == user) {
            let copy = clone_token(t);
            let ghost copyg = copy;
            kept.push(copy);
            proof {
                assert(same_token(cur, copyg));
                assert(copyg == cur);
                assert(kept@ =~= tokens_without_user(post, user));
            }
        } else {
            proof {
                assert(kept@ =~= tokens_without_user(post, user));
            }
        }
        i = i + 1;
    }
    proof {
        assert(tokens@.take(n as int) =~= tokens@);
    }
    kept
}


/// The tokens of every user but the given one, plus the spared device's.
#[verifier::loop_isolation(false)]
fn keep_others_except(tokens: &Vec<Token>, user: UserId, spared: DeviceId) -> (kept: Vec<Token>)
    ensures
        kept@ == tokens_without_user_except(tokens@, user, spared),
{
    let mut kept: Vec<Token> = Vec::new();
    let n = tokens.len();
    let mut i: usize = 0;
    proof {
        assert(tokens@.take(0) =~= Seq::<Token>::empty());
        reveal(Seq::filter);
    }
    while i < n
        invariant
            n == tokens@.len(),
            i <= n,
            kept@ == tokens_without_user_except(tokens@.take(i as int), user, spared),
        decreases n - i,
    {
        let t = &tokens[i];
        let ghost cur = tokens@[i as int];
        let ghost pre = tokens@.take(i as int);
        let ghost post = tokens@.take(i + 1 as int);
        proof {
            reveal(Seq::filter);
            assert(post.drop_last() =~= pre);
            assert(post.last() == cur);
        }
        if !(t.user == user) || t.device == spared {
            let copy = clone_token(t);
            let ghost copyg = copy;
            kept.push(copy);
            proof {
                assert(same_token(cur, copyg));
                assert(copyg == cur);
                assert(kept@ =~= tokens_without_user_except(post, user, spared));
            }
        } else {
            proof {
                assert(kept@ =~= tokens_without_user_except(post, user, spared));
            }
        }
        i = i + 1;
    }
    proof {
        assert(tokens@.take(n as int) =~= tokens@);
    }
    kept
}

} // verus!
