//! Store operations on invite codes: issuing a short URL-safe code for a
//! community, resolving a code, and sweeping expired codes.

use vstd::prelude::*;
use crate::store::{bytes_eq, Database, InviteRecord, invites_distinct};
use crate::{CommunityId, InviteCode, MAX_INVITE_CODE_LENGTH};

verus! {

broadcast use vstd::seq_lib::group_filter_ensures;

/// An invite code is dead at `now` once its expiration date has passed.
pub open spec fn invite_expired(rec: InviteRecord, now: u64) -> bool {
    rec.expiration_date matches Some(e) && e < now
}

/// The invite records of one community that are still active at `now`.
pub open spec fn active_invites(s: Seq<InviteRecord>, community: CommunityId, now: u64) -> Seq<
    InviteRecord,
> {
    s.filter(|r: InviteRecord| r.community == community && !invite_expired(r, now))
}

/// The invite records that are still active at `now`.
pub open spec fn unexpired_invites(s: Seq<InviteRecord>, now: u64) -> Seq<InviteRecord> {
    s.filter(|r: InviteRecord| !invite_expired(r, now))
}

/// Everything of the store except the invite table is unchanged.
pub open spec fn only_invites_changed(pre: Database, post: Database) -> bool {
    &&& post.users == pre.users
    &&& post.tokens == pre.tokens
    &&& post.admins == pre.admins
    &&& post.communities == pre.communities
    &&& post.memberships == pre.memberships
    &&& post.rooms == pre.rooms
    &&& post.messages == pre.messages
    &&& post.room_states == pre.room_states
    &&& post.expired_devices == pre.expired_devices
    &&& post.next_message_id == pre.next_message_id
}

/// A byte of the URL-safe alphabet invite codes are drawn from.
pub open spec fn url_safe_byte(b: u8) -> bool {
    (65 <= b && b <= 90) || (97 <= b && b <= 122) || (48 <= b && b <= 57) || b == 45 || b == 95
}

/// The URL-safe byte standing for one six-bit value.
pub open spec fn code_byte(v: u64) -> u8 {
    if v < 26 {
        (65 + v) as u8
    } else if v < 52 {
        (97 + (v - 26)) as u8
    } else if v < 62 {
        (48 + (v - 52)) as u8
    } else if v == 62 {
        45
    } else {
        95
    }
}

/// Turns 48 random bits into an eight-byte URL-safe invite code: each
/// six-bit group maps to one byte of the code alphabet.
pub fn invite_code_from_bits(bits: u64) -> (r: InviteCode)
    ensures
        r.0@.len() == 8,
        forall|k: int| 0 <= k < 8 ==> url_safe_byte(#[trigger] r.0@[k]),
{
    let mut out: Vec<u8> = Vec::new();
    let mut k: usize = 0;
    let mut rest: u64 = bits;
    while k < 8
        invariant
            k <= 8,
            out@.len() == k,
            forall|t: int| 0 <= t < k ==> url_safe_byte(#[trigger] out@[t]),
        decreases 8 - k,
    {
        let v = rest & 63;
        let b = if v < 26 {
            65 + (v as u8)
        } else if v < 52 {
            97 + ((v - 26) as u8)
        } else if v < 62 {
            48 + ((v - 52) as u8)
        } else if v == 62 {
            45
        } else {
            95
        };
        proof {
            assert(v == rest & 63);
            assert(v < 64) by (bit_vector)
                requires
                    v == rest & 63,
            ;
        }
        out.push(b);
        rest = rest >> 6;
        k = k + 1;
    }
    InviteCode(out)
}

impl Database {
    /// Index of the invite record with these code bytes, if any.
    pub(crate) fn find_invite(&self, code: &Vec<u8>) -> (r: Option<usize>)
        ensures
            r matches Some(i) ==> i < self.invite_codes@.len()
                && self.invite_codes@[i as int].code@ == code@,
            r is None ==> forall|j: int|
                0 <= j < self.invite_codes@.len() ==> (#[trigger] self.invite_codes@[j]).code@
                    != code@,
    {
        let mut i: usize = 0;
        while i < self.invite_codes.len()
            invariant
                i <= self.invite_codes@.len(),
                forall|j: int| 0 <= j < i ==> (#[trigger] self.invite_codes@[j]).code@ != code@,
            decreases self.invite_codes@.len() - i,
        {
            if bytes_eq(&self.invite_codes[i].code, code) {
                return Some(i);
            }
            i = i + 1;
        }
        None
    }

    /// How many invite codes of this community are still active at
    /// `now`.
    #[verifier::loop_isolation(false)]
    pub fn count_active_invites(&self, community: CommunityId, now: u64) -> (r: usize)
        ensures
            r == active_invites(self.invite_codes@, community, now).len(),
    {
        let mut count: usize = 0;
        let n = self.invite_codes.len();
        let mut i: usize = 0;
        proof {
            assert(self.invite_codes@.take(0) =~= Seq::<InviteRecord>::empty());
            reveal(Seq::filter);
        }
        while i < n
            invariant
                n == self.invite_codes@.len(),
                i <= n,
                count <= i,
                count == active_invites(self.invite_codes@.take(i as int), community, now).len(),
            decreases n - i,
        {
            let rec = &self.invite_codes[i];
            let ghost pre = self.invite_codes@.take(i as int);
            let ghost post = self.invite_codes@.take(i + 1 as int);
            proof {
                reveal(Seq::filter);
                assert(post.drop_last() =~= pre);
                assert(post.last() == self.invite_codes@[i as int]);
            }
            let expired = match rec.expiration_date {
                Some(e) => e < now,
                None => false,
            };
            if rec.community == community && !expired {
                count = count + 1;
            }
            proof {
                assert(count == active_invites(post, community, now).len());
            }
            i = i + 1;
        }
        proof {
            assert(self.invite_codes@.take(n as int) =~= self.invite_codes@);
        }
        count
    }

    /// Records a new invite code for a community. Fails when the
    /// community already holds `max` active codes, or when the code is
    /// already taken (the caller then retries with fresh bits).
    pub fn create_invite_code(
        &mut self,
        community: CommunityId,
        code: InviteCode,
        expiration_date: Option<u64>,
        max: usize,
        now: u64,
    ) -> (r: bool)
        requires
            old(self).wf(),
            code.0@.len() <= MAX_INVITE_CODE_LENGTH,
        ensures
            final(self).wf(),
            r <==> active_invites(old(self).invite_codes@, community, now).len() < max && !(
            exists|j: int|
                0 <= j < old(self).invite_codes@.len() && (
                #[trigger] old(self).invite_codes@[j]).code@ == code.0@),
            r ==> final(self).invite_codes@ == old(self).invite_codes@.push(
                InviteRecord { code: code.0, community, expiration_date },
            ),
            r ==> only_invites_changed(*old(self), *final(self)),
            !r ==> *final(self) == *old(self),
    {
        let active = self.count_active_invites(community, now);
        if active >= max {
            return false;
        }
        if self.find_invite(&code.0).is_some() {
            return false;
        }
        self.invite_codes.push(
            InviteRecord { code: code.0, community, expiration_date },
        );
        true
    }

    /// The community an invite code resolves to at `now`. An unknown or
    /// expired code resolves to nothing.
    pub fn get_community_from_invite_code(&self, code: &InviteCode, now: u64) -> (r: Option<
        CommunityId,
    >)
        requires
            self.wf(),
        ensures
            r matches Some(c) ==> exists|j: int|
                0 <= j < self.invite_codes@.len() && (#[trigger] self.invite_codes@[j]).code@
                    == code.0@ && self.invite_codes@[j].community == c && !invite_expired(
                    self.invite_codes@[j],
                    now,
                ),
            r is None ==> forall|j: int|
                0 <= j < self.invite_codes@.len() ==> (#[trigger] self.invite_codes@[j]).code@
                    != code.0@ || invite_expired(self.invite_codes@[j], now),
    {
        match self.find_invite(&code.0) {
            Some(i) => {
                let rec = &self.invite_codes[i];
                let expired = match rec.expiration_date {
                    Some(e) => e < now,
                    None => false,
                };
                if expired {
                    proof {
                        assert forall|j: int|
                            0 <= j < self.invite_codes@.len() implies (
                        #[trigger] self.invite_codes@[j]).code@ != code.0@ || invite_expired(
                            self.invite_codes@[j],
                            now,
                        ) by {
                            if j != i && self.invite_codes@[j].code@ == code.0@ {
                                if j < i {
                                    assert(self.invite_codes@[j].code@
                                        != self.invite_codes@[i as int].code@);
                                } else {
                                    assert(self.invite_codes@[i as int].code@
                                        != self.invite_codes@[j].code@);
                                }
                            }
                        }
                    }
                    None
                } else {
                    Some(rec.community)
                }
            },
            None => None,
        }
    }

    /// Deletes every invite code whose expiration date has passed, so a
    /// swept code can no longer resolve.
    #[verifier::loop_isolation(false)]
    #[verifier::rlimit(80)]
    pub fn delete_expired_invite_codes(&mut self, now: u64)
        requires
            old(self).wf(),
        ensures
            final(self).wf(),
            final(self).invite_codes@ == unexpired_invites(old(self).invite_codes@, now),
            only_invites_changed(*old(self), *final(self)),
    {
        let ghost orig = self.invite_codes@;
        let n0 = self.invite_codes.len();
        let mut j: usize = 0;
        let mut i: usize = 0;
        proof {
            assert(orig.take(0) =~= Seq::<InviteRecord>::empty());
            assert(orig.skip(0) =~= orig);
            reveal(Seq::filter);
        }
        while i < self.invite_codes.len()
            invariant
                orig.len() == n0,
                j <= orig.len(),
                i == unexpired_invites(orig.take(j as int), now).len(),
                self.invite_codes@ == unexpired_invites(orig.take(j as int), now) + orig.skip(
                    j as int,
                ),
                only_invites_changed(*old(self), *self),
            decreases orig.len() - j,
        {
            proof {
                if j >= orig.len() {
                    assert(orig.skip(j as int) =~= Seq::<InviteRecord>::empty());
                    assert(self.invite_codes@.len() == i);
                    assert(false);
                }
            }
            let ghost pre = orig.take(j as int);
            let ghost post = orig.take(j + 1 as int);
            let ghost cur = orig[j as int];
            proof {
                assert(j < orig.len());
                reveal(Seq::filter);
                assert(post.drop_last() =~= pre);
                assert(post.last() == cur);
                assert(self.invite_codes@[i as int] == orig.skip(j as int)[0]);
                assert(orig.skip(j as int)[0] == cur);
                assert(orig.skip(j as int) =~= seq![cur] + orig.skip(j + 1 as int));
            }
            let rec = &self.invite_codes[i];
            let expired = match rec.expiration_date {
                Some(e) => e < now,
                None => false,
            };
            if expired {
                self.invite_codes.remove(i);
                proof {
                    assert(self.invite_codes@ =~= unexpired_invites(post, now) + orig.skip(
                        j + 1 as int,
                    ));
                }
            } else {
                i = i + 1;
                proof {
                    assert(self.invite_codes@ =~= unexpired_invites(post, now) + orig.skip(
                        j + 1 as int,
                    ));
                }
            }
            j = j + 1;
        }
        proof {
            assert(j == orig.len());
            assert(orig.take(j as int) =~= orig);
            assert(orig.skip(j as int) =~= Seq::<InviteRecord>::empty());
            assert(self.invite_codes@ =~= unexpired_invites(orig, now));
            lemma_unexpired_distinct(orig, now);
        }
    }
}

/// Filtering keeps the codes of an invite table pairwise distinct.
proof fn lemma_unexpired_distinct(s: Seq<InviteRecord>, now: u64)
    requires
        invites_distinct(s),
    ensures
        invites_distinct(unexpired_invites(s, now)),
    decreases s.len(),
{
    reveal(Seq::filter);
    if s.len() == 0 {
    } else {
        assert(invites_distinct(s.drop_last()));
        lemma_unexpired_distinct(s.drop_last(), now);
        let f = unexpired_invites(s, now);
        let rest = unexpired_invites(s.drop_last(), now);
        assert forall|a: int, b: int|
            0 <= a < b < f.len() implies (#[trigger] f[a]).code@ != (#[trigger] f[b]).code@ by {
            if b < rest.len() {
                assert(rest[a].code@ != rest[b].code@);
            } else {
                assert(f[b] == s.last());
                lemma_unexpired_elem(s.drop_last(), now, a);
                let i = choose|i: int|
                    0 <= i < s.drop_last().len() && #[trigger] s.drop_last()[i] == rest[a];
                assert(s[i].code@ != s[s.len() - 1].code@);
            }
        }
    }
}

/// Every active invite of a table occurs in it.
proof fn lemma_unexpired_elem(s: Seq<InviteRecord>, now: u64, k: int)
    requires
        0 <= k < unexpired_invites(s, now).len(),
    ensures
        exists|i: int| 0 <= i < s.len() && #[trigger] s[i] == unexpired_invites(s, now)[k],
    decreases s.len(),
{
    reveal(Seq::filter);
    if s.len() == 0 {
    } else {
        let rest = unexpired_invites(s.drop_last(), now);
        if !invite_expired(s.last(), now) && k == rest.len() {
            assert(s[s.len() - 1] == unexpired_invites(s, now)[k]);
        } else {
            lemma_unexpired_elem(s.drop_last(), now, k);
            let i = choose|i: int|
                0 <= i < s.drop_last().len() && #[trigger] s.drop_last()[i] == rest[k];
            assert(s[i] == unexpired_invites(s, now)[k]);
        }
    }
}

} // verus!
