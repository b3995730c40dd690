//! The per-community actor state: the authoritative table of online
//! member devices, and the fanout recipient computation that delivers an
//! event to every online device of every member except the device it
//! originated from.

use vstd::prelude::*;
use crate::{CommunityId, DeviceId, UserId};

verus! {

broadcast use vstd::seq_lib::group_filter_ensures;

/// One online device of one member.
#[derive(Clone, Copy, PartialEq, Eq, Structural, Debug)]
pub struct OnlineDevice {
    pub user: UserId,
    pub device: DeviceId,
}

/// The in-memory actor of one community: its id and the devices
/// currently connected for its members. All writes to a community pass
/// through this one value, which gives every observer a single total
/// order of its events.
pub struct CommunityActor {
    pub community: CommunityId,
    pub online: Vec<OnlineDevice>,
}

/// The fanout targets: every online device except the originating one.
pub open spec fn fanout_of(online: Seq<OnlineDevice>, except: DeviceId) -> Seq<OnlineDevice> {
    online.filter(|p: OnlineDevice| p.device != except)
}

impl CommunityActor {
    /// No device appears twice in the online table.
    pub open spec fn wf(self) -> bool {
        forall|i: int, j: int|
            0 <= i < j < self.online@.len() ==> (#[trigger] self.online@[i]).device != (
            #[trigger] self.online@[j]).device
    }

    /// A fresh actor for a community with nobody online.
    pub fn new(community: CommunityId) -> (r: CommunityActor)
        ensures
            r.wf(),
            r.community == community,
            r.online@.len() == 0,
    {
        CommunityActor { community, online: Vec::new() }
    }

    /// Whether this device is online in the community.
    pub fn is_online(&self, device: DeviceId) -> (r: bool)
        ensures
            r == exists|i: int|
                0 <= i < self.online@.len() && (#[trigger] self.online@[i]).device == device,
    {
        let mut i: usize = 0;
        while i < self.online.len()
            invariant
                i <= self.online@.len(),
                forall|j: int| 0 <= j < i ==> (#[trigger] self.online@[j]).device != device,
            decreases self.online@.len() - i,
        {
            if self.online[i].device == device {
                return true;
            }
            i = i + 1;
        }
        false
    }

    /// Connects a device for a member; already-connected devices stay
    /// connected once.
    pub fn connect(&mut self, user: UserId, device: DeviceId)
        requires
            old(self).wf(),
        ensures
            final(self).wf(),
            final(self).community == old(self).community,
            exists|i: int|
                0 <= i < final(self).online@.len() && (#[trigger] final(self).online@[i]).device
                    == device,
            (exists|i: int|
                0 <= i < old(self).online@.len() && (#[trigger] old(self).online@[i]).device
                    == device) ==> final(self).online@ == old(self).online@,
            !(exists|i: int|
                0 <= i < old(self).online@.len() && (#[trigger] old(self).online@[i]).device
                    == device) ==> final(self).online@ == old(self).online@.push(
                OnlineDevice { user, device },
            ),
    {
        if self.is_online(device) {
            return ;
        }
        self.online.push(OnlineDevice { user, device });
        proof {
            assert(final(self).online@[old(self).online@.len() as int].device == device);
        }
    }

    /// Disconnects a device; a device not online is left alone.
    #[verifier::loop_isolation(false)]
    pub fn disconnect(&mut self, device: DeviceId)
        requires
            old(self).wf(),
        ensures
            final(self).wf(),
            final(self).community == old(self).community,
            forall|i: int|
                0 <= i < final(self).online@.len() ==> (#[trigger] final(self).online@[i]).device
                    != device,
            (exists|i: int|
                0 <= i < old(self).online@.len() && (#[trigger] old(self).online@[i]).device
                    == device) ==> exists|i: int|
                0 <= i < old(self).online@.len() && (#[trigger] old(self).online@[i]).device
                    == device && final(self).online@ == old(self).online@.remove(i),
            !(exists|i: int|
                0 <= i < old(self).online@.len() && (#[trigger] old(self).online@[i]).device
                    == device) ==> final(self).online@ == old(self).online@,
    {
        let mut i: usize = 0;
        while i < self.online.len()
            invariant
                i <= self.online@.len(),
                *self == *old(self),
                forall|j: int| 0 <= j < i ==> (#[trigger] self.online@[j]).device != device,
            decreases self.online@.len() - i,
        {
            if self.online[i].device == device {
                self.online.remove(i);
                proof {
                    assert forall|k: int|
                        0 <= k < self.online@.len() implies (#[trigger] self.online@[k]).device
                        != device by {
                        if k < i {
                            assert(self.online@[k] == old(self).online@[k]);
                        } else {
                            assert(self.online@[k] == old(self).online@[k + 1]);
                        }
                    }
                    assert forall|a: int, b: int|
                        0 <= a < b < self.online@.len() implies (
                    #[trigger] self.online@[a]).device != (#[trigger] self.online@[b]).device by {
                        let a0: int = if a < i {
                            a
                        } else {
                            a + 1
                        };
                        let b0: int = if b < i {
                            b
                        } else {
                            b + 1
                        };
                        assert(self.online@[a] == old(self).online@[a0]);
                        assert(self.online@[b] == old(self).online@[b0]);
                        assert(old(self).online@[a0].device != old(self).online@[b0].device);
                    }
                }
                return ;
            }
            i = i + 1;
        }
    }


    /// A copy of the whole online table: every device currently
    /// connected for a member, pairwise distinct.
    pub fn online_devices(&self) -> (r: Vec<OnlineDevice>)
        requires
            self.wf(),
        ensures
            r@ == self.online@,
            forall|a: int, b: int|
                0 <= a < b < r@.len() ==> (#[trigger] r@[a]).device != (#[trigger] r@[b]).device,
    {
        let mut out: Vec<OnlineDevice> = Vec::new();
        let mut i: usize = 0;
        while i < self.online.len()
            invariant
                i <= self.online@.len(),
                out@ =~= self.online@.take(i as int),
            decreases self.online@.len() - i,
        {
            out.push(self.online[i]);
            proof {
                assert(out@ =~= self.online@.take(i + 1 as int));
            }
            i = i + 1;
        }
        proof {
            assert(out@ =~= self.online@);
        }
        out
    }

    /// The devices an event of this community is delivered to when it
    /// originates from `except`: every online device but that one. The
    /// originating device is never echoed to, and no other online
    /// device is skipped.
    #[verifier::loop_isolation(false)]
    pub fn fanout_recipients(&self, except: DeviceId) -> (r: Vec<OnlineDevice>)
        requires
            self.wf(),
        ensures
            r@ == fanout_of(self.online@, except),
            forall|a: int, b: int|
                0 <= a < b < r@.len() ==> (#[trigger] r@[a]).device != (#[trigger] r@[b]).device,
            forall|k: int| 0 <= k < r@.len() ==> (#[trigger] r@[k]).device != except,
            forall|i: int|
                0 <= i < self.online@.len() && (#[trigger] self.online@[i]).device != except
                    ==> r@.contains(self.online@[i]),
    {
        let mut out: Vec<OnlineDevice> = Vec::new();
        let n = self.online.len();
        let mut i: usize = 0;
        proof {
            assert(self.online@.take(0) =~= Seq::<OnlineDevice>::empty());
            reveal(Seq::filter);
        }
        while i < n
            invariant
                n == self.online@.len(),
                i <= n,
                out@ == fanout_of(self.online@.take(i as int), except),
            decreases n - i,
        {
            let ghost pre = self.online@.take(i as int);
            let ghost post = self.online@.take(i + 1 as int);
            proof {
                reveal(Seq::filter);
                assert(post.drop_last() =~= pre);
                assert(post.last() == self.online@[i as int]);
            }
            if !(self.online[i].device == except) {
                out.push(self.online[i]);
            }
            proof {
                assert(out@ =~= fanout_of(post, except));
            }
            i = i + 1;
        }
        proof {
            assert(self.online@.take(n as int) =~= self.online@);
            assert forall|k: int| 0 <= k < out@.len() implies (#[trigger] out@[k]).device
                != except by {
                assert(out@[k] == fanout_of(self.online@, except)[k]);
            }
            lemma_fanout_distinct(self.online@, except);
        }
        out
    }
}

/// Every fanout target occurs in the online table.
proof fn lemma_fanout_elem(online: Seq<OnlineDevice>, except: DeviceId, k: int)
    requires
        0 <= k < fanout_of(online, except).len(),
    ensures
        exists|i: int| 0 <= i < online.len() && #[trigger] online[i] == fanout_of(online, except)[k],
    decreases online.len(),
{
    reveal(Seq::filter);
    if online.len() == 0 {
    } else {
        let rest = fanout_of(online.drop_last(), except);
        if online.last().device != except && k == rest.len() {
            assert(online[online.len() - 1] == fanout_of(online, except)[k]);
        } else {
            lemma_fanout_elem(online.drop_last(), except, k);
            let i = choose|i: int|
                0 <= i < online.drop_last().len() && #[trigger] online.drop_last()[i] == rest[k];
            assert(online[i] == fanout_of(online, except)[k]);
        }
    }
}

/// Fanout keeps the devices of a well-keyed online table pairwise
/// distinct.
proof fn lemma_fanout_distinct(online: Seq<OnlineDevice>, except: DeviceId)
    requires
        forall|i: int, j: int|
            0 <= i < j < online.len() ==> (#[trigger] online[i]).device != (
            #[trigger] online[j]).device,
    ensures
        forall|a: int, b: int|
            0 <= a < b < fanout_of(online, except).len() ==> (#[trigger] fanout_of(
                online,
                except,
            )[a]).device != (#[trigger] fanout_of(online, except)[b]).device,
    decreases online.len(),
{
    reveal(Seq::filter);
    if online.len() == 0 {
    } else {
        lemma_fanout_distinct(online.drop_last(), except);
        let f = fanout_of(online, except);
        let rest = fanout_of(online.drop_last(), except);
        assert forall|a: int, b: int|
            0 <= a < b < f.len() implies (#[trigger] f[a]).device != (#[trigger] f[b]).device by {
            if b < rest.len() {
                assert(rest[a].device != rest[b].device);
            } else {
                assert(f[b] == online.last());
                lemma_fanout_elem(online.drop_last(), except, a);
                let i = choose|i: int|
                    0 <= i < online.drop_last().len() && #[trigger] online.drop_last()[i]
                        == rest[a];
                assert(online[i].device != online[online.len() - 1].device);
            }
        }
    }
}

} // verus!
