//! Time-bounded deny-list keyed by client address.
//!
//! A blacklisted client is denied for `block_duration` from the moment
//! it was listed.  Entries expire lazily when queried and eagerly
//! through the periodic [`IpBlacklist::cleanup`] sweep, so the map
//! cannot grow without bound on clients that are never queried again.

use vstd::prelude::*;

use crate::assoc::{lemma_assoc_map_dom, lemma_assoc_map_index};
use crate::client::ClientIp;
use crate::client_map::ClientMap;
use crate::clock::{elapsed_ms, time_since};

verus! {

/// The bound that [`IpBlacklist::new`] places on the block duration,
/// so the conversion to milliseconds cannot overflow.
pub const MAX_BLOCK_MINUTES: u64 = 0xFFFF_FFFF;

/// Mathematical state of an [`IpBlacklist`]: when each blocked client
/// was listed, and for how long a listing holds.
#[verifier::ext_equal]
pub struct BlacklistModel {
    /// For each blocked client, the time it was blacklisted.
    pub blocked: Map<ClientIp, u64>,
    /// How long a listing denies the client.
    pub block_duration_ms: u64,
}

/// Whether `c` is denied at time `now`: it is listed and its listing
/// has not yet expired.
pub open spec fn spec_is_blocked(m: BlacklistModel, c: ClientIp, now: u64) -> bool {
    m.blocked.dom().contains(c) && time_since(now, m.blocked[c]) < m.block_duration_ms
}

/// State after `is_blacklisted(c)` at `now`: an expired entry is
/// removed; nothing else changes.
pub open spec fn blacklist_check_step(m: BlacklistModel, c: ClientIp, now: u64) -> BlacklistModel {
    if m.blocked.dom().contains(c) && !spec_is_blocked(m, c, now) {
        BlacklistModel { blocked: m.blocked.remove(c), ..m }
    } else {
        m
    }
}

/// State after `cleanup` at `now`: exactly the unexpired entries
/// remain, unchanged.
pub open spec fn blacklist_cleanup_step(m: BlacklistModel, now: u64) -> BlacklistModel {
    BlacklistModel {
        blocked: Map::new(
            |c: ClientIp| m.blocked.dom().contains(c) && time_since(now, m.blocked[c])
                < m.block_duration_ms,
            |c: ClientIp| m.blocked[c],
        ),
        ..m
    }
}

/// Temporarily blocks misbehaving clients.
pub struct IpBlacklist {
    entries: ClientMap<u64>,
    block_duration_ms: u64,
}

impl View for IpBlacklist {
    type V = BlacklistModel;

    closed spec fn view(&self) -> BlacklistModel {
        BlacklistModel { blocked: self.entries@, block_duration_ms: self.block_duration_ms }
    }
}

impl IpBlacklist {
    #[verifier::type_invariant]
    spec fn inv(self) -> bool {
        self.entries.wf()
    }

    /// An empty blacklist blocking clients for `block_minutes`.
    pub fn new(block_minutes: u64) -> (r: Self)
        requires
            block_minutes <= MAX_BLOCK_MINUTES,
        ensures
            r@.blocked == Map::<ClientIp, u64>::empty(),
            r@.block_duration_ms == block_minutes * 60000,
    {
        IpBlacklist { entries: ClientMap::new(), block_duration_ms: block_minutes * 60000 }
    }

    /// Whether `ip` is currently denied.  An entry found expired is
    /// removed, independently of the periodic sweep.
    pub fn is_blacklisted(&mut self, ip: &ClientIp, now_ms: u64) -> (r: bool)
        ensures
            r == spec_is_blocked(old(self)@, *ip, now_ms),
            final(self)@ == blacklist_check_step(old(self)@, *ip, now_ms),
    {
        proof {
            use_type_invariant(&*self);
        }
        let block_time = match self.entries.get(ip) {
            Some(t) => *t,
            None => {
                return false;
            },
        };
        if elapsed_ms(now_ms, block_time) < self.block_duration_ms {
            true
        } else {
            let mut entries = ClientMap::new();
            core::mem::swap(&mut entries, &mut self.entries);
            entries.remove(ip);
            self.entries = entries;
            false
        }
    }

    /// List `ip` as of `now_ms`; re-blacklisting restarts its penalty
    /// clock.
    pub fn blacklist_ip(&mut self, ip: ClientIp, now_ms: u64)
        ensures
            final(self)@.blocked == old(self)@.blocked.insert(ip, now_ms),
            final(self)@.block_duration_ms == old(self)@.block_duration_ms,
    {
        proof {
            use_type_invariant(&*self);
        }
        let mut entries = ClientMap::new();
        core::mem::swap(&mut entries, &mut self.entries);
        entries.insert(ip, now_ms);
        self.entries = entries;
    }

    /// Drop every expired entry, so that clients never queried again
    /// do not accumulate.
    pub fn cleanup(&mut self, now_ms: u64)
        ensures
            final(self)@ == blacklist_cleanup_step(old(self)@, now_ms),
    {
        proof {
            use_type_invariant(&*self);
        }
        let ghost s = self.entries.kvs();
        let ghost m0 = self@;
        let mut kept: ClientMap<u64> = ClientMap::new();
        let n = self.entries.len();
        let mut i: usize = 0;
        while i < n
            invariant
                self == old(self),
                self.entries.wf(),
                kept.wf(),
                s == self.entries.kvs(),
                n == s.len(),
                0 <= i <= n,
                m0 == self@,
                forall|c: ClientIp| #[trigger] kept@.dom().contains(c) <==> exists|j: int|
                    0 <= j < i && s[j].0 == c && time_since(now_ms, s[j].1)
                        < m0.block_duration_ms,
                forall|c: ClientIp| #[trigger] kept@.dom().contains(c) ==> kept@[c]
                    == m0.blocked[c],
            decreases n - i,
        {
            let k = self.entries.key_at(i);
            let v = *self.entries.val_at(i);
            if elapsed_ms(now_ms, v) < self.block_duration_ms {
                proof {
                    lemma_assoc_map_index(s, i as int);
                }
                let ghost kept0 = kept@;
                kept.insert(k, v);
                proof {
                    assert forall|c: ClientIp| #[trigger] kept@.dom().contains(c) implies exists|
                        j: int,
                    |
                        0 <= j < i + 1 && s[j].0 == c && time_since(now_ms, s[j].1)
                            < m0.block_duration_ms by {
                        if c == k {
                            assert(s[i as int].0 == c && time_since(now_ms, s[i as int].1)
                                < m0.block_duration_ms);
                        } else {
                            assert(kept0.dom().contains(c));
                        }
                    }
                    assert forall|c: ClientIp| #[trigger] kept@.dom().contains(c) implies kept@[c]
                        == m0.blocked[c] by {
                        if c != k {
                            assert(kept0.dom().contains(c));
                        }
                    }
                }
            }
            i = i + 1;
        }
        proof {
            assert forall|c: ClientIp|
                #[trigger] kept@.dom().contains(c) == (m0.blocked.dom().contains(c) && time_since(
                now_ms,
                m0.blocked[c],
            ) < m0.block_duration_ms) by {
                lemma_assoc_map_dom(s, c);
                if exists|j: int| 0 <= j < n && s[j].0 == c {
                    let j = choose|j: int| 0 <= j < n && s[j].0 == c;
                    lemma_assoc_map_index(s, j);
                }
            }
            assert(kept@ =~= blacklist_cleanup_step(m0, now_ms).blocked);
        }
        self.entries = kept;
    }
}

/// A client blacklisted at time `t` is denied at every check before
/// `t + block_duration` and accepted again at any check from
/// `t + block_duration` on, assuming no re-blacklist in between.
pub proof fn lemma_blacklist_window(m: BlacklistModel, c: ClientIp, t: u64, now: u64)
    requires
        m.blocked.dom().contains(c),
        m.blocked[c] == t,
    ensures
        t <= now < t + m.block_duration_ms ==> spec_is_blocked(m, c, now),
        now >= t + m.block_duration_ms ==> !spec_is_blocked(m, c, now),
{
}

/// Running the expiry sweep twice at the same instant removes nothing
/// the first pass did not already remove.
pub proof fn lemma_blacklist_cleanup_idempotent(m: BlacklistModel, now: u64)
    ensures
        blacklist_cleanup_step(blacklist_cleanup_step(m, now), now)
            == blacklist_cleanup_step(m, now),
{
    assert(blacklist_cleanup_step(blacklist_cleanup_step(m, now), now)
        =~= blacklist_cleanup_step(m, now));
}

} // verus!
