//! Peers seen on the discovery port, by nickname.

use vstd::prelude::*;
use crate::nickmap::{NickMap, KeepTest, kept_map};

verus! {

/// What is known of a peer.
pub struct Peer {
    /// The session id from its last announcement.
    pub session_id: u64,
    /// Its nickname, which is also its key in the [`PeerList`].
    pub nickname: String,
    /// The socket address the announcement came from, in text form.
    pub addr: String,
    /// The port it takes chat connections on.
    pub tcp_port: u16,
    /// The status byte it announced.
    pub status: u8,
    /// When it was last heard from: a reading, in nanoseconds, of the
    /// monotonic clock whose readings the caller passes to [`PeerList`].
    pub last_seen: u64,
}

/// Nanoseconds from `since` to `now`; zero if `now` is earlier.
pub open spec fn elapsed(now: u64, since: u64) -> nat {
    if now >= since {
        (now - since) as nat
    } else {
        0
    }
}

/// Whether a peer last seen at `since` is still fresh at `now`.
pub open spec fn is_fresh(now: u64, since: u64, timeout: u64) -> bool {
    elapsed(now, since) < timeout
}

/// A peer is kept exactly when it was heard less than `timeout` before
/// `now`; a reading from after `now` counts as heard just now.
pub proof fn law_freshness(now: u64, timeout: u64, p: Peer)
    ensures
        p.last_seen <= now ==> ((FreshAt { now, timeout }).keeps(p) <==> now - p.last_seen
            < timeout),
        p.last_seen > now ==> ((FreshAt { now, timeout }).keeps(p) <==> timeout > 0),
{
}

/// Keeps the peers seen less than `timeout` nanoseconds before `now`.
pub struct FreshAt {
    pub now: u64,
    pub timeout: u64,
}

impl KeepTest<Peer> for FreshAt {
    open spec fn keeps(&self, p: Peer) -> bool {
        is_fresh(self.now, p.last_seen, self.timeout)
    }

    fn test(&self, p: &Peer) -> (r: bool) {
        let age = if self.now >= p.last_seen {
            self.now - p.last_seen
        } else {
            0
        };
        age < self.timeout
    }
}

/// The peers known at the moment, one per nickname.
pub struct PeerList {
    peers: NickMap<Peer>,
}

impl View for PeerList {
    type V = Map<Seq<char>, Peer>;

    closed spec fn view(&self) -> Map<Seq<char>, Peer> {
        self.peers@
    }
}

impl PeerList {
    #[verifier::type_invariant]
    spec fn keyed_by_nickname(self) -> bool {
        forall|k: Seq<char>| #[trigger] self.peers@.contains_key(k) ==> self.peers@[k].nickname@ == k
    }

    /// The nicknames in the order [`PeerList::list`] returns their peers.
    pub closed spec fn order(&self) -> Seq<Seq<char>> {
        self.peers.order()
    }

    /// An empty list.
    pub fn new() -> (r: Self)
        ensures
            r@ == Map::<Seq<char>, Peer>::empty(),
    {
        PeerList { peers: NickMap::new() }
    }

    /// Records an announcement heard at clock reading `now`, replacing what
    /// was known of the same nickname.
    pub fn update(
        &mut self,
        session_id: u64,
        nickname: String,
        addr: String,
        tcp_port: u16,
        status: u8,
        now: u64,
    )
        ensures
            final(self)@ == old(self)@.insert(
                nickname@,
                (Peer { session_id, nickname, addr, tcp_port, status, last_seen: now }),
            ),
    {
        proof {
            use_type_invariant(&*self);
        }
        let key = nickname.clone();
        let mut peers: NickMap<Peer> = NickMap::new();
        std::mem::swap(&mut peers, &mut self.peers);
        peers.insert(key, Peer { session_id, nickname, addr, tcp_port, status, last_seen: now });
        self.peers = peers;
    }

    /// Forgets the peers not heard from within `timeout` nanoseconds of `now`.
    pub fn remove_stale(&mut self, timeout: u64, now: u64)
        ensures
            final(self)@ == kept_map(old(self)@, FreshAt { now, timeout }),
            forall|k: Seq<char>| #[trigger] final(self)@.contains_key(k) <==> (old(self)@.contains_key(k)
                && (if now >= old(self)@[k].last_seen {
                now - old(self)@[k].last_seen
            } else {
                0
            }) < timeout),
            forall|k: Seq<char>| #[trigger] final(self)@.contains_key(k) ==> final(self)@[k] == old(
                self,
            )@[k],
    {
        proof {
            use_type_invariant(&*self);
        }
        let keep = FreshAt { now, timeout };
        let mut peers: NickMap<Peer> = NickMap::new();
        std::mem::swap(&mut peers, &mut self.peers);
        peers.retain(&keep);
        self.peers = peers;
    }

    /// The known peers, each once.
    pub fn list(&self) -> (r: Vec<&Peer>)
        ensures
            self.order().no_duplicates(),
            forall|k: Seq<char>| self@.contains_key(k) <==> #[trigger] self.order().contains(k),
            r@.len() == self.order().len(),
            forall|i: int| 0 <= i < r@.len() ==> *r@[i] == self@[#[trigger] self.order()[i]],
            forall|i: int| 0 <= i < r@.len() ==> (#[trigger] r@[i]).nickname@ == self.order()[i],
    {
        proof {
            use_type_invariant(self);
        }
        let r = self.peers.values();
        assert forall|i: int| 0 <= i < r@.len() implies (#[trigger] r@[i]).nickname@
            == self.order()[i] by {
            assert(self.order().contains(self.order()[i]));
            assert(self.peers@.contains_key(self.order()[i]));
        }
        r
    }
}

} // verus!
