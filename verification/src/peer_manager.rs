//! PeerManager: central peer lifecycle management.
//!
//! A plain data structure that tracks, for each P2P peer, whether its user is resolved and
//! whether it is still alive (ping/pong), and for each user of the room whether it has a live
//! connection and which display name it has.
//!
//! Times are whole milliseconds.
use vstd::prelude::*;
use crate::str_map::{StrMap, names, enumerates};

verus! {

/// Resolution / liveness status for a single P2P peer.
#[derive(Debug, Clone)]
pub enum PeerStatus {
    /// RPC resolve in progress; `attempts` counts consecutive failures.
    Resolving { attempts: u32 },
    /// Successfully resolved to a user_id.
    Resolved { user_id: String },
    /// A liveness ping was sent; waiting for pong.
    PingSent { sent_at_ms: u64, attempts: u32 },
    /// Peer failed liveness check: should be ignored.
    Stale,
}

/// Abstract value of a [`PeerStatus`].
pub enum PeerStatusView {
    Resolving { attempts: u32 },
    Resolved { user_id: Seq<char> },
    PingSent { sent_at_ms: u64, attempts: u32 },
    Stale,
}

impl View for PeerStatus {
    type V = PeerStatusView;

    open spec fn view(&self) -> PeerStatusView {
        match self {
            PeerStatus::Resolving { attempts } => PeerStatusView::Resolving { attempts: *attempts },
            PeerStatus::Resolved { user_id } => PeerStatusView::Resolved { user_id: user_id@ },
            PeerStatus::PingSent { sent_at_ms, attempts } => PeerStatusView::PingSent {
                sent_at_ms: *sent_at_ms,
                attempts: *attempts,
            },
            PeerStatus::Stale => PeerStatusView::Stale,
        }
    }
}

/// Presence of a known user_id.
#[derive(Debug, Clone)]
pub enum UserPresence {
    /// Present in GetRoomUsers but no active P2P connection.
    InRoom,
    /// Has an active P2P connection via `peer_id`.
    Connected { peer_id: String },
}

/// Abstract value of a [`UserPresence`].
pub enum UserPresenceView {
    InRoom,
    Connected { peer_id: Seq<char> },
}

impl View for UserPresence {
    type V = UserPresenceView;

    open spec fn view(&self) -> UserPresenceView {
        match self {
            UserPresence::InRoom => UserPresenceView::InRoom,
            UserPresence::Connected { peer_id } => UserPresenceView::Connected { peer_id: peer_id@ },
        }
    }
}

/// Resolve attempts after which a peer needs a liveness ping.
pub const MAX_RESOLVE_ATTEMPTS: u32 = 5;

/// Milliseconds after which an unanswered ping marks a peer stale.
pub const PING_TIMEOUT_MS: u64 = 3000;

/// Abstract state of a [`PeerManager`].
pub struct PeerManagerView {
    /// peer_id -> status
    pub peers: Map<Seq<char>, PeerStatusView>,
    /// user_id -> presence
    pub users: Map<Seq<char>, UserPresenceView>,
    /// user_id -> display name
    pub display_names: Map<Seq<char>, Seq<char>>,
    pub max_resolve_attempts: u32,
    pub ping_timeout_ms: u64,
}

/// A ping sent at `sent_at_ms` has gone unanswered for at least `timeout` at `now`.
pub open spec fn ping_expired(sent_at_ms: u64, now: u64, timeout: u64) -> bool {
    now - sent_at_ms >= timeout
}

impl PeerManagerView {
    /// The state right after construction.
    pub open spec fn initial() -> PeerManagerView {
        PeerManagerView {
            peers: Map::empty(),
            users: Map::empty(),
            display_names: Map::empty(),
            max_resolve_attempts: MAX_RESOLVE_ATTEMPTS,
            ping_timeout_ms: PING_TIMEOUT_MS,
        }
    }

    /// A new peer starts resolving; a known peer keeps its status.
    pub open spec fn peer_connected(self, p: Seq<char>) -> PeerManagerView {
        if self.peers.contains_key(p) {
            self
        } else {
            PeerManagerView {
                peers: self.peers.insert(p, PeerStatusView::Resolving { attempts: 0 }),
                ..self
            }
        }
    }

    /// The peer is forgotten; a user connected through it falls back to `InRoom`.
    pub open spec fn peer_disconnected(self, p: Seq<char>) -> PeerManagerView {
        let users = if self.peers.contains_key(p) {
            match self.peers[p] {
                PeerStatusView::Resolved { user_id } => if self.users.contains_key(user_id)
                    && self.users[user_id] == (UserPresenceView::Connected { peer_id: p }) {
                    self.users.insert(user_id, UserPresenceView::InRoom)
                } else {
                    self.users
                },
                _ => self.users,
            }
        } else {
            self.users
        };
        PeerManagerView { peers: self.peers.remove(p), users, ..self }
    }

    /// The peer is resolved to the user, and the user is connected through the peer.
    pub open spec fn peer_resolved(self, p: Seq<char>, u: Seq<char>) -> PeerManagerView {
        PeerManagerView {
            peers: self.peers.insert(p, PeerStatusView::Resolved { user_id: u }),
            users: self.users.insert(u, UserPresenceView::Connected { peer_id: p }),
            ..self
        }
    }

    /// A failed resolve counts one more attempt of a resolving peer.
    pub open spec fn resolve_failed(self, p: Seq<char>) -> PeerManagerView {
        if self.peers.contains_key(p) {
            match self.peers[p] {
                PeerStatusView::Resolving { attempts } => PeerManagerView {
                    peers: self.peers.insert(
                        p,
                        PeerStatusView::Resolving { attempts: (attempts + 1) as u32 },
                    ),
                    ..self
                },
                _ => self,
            }
        } else {
            self
        }
    }

    /// Whether a failed resolve of `p` reaches the attempt limit.
    pub open spec fn resolve_failed_reaches_limit(self, p: Seq<char>) -> bool {
        self.peers.contains_key(p) && match self.peers[p] {
            PeerStatusView::Resolving { attempts } => attempts + 1 >= self.max_resolve_attempts,
            _ => false,
        }
    }

    /// A ping to a known peer is recorded, counting consecutive pings.
    pub open spec fn ping_sent(self, p: Seq<char>, now: u64) -> PeerManagerView {
        if self.peers.contains_key(p) {
            let attempts: u32 = match self.peers[p] {
                PeerStatusView::PingSent { attempts, .. } => (attempts + 1) as u32,
                _ => 1,
            };
            PeerManagerView {
                peers: self.peers.insert(
                    p,
                    PeerStatusView::PingSent { sent_at_ms: now, attempts },
                ),
                ..self
            }
        } else {
            self
        }
    }

    /// A pong puts a known peer back to resolving from scratch.
    pub open spec fn pong_received(self, p: Seq<char>) -> PeerManagerView {
        if self.peers.contains_key(p) {
            PeerManagerView {
                peers: self.peers.insert(p, PeerStatusView::Resolving { attempts: 0 }),
                ..self
            }
        } else {
            self
        }
    }

    /// The status has an expired ping at `now`.
    pub open spec fn timed_out(self, s: PeerStatusView, now: u64) -> bool {
        match s {
            PeerStatusView::PingSent { sent_at_ms, .. } => ping_expired(
                sent_at_ms,
                now,
                self.ping_timeout_ms,
            ),
            _ => false,
        }
    }

    /// Peers whose ping expired at `now`.
    pub open spec fn timed_out_peers(self, now: u64) -> Set<Seq<char>> {
        Set::new(|p: Seq<char>| self.peers.contains_key(p) && self.timed_out(self.peers[p], now))
    }

    /// Every peer whose ping expired becomes stale.
    pub open spec fn ping_timeouts_checked(self, now: u64) -> PeerManagerView {
        PeerManagerView {
            peers: self.peers.map_values(
                |s: PeerStatusView|
                    if self.timed_out(s, now) {
                        PeerStatusView::Stale
                    } else {
                        s
                    },
            ),
            ..self
        }
    }

    /// The users become exactly `ids`; users that stay keep their presence, new ones are `InRoom`.
    pub open spec fn room_users_updated(self, ids: Seq<Seq<char>>) -> PeerManagerView {
        PeerManagerView {
            users: Map::new(
                |u: Seq<char>| ids.contains(u),
                |u: Seq<char>|
                    if self.users.contains_key(u) {
                        self.users[u]
                    } else {
                        UserPresenceView::InRoom
                    },
            ),
            ..self
        }
    }

    /// Peers still being resolved.
    pub open spec fn unresolved_peers(self) -> Set<Seq<char>> {
        Set::new(
            |p: Seq<char>| self.peers.contains_key(p) && self.peers[p] is Resolving,
        )
    }

    /// Resolving peers whose attempts reached the limit.
    pub open spec fn peers_to_ping(self) -> Set<Seq<char>> {
        Set::new(
            |p: Seq<char>|
                self.peers.contains_key(p) && match self.peers[p] {
                    PeerStatusView::Resolving { attempts } => attempts >= self.max_resolve_attempts,
                    _ => false,
                },
        )
    }

    /// Users without a display name.
    pub open spec fn unnamed_users(self) -> Set<Seq<char>> {
        Set::new(
            |u: Seq<char>| self.users.contains_key(u) && !self.display_names.contains_key(u),
        )
    }

    /// The user a peer is resolved to.
    pub open spec fn user_of_peer(self, p: Seq<char>) -> Option<Seq<char>> {
        if self.peers.contains_key(p) {
            match self.peers[p] {
                PeerStatusView::Resolved { user_id } => Some(user_id),
                _ => None,
            }
        } else {
            None
        }
    }

    /// The display name recorded for a user.
    pub open spec fn name_of_user(self, u: Seq<char>) -> Option<Seq<char>> {
        if self.display_names.contains_key(u) {
            Some(self.display_names[u])
        } else {
            None
        }
    }

    /// The display name of the user is recorded.
    pub open spec fn display_name_set(self, u: Seq<char>, name: Seq<char>) -> PeerManagerView {
        PeerManagerView { display_names: self.display_names.insert(u, name), ..self }
    }

    /// All tables are emptied; the limits stay.
    pub open spec fn cleared(self) -> PeerManagerView {
        PeerManagerView {
            peers: Map::empty(),
            users: Map::empty(),
            display_names: Map::empty(),
            ..self
        }
    }
}

/// Which peers a scan of the peer table collects.
enum PeerFilter {
    Resolving,
    NeedsPing,
    TimedOut { now: u64 },
}

/// Manages the mapping between peer_ids, user_ids, and display names.
pub struct PeerManager {
    /// peer_id -> status
    peers: StrMap<PeerStatus>,
    /// user_id -> presence (authoritative source: GetRoomUsers)
    users: StrMap<UserPresence>,
    /// user_id -> display_name
    display_names: StrMap<String>,
    /// Maximum resolve attempts before triggering a ping.
    max_resolve_attempts: u32,
    /// Ping timeout in milliseconds.
    ping_timeout_ms: u64,
}

impl View for PeerManager {
    type V = PeerManagerView;

    closed spec fn view(&self) -> PeerManagerView {
        PeerManagerView {
            peers: self.peers@,
            users: self.users@,
            display_names: self.display_names@,
            max_resolve_attempts: self.max_resolve_attempts,
            ping_timeout_ms: self.ping_timeout_ms,
        }
    }
}

impl PeerManager {
    /// The tables are well formed (no key twice), and the limits are the fixed ones.
    pub closed spec fn wf(self) -> bool {
        &&& self.peers.wf()
        &&& self.users.wf()
        &&& self.display_names.wf()
        &&& self.max_resolve_attempts == MAX_RESOLVE_ATTEMPTS
        &&& self.ping_timeout_ms == PING_TIMEOUT_MS
    }

    closed spec fn filter_holds(self, f: PeerFilter, s: PeerStatusView) -> bool {
        match f {
            PeerFilter::Resolving => s is Resolving,
            PeerFilter::NeedsPing => match s {
                PeerStatusView::Resolving { attempts } => attempts >= self.max_resolve_attempts,
                _ => false,
            },
            PeerFilter::TimedOut { now } => self@.timed_out(s, now),
        }
    }

    fn status_matches(&self, f: &PeerFilter, s: &PeerStatus) -> (r: bool)
        ensures
            r == self.filter_holds(*f, s@),
    {
        match f {
            PeerFilter::Resolving => match s {
                PeerStatus::Resolving { .. } => true,
                _ => false,
            },
            PeerFilter::NeedsPing => match s {
                PeerStatus::Resolving { attempts } => *attempts >= self.max_resolve_attempts,
                _ => false,
            },
            PeerFilter::TimedOut { now } => match s {
                PeerStatus::PingSent { sent_at_ms, .. } => *now >= *sent_at_ms && *now
                    - *sent_at_ms >= self.ping_timeout_ms,
                _ => false,
            },
        }
    }

    /// The ids of the peers whose status passes `f`, each once.
    fn peers_where(&self, f: PeerFilter) -> (r: Vec<String>)
        requires
            self.wf(),
        ensures
            enumerates(
                names(r@),
                Set::new(
                    |p: Seq<char>|
                        self@.peers.contains_key(p) && self.filter_holds(f, self@.peers[p]),
                ),
            ),
    {
        proof {
            self.peers.lemma_entries();
        }
        let n = self.peers.len();
        let mut r: Vec<String> = Vec::new();
        let ghost mut src: Seq<int> = Seq::empty();
        let mut i: usize = 0;
        while i < n
            invariant
                n == self.peers.size(),
                i <= n,
                self.wf(),
                src.len() == r@.len(),
                forall|a: int, b: int| 0 <= a < b < src.len() ==> src[a] < src[b],
                forall|a: int|
                    0 <= a < src.len() ==> 0 <= #[trigger] src[a] < i && self.peers.key_at(src[a])
                        == r@[a]@ && self.filter_holds(f, self.peers.value_at(src[a])),
                forall|j: int|
                    0 <= j < i && self.filter_holds(f, #[trigger] self.peers.value_at(j))
                        ==> exists|a: int| 0 <= a < r@.len() && r@[a]@ == self.peers.key_at(j),
            decreases n - i,
        {
            proof {
                self.peers.lemma_entries();
            }
            if self.status_matches(&f, self.peers.value(i)) {
                let k = self.peers.key(i).clone();
                let ghost r_old = r@;
                r.push(k);
                proof {
                    src = src.push(i as int);
                    assert forall|j: int|
                        0 <= j < i + 1 && self.filter_holds(f, #[trigger] self.peers.value_at(j))
                            implies exists|a: int| 0 <= a < r@.len() && r@[a]@ == self.peers.key_at(j) by {
                        if j < i {
                            let a = choose|a: int| 0 <= a < r_old.len() && r_old[a]@ == self.peers.key_at(j);
                            assert(r@[a] == r_old[a]);
                        } else {
                            assert(r@[r@.len() - 1]@ == self.peers.key_at(j));
                        }
                    }
                }
            }
            i = i + 1;
        }
        proof {
            self.peers.lemma_entries();
            let target = Set::new(
                |p: Seq<char>| self@.peers.contains_key(p) && self.filter_holds(f, self@.peers[p]),
            );
            let nm = names(r@);
            assert forall|a: int, b: int| 0 <= a < nm.len() && 0 <= b < nm.len() && a != b implies nm[a] != nm[b] by {
                assert(nm[a] == r@[a]@);
                assert(nm[b] == r@[b]@);
                assert(src[a] != src[b]);
                assert(self.peers.key_at(src[a]) != self.peers.key_at(src[b]));
            }
            assert forall|a: int| 0 <= a < nm.len() implies target.contains(#[trigger] nm[a]) by {
                assert(nm[a] == r@[a]@);
                let j = src[a];
                assert(self@.peers.contains_key(self.peers.key_at(j)));
                assert(self@.peers[self.peers.key_at(j)] == self.peers.value_at(j));
            }
            assert forall|k: Seq<char>| #[trigger] target.contains(k) implies exists|a: int| 0 <= a < nm.len() && nm[a] == k by {
                assert(self@.peers.contains_key(k));
                let j = choose|j: int| self.peers.holds_at(k, j);
                assert(self@.peers[self.peers.key_at(j)] == self.peers.value_at(j));
                assert(self.filter_holds(f, self.peers.value_at(j)));
                let a = choose|a: int| 0 <= a < r@.len() && r@[a]@ == self.peers.key_at(j);
                assert(nm[a] == k);
            }
        }
        r
    }

    /// A manager with no peers, users or names.
    pub fn new() -> (r: Self)
        ensures
            r.wf(),
            r@ == PeerManagerView::initial(),
    {
        PeerManager {
            peers: StrMap::new(),
            users: StrMap::new(),
            display_names: StrMap::new(),
            max_resolve_attempts: MAX_RESOLVE_ATTEMPTS,
            ping_timeout_ms: PING_TIMEOUT_MS,
        }
    }

    // ========================================================================
    // Peer lifecycle
    // ========================================================================
    /// Called when a new peer connection is reported.
    pub fn on_peer_connected(&mut self, peer_id: &str)
        requires
            old(self).wf(),
        ensures
            final(self).wf(),
            final(self)@ == old(self)@.peer_connected(peer_id@),
    {
        if !self.peers.contains_key(peer_id) {
            self.peers.insert(peer_id.to_owned(), PeerStatus::Resolving { attempts: 0 });
        }
    }

    /// Called when a peer disconnection is reported.
    pub fn on_peer_disconnected(&mut self, peer_id: &str)
        requires
            old(self).wf(),
        ensures
            final(self).wf(),
            final(self)@ == old(self)@.peer_disconnected(peer_id@),
    {
        // If this peer was resolved, update UserPresence
        let resolved_user: Option<String> = match self.peers.get(peer_id) {
            Some(PeerStatus::Resolved { user_id }) => Some(user_id.clone()),
            _ => None,
        };
        if let Some(uid) = resolved_user {
            let is_this_peer = match self.users.get(uid.as_str()) {
                Some(UserPresence::Connected { peer_id: pid }) => *pid == peer_id.to_owned(),
                _ => false,
            };
            if is_this_peer {
                self.users.insert(uid, UserPresence::InRoom);
            }
        }
        self.peers.remove(peer_id);
        assert(self@ == old(self)@.peer_disconnected(peer_id@));
    }

    /// Called when the user of a peer is resolved.
    pub fn on_peer_resolved(&mut self, peer_id: &str, user_id: &str)
        requires
            old(self).wf(),
        ensures
            final(self).wf(),
            final(self)@ == old(self)@.peer_resolved(peer_id@, user_id@),
    {
        self.peers.insert(peer_id.to_owned(), PeerStatus::Resolved { user_id: user_id.to_owned() });
        // Update user presence to Connected
        self.users.insert(user_id.to_owned(), UserPresence::Connected { peer_id: peer_id.to_owned() });
    }

    /// Called when resolving a peer failed.
    /// Returns `true` if the attempt limit is reached (the caller should send a ping).
    pub fn on_resolve_failed(&mut self, peer_id: &str) -> (r: bool)
        requires
            old(self).wf(),
            old(self)@.peers.contains_key(peer_id@) ==> match old(self)@.peers[peer_id@] {
                PeerStatusView::Resolving { attempts } => attempts < u32::MAX,
                _ => true,
            },
        ensures
            final(self).wf(),
            final(self)@ == old(self)@.resolve_failed(peer_id@),
            r == old(self)@.resolve_failed_reaches_limit(peer_id@),
    {
        match self.peers.get(peer_id) {
            Some(PeerStatus::Resolving { attempts }) => {
                let n = *attempts + 1;
                self.peers.insert(peer_id.to_owned(), PeerStatus::Resolving { attempts: n });
                n >= self.max_resolve_attempts
            },
            _ => false,
        }
    }

    /// Called after sending a liveness ping to a peer.
    pub fn on_ping_sent(&mut self, peer_id: &str, now_ms: u64)
        requires
            old(self).wf(),
            old(self)@.peers.contains_key(peer_id@) ==> match old(self)@.peers[peer_id@] {
                PeerStatusView::PingSent { attempts, .. } => attempts < u32::MAX,
                _ => true,
            },
        ensures
            final(self).wf(),
            final(self)@ == old(self)@.ping_sent(peer_id@, now_ms),
    {
        let attempts: Option<u32> = match self.peers.get(peer_id) {
            Some(PeerStatus::PingSent { attempts, .. }) => Some(*attempts + 1),
            Some(_) => Some(1),
            None => None,
        };
        if let Some(attempts) = attempts {
            self.peers.insert(
                peer_id.to_owned(),
                PeerStatus::PingSent { sent_at_ms: now_ms, attempts },
            );
        }
    }

    /// Called when a pong is received from a peer.
    /// Resets the peer to `Resolving { attempts: 0 }` so resolving is retried.
    pub fn on_pong_received(&mut self, peer_id: &str)
        requires
            old(self).wf(),
        ensures
            final(self).wf(),
            final(self)@ == old(self)@.pong_received(peer_id@),
    {
        if self.peers.contains_key(peer_id) {
            self.peers.insert(peer_id.to_owned(), PeerStatus::Resolving { attempts: 0 });
        }
    }

    /// Marks every peer whose ping expired as stale, and returns their ids.
    pub fn check_ping_timeouts(&mut self, now_ms: u64) -> (r: Vec<String>)
        requires
            old(self).wf(),
        ensures
            final(self).wf(),
            final(self)@ == old(self)@.ping_timeouts_checked(now_ms),
            enumerates(names(r@), old(self)@.timed_out_peers(now_ms)),
    {
        let stale = self.peers_where(PeerFilter::TimedOut { now: now_ms });
        proof {
            assert(Set::new(
                |p: Seq<char>|
                    self@.peers.contains_key(p) && self.filter_holds(
                        PeerFilter::TimedOut { now: now_ms },
                        self@.peers[p],
                    ),
            ) =~= old(self)@.timed_out_peers(now_ms));
        }
        let n = stale.len();
        let mut i: usize = 0;
        while i < n
            invariant
                n == stale@.len(),
                i <= n,
                self.wf(),
                enumerates(names(stale@), old(self)@.timed_out_peers(now_ms)),
                self@ == (PeerManagerView { peers: self@.peers, ..old(self)@ }),
                forall|k: Seq<char>| #[trigger]
                    self@.peers.contains_key(k) == old(self)@.peers.contains_key(k),
                forall|k: Seq<char>|
                    #[trigger] self@.peers.contains_key(k) ==> self@.peers[k] == if names(
                        stale@,
                    ).take(i as int).contains(k) {
                        PeerStatusView::Stale
                    } else {
                        old(self)@.peers[k]
                    },
            decreases n - i,
        {
            let k = stale[i].clone();
            proof {
                assert(names(stale@)[i as int] == k@);
                assert(old(self)@.timed_out_peers(now_ms).contains(k@));
            }
            self.peers.insert(k, PeerStatus::Stale);
            proof {
                lemma_take_one_more(names(stale@), i as int);
            }
            i = i + 1;
        }
        proof {
            assert(names(stale@).take(n as int) =~= names(stale@));
            let expect = old(self)@.ping_timeouts_checked(now_ms).peers;
            assert forall|k: Seq<char>| #[trigger] self@.peers.contains_key(k) implies self@.peers[k]
                == expect[k] by {
                if names(stale@).contains(k) {
                    let a = choose|a: int| 0 <= a < names(stale@).len() && names(stale@)[a] == k;
                    assert(old(self)@.timed_out_peers(now_ms).contains(names(stale@)[a]));
                } else {
                    if old(self)@.timed_out(old(self)@.peers[k], now_ms) {
                        assert(old(self)@.timed_out_peers(now_ms).contains(k));
                    }
                }
            }
            assert(self@.peers =~= expect);
        }
        stale
    }

    // ========================================================================
    // Room users (authoritative)
    // ========================================================================
    /// Replaces the user list with the authoritative list `user_ids`.
    pub fn update_room_users(&mut self, user_ids: Vec<String>)
        requires
            old(self).wf(),
        ensures
            final(self).wf(),
            final(self)@ == old(self)@.room_users_updated(names(user_ids@)),
    {
        // Remove users no longer in the room
        let current = self.users.keys();
        let n = current.len();
        let mut i: usize = 0;
        while i < n
            invariant
                n == current@.len(),
                i <= n,
                self.wf(),
                enumerates(names(current@), old(self)@.users.dom()),
                self@ == (PeerManagerView { users: self@.users, ..old(self)@ }),
                forall|k: Seq<char>| #[trigger]
                    self@.users.contains_key(k) == (old(self)@.users.contains_key(k) && (
                    names(user_ids@).contains(k) || !names(current@).take(i as int).contains(k))),
                forall|k: Seq<char>| #[trigger]
                    self@.users.contains_key(k) ==> self@.users[k] == old(self)@.users[k],
            decreases n - i,
        {
            let keep = contains_string(&user_ids, &current[i]);
            if !keep {
                self.users.remove(current[i].as_str());
            }
            proof {
                assert(names(current@)[i as int] == current@[i as int]@);
                lemma_take_one_more(names(current@), i as int);
            }
            i = i + 1;
        }
        proof {
            assert(names(current@).take(n as int) =~= names(current@));
        }
        // Add new users (preserving existing Connected state)
        let m = user_ids.len();
        let mut j: usize = 0;
        while j < m
            invariant
                m == user_ids@.len(),
                j <= m,
                self.wf(),
                self@ == (PeerManagerView { users: self@.users, ..old(self)@ }),
                forall|k: Seq<char>| #[trigger]
                    self@.users.contains_key(k) == ((old(self)@.users.contains_key(k) && names(
                    user_ids@).contains(k)) || names(user_ids@).take(j as int).contains(k)),
                forall|k: Seq<char>| #[trigger]
                    self@.users.contains_key(k) ==> self@.users[k] == if old(
                        self,
                    )@.users.contains_key(k) {
                        old(self)@.users[k]
                    } else {
                        UserPresenceView::InRoom
                    },
            decreases m - j,
        {
            proof {
                assert(names(user_ids@)[j as int] == user_ids@[j as int]@);
                lemma_take_one_more(names(user_ids@), j as int);
            }
            if !self.users.contains_key(user_ids[j].as_str()) {
                self.users.insert(user_ids[j].clone(), UserPresence::InRoom);
                proof {
                    if old(self)@.users.contains_key(user_ids@[j as int]@) {
                        assert(names(user_ids@).contains(user_ids@[j as int]@));
                    }
                }
            } else {
                proof {
                    if !old(self)@.users.contains_key(user_ids@[j as int]@) {
                        assert(names(user_ids@).take(j as int).contains(user_ids@[j as int]@));
                    }
                }
            }
            j = j + 1;
        }
        proof {
            assert(names(user_ids@).take(m as int) =~= names(user_ids@));
            let expect = old(self)@.room_users_updated(names(user_ids@)).users;
            assert(self@.users =~= expect);
        }
    }

    // ========================================================================
    // Query methods
    // ========================================================================
    /// Peer ids that need resolution (status `Resolving`).
    pub fn unresolved_peer_ids(&self) -> (r: Vec<String>)
        requires
            self.wf(),
        ensures
            enumerates(names(r@), self@.unresolved_peers()),
    {
        let r = self.peers_where(PeerFilter::Resolving);
        assert(Set::new(
            |p: Seq<char>|
                self@.peers.contains_key(p) && self.filter_holds(
                    PeerFilter::Resolving,
                    self@.peers[p],
                ),
        ) =~= self@.unresolved_peers());
        r
    }

    /// Peer ids that need a ping (resolve attempts used up, not yet pinged).
    pub fn peers_needing_ping(&self) -> (r: Vec<String>)
        requires
            self.wf(),
        ensures
            enumerates(names(r@), self@.peers_to_ping()),
    {
        let r = self.peers_where(PeerFilter::NeedsPing);
        assert(Set::new(
            |p: Seq<char>|
                self@.peers.contains_key(p) && self.filter_holds(
                    PeerFilter::NeedsPing,
                    self@.peers[p],
                ),
        ) =~= self@.peers_to_ping());
        r
    }

    /// User ids that have no display name yet.
    pub fn unresolved_user_ids(&self) -> (r: Vec<String>)
        requires
            self.wf(),
        ensures
            enumerates(names(r@), self@.unnamed_users()),
    {
        proof {
            self.users.lemma_entries();
        }
        let n = self.users.len();
        let mut r: Vec<String> = Vec::new();
        let mut i: usize = 0;
        while i < n
            invariant
                n == self.users.size(),
                i <= n,
                self.wf(),
                forall|a: int, b: int|
                    0 <= a < r@.len() && 0 <= b < r@.len() && a != b ==> r@[a]@ != r@[b]@,
                forall|a: int|
                    #![trigger r@[a]]
                    0 <= a < r@.len() ==> exists|j: int|
                        0 <= j < i && #[trigger] self.users.key_at(j) == r@[a]@
                            && !self@.display_names.contains_key(self.users.key_at(j)),
                forall|j: int|
                    0 <= j < i && !self@.display_names.contains_key(#[trigger] self.users.key_at(j))
                        ==> exists|a: int| 0 <= a < r@.len() && r@[a]@ == self.users.key_at(j),
            decreases n - i,
        {
            proof {
                self.users.lemma_entries();
            }
            if !self.display_names.contains_key(self.users.key(i).as_str()) {
                let k = self.users.key(i).clone();
                proof {
                    assert forall|a: int| 0 <= a < r@.len() implies r@[a]@ != k@ by {
                        let j = choose|j: int|
                            0 <= j < i && #[trigger] self.users.key_at(j) == r@[a]@
                                && !self@.display_names.contains_key(self.users.key_at(j));
                        assert(self.users.key_at(j) != self.users.key_at(i as int));
                    }
                }
                let ghost r_old = r@;
                r.push(k);
                proof {
                    assert forall|a: int|
                        #![trigger r@[a]]
                        0 <= a < r@.len() implies exists|j: int|
                            0 <= j < i + 1 && #[trigger] self.users.key_at(j) == r@[a]@
                                && !self@.display_names.contains_key(self.users.key_at(j)) by {
                        if a < r@.len() - 1 {
                            let j = choose|j: int|
                                0 <= j < i && #[trigger] self.users.key_at(j) == r@[a]@
                                    && !self@.display_names.contains_key(self.users.key_at(j));
                            assert(0 <= j < i + 1);
                        } else {
                            assert(self.users.key_at(i as int) == r@[a]@);
                        }
                    }
                    assert forall|j: int|
                        0 <= j < i + 1 && !self@.display_names.contains_key(#[trigger] self.users.key_at(j))
                            implies exists|a: int| 0 <= a < r@.len() && r@[a]@ == self.users.key_at(j) by {
                        if j < i {
                            let a = choose|a: int| 0 <= a < r_old.len() && r_old[a]@ == self.users.key_at(j);
                            assert(r@[a] == r_old[a]);
                        } else {
                            assert(r@[r@.len() - 1]@ == self.users.key_at(j));
                        }
                    }
                }
            }
            i = i + 1;
        }
        proof {
            self.users.lemma_entries();
            let target = self@.unnamed_users();
            let nm = names(r@);
            assert forall|a: int, b: int| 0 <= a < nm.len() && 0 <= b < nm.len() && a != b implies nm[a] != nm[b] by {
                assert(nm[a] == r@[a]@);
                assert(nm[b] == r@[b]@);
            }
            assert forall|a: int| 0 <= a < nm.len() implies target.contains(#[trigger] nm[a]) by {
                assert(nm[a] == r@[a]@);
                let j = choose|j: int|
                    0 <= j < n && #[trigger] self.users.key_at(j) == r@[a]@
                        && !self@.display_names.contains_key(self.users.key_at(j));
                assert(self@.users.contains_key(self.users.key_at(j)));
            }
            assert forall|k: Seq<char>| #[trigger] target.contains(k) implies exists|a: int| 0 <= a < nm.len() && nm[a] == k by {
                assert(self@.users.contains_key(k));
                let j = choose|j: int| self.users.holds_at(k, j);
                let a = choose|a: int| 0 <= a < r@.len() && r@[a]@ == self.users.key_at(j);
                assert(nm[a] == k);
            }
        }
        r
    }

    /// The user a peer is resolved to.
    pub fn peer_to_user(&self, peer_id: &str) -> (r: Option<String>)
        requires
            self.wf(),
        ensures
            match r {
                Some(u) => self@.user_of_peer(peer_id@) == Some(u@),
                None => self@.user_of_peer(peer_id@) is None,
            },
    {
        match self.peers.get(peer_id) {
            Some(PeerStatus::Resolved { user_id }) => Some(user_id.clone()),
            _ => None,
        }
    }

    /// The display name of a user.
    pub fn display_name(&self, user_id: &str) -> (r: Option<String>)
        requires
            self.wf(),
        ensures
            match r {
                Some(n) => self@.name_of_user(user_id@) == Some(n@),
                None => self@.name_of_user(user_id@) is None,
            },
    {
        match self.display_names.get(user_id) {
            Some(n) => Some(n.clone()),
            None => None,
        }
    }

    /// Records the display name of a user.
    pub fn set_display_name(&mut self, user_id: &str, name: String)
        requires
            old(self).wf(),
        ensures
            final(self).wf(),
            final(self)@ == old(self)@.display_name_set(user_id@, name@),
    {
        self.display_names.insert(user_id.to_owned(), name);
    }

    /// The authoritative room users.
    pub fn room_users(&self) -> (r: &StrMap<UserPresence>)
        requires
            self.wf(),
        ensures
            r.wf(),
            r@ == self@.users,
    {
        &self.users
    }

    /// The status of a peer.
    pub fn peer_status(&self, peer_id: &str) -> (r: Option<&PeerStatus>)
        requires
            self.wf(),
        ensures
            match r {
                Some(s) => self@.peers.contains_key(peer_id@) && s@ == self@.peers[peer_id@],
                None => !self@.peers.contains_key(peer_id@),
            },
    {
        self.peers.get(peer_id)
    }

    /// Forgets every peer, user and name (e.g. when leaving a room).
    pub fn reset(&mut self)
        requires
            old(self).wf(),
        ensures
            final(self).wf(),
            final(self)@ == old(self)@.cleared(),
    {
        self.peers.clear();
        self.users.clear();
        self.display_names.clear();
    }

    /// All tracked peer ids.
    pub fn all_peer_ids(&self) -> (r: Vec<String>)
        requires
            self.wf(),
        ensures
            enumerates(names(r@), self@.peers.dom()),
    {
        self.peers.keys()
    }
}

impl Default for PeerManager {
    fn default() -> (r: Self)
        ensures
            r.wf(),
            r@ == PeerManagerView::initial(),
    {
        Self::new()
    }
}

// ============================================================================
// Laws
// ============================================================================
/// `n` consecutive failed resolves of `p`.
pub open spec fn failed_times(m: PeerManagerView, p: Seq<char>, n: nat) -> PeerManagerView
    decreases n,
{
    if n == 0 {
        m
    } else {
        failed_times(m, p, (n - 1) as nat).resolve_failed(p)
    }
}

/// A newly connected peer is resolving with no failed attempt, and reporting the connection
/// again changes nothing.
pub proof fn law_connect_idempotent(m: PeerManagerView, p: Seq<char>)
    ensures
        m.peer_connected(p).peers.contains_key(p),
        !m.peers.contains_key(p) ==> m.peer_connected(p).peers[p] == (PeerStatusView::Resolving {
            attempts: 0,
        }),
        m.peer_connected(p).peer_connected(p) == m.peer_connected(p),
{
}

/// After a peer is resolved to a user, the peer maps to that user and the user is connected
/// through that peer.
pub proof fn law_resolved_peer_maps_to_user(m: PeerManagerView, p: Seq<char>, u: Seq<char>)
    ensures
        m.peer_resolved(p, u).user_of_peer(p) == Some(u),
        m.peer_resolved(p, u).users[u] == (UserPresenceView::Connected { peer_id: p }),
        !m.peer_resolved(p, u).unresolved_peers().contains(p),
{
}

/// When a resolved peer disconnects, it is forgotten and its user stays in the room without a
/// connection.
pub proof fn law_disconnect_after_resolve(m: PeerManagerView, p: Seq<char>, u: Seq<char>)
    ensures
        !m.peer_resolved(p, u).peer_disconnected(p).peers.contains_key(p),
        m.peer_resolved(p, u).peer_disconnected(p).user_of_peer(p) is None,
        m.peer_resolved(p, u).peer_disconnected(p).users.contains_key(u),
        m.peer_resolved(p, u).peer_disconnected(p).users[u] == UserPresenceView::InRoom,
{
    let m1 = m.peer_resolved(p, u);
    assert(m1.peers[p] == (PeerStatusView::Resolved { user_id: u }));
    assert(m1.users[u] == (UserPresenceView::Connected { peer_id: p }));
}

/// Disconnecting a peer that is not tracked changes nothing.
pub proof fn law_disconnect_unknown(m: PeerManagerView, p: Seq<char>)
    requires
        !m.peers.contains_key(p),
    ensures
        m.peer_disconnected(p) == m,
{
    assert(m.peers.remove(p) =~= m.peers);
}

/// Counting failures of a freshly connected peer: after `n` failures it is resolving with `n`
/// attempts.
pub proof fn lemma_failed_times(m: PeerManagerView, p: Seq<char>, n: nat)
    requires
        !m.peers.contains_key(p),
        n < u32::MAX,
    ensures
        failed_times(m.peer_connected(p), p, n).peers.contains_key(p),
        failed_times(m.peer_connected(p), p, n).peers[p] == (PeerStatusView::Resolving {
            attempts: n as u32,
        }),
        failed_times(m.peer_connected(p), p, n).max_resolve_attempts == m.max_resolve_attempts,
    decreases n,
{
    if n > 0 {
        lemma_failed_times(m, p, (n - 1) as nat);
    }
}

/// With the default limit, the first four failed resolves of a newly connected peer do not ask
/// for a ping, the fifth does, and the peer is then among those needing a ping.
pub proof fn law_fifth_failure_triggers_ping(p: Seq<char>)
    ensures
        forall|n: nat|
            n < 4 ==> !#[trigger] failed_times(
                PeerManagerView::initial().peer_connected(p),
                p,
                n,
            ).resolve_failed_reaches_limit(p),
        failed_times(PeerManagerView::initial().peer_connected(p), p, 4).resolve_failed_reaches_limit(p),
        failed_times(PeerManagerView::initial().peer_connected(p), p, 5).peers_to_ping().contains(p),
{
    let m = PeerManagerView::initial();
    assert forall|n: nat|
        n < 4 implies !#[trigger] failed_times(m.peer_connected(p), p, n).resolve_failed_reaches_limit(
            p,
        ) by {
        lemma_failed_times(m, p, n);
    }
    lemma_failed_times(m, p, 4);
    lemma_failed_times(m, p, 5);
}

/// Peers that need a ping are among the peers still being resolved.
pub proof fn law_ping_candidates_are_unresolved(m: PeerManagerView)
    ensures
        m.peers_to_ping().subset_of(m.unresolved_peers()),
{
}

/// A pong after a ping puts a known peer back to resolving from scratch.
pub proof fn law_pong_resets(m: PeerManagerView, p: Seq<char>, now: u64)
    requires
        m.peers.contains_key(p),
    ensures
        m.ping_sent(p, now).pong_received(p).peers[p] == (PeerStatusView::Resolving { attempts: 0 }),
        m.ping_sent(p, now).pong_received(p).unresolved_peers().contains(p),
{
}

/// A ping sent at `t` is not yet expired before `t + timeout`, and is expired from then on,
/// which makes the peer stale.
pub proof fn law_ping_expiry(m: PeerManagerView, p: Seq<char>, t: u64, now: u64)
    requires
        m.peers.contains_key(p),
        m.peers[p] !is PingSent || (m.peers[p] matches PeerStatusView::PingSent { attempts, .. } && attempts < u32::MAX),
    ensures
        m.ping_sent(p, t).timed_out_peers(now).contains(p) <==> now - t >= m.ping_timeout_ms,
        now - t >= m.ping_timeout_ms ==> m.ping_sent(p, t).ping_timeouts_checked(now).peers[p]
            == PeerStatusView::Stale,
        now - t < m.ping_timeout_ms ==> m.ping_sent(p, t).ping_timeouts_checked(now).peers[p]
            == m.ping_sent(p, t).peers[p],
{
}

/// Checking timeouts twice at the same time reports nothing new the second time.
pub proof fn law_timeouts_settle(m: PeerManagerView, now: u64)
    ensures
        m.ping_timeouts_checked(now).timed_out_peers(now) == Set::<Seq<char>>::empty(),
{
    assert(m.ping_timeouts_checked(now).timed_out_peers(now) =~= Set::<Seq<char>>::empty());
}

/// After an update the room users are exactly the given ids, and a user that stays keeps its
/// presence.
pub proof fn law_room_users_follow_list(m: PeerManagerView, ids: Seq<Seq<char>>, u: Seq<char>)
    ensures
        m.room_users_updated(ids).users.contains_key(u) <==> ids.contains(u),
        ids.contains(u) && m.users.contains_key(u) ==> m.room_users_updated(ids).users[u]
            == m.users[u],
        ids.contains(u) && !m.users.contains_key(u) ==> m.room_users_updated(ids).users[u]
            == UserPresenceView::InRoom,
{
}

/// After a reset nothing is tracked.
pub proof fn law_reset_forgets_everything(m: PeerManagerView, p: Seq<char>, u: Seq<char>)
    ensures
        m.cleared().user_of_peer(p) is None,
        m.cleared().name_of_user(u) is None,
        m.cleared().unresolved_peers() == Set::<Seq<char>>::empty(),
        m.cleared().unnamed_users() == Set::<Seq<char>>::empty(),
{
    assert(m.cleared().unresolved_peers() =~= Set::<Seq<char>>::empty());
    assert(m.cleared().unnamed_users() =~= Set::<Seq<char>>::empty());
}

/// A recorded display name is what the lookup gives back, and the user no longer lacks one.
pub proof fn law_display_name_roundtrip(m: PeerManagerView, u: Seq<char>, name: Seq<char>)
    ensures
        m.display_name_set(u, name).name_of_user(u) == Some(name),
        !m.display_name_set(u, name).unnamed_users().contains(u),
{
}

/// Taking one more element of a sequence adds exactly that element.
proof fn lemma_take_one_more(s: Seq<Seq<char>>, i: int)
    requires
        0 <= i < s.len(),
    ensures
        forall|k: Seq<char>| #[trigger] s.take(i + 1).contains(k) <==> (s.take(i).contains(k) || s[i] == k),
{
    let t1 = s.take(i + 1);
    let t0 = s.take(i);
    assert(t1 =~= t0.push(s[i]));
    assert forall|k: Seq<char>| #[trigger] t1.contains(k) <==> (t0.contains(k) || s[i] == k) by {
        if t1.contains(k) {
            let a = choose|a: int| 0 <= a < t1.len() && t1[a] == k;
            if a < i {
                assert(t0[a] == k);
            }
        }
        if t0.contains(k) {
            let a = choose|a: int| 0 <= a < t0.len() && t0[a] == k;
            assert(t1[a] == k);
        }
        if s[i] == k {
            assert(t1[i] == k);
        }
    }
}

/// Whether `s` occurs in `v`.
pub fn contains_string(v: &Vec<String>, s: &String) -> (r: bool)
    ensures
        r == names(v@).contains(s@),
{
    let n = v.len();
    let mut i: usize = 0;
    while i < n
        invariant
            n == v@.len(),
            i <= n,
            forall|j: int| 0 <= j < i ==> v@[j]@ != s@,
        decreases n - i,
    {
        if v[i] == *s {
            assert(names(v@)[i as int] == s@);
            return true;
        }
        i = i + 1;
    }
    proof {
        if names(v@).contains(s@) {
            let j = choose|j: int| 0 <= j < names(v@).len() && names(v@)[j] == s@;
            assert(v@[j]@ == s@);
        }
    }
    false
}

/// A well-formed manager counts against the fixed limits: [`MAX_RESOLVE_ATTEMPTS`] failed
/// resolves before a ping, and a [`PING_TIMEOUT_MS`] ping timeout.
pub proof fn law_limits_fixed(m: PeerManager)
    requires
        m.wf(),
    ensures
        m@.max_resolve_attempts == MAX_RESOLVE_ATTEMPTS,
        m@.ping_timeout_ms == PING_TIMEOUT_MS,
{
}

/// How good a round-trip time is, for its colour.
#[derive(Debug, Clone, Copy, PartialEq, Eq, Structural)]
pub enum RttQuality {
    /// Below 50 ms
    Good,
    /// From 50 ms to below 100 ms
    Medium,
    /// 100 ms or more
    Bad,
}

/// The quality of a round-trip time of `rtt_ms` milliseconds.
pub fn rtt_quality(rtt_ms: u32) -> (r: RttQuality)
    ensures
        r == if rtt_ms < 50 {
            RttQuality::Good
        } else if rtt_ms < 100 {
            RttQuality::Medium
        } else {
            RttQuality::Bad
        },
{
    if rtt_ms < 50 {
        RttQuality::Good
    } else if rtt_ms < 100 {
        RttQuality::Medium
    } else {
        RttQuality::Bad
    }
}

} // verus!
