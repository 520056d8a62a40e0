//! Room session state of the room service.
//!
//! The room service joins and leaves rooms, registers this client's peer id, resolves the
//! peer ids of other players to user ids and user ids to display names, and keeps what the
//! server said about the game. The network calls run elsewhere; this module holds the state and
//! makes every decision: what to ask the server next, and what each reply changes.
use vstd::prelude::*;
use crate::str_map::{StrMap, names, enumerates};
use crate::token::{extract_user_id_from_token, token_user_of};
use vstd::string::StringExecFns;
use vstd::string::StrSliceExecFns;

verus! {

/// Server room state code of an ended game.
pub const SERVER_ROOM_ENDED: i32 = 3;

/// Room lifecycle state.
#[derive(Debug, Clone, PartialEq)]
pub enum RoomState {
    /// Not in any room.
    Idle,
    /// JoinRoom call in progress.
    Joining { room_id: String },
    /// Successfully joined: P2P ready.
    Active { room_id: String, signaling_url: String, is_host: bool },
    /// Error during join / create.
    Error { room_id: String, message: String },
}

/// Abstract value of a [`RoomState`].
pub enum RoomStateView {
    Idle,
    Joining { room_id: Seq<char> },
    Active { room_id: Seq<char>, signaling_url: Seq<char>, is_host: bool },
    Error { room_id: Seq<char>, message: Seq<char> },
}

impl View for RoomState {
    type V = RoomStateView;

    open spec fn view(&self) -> RoomStateView {
        match self {
            RoomState::Idle => RoomStateView::Idle,
            RoomState::Joining { room_id } => RoomStateView::Joining { room_id: room_id@ },
            RoomState::Active { room_id, signaling_url, is_host } => RoomStateView::Active {
                room_id: room_id@,
                signaling_url: signaling_url@,
                is_host: *is_host,
            },
            RoomState::Error { room_id, message } => RoomStateView::Error {
                room_id: room_id@,
                message: message@,
            },
        }
    }
}

impl RoomState {
    /// A copy of the state.
    pub fn duplicate(&self) -> (r: RoomState)
        ensures
            r@ == self@,
    {
        match self {
            RoomState::Idle => RoomState::Idle,
            RoomState::Joining { room_id } => RoomState::Joining { room_id: room_id.clone() },
            RoomState::Active { room_id, signaling_url, is_host } => RoomState::Active {
                room_id: room_id.clone(),
                signaling_url: signaling_url.clone(),
                is_host: *is_host,
            },
            RoomState::Error { room_id, message } => RoomState::Error {
                room_id: room_id.clone(),
                message: message.clone(),
            },
        }
    }
}

/// One player's result as the server reports it.
#[derive(Debug, Clone, PartialEq)]
pub struct PlayerResult {
    pub user_id: String,
    pub rank: u32,
}

/// Abstract value of a [`PlayerResult`].
pub struct PlayerResultView {
    pub user_id: Seq<char>,
    pub rank: u32,
}

impl View for PlayerResult {
    type V = PlayerResultView;

    open spec fn view(&self) -> PlayerResultView {
        PlayerResultView { user_id: self.user_id@, rank: self.rank }
    }
}

/// What the JoinRoom reply says about the room joined.
#[derive(Debug, Clone)]
pub struct JoinedRoom {
    /// User id of the room's host
    pub host_user_id: String,
    /// Server room state code
    pub state: i32,
    /// Results of the game state, when the reply has one
    pub results: Option<Vec<PlayerResult>>,
}

/// A successful JoinRoom reply.
#[derive(Debug, Clone)]
pub struct JoinReply {
    /// Signaling URL of the topology, when the reply has one
    pub signaling_url: Option<String>,
    /// The room, when the reply has one
    pub room: Option<JoinedRoom>,
}

/// The views of a list of results.
pub open spec fn results_view(v: Seq<PlayerResult>) -> Seq<PlayerResultView> {
    v.map_values(|r: PlayerResult| r@)
}

/// The characters of an optional string.
pub open spec fn opt_chars(o: Option<String>) -> Option<Seq<char>> {
    match o {
        Some(s) => Some(s@),
        None => None,
    }
}

/// The views of a list of string pairs.
pub open spec fn pairs_view(v: Seq<(String, String)>) -> Seq<(Seq<char>, Seq<char>)> {
    v.map_values(|p: (String, String)| (p.0@, p.1@))
}

/// The names of an optional list of strings.
pub open spec fn opt_names(o: Option<Vec<String>>) -> Option<Seq<Seq<char>>> {
    match o {
        Some(v) => Some(names(v@)),
        None => None,
    }
}

/// The views of an optional list of string pairs.
pub open spec fn opt_pairs(o: Option<Vec<(String, String)>>) -> Option<Seq<(Seq<char>, Seq<char>)>> {
    match o {
        Some(v) => Some(pairs_view(v@)),
        None => None,
    }
}

/// The map after storing each pair in order (a later pair wins).
pub open spec fn with_pairs(m: Map<Seq<char>, Seq<char>>, ps: Seq<(Seq<char>, Seq<char>)>) -> Map<
    Seq<char>,
    Seq<char>,
>
    decreases ps.len(),
{
    if ps.len() == 0 {
        m
    } else {
        with_pairs(m, ps.drop_last()).insert(ps.last().0, ps.last().1)
    }
}

/// Abstract state of a [`RoomSession`].
pub struct RoomSessionView {
    pub player_id: Seq<char>,
    pub auth_token: Option<Seq<char>>,
    pub login_display_name: Seq<char>,
    pub login_salt: Seq<char>,
    pub login_fingerprint: Seq<char>,
    pub room_state: RoomStateView,
    /// peer_id -> user_id
    pub peer_cache: Map<Seq<char>, Seq<char>>,
    pub resolve_in_flight: bool,
    /// user_id -> display name
    pub display_name_cache: Map<Seq<char>, Seq<char>>,
    pub get_users_in_flight: bool,
    pub peer_registered: bool,
    pub peer_register_confirmed: bool,
    pub register_in_flight: bool,
    pub last_peers_version: u64,
    pub server_room_state: Option<i32>,
    pub server_game_results: Seq<PlayerResultView>,
    pub server_game_ended: bool,
    /// The player id when the latest join began (what the join's reply is compared with)
    pub join_player_id: Seq<char>,
}

impl RoomSessionView {
    /// The state right after construction.
    pub open spec fn initial(player_id: Seq<char>) -> RoomSessionView {
        RoomSessionView {
            player_id,
            auth_token: None,
            login_display_name: Seq::empty(),
            login_salt: Seq::empty(),
            login_fingerprint: Seq::empty(),
            room_state: RoomStateView::Idle,
            peer_cache: Map::empty(),
            resolve_in_flight: false,
            display_name_cache: Map::empty(),
            get_users_in_flight: false,
            peer_registered: false,
            peer_register_confirmed: false,
            register_in_flight: false,
            last_peers_version: 0,
            server_room_state: None,
            server_game_results: Seq::empty(),
            server_game_ended: false,
            join_player_id: Seq::empty(),
        }
    }

    /// The session is in the active room `room_id`.
    pub open spec fn is_active_in(self, room_id: Seq<char>) -> bool {
        self.room_state matches RoomStateView::Active { room_id: id, .. } && id == room_id
    }

    /// The room joined, or being joined.
    pub open spec fn current_room(self) -> Option<Seq<char>> {
        match self.room_state {
            RoomStateView::Active { room_id, .. } => Some(room_id),
            RoomStateView::Joining { room_id } => Some(room_id),
            _ => None,
        }
    }

    /// The room joined.
    pub open spec fn active_room(self) -> Option<Seq<char>> {
        match self.room_state {
            RoomStateView::Active { room_id, .. } => Some(room_id),
            _ => None,
        }
    }

    /// Starting to join `room_id` (unless already active in it).
    pub open spec fn join_started(self, room_id: Seq<char>) -> RoomSessionView {
        if self.is_active_in(room_id) {
            self
        } else {
            RoomSessionView {
                room_state: RoomStateView::Joining { room_id },
                join_player_id: self.player_id,
                ..self
            }
        }
    }

    /// A join or create that failed.
    pub open spec fn join_failed(self, room_id: Seq<char>, message: Seq<char>) -> RoomSessionView {
        RoomSessionView { room_state: RoomStateView::Error { room_id, message }, ..self }
    }

    /// A join that succeeded: the room is active and the per-room state starts over.
    pub open spec fn join_succeeded(
        self,
        room_id: Seq<char>,
        signaling_url: Seq<char>,
        is_host: bool,
        server_state: i32,
        results: Seq<PlayerResultView>,
    ) -> RoomSessionView {
        RoomSessionView {
            room_state: RoomStateView::Active { room_id, signaling_url, is_host },
            peer_registered: false,
            peer_register_confirmed: false,
            register_in_flight: false,
            peer_cache: Map::empty(),
            get_users_in_flight: false,
            last_peers_version: 0,
            server_room_state: Some(server_state),
            server_game_results: results,
            server_game_ended: server_state == SERVER_ROOM_ENDED,
            ..self
        }
    }

    /// Leaving the room: idle, and the per-room state starts over.
    pub open spec fn left(self) -> RoomSessionView {
        RoomSessionView {
            room_state: RoomStateView::Idle,
            peer_cache: Map::empty(),
            get_users_in_flight: false,
            peer_registered: false,
            peer_register_confirmed: false,
            register_in_flight: false,
            resolve_in_flight: false,
            last_peers_version: 0,
            server_room_state: None,
            server_game_results: Seq::empty(),
            server_game_ended: false,
            ..self
        }
    }

    /// The user behind a peer: this client's own player for its own peer id, else the cache.
    pub open spec fn player_of_peer(self, peer_id: Seq<char>, my_peer_id: Seq<char>) -> Option<
        Seq<char>,
    > {
        if my_peer_id.len() > 0 && my_peer_id == peer_id {
            Some(self.player_id)
        } else if self.peer_cache.contains_key(peer_id) {
            Some(self.peer_cache[peer_id])
        } else {
            None
        }
    }

    /// The cached display name of a user.
    pub open spec fn name_of(self, user_id: Seq<char>) -> Option<Seq<char>> {
        if self.display_name_cache.contains_key(user_id) {
            Some(self.display_name_cache[user_id])
        } else {
            None
        }
    }

    /// A new token and the user id read from it: the token is kept, and so is the user id
    /// when there is one.
    pub open spec fn token_applied(
        self,
        token: Option<Seq<char>>,
        token_user: Option<Seq<char>>,
    ) -> RoomSessionView {
        RoomSessionView {
            auth_token: token,
            player_id: match (token, token_user) {
                (Some(_), Some(u)) => u,
                _ => self.player_id,
            },
            ..self
        }
    }

    /// A login that succeeded.
    pub open spec fn logged_in(self, token: Seq<char>, user_id: Seq<char>, display_name: Seq<char>) -> RoomSessionView {
        RoomSessionView {
            auth_token: Some(token),
            player_id: user_id,
            display_name_cache: if display_name.len() > 0 {
                self.display_name_cache.insert(user_id, display_name)
            } else {
                self.display_name_cache
            },
            ..self
        }
    }

    /// Users whose display name should be fetched: the users of resolved peers, this client's
    /// own user, and the users of the server's results, that have no cached name; empty ids
    /// are skipped for the own user and the results.
    pub open spec fn users_to_look_up(self) -> Set<Seq<char>> {
        Set::new(
            |u: Seq<char>|
                !self.display_name_cache.contains_key(u) && ((exists|p: Seq<char>|
                    #[trigger] self.peer_cache.contains_key(p) && self.peer_cache[p] == u) || (u
                    == self.player_id && u.len() > 0) || (u.len() > 0 && exists|i: int|
                    0 <= i < self.server_game_results.len()
                        && #[trigger] self.server_game_results[i].user_id == u)),
        )
    }

    /// Registration of this client's peer id is due: the room is active, the registration is
    /// neither confirmed nor in flight, and the peer id is known.
    pub open spec fn registration_due(self, my_peer_id: Seq<char>) -> bool {
        self.active_room() is Some && !self.peer_register_confirmed && !self.register_in_flight
            && my_peer_id.len() > 0
    }

    /// The registration finished; `confirmed` when the server maps the peer id back.
    pub open spec fn registration_finished(self, confirmed: bool) -> RoomSessionView {
        RoomSessionView {
            peer_registered: if confirmed {
                true
            } else {
                self.peer_registered
            },
            peer_register_confirmed: if confirmed {
                true
            } else {
                self.peer_register_confirmed
            },
            register_in_flight: false,
            ..self
        }
    }

    /// The peer list is looked at this tick: the room is active and the list version changed
    /// or no resolve is in flight.
    pub open spec fn resolution_checks(self, peers_version: u64) -> bool {
        self.active_room() is Some && (peers_version != self.last_peers_version
            || !self.resolve_in_flight)
    }

    /// The peers that a resolve would ask for, from the peer list if it was read.
    pub open spec fn resolution_wanted(
        self,
        bevy_peer_ids: Option<Seq<Seq<char>>>,
        my_peer_id: Seq<char>,
    ) -> Seq<Seq<char>> {
        match bevy_peer_ids {
            Some(ids) => self.peers_to_resolve(ids, my_peer_id),
            None => Seq::<Seq<char>>::empty(),
        }
    }

    /// A resolve request is sent this tick.
    pub open spec fn resolution_sends(
        self,
        peers_version: u64,
        bevy_peer_ids: Option<Seq<Seq<char>>>,
        my_peer_id: Seq<char>,
    ) -> bool {
        self.resolution_checks(peers_version) && !self.resolve_in_flight && self.resolution_wanted(
            bevy_peer_ids,
            my_peer_id,
        ).len() > 0
    }

    /// The state after the resolve decision of this tick.
    pub open spec fn resolution_started(
        self,
        peers_version: u64,
        bevy_peer_ids: Option<Seq<Seq<char>>>,
        my_peer_id: Seq<char>,
    ) -> RoomSessionView {
        RoomSessionView {
            last_peers_version: if self.resolution_checks(peers_version) {
                peers_version
            } else {
                self.last_peers_version
            },
            resolve_in_flight: if self.resolution_sends(peers_version, bevy_peer_ids, my_peer_id) {
                true
            } else {
                self.resolve_in_flight
            },
            ..self
        }
    }

    /// The resolve finished with the reply's `(peer_id, user_id)` pairs, if any.
    pub open spec fn resolution_finished(self, resolved: Option<Seq<(Seq<char>, Seq<char>)>>) -> RoomSessionView {
        RoomSessionView {
            peer_cache: match resolved {
                Some(ps) => with_pairs(self.peer_cache, ps),
                None => self.peer_cache,
            },
            resolve_in_flight: false,
            ..self
        }
    }

    /// A display name lookup is due: none is in flight and some user needs a name.
    pub open spec fn lookup_due(self) -> bool {
        !self.get_users_in_flight && self.users_to_look_up() != Set::<Seq<char>>::empty()
    }

    /// The lookup finished with the reply's `(user_id, display_name)` pairs, if any.
    pub open spec fn lookup_finished(self, users: Option<Seq<(Seq<char>, Seq<char>)>>) -> RoomSessionView {
        RoomSessionView {
            display_name_cache: match users {
                Some(ps) => with_pairs(self.display_name_cache, ps),
                None => self.display_name_cache,
            },
            get_users_in_flight: false,
            ..self
        }
    }

    /// Peers from the peer list that still need a user: not this client's own peer, and not
    /// cached yet, in list order.
    pub open spec fn peers_to_resolve(self, bevy_peer_ids: Seq<Seq<char>>, my_peer_id: Seq<char>) -> Seq<
        Seq<char>,
    > {
        bevy_peer_ids.filter(self.resolve_candidate(my_peer_id))
    }

    /// A listed peer needs resolving: it is not this client's own peer and not cached.
    pub open spec fn resolve_candidate(self, my_peer_id: Seq<char>) -> spec_fn(Seq<char>) -> bool {
        |p: Seq<char>| p != my_peer_id && !self.peer_cache.contains_key(p)
    }
}

/// The short form of an id: its first eight characters (all of them when it is shorter).
pub open spec fn short_id(id: Seq<char>) -> Seq<char> {
    id.take(if id.len() < 8 {
        id.len() as int
    } else {
        8
    })
}

/// `prefix` followed by the first (at most eight) characters of `id`.
pub fn fallback_name(prefix: &str, id: &str) -> (r: String)
    ensures
        r@ == prefix@ + short_id(id@),
{
    let n = id.unicode_len();
    let k: usize = if n < 8 {
        n
    } else {
        8
    };
    let short = id.substring_char(0, k);
    let mut out = String::from_str(prefix);
    out.append(short);
    out
}

/// Decides whether to log in automatically: a non-empty user name and a fingerprint are known,
/// and there is no token yet.
pub fn should_auto_login(
    username: &Option<String>,
    fingerprint: &Option<String>,
    auth_token: &Option<String>,
) -> (r: bool)
    ensures
        r == (opt_chars(*username) matches Some(n) && n.len() > 0 && fingerprint.is_some()
            && auth_token.is_none()),
{
    match username {
        Some(n) => !n.as_str().is_empty() && fingerprint.is_some() && auth_token.is_none(),
        None => false,
    }
}

/// Room session state (the non-network part of the room service).
pub struct RoomSession {
    player_id: String,
    auth_token: Option<String>,
    login_display_name: String,
    login_salt: String,
    login_fingerprint: String,
    room_state: RoomState,
    peer_cache: StrMap<String>,
    resolve_in_flight: bool,
    display_name_cache: StrMap<String>,
    get_users_in_flight: bool,
    peer_registered: bool,
    peer_register_confirmed: bool,
    register_in_flight: bool,
    last_peers_version: u64,
    server_room_state: Option<i32>,
    server_game_results: Vec<PlayerResult>,
    server_game_ended: bool,
    join_player_id: String,
}

impl View for RoomSession {
    type V = RoomSessionView;

    closed spec fn view(&self) -> RoomSessionView {
        RoomSessionView {
            player_id: self.player_id@,
            auth_token: opt_chars(self.auth_token),
            login_display_name: self.login_display_name@,
            login_salt: self.login_salt@,
            login_fingerprint: self.login_fingerprint@,
            room_state: self.room_state@,
            peer_cache: self.peer_cache@,
            resolve_in_flight: self.resolve_in_flight,
            display_name_cache: self.display_name_cache@,
            get_users_in_flight: self.get_users_in_flight,
            peer_registered: self.peer_registered,
            peer_register_confirmed: self.peer_register_confirmed,
            register_in_flight: self.register_in_flight,
            last_peers_version: self.last_peers_version,
            server_room_state: self.server_room_state,
            server_game_results: results_view(self.server_game_results@),
            server_game_ended: self.server_game_ended,
            join_player_id: self.join_player_id@,
        }
    }
}

/// A copy of a list of results.
fn copy_results(v: &Vec<PlayerResult>) -> (r: Vec<PlayerResult>)
    ensures
        results_view(r@) == results_view(v@),
{
    let mut r: Vec<PlayerResult> = Vec::new();
    let n = v.len();
    let mut i: usize = 0;
    while i < n
        invariant
            n == v@.len(),
            i <= n,
            r@.len() == i,
            forall|j: int| 0 <= j < i ==> #[trigger] r@[j]@ == v@[j]@,
        decreases n - i,
    {
        r.push(PlayerResult { user_id: v[i].user_id.clone(), rank: v[i].rank });
        i = i + 1;
    }
    assert(results_view(r@) =~= results_view(v@));
    r
}

/// Stores each pair of `ps` in `m`, in order.
fn insert_pairs(m: &mut StrMap<String>, ps: &Vec<(String, String)>)
    requires
        old(m).wf(),
    ensures
        final(m).wf(),
        final(m)@ == with_pairs(old(m)@, pairs_view(ps@)),
{
    let n = ps.len();
    let mut i: usize = 0;
    while i < n
        invariant
            n == ps@.len(),
            i <= n,
            m.wf(),
            m@ == with_pairs(old(m)@, pairs_view(ps@).take(i as int)),
        decreases n - i,
    {
        m.insert(ps[i].0.clone(), ps[i].1.clone());
        proof {
            let t = pairs_view(ps@).take(i + 1);
            assert(t.drop_last() =~= pairs_view(ps@).take(i as int));
            assert(t.last() == (ps@[i as int].0@, ps@[i as int].1@));
        }
        i = i + 1;
    }
    assert(pairs_view(ps@).take(n as int) =~= pairs_view(ps@));
}

impl RoomSession {
    /// The caches are well formed.
    pub closed spec fn wf(self) -> bool {
        self.peer_cache.wf() && self.display_name_cache.wf()
    }

    /// A session for `player_id`, in no room.
    pub fn new(player_id: String) -> (r: Self)
        ensures
            r.wf(),
            r@ == RoomSessionView::initial(player_id@),
    {
        let r = RoomSession {
            player_id,
            auth_token: None,
            login_display_name: String::new(),
            login_salt: String::new(),
            login_fingerprint: String::new(),
            room_state: RoomState::Idle,
            peer_cache: StrMap::new(),
            resolve_in_flight: false,
            display_name_cache: StrMap::new(),
            get_users_in_flight: false,
            peer_registered: false,
            peer_register_confirmed: false,
            register_in_flight: false,
            last_peers_version: 0,
            server_room_state: None,
            server_game_results: Vec::new(),
            server_game_ended: false,
            join_player_id: String::new(),
        };
        assert(results_view(r.server_game_results@) =~= Seq::<PlayerResultView>::empty());
        r
    }

    // =======================================================================
    // Room lifecycle
    // =======================================================================
    /// Current room state.
    pub fn room_state(&self) -> (r: RoomState)
        ensures
            r@ == self@.room_state,
    {
        self.room_state.duplicate()
    }

    /// Starts joining `room_id`. Returns `false`, changing nothing, when already active in that
    /// room; otherwise the session is joining it and the caller sends the JoinRoom request.
    pub fn begin_join(&mut self, room_id: &str) -> (r: bool)
        requires
            old(self).wf(),
        ensures
            final(self).wf(),
            r == !old(self)@.is_active_in(room_id@),
            final(self)@ == old(self)@.join_started(room_id@),
    {
        let key = room_id.to_owned();
        let already = match &self.room_state {
            RoomState::Active { room_id: id, .. } => *id == key,
            _ => false,
        };
        if already {
            return false;
        }
        self.room_state = RoomState::Joining { room_id: key };
        self.join_player_id = self.player_id.clone();
        true
    }

    /// Starts creating a room; the room id is not known yet.
    pub fn begin_create(&mut self)
        requires
            old(self).wf(),
        ensures
            final(self).wf(),
            final(self)@ == (RoomSessionView {
                room_state: RoomStateView::Joining { room_id: Seq::empty() },
                ..old(self)@
            }),
    {
        self.room_state = RoomState::Joining { room_id: String::new() };
    }

    /// A join or create failed with `message`.
    pub fn fail_join(&mut self, room_id: String, message: String)
        requires
            old(self).wf(),
        ensures
            final(self).wf(),
            final(self)@ == old(self)@.join_failed(room_id@, message@),
    {
        self.room_state = RoomState::Error { room_id, message };
    }

    /// The gRPC client could not be created while joining `room_id`.
    pub fn fail_join_without_client(&mut self, room_id: String)
        requires
            old(self).wf(),
        ensures
            final(self).wf(),
            final(self)@ == old(self)@.join_failed(room_id@, "Failed to create gRPC client"@),
    {
        self.fail_join(room_id, String::from_str("Failed to create gRPC client"));
    }

    /// The successful JoinRoom reply for `room_id` arrived: the room is active, with the
    /// reply's signaling URL (empty without topology), hosted by this client exactly when the
    /// room's host is the player that began the join (before any re-login during it), and with the room's state (0 when the reply has no
    /// room) and game results (none without a game state).
    pub fn apply_join_reply(&mut self, room_id: String, reply: JoinReply)
        requires
            old(self).wf(),
        ensures
            final(self).wf(),
            final(self)@ == old(self)@.join_succeeded(
                room_id@,
                match reply.signaling_url {
                    Some(u) => u@,
                    None => Seq::empty(),
                },
                match reply.room {
                    Some(r) => r.host_user_id@ == old(self)@.join_player_id,
                    None => false,
                },
                match reply.room {
                    Some(r) => r.state,
                    None => 0,
                },
                match reply.room {
                    Some(r) => match r.results {
                        Some(v) => results_view(v@),
                        None => Seq::empty(),
                    },
                    None => Seq::empty(),
                },
            ),
    {
        let url = match reply.signaling_url {
            Some(u) => u,
            None => String::new(),
        };
        let (is_host, state, results) = match reply.room {
            Some(r) => {
                let host = r.host_user_id == self.join_player_id;
                let results = match r.results {
                    Some(v) => v,
                    None => Vec::new(),
                };
                (host, r.state, results)
            },
            None => (false, 0, Vec::new()),
        };
        proof {
            assert(results_view(Seq::<PlayerResult>::empty()) =~= Seq::<PlayerResultView>::empty());
        }
        self.complete_join(room_id, url, is_host, state, results);
    }

    /// The JoinRoom reply arrived: the room is active. `server_state` is the server's room
    /// state code and `results` its game results.
    pub fn complete_join(
        &mut self,
        room_id: String,
        signaling_url: String,
        is_host: bool,
        server_state: i32,
        results: Vec<PlayerResult>,
    )
        requires
            old(self).wf(),
        ensures
            final(self).wf(),
            final(self)@ == old(self)@.join_succeeded(
                room_id@,
                signaling_url@,
                is_host,
                server_state,
                results_view(results@),
            ),
    {
        let game_ended = server_state == SERVER_ROOM_ENDED;
        self.room_state = RoomState::Active { room_id, signaling_url, is_host };
        self.peer_registered = false;
        self.peer_register_confirmed = false;
        self.register_in_flight = false;
        self.peer_cache.clear();
        self.get_users_in_flight = false;
        self.last_peers_version = 0;
        self.server_room_state = Some(server_state);
        self.server_game_results = results;
        self.server_game_ended = game_ended;
    }

    /// Leave the current room. Resets to Idle.
    pub fn leave(&mut self)
        requires
            old(self).wf(),
        ensures
            final(self).wf(),
            final(self)@ == old(self)@.left(),
    {
        self.room_state = RoomState::Idle;
        self.peer_cache.clear();
        self.get_users_in_flight = false;
        self.peer_registered = false;
        self.peer_register_confirmed = false;
        self.register_in_flight = false;
        self.resolve_in_flight = false;
        self.last_peers_version = 0;
        self.server_room_state = None;
        self.server_game_results = Vec::new();
        self.server_game_ended = false;
        assert(results_view(self.server_game_results@) =~= Seq::<PlayerResultView>::empty());
    }

    // =======================================================================
    // Peer resolution (cache-based)
    // =======================================================================
    /// The player behind `peer_id`: this client's own player when it is this client's own
    /// (non-empty) peer id `my_peer_id`, else the cached user, else `None`.
    pub fn player_name(&self, peer_id: &str, my_peer_id: &str) -> (r: Option<String>)
        requires
            self.wf(),
        ensures
            opt_chars(r) == self@.player_of_peer(peer_id@, my_peer_id@),
    {
        if !my_peer_id.is_empty() && my_peer_id.to_owned() == peer_id.to_owned() {
            return Some(self.player_id.clone());
        }
        match self.peer_cache.get(peer_id) {
            Some(u) => Some(u.clone()),
            None => None,
        }
    }

    /// The cached display name of a user.
    pub fn display_name(&self, user_id: &str) -> (r: Option<String>)
        requires
            self.wf(),
        ensures
            opt_chars(r) == self@.name_of(user_id@),
    {
        match self.display_name_cache.get(user_id) {
            Some(n) => Some(n.clone()),
            None => None,
        }
    }

    /// The player behind `peer_id`, or `Peer-` and the first eight characters of the peer id.
    pub fn player_name_or_fallback(&self, peer_id: &str, my_peer_id: &str) -> (r: String)
        requires
            self.wf(),
        ensures
            r@ == match self@.player_of_peer(peer_id@, my_peer_id@) {
                Some(n) => n,
                None => "Peer-"@ + short_id(peer_id@),
            },
    {
        match self.player_name(peer_id, my_peer_id) {
            Some(n) => n,
            None => fallback_name("Peer-", peer_id),
        }
    }

    /// The cached display name of a user, or `User-` and the first eight characters of the
    /// user id.
    pub fn display_name_or_fallback(&self, user_id: &str) -> (r: String)
        requires
            self.wf(),
        ensures
            r@ == match self@.name_of(user_id@) {
                Some(n) => n,
                None => "User-"@ + short_id(user_id@),
            },
    {
        match self.display_name(user_id) {
            Some(n) => n,
            None => fallback_name("User-", user_id),
        }
    }

    // =======================================================================
    // Accessors
    // =======================================================================
    /// Current room id (if Active or Joining).
    pub fn room_id(&self) -> (r: Option<String>)
        ensures
            opt_chars(r) == self@.current_room(),
    {
        match &self.room_state {
            RoomState::Active { room_id, .. } => Some(room_id.clone()),
            RoomState::Joining { room_id } => Some(room_id.clone()),
            _ => None,
        }
    }

    /// Room id when Active: the room that game reports go to.
    pub fn active_room_id(&self) -> (r: Option<String>)
        ensures
            opt_chars(r) == self@.active_room(),
    {
        match &self.room_state {
            RoomState::Active { room_id, .. } => Some(room_id.clone()),
            _ => None,
        }
    }

    /// Local player id.
    pub fn player_id(&self) -> (r: String)
        ensures
            r@ == self@.player_id,
    {
        self.player_id.clone()
    }

    /// The current token.
    pub fn auth_token(&self) -> (r: Option<String>)
        ensures
            opt_chars(r) == self@.auth_token,
    {
        match &self.auth_token {
            Some(t) => Some(t.clone()),
            None => None,
        }
    }

    /// Signaling URL (Active only).
    pub fn signaling_url(&self) -> (r: Option<String>)
        ensures
            opt_chars(r) == match self@.room_state {
                RoomStateView::Active { signaling_url, .. } => Some(signaling_url),
                _ => None,
            },
    {
        match &self.room_state {
            RoomState::Active { signaling_url, .. } => Some(signaling_url.clone()),
            _ => None,
        }
    }

    /// Whether the local player hosts the active room.
    pub fn is_host(&self) -> (r: bool)
        ensures
            r == (self@.room_state matches RoomStateView::Active { is_host, .. } && is_host),
    {
        match &self.room_state {
            RoomState::Active { is_host, .. } => *is_host,
            _ => false,
        }
    }

    /// Server room state code (1 = waiting, 2 = playing, 3 = ended).
    pub fn server_room_state(&self) -> (r: Option<i32>)
        ensures
            r == self@.server_room_state,
    {
        self.server_room_state
    }

    /// Whether the game is known to have ended.
    pub fn is_game_ended(&self) -> (r: bool)
        ensures
            r == self@.server_game_ended,
    {
        self.server_game_ended
    }

    /// Game results (sorted by rank, as the server sends them).
    pub fn game_results(&self) -> (r: Vec<PlayerResult>)
        ensures
            results_view(r@) == self@.server_game_results,
    {
        copy_results(&self.server_game_results)
    }

    /// Marks the game as ended from client-side detection (e.g. all marbles arrived).
    pub fn set_game_ended(&mut self, results: Vec<PlayerResult>)
        requires
            old(self).wf(),
        ensures
            final(self).wf(),
            final(self)@ == (RoomSessionView {
                server_game_ended: true,
                server_game_results: results_view(results@),
                ..old(self)@
            }),
    {
        self.server_game_ended = true;
        self.server_game_results = results;
    }

    /// The reply to an arrival report: when the server reports the room ended (state 3), the
    /// game is ended with the server's results; any other reply changes nothing.
    pub fn record_arrival_reply(&mut self, server_state: Option<i32>, results: Vec<PlayerResult>) -> (r: bool)
        requires
            old(self).wf(),
        ensures
            final(self).wf(),
            r == (server_state == Some(SERVER_ROOM_ENDED)),
            r ==> final(self)@ == (RoomSessionView {
                server_game_ended: true,
                server_room_state: Some(SERVER_ROOM_ENDED),
                server_game_results: results_view(results@),
                ..old(self)@
            }),
            !r ==> final(self)@ == old(self)@,
    {
        match server_state {
            Some(s) => {
                if s == SERVER_ROOM_ENDED {
                    self.server_game_ended = true;
                    self.server_room_state = Some(SERVER_ROOM_ENDED);
                    self.server_game_results = results;
                    true
                } else {
                    false
                }
            },
            None => false,
        }
    }

    // =======================================================================
    // Authentication
    // =======================================================================
    /// Keeps `token`, and takes `token_user` (the user id read from the token) as the player id
    /// when both are present.
    pub fn apply_auth_token(&mut self, token: Option<String>, token_user: Option<String>)
        requires
            old(self).wf(),
        ensures
            final(self).wf(),
            final(self)@ == old(self)@.token_applied(opt_chars(token), opt_chars(token_user)),
    {
        match (&token, token_user) {
            (Some(_), Some(u)) => {
                self.player_id = u;
            },
            _ => {},
        }
        self.auth_token = token;
    }

    /// Keeps `token` and takes the user id it carries (see [`token_user_of`]) as the player id;
    /// without a token, or without a user id in it, the player id stays.
    pub fn set_auth_token(&mut self, token: Option<String>)
        requires
            old(self).wf(),
        ensures
            final(self).wf(),
            final(self)@ == old(self)@.token_applied(
                opt_chars(token),
                match token {
                    Some(t) => token_user_of(t@),
                    None => None,
                },
            ),
    {
        let token_user = match &token {
            Some(t) => extract_user_id_from_token(t.as_str()),
            None => None,
        };
        self.apply_auth_token(token, token_user);
    }

    /// The configured user name is the player id until a token exists.
    pub fn sync_config_player_id(&mut self, player_id: String)
        requires
            old(self).wf(),
        ensures
            final(self).wf(),
            final(self)@ == (RoomSessionView {
                player_id: if old(self)@.auth_token is None {
                    player_id@
                } else {
                    old(self)@.player_id
                },
                ..old(self)@
            }),
    {
        if self.auth_token.is_none() {
            self.player_id = player_id;
        }
    }

    /// Stores the credentials used to log in again when the token expires.
    pub fn set_login_credentials(&mut self, display_name: String, salt: String, fingerprint: String)
        requires
            old(self).wf(),
        ensures
            final(self).wf(),
            final(self)@ == (RoomSessionView {
                login_display_name: display_name@,
                login_salt: salt@,
                login_fingerprint: fingerprint@,
                ..old(self)@
            }),
    {
        self.login_display_name = display_name;
        self.login_salt = salt;
        self.login_fingerprint = fingerprint;
    }

    /// The credentials `(display_name, salt, fingerprint)` for logging in again, or `None`
    /// when the display name or the fingerprint is missing.
    pub fn relogin_credentials(&self) -> (r: Option<(String, String, String)>)
        ensures
            match r {
                Some(c) => self@.login_display_name.len() > 0 && self@.login_fingerprint.len() > 0
                    && c.0@ == self@.login_display_name && c.1@ == self@.login_salt && c.2@
                    == self@.login_fingerprint,
                None => self@.login_display_name.len() == 0 || self@.login_fingerprint.len() == 0,
            },
    {
        if self.login_display_name.as_str().is_empty() || self.login_fingerprint.as_str().is_empty() {
            return None;
        }
        Some(
            (
                self.login_display_name.clone(),
                self.login_salt.clone(),
                self.login_fingerprint.clone(),
            ),
        )
    }

    /// A login succeeded: keep the token and the user id, and cache the user's display name
    /// when it is not empty.
    pub fn complete_login(&mut self, token: String, user_id: String, display_name: String)
        requires
            old(self).wf(),
        ensures
            final(self).wf(),
            final(self)@ == old(self)@.logged_in(token@, user_id@, display_name@),
    {
        if !display_name.as_str().is_empty() {
            self.display_name_cache.insert(user_id.clone(), display_name);
        }
        self.auth_token = Some(token);
        self.player_id = user_id;
    }

    // =======================================================================
    // Polling decisions (run every tick while Active)
    // =======================================================================
    /// Decides whether to register this client's peer id now: the room is active, the
    /// registration is neither confirmed nor in flight, and the peer id is known. When it does,
    /// the registration is in flight.
    pub fn begin_peer_registration(&mut self, my_peer_id: &str) -> (r: bool)
        requires
            old(self).wf(),
        ensures
            final(self).wf(),
            r == old(self)@.registration_due(my_peer_id@),
            r ==> final(self)@ == (RoomSessionView { register_in_flight: true, ..old(self)@ }),
            !r ==> final(self)@ == old(self)@,
    {
        let active = match &self.room_state {
            RoomState::Active { .. } => true,
            _ => false,
        };
        if active && !self.peer_register_confirmed && !self.register_in_flight
            && !my_peer_id.is_empty() {
            self.register_in_flight = true;
            true
        } else {
            false
        }
    }

    /// The registration finished: `confirmed` when the server maps the peer id back to this
    /// client.
    pub fn finish_peer_registration(&mut self, confirmed: bool)
        requires
            old(self).wf(),
        ensures
            final(self).wf(),
            final(self)@ == old(self)@.registration_finished(confirmed),
    {
        if confirmed {
            self.peer_registered = true;
            self.peer_register_confirmed = true;
        }
        self.register_in_flight = false;
    }

    /// Decides which peers to resolve now, given the peer list version and the peer list
    /// (`None` when it could not be read).
    ///
    /// When the room is active and the version changed or no resolve is in flight, the version
    /// is recorded; then, if the list was read, no resolve is in flight and some listed peer is
    /// neither this client nor cached, those peers are returned and a resolve is in flight.
    pub fn begin_peer_resolution(
        &mut self,
        peers_version: u64,
        bevy_peer_ids: Option<Vec<String>>,
        my_peer_id: &str,
    ) -> (r: Option<Vec<String>>)
        requires
            old(self).wf(),
        ensures
            final(self).wf(),
            match r {
                Some(ids) => old(self)@.resolution_sends(
                    peers_version,
                    opt_names(bevy_peer_ids),
                    my_peer_id@,
                ) && names(ids@) == old(self)@.resolution_wanted(
                    opt_names(bevy_peer_ids),
                    my_peer_id@,
                ),
                None => !old(self)@.resolution_sends(
                    peers_version,
                    opt_names(bevy_peer_ids),
                    my_peer_id@,
                ),
            },
            final(self)@ == old(self)@.resolution_started(
                peers_version,
                opt_names(bevy_peer_ids),
                my_peer_id@,
            ),
    {
        let active = match &self.room_state {
            RoomState::Active { .. } => true,
            _ => false,
        };
        if !active {
            return None;
        }
        let resolve_in_flight = self.resolve_in_flight;
        if !(peers_version != self.last_peers_version || !resolve_in_flight) {
            return None;
        }
        self.last_peers_version = peers_version;
        let ids = match bevy_peer_ids {
            Some(ids) => ids,
            None => {
                return None;
            },
        };
        let ghost wanted = self@.peers_to_resolve(names(ids@), my_peer_id@);
        let me = my_peer_id.to_owned();
        let n = ids.len();
        let mut unresolved: Vec<String> = Vec::new();
        let mut i: usize = 0;
        while i < n
            invariant
                n == ids@.len(),
                i <= n,
                self.wf(),
                me@ == my_peer_id@,
                names(unresolved@) == names(ids@).take(i as int).filter(
                    self@.resolve_candidate(my_peer_id@),
                ),
            decreases n - i,
        {
            let keep = !(ids[i] == me) && !self.peer_cache.contains_key(ids[i].as_str());
            let ghost before = unresolved@;
            if keep {
                unresolved.push(ids[i].clone());
            }
            proof {
                let pred = self@.resolve_candidate(my_peer_id@);
                let t = names(ids@).take(i + 1);
                assert(t.drop_last() =~= names(ids@).take(i as int));
                assert(t.last() == ids@[i as int]@);
                reveal_with_fuel(Seq::<_>::filter, 1);
                assert(t.filter(pred) == if pred(t.last()) {
                    t.drop_last().filter(pred).push(t.last())
                } else {
                    t.drop_last().filter(pred)
                });
                assert(names(unresolved@) =~= t.filter(pred));
            }
            i = i + 1;
        }
        proof {
            assert(names(ids@).take(n as int) =~= names(ids@));
        }
        if unresolved.len() > 0 && !resolve_in_flight {
            self.resolve_in_flight = true;
            Some(unresolved)
        } else {
            None
        }
    }

    /// The resolve finished: each `(peer_id, user_id)` pair of the reply is cached (no reply:
    /// `None`), and no resolve is in flight. Returns whether the cache got new pairs.
    pub fn finish_peer_resolution(&mut self, resolved: Option<Vec<(String, String)>>) -> (r: bool)
        requires
            old(self).wf(),
        ensures
            final(self).wf(),
            r == (resolved matches Some(ps) && ps@.len() > 0),
            final(self)@ == old(self)@.resolution_finished(opt_pairs(resolved)),
    {
        let changed = match &resolved {
            Some(ps) => {
                insert_pairs(&mut self.peer_cache, ps);
                ps.len() > 0
            },
            None => false,
        };
        self.resolve_in_flight = false;
        changed
    }

    /// Decides which users' display names to fetch now. When no lookup is in flight and some
    /// user needs one (see [`RoomSessionView::users_to_look_up`]), they are returned and a
    /// lookup is in flight.
    pub fn begin_user_lookup(&mut self) -> (r: Option<Vec<String>>)
        requires
            old(self).wf(),
        ensures
            final(self).wf(),
            match r {
                Some(ids) => !old(self)@.get_users_in_flight && ids@.len() > 0 && names(
                    ids@,
                ).to_set() == old(self)@.users_to_look_up() && final(self)@ == (RoomSessionView {
                    get_users_in_flight: true,
                    ..old(self)@
                }),
                None => !old(self)@.lookup_due() && final(self)@ == old(self)@,
            },
    {
        if self.get_users_in_flight {
            return None;
        }
        let ids = self.collect_unnamed_users();
        if ids.len() > 0 {
            self.get_users_in_flight = true;
            Some(ids)
        } else {
            proof {
                assert(names(ids@).to_set() =~= Set::<Seq<char>>::empty());
            }
            None
        }
    }

    /// The users whose display name should be fetched.
    #[verifier::spinoff_prover]
    fn collect_unnamed_users(&self) -> (r: Vec<String>)
        requires
            self.wf(),
        ensures
            names(r@).to_set() == self@.users_to_look_up(),
    {
        proof {
            self.peer_cache.lemma_entries();
        }
        let mut ids: Vec<String> = Vec::new();
        // Users of resolved peers
        let n = self.peer_cache.len();
        let mut i: usize = 0;
        while i < n
            invariant
                n == self.peer_cache.size(),
                i <= n,
                self.wf(),
                forall|a: int|
                    0 <= a < ids@.len() ==> !self@.display_name_cache.contains_key(
                        #[trigger] ids@[a]@,
                    ) && exists|j: int| 0 <= j < i && self.peer_cache.value_at(j) == ids@[a]@,
                forall|j: int|
                    0 <= j < i && !self@.display_name_cache.contains_key(
                        #[trigger] self.peer_cache.value_at(j),
                    ) ==> names(ids@).contains(self.peer_cache.value_at(j)),
            decreases n - i,
        {
            let ghost before = ids@;
            let u = self.peer_cache.value(i);
            if !self.display_name_cache.contains_key(u.as_str()) {
                ids.push(u.clone());
                proof {
                    assert(ids@[ids@.len() - 1]@ == self.peer_cache.value_at(i as int));
                    assert(names(ids@)[ids@.len() - 1] == self.peer_cache.value_at(i as int));
                    assert forall|j: int|
                        0 <= j < i && !self@.display_name_cache.contains_key(
                            #[trigger] self.peer_cache.value_at(j),
                        ) implies names(ids@).contains(self.peer_cache.value_at(j)) by {
                        let a = choose|a: int|
                            0 <= a < names(before).len() && names(before)[a]
                                == self.peer_cache.value_at(j);
                        assert(names(ids@)[a] == names(before)[a]);
                    }
                    assert forall|a: int|
                        0 <= a < ids@.len() implies !self@.display_name_cache.contains_key(
                            #[trigger] ids@[a]@,
                        ) && exists|j: int|
                            0 <= j < i + 1 && self.peer_cache.value_at(j) == ids@[a]@ by {
                        if a < before.len() {
                            assert(ids@[a] == before[a]);
                        } else {
                            assert(self.peer_cache.value_at(i as int) == ids@[a]@);
                        }
                    }
                }
            }
            i = i + 1;
        }
        let ghost after_peers = ids@;
        proof {
            assert(i == n);
            assert forall|a: int| 0 <= a < after_peers.len() implies !self@.display_name_cache.contains_key(
                #[trigger] after_peers[a]@,
            ) && exists|j: int| 0 <= j < n && self.peer_cache.value_at(j) == after_peers[a]@ by {
                assert(after_peers[a] == ids@[a]);
            }
        }
        // This client's own user
        if !self.player_id.as_str().is_empty() && !self.display_name_cache.contains_key(
            self.player_id.as_str(),
        ) {
            ids.push(self.player_id.clone());
        }
        let ghost after_self = ids@;
        proof {
            assert(forall|a: int| 0 <= a < after_peers.len() ==> after_self[a] == after_peers[a]);
        }
        // Users of the server's results
        let m = self.server_game_results.len();
        let mut k: usize = 0;
        while k < m
            invariant
                m == self.server_game_results@.len(),
                k <= m,
                self.wf(),
                after_self.len() <= ids@.len(),
                forall|a: int| 0 <= a < after_self.len() ==> ids@[a] == after_self[a],
                after_peers.len() <= after_self.len() <= after_peers.len() + 1,
                forall|a: int| 0 <= a < after_peers.len() ==> after_self[a] == after_peers[a],
                after_self.len() > after_peers.len() ==> after_self[after_peers.len() as int]@
                    == self@.player_id && self@.player_id.len() > 0
                    && !self@.display_name_cache.contains_key(self@.player_id),
                after_self.len() == after_peers.len() ==> (self@.player_id.len() == 0
                    || self@.display_name_cache.contains_key(self@.player_id)),
                forall|a: int|
                    0 <= a < after_peers.len() ==> !self@.display_name_cache.contains_key(
                        #[trigger] after_peers[a]@,
                    ) && exists|j: int| 0 <= j < n && self.peer_cache.value_at(j) == after_peers[a]@,
                forall|j: int|
                    0 <= j < n && !self@.display_name_cache.contains_key(
                        #[trigger] self.peer_cache.value_at(j),
                    ) ==> names(after_peers).contains(self.peer_cache.value_at(j)),
                forall|a: int|
                    after_self.len() <= a < ids@.len() ==> (#[trigger] ids@[a]@).len() > 0
                        && !self@.display_name_cache.contains_key(ids@[a]@) && exists|j: int|
                        0 <= j < k && self.server_game_results@[j].user_id@ == ids@[a]@,
                forall|j: int|
                    0 <= j < k && (#[trigger] self.server_game_results@[j]).user_id@.len() > 0
                        && !self@.display_name_cache.contains_key(
                        self.server_game_results@[j].user_id@,
                    ) ==> names(ids@).contains(self.server_game_results@[j].user_id@),
            decreases m - k,
        {
            let ghost before = ids@;
            let uid = &self.server_game_results[k].user_id;
            if !uid.as_str().is_empty() && !self.display_name_cache.contains_key(uid.as_str())
                && !crate::peer_manager::contains_string(&ids, uid) {
                ids.push(uid.clone());
                proof {
                    assert(names(ids@)[ids@.len() - 1] == uid@);
                }
            }
            proof {
                assert forall|j: int|
                    0 <= j < k + 1 && (#[trigger] self.server_game_results@[j]).user_id@.len() > 0
                        && !self@.display_name_cache.contains_key(
                        self.server_game_results@[j].user_id@,
                    ) implies names(ids@).contains(self.server_game_results@[j].user_id@) by {
                    if j < k || names(before).contains(uid@) {
                        let x = self.server_game_results@[j].user_id@;
                        if j == k {
                            assert(x == uid@);
                        }
                        let a = choose|a: int| 0 <= a < names(before).len() && names(before)[a] == x;
                        assert(names(ids@)[a] == names(before)[a]);
                    } else {
                        assert(names(ids@)[ids@.len() - 1] == uid@);
                    }
                }
                assert forall|a: int|
                    after_self.len() <= a < ids@.len() implies (#[trigger] ids@[a]@).len() > 0
                        && !self@.display_name_cache.contains_key(ids@[a]@) && exists|j: int|
                        0 <= j < k + 1 && self.server_game_results@[j].user_id@ == ids@[a]@ by {
                    if a < before.len() {
                        assert(ids@[a] == before[a]);
                    } else {
                        assert(self.server_game_results@[k as int].user_id@ == ids@[a]@);
                    }
                }
            }
            k = k + 1;
        }
        proof {
            self.peer_cache.lemma_entries();
            let target = self@.users_to_look_up();
            let got = names(ids@).to_set();
            assert forall|u: Seq<char>| got.contains(u) <==> target.contains(u) by {
                if got.contains(u) {
                    let a = choose|a: int| 0 <= a < names(ids@).len() && names(ids@)[a] == u;
                    assert(ids@[a]@ == u);
                    if a < after_peers.len() {
                        assert(ids@[a] == after_peers[a]);
                        let j = choose|j: int| 0 <= j < n && self.peer_cache.value_at(j) == ids@[a]@;
                        assert(self@.peer_cache.contains_key(self.peer_cache.key_at(j)));
                        assert(self@.peer_cache[self.peer_cache.key_at(j)] == u);
                    } else if a < after_self.len() {
                        assert(ids@[a] == after_self[a]);
                    } else {
                        let j = choose|j: int|
                            0 <= j < m && self.server_game_results@[j].user_id@ == ids@[a]@;
                        assert(results_view(self.server_game_results@)[j].user_id == u);
                    }
                }
                if target.contains(u) {
                    if exists|p: Seq<char>|
                        #[trigger] self@.peer_cache.contains_key(p) && self@.peer_cache[p] == u {
                        let p = choose|p: Seq<char>|
                            #[trigger] self@.peer_cache.contains_key(p) && self@.peer_cache[p] == u;
                        let j = choose|j: int| self.peer_cache.holds_at(p, j);
                        assert(self@.peer_cache[self.peer_cache.key_at(j)] == self.peer_cache.value_at(j));
                        assert(names(after_peers).contains(u));
                        let a = choose|a: int| 0 <= a < names(after_peers).len() && names(after_peers)[a] == u;
                        assert(names(ids@)[a] == names(after_peers)[a]);
                    } else if u == self@.player_id && u.len() > 0 {
                        let a = after_peers.len() as int;
                        assert(after_self[a] == self.player_id);
                        assert(names(ids@)[a] == u);
                    } else {
                        let i0 = choose|i0: int|
                            0 <= i0 < self@.server_game_results.len()
                                && #[trigger] self@.server_game_results[i0].user_id == u;
                        assert(self.server_game_results@[i0].user_id@ == u);
                    }
                }
            }
            assert(got =~= target);
        }
        ids
    }

    /// The lookup finished: each `(user_id, display_name)` pair of the reply is cached (no
    /// reply: `None`), and no lookup is in flight. Returns whether a reply came.
    pub fn finish_user_lookup(&mut self, users: Option<Vec<(String, String)>>) -> (r: bool)
        requires
            old(self).wf(),
        ensures
            final(self).wf(),
            r == users is Some,
            final(self)@ == old(self)@.lookup_finished(opt_pairs(users)),
    {
        let got = match &users {
            Some(ps) => {
                insert_pairs(&mut self.display_name_cache, ps);
                true
            },
            None => false,
        };
        self.get_users_in_flight = false;
        got
    }
}

// ============================================================================
// Laws
// ============================================================================
/// Joining the room the session is already active in changes nothing; joining any other room
/// puts the session in Joining for that room.
pub proof fn law_join_same_room_is_noop(
    s: RoomSessionView,
    room_id: Seq<char>,
    url: Seq<char>,
    host: bool,
    state: i32,
    results: Seq<PlayerResultView>,
    other: Seq<char>,
)
    ensures
        s.join_succeeded(room_id, url, host, state, results).join_started(room_id)
            == s.join_succeeded(room_id, url, host, state, results),
        other != room_id ==> s.join_succeeded(room_id, url, host, state, results).join_started(
            other,
        ).current_room() == Some(other),
        !s.is_active_in(other) ==> s.join_started(other).room_state == (RoomStateView::Joining {
            room_id: other,
        }),
{
}

/// A successful join makes the room active, starts the room's peer state over, and marks the
/// game ended exactly when the server says the room ended.
pub proof fn law_join_success(
    s: RoomSessionView,
    room_id: Seq<char>,
    url: Seq<char>,
    host: bool,
    state: i32,
    results: Seq<PlayerResultView>,
)
    ensures
        s.join_succeeded(room_id, url, host, state, results).active_room() == Some(room_id),
        s.join_succeeded(room_id, url, host, state, results).server_game_ended == (state == 3),
        s.join_succeeded(room_id, url, host, state, results).peer_cache == Map::<
            Seq<char>,
            Seq<char>,
        >::empty(),
        !s.join_succeeded(room_id, url, host, state, results).peer_register_confirmed,
{
}

/// Leaving returns to Idle with no room, no cached peers and no game state; leaving twice is
/// the same as leaving once.
pub proof fn law_leave_resets(s: RoomSessionView)
    ensures
        s.left().current_room() is None,
        s.left().peer_cache == Map::<Seq<char>, Seq<char>>::empty(),
        !s.left().server_game_ended,
        s.left().server_room_state is None,
        s.left().left() == s.left(),
        s.left().player_id == s.player_id && s.left().display_name_cache == s.display_name_cache,
{
}

/// Once the peer id registration is confirmed it is never due again; while one is in flight
/// no second one starts.
pub proof fn law_registration_once(s: RoomSessionView, my_peer_id: Seq<char>, other: Seq<char>)
    ensures
        !s.registration_finished(true).registration_due(other),
        s.registration_due(my_peer_id) ==> !(RoomSessionView {
            register_in_flight: true,
            ..s
        }).registration_due(other),
        !s.registration_finished(false).peer_register_confirmed ==> !s.peer_register_confirmed,
{
}

/// At most one resolve is in flight: after a tick that sends one, no later tick sends another
/// until it finishes.
pub proof fn law_resolution_single_flight(
    s: RoomSessionView,
    v: u64,
    ids: Option<Seq<Seq<char>>>,
    my: Seq<char>,
    v2: u64,
    ids2: Option<Seq<Seq<char>>>,
    my2: Seq<char>,
)
    requires
        s.resolution_sends(v, ids, my),
    ensures
        !s.resolution_started(v, ids, my).resolution_sends(v2, ids2, my2),
        !s.resolution_started(v, ids, my).resolution_finished(None).resolve_in_flight,
{
}

/// A resolve never asks for this client's own peer id nor for a peer already cached.
pub proof fn law_resolution_skips_known(
    s: RoomSessionView,
    ids: Seq<Seq<char>>,
    my: Seq<char>,
    i: int,
)
    requires
        0 <= i < s.peers_to_resolve(ids, my).len(),
    ensures
        s.peers_to_resolve(ids, my)[i] != my,
        !s.peer_cache.contains_key(s.peers_to_resolve(ids, my)[i]),
{
    broadcast use vstd::seq_lib::group_filter_ensures;

    let pred = s.resolve_candidate(my);
    ids.lemma_filter_pred(pred, i);
    assert(pred(ids.filter(pred)[i]));
}

/// A peer resolved by the last pair of a reply maps to that pair's user (unless it is this
/// client's own peer id).
pub proof fn law_resolved_peer_named(
    s: RoomSessionView,
    ps: Seq<(Seq<char>, Seq<char>)>,
    p: Seq<char>,
    u: Seq<char>,
    my: Seq<char>,
)
    requires
        my.len() == 0 || my != p,
    ensures
        s.resolution_finished(Some(ps.push((p, u)))).player_of_peer(p, my) == Some(u),
{
    assert(ps.push((p, u)).drop_last() =~= ps);
}

/// At most one display name lookup is in flight, and a user whose name is cached is never
/// looked up.
pub proof fn law_lookup_single_flight(s: RoomSessionView, u: Seq<char>)
    ensures
        !(RoomSessionView { get_users_in_flight: true, ..s }).lookup_due(),
        s.display_name_cache.contains_key(u) ==> !s.users_to_look_up().contains(u),
        !s.lookup_finished(None).get_users_in_flight,
{
}

/// After a login the player is the logged-in user, and a non-empty display name is cached so
/// that the user is not looked up.
pub proof fn law_login_caches_own_name(s: RoomSessionView, t: Seq<char>, u: Seq<char>, dn: Seq<char>)
    requires
        dn.len() > 0,
    ensures
        s.logged_in(t, u, dn).player_id == u,
        s.logged_in(t, u, dn).auth_token == Some(t),
        s.logged_in(t, u, dn).name_of(u) == Some(dn),
        !s.logged_in(t, u, dn).users_to_look_up().contains(u),
{
}

/// The user read from a token becomes the player; without a token the player stays.
pub proof fn law_token_sets_player(s: RoomSessionView, t: Seq<char>, u: Seq<char>, x: Option<Seq<char>>)
    ensures
        s.token_applied(Some(t), Some(u)).player_id == u,
        s.token_applied(None, x).player_id == s.player_id,
        s.token_applied(Some(t), None).player_id == s.player_id,
{
}

} // verus!
