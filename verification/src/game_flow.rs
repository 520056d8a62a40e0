//! Game screen decisions: the phase of the game screen, the host's arrival reports, and the
//! reaction shortcuts and cooldown.
use vstd::prelude::*;
use crate::str_map::StrMap;

verus! {

/// Server room state code of an ended game.
pub const ROOM_ENDED: i32 = 3;

// ---------------------------------------------------------------------------
// Game phase
// ---------------------------------------------------------------------------
/// Phase of the game screen.
#[derive(Debug, Clone, Copy, PartialEq, Eq, Structural)]
pub enum GamePhase {
    InLobby,
    Playing,
    Ended,
}

/// Phase of the game screen, and whether the room had already ended when it was entered
/// (which is never forgotten).
#[derive(Debug, Clone, Copy)]
pub struct GameFlow {
    pub phase: GamePhase,
    pub entered_ended: bool,
}

/// The game flow after an event; `Some(3)` server states end the game.
pub open spec fn after_server_state(f: GameFlow, server_state: Option<i32>) -> GameFlow {
    if server_state == Some(ROOM_ENDED) {
        GameFlow { phase: GamePhase::Ended, entered_ended: true }
    } else {
        f
    }
}

/// Players appearing in a non-host's game mean the host started it, unless the room had
/// already ended when entered.
pub open spec fn after_players_changed(
    f: GameFlow,
    is_host: bool,
    initialized: bool,
    player_count: usize,
) -> GameFlow {
    if !f.entered_ended && !is_host && initialized && player_count > 0 {
        GameFlow { phase: GamePhase::Playing, ..f }
    } else {
        f
    }
}

impl GameFlow {
    /// The flow when the game screen opens: ended if the server says the room ended,
    /// otherwise in the lobby.
    pub fn new(server_state: Option<i32>) -> (r: Self)
        ensures
            r.entered_ended == (server_state == Some(ROOM_ENDED)),
            r.phase == if r.entered_ended {
                GamePhase::Ended
            } else {
                GamePhase::InLobby
            },
    {
        let ended = match server_state {
            Some(s) => s == ROOM_ENDED,
            None => false,
        };
        GameFlow {
            phase: if ended {
                GamePhase::Ended
            } else {
                GamePhase::InLobby
            },
            entered_ended: ended,
        }
    }

    /// The server room state changed (e.g. after reconnecting).
    pub fn server_state_changed(&mut self, server_state: Option<i32>)
        ensures
            *final(self) == after_server_state(*old(self), server_state),
    {
        match server_state {
            Some(s) => {
                if s == ROOM_ENDED {
                    self.entered_ended = true;
                    self.phase = GamePhase::Ended;
                }
            },
            None => {},
        }
    }

    /// The room service reports whether the game ended.
    pub fn game_ended_changed(&mut self, ended: bool)
        ensures
            final(self).entered_ended == old(self).entered_ended,
            final(self).phase == if ended {
                GamePhase::Ended
            } else {
                old(self).phase
            },
    {
        if ended {
            self.phase = GamePhase::Ended;
        }
    }

    /// Whether every player arrived changed.
    pub fn all_arrived_changed(&mut self, all_arrived: bool)
        ensures
            final(self).entered_ended == old(self).entered_ended,
            final(self).phase == if all_arrived {
                GamePhase::Ended
            } else {
                old(self).phase
            },
    {
        if all_arrived {
            self.phase = GamePhase::Ended;
        }
    }

    /// The game's player list changed.
    pub fn players_changed(&mut self, is_host: bool, initialized: bool, player_count: usize)
        ensures
            *final(self) == after_players_changed(*old(self), is_host, initialized, player_count),
    {
        // Skip if the room was already ended when entered
        if self.entered_ended {
            return;
        }
        if !is_host && initialized && player_count > 0 {
            self.phase = GamePhase::Playing;
        }
    }

    /// The host started the game.
    pub fn host_started(&mut self)
        ensures
            final(self).phase == GamePhase::Playing,
            final(self).entered_ended == old(self).entered_ended,
    {
        self.phase = GamePhase::Playing;
    }

    /// In the lobby.
    pub fn in_lobby(&self) -> (r: bool)
        ensures
            r == (self.phase == GamePhase::InLobby),
    {
        self.phase == GamePhase::InLobby
    }

    /// The game ended.
    pub fn in_ended(&self) -> (r: bool)
        ensures
            r == (self.phase == GamePhase::Ended),
    {
        self.phase == GamePhase::Ended
    }
}

/// Every player arrived: there is at least one player and none is still racing.
pub fn all_arrived(arrived: &Vec<bool>) -> (r: bool)
    ensures
        r == (arrived@.len() > 0 && forall|i: int| 0 <= i < arrived@.len() ==> arrived@[i]),
{
    if arrived.len() == 0 {
        return false;
    }
    let n = arrived.len();
    let mut i: usize = 0;
    while i < n
        invariant
            n == arrived@.len(),
            i <= n,
            forall|j: int| 0 <= j < i ==> arrived@[j],
        decreases n - i,
    {
        if !arrived[i] {
            return false;
        }
        i = i + 1;
    }
    true
}

/// Once the room was found ended on entry, the screen stays on the results whatever the
/// server state, the room service or the player list report.
pub proof fn law_entered_ended_stays_ended(
    f: GameFlow,
    s: Option<i32>,
    is_host: bool,
    initialized: bool,
    n: usize,
)
    requires
        f.entered_ended,
        f.phase == GamePhase::Ended,
    ensures
        after_server_state(f, s).phase == GamePhase::Ended,
        after_server_state(f, s).entered_ended,
        after_players_changed(f, is_host, initialized, n) == f,
{
}

/// A host never leaves the lobby because players appeared; only its own start does that.
pub proof fn law_host_not_started_by_players(f: GameFlow, initialized: bool, n: usize)
    ensures
        after_players_changed(f, true, initialized, n) == f,
{
}

// ---------------------------------------------------------------------------
// Arrival reports (host)
// ---------------------------------------------------------------------------
/// One arrival to report to the server.
#[derive(Debug, Clone, PartialEq)]
pub struct ArrivalReport {
    /// Player name in the game
    pub name: String,
    /// The player's user id, when known
    pub user_id: Option<String>,
    /// Frame of arrival (0 when unknown)
    pub frame: u64,
    /// Arrival rank (1-based, as a `u32`)
    pub rank: u32,
}

/// Abstract value of an [`ArrivalReport`].
pub struct ArrivalReportView {
    pub name: Seq<char>,
    pub user_id: Option<Seq<char>>,
    pub frame: u64,
    pub rank: int,
}

impl View for ArrivalReport {
    type V = ArrivalReportView;

    open spec fn view(&self) -> ArrivalReportView {
        ArrivalReportView {
            name: self.name@,
            user_id: match self.user_id {
                Some(u) => Some(u@),
                None => None,
            },
            frame: self.frame,
            rank: self.rank as int,
        }
    }
}

/// The reports for the arrived players `arrived` (name, frame), in order, when the names in
/// `done` were already reported: each name not yet reported gets the next rank.
pub open spec fn arrival_reports(
    done: Seq<Seq<char>>,
    arrived: Seq<(Seq<char>, Option<u64>)>,
    users: Map<Seq<char>, Seq<char>>,
) -> Seq<ArrivalReportView>
    decreases arrived.len(),
{
    if arrived.len() == 0 {
        Seq::empty()
    } else {
        let name = arrived[0].0;
        if done.contains(name) {
            arrival_reports(done, arrived.drop_first(), users)
        } else {
            seq![
                ArrivalReportView {
                    name,
                    user_id: if users.contains_key(name) {
                        Some(users[name])
                    } else {
                        None
                    },
                    frame: match arrived[0].1 {
                        Some(f) => f,
                        None => 0,
                    },
                    rank: ((done.len() + 1) as u32) as int,
                },
            ] + arrival_reports(done.push(name), arrived.drop_first(), users)
        }
    }
}

/// The reported names after reporting `arrived`.
pub open spec fn arrivals_done(done: Seq<Seq<char>>, arrived: Seq<(Seq<char>, Option<u64>)>) -> Seq<
    Seq<char>,
>
    decreases arrived.len(),
{
    if arrived.len() == 0 {
        done
    } else if done.contains(arrived[0].0) {
        arrivals_done(done, arrived.drop_first())
    } else {
        arrivals_done(done.push(arrived[0].0), arrived.drop_first())
    }
}

/// The views of a list of arrived players.
pub open spec fn arrived_view(v: Seq<(String, Option<u64>)>) -> Seq<(Seq<char>, Option<u64>)> {
    v.map_values(|p: (String, Option<u64>)| (p.0@, p.1))
}

/// Host bookkeeping for arrival reports: which player name belongs to which user, and which
/// names were reported.
pub struct ArrivalReporter {
    users: StrMap<String>,
    reported: Vec<String>,
}

impl ArrivalReporter {
    /// name -> user id
    pub closed spec fn users(self) -> Map<Seq<char>, Seq<char>> {
        self.users@
    }

    /// The names reported so far, in report order.
    pub closed spec fn reported(self) -> Seq<Seq<char>> {
        crate::str_map::names(self.reported@)
    }

    /// Well formed.
    pub closed spec fn wf(self) -> bool {
        self.users.wf()
    }

    /// Nothing mapped or reported.
    pub fn new() -> (r: Self)
        ensures
            r.wf(),
            r.users() == Map::<Seq<char>, Seq<char>>::empty(),
            r.reported() == Seq::<Seq<char>>::empty(),
    {
        let r = ArrivalReporter { users: StrMap::new(), reported: Vec::new() };
        assert(r.reported() =~= Seq::<Seq<char>>::empty());
        r
    }

    /// A new game starts: forget the mapping and the reports.
    pub fn start_game(&mut self)
        ensures
            final(self).wf(),
            final(self).users() == Map::<Seq<char>, Seq<char>>::empty(),
            final(self).reported() == Seq::<Seq<char>>::empty(),
    {
        self.users.clear();
        self.reported = Vec::new();
        assert(self.reported() =~= Seq::<Seq<char>>::empty());
    }

    /// Player `name` in the game is user `user_id`.
    pub fn map_player(&mut self, name: String, user_id: String)
        requires
            old(self).wf(),
        ensures
            final(self).wf(),
            final(self).users() == old(self).users().insert(name@, user_id@),
            final(self).reported() == old(self).reported(),
    {
        self.users.insert(name, user_id);
    }

    /// The reports to send for the arrived players `arrived` (name, arrival frame): nothing
    /// unless this client hosts; otherwise one report per name not reported before, with the
    /// next rank.
    pub fn report_arrivals(&mut self, is_host: bool, arrived: &Vec<(String, Option<u64>)>) -> (r: Vec<ArrivalReport>)
        requires
            old(self).wf(),
        ensures
            final(self).wf(),
            final(self).users() == old(self).users(),
            !is_host ==> r@.len() == 0 && final(self).reported() == old(self).reported(),
            is_host ==> r@.map_values(|x: ArrivalReport| x@) == arrival_reports(
                old(self).reported(),
                arrived_view(arrived@),
                old(self).users(),
            ),
            is_host ==> final(self).reported() == arrivals_done(
                old(self).reported(),
                arrived_view(arrived@),
            ),
    {
        let mut out: Vec<ArrivalReport> = Vec::new();
        if !is_host || arrived.len() == 0 {
            proof {
                assert(out@.map_values(|x: ArrivalReport| x@) =~= Seq::<ArrivalReportView>::empty());
                if is_host {
                    assert(arrived_view(arrived@).len() == 0);
                }
            }
            return out;
        }
        let ghost all = arrived_view(arrived@);
        let ghost done0 = self.reported();
        let n = arrived.len();
        let mut i: usize = 0;
        proof {
            assert(all.skip(0) =~= all);
            assert(out@.map_values(|x: ArrivalReport| x@) =~= Seq::<ArrivalReportView>::empty());
        }
        while i < n
            invariant
                n == arrived@.len(),
                all == arrived_view(arrived@),
                i <= n,
                self.wf(),
                self.users() == old(self).users(),
                self.reported().len() <= done0.len() + i,
                out@.map_values(|x: ArrivalReport| x@) + arrival_reports(
                    self.reported(),
                    all.skip(i as int),
                    self.users(),
                ) == arrival_reports(done0, all, old(self).users()),
                arrivals_done(self.reported(), all.skip(i as int)) == arrivals_done(done0, all),
            decreases n - i,
        {
            let ghost rest = all.skip(i as int);
            proof {
                assert(rest[0] == (arrived@[i as int].0@, arrived@[i as int].1));
                assert(rest.drop_first() =~= all.skip(i + 1));
            }
            let name = &arrived[i].0;
            if crate::peer_manager::contains_string(&self.reported, name) {
                // already reported
            } else {
                let ghost before_out = out@.map_values(|x: ArrivalReport| x@);
                let ghost before_done = self.reported();
                self.reported.push(name.clone());
                let rank = #[verifier::truncate] (self.reported.len() as u32);
                let user_id = match self.users.get(name.as_str()) {
                    Some(u) => Some(u.clone()),
                    None => None,
                };
                let frame = match arrived[i].1 {
                    Some(f) => f,
                    None => 0,
                };
                out.push(ArrivalReport { name: name.clone(), user_id, frame, rank });
                proof {
                    assert(self.reported() =~= before_done.push(name@));
                    assert(out@.map_values(|x: ArrivalReport| x@) =~= before_out.push(
                        out@[out@.len() - 1]@,
                    ));
                    assert(out@.map_values(|x: ArrivalReport| x@) + arrival_reports(
                        self.reported(),
                        all.skip(i + 1),
                        self.users(),
                    ) =~= before_out + arrival_reports(before_done, rest, self.users()));
                }
            }
            i = i + 1;
        }
        proof {
            assert(all.skip(n as int) =~= Seq::<(Seq<char>, Option<u64>)>::empty());
            assert(out@.map_values(|x: ArrivalReport| x@) + Seq::<ArrivalReportView>::empty()
                =~= out@.map_values(|x: ArrivalReport| x@));
        }
        out
    }
}

/// Reports name new players only, each once, and (while ranks fit in a `u32`) rank them
/// consecutively after those already reported; the reported names grow by exactly the
/// reported ones.
pub proof fn law_arrivals_reported_once(
    done: Seq<Seq<char>>,
    arrived: Seq<(Seq<char>, Option<u64>)>,
    users: Map<Seq<char>, Seq<char>>,
)
    requires
        done.len() + arrived.len() < u32::MAX,
    ensures
        arrivals_done(done, arrived) == done + arrival_reports(done, arrived, users).map_values(
            |r: ArrivalReportView| r.name,
        ),
        forall|j: int|
            0 <= j < arrival_reports(done, arrived, users).len() ==> (
            #[trigger] arrival_reports(done, arrived, users)[j]).rank == done.len() + j + 1
                && !done.contains(arrival_reports(done, arrived, users)[j].name),
        forall|j: int, k: int|
            0 <= j < k < arrival_reports(done, arrived, users).len() ==> arrival_reports(
                done,
                arrived,
                users,
            )[j].name != arrival_reports(done, arrived, users)[k].name,
    decreases arrived.len(),
{
    let reps = arrival_reports(done, arrived, users);
    if arrived.len() == 0 {
        assert(done + reps.map_values(|r: ArrivalReportView| r.name) =~= done);
    } else {
        let name = arrived[0].0;
        let tail = arrived.drop_first();
        if done.contains(name) {
            law_arrivals_reported_once(done, tail, users);
        } else {
            let d2 = done.push(name);
            law_arrivals_reported_once(d2, tail, users);
            let sub = arrival_reports(d2, tail, users);
            assert(reps =~= seq![reps[0]] + sub);
            assert(done + reps.map_values(|r: ArrivalReportView| r.name) =~= d2 + sub.map_values(
                |r: ArrivalReportView| r.name,
            ));
            assert forall|j: int| 0 <= j < reps.len() implies (#[trigger] reps[j]).rank == done.len()
                + j + 1 && !done.contains(reps[j].name) by {
                if j > 0 {
                    assert(reps[j] == sub[j - 1]);
                    if done.contains(sub[j - 1].name) {
                        let a = choose|a: int| 0 <= a < done.len() && done[a] == sub[j - 1].name;
                        assert(d2[a] == sub[j - 1].name);
                    }
                }
            }
            assert forall|j: int, k: int| 0 <= j < k < reps.len() implies reps[j].name
                != reps[k].name by {
                assert(reps[k] == sub[k - 1]);
                if j == 0 {
                    assert(d2[done.len() as int] == name);
                    assert(!d2.contains(sub[k - 1].name));
                } else {
                    assert(reps[j] == sub[j - 1]);
                }
            }
        }
    }
}

// ---------------------------------------------------------------------------
// Reactions
// ---------------------------------------------------------------------------
/// Global cooldown between two reactions, in milliseconds.
pub const REACTION_COOLDOWN_MS: u64 = 300;

/// The emoji for a reaction keyboard shortcut.
pub open spec fn reaction_emoji_of(key: Seq<char>) -> Option<Seq<char>> {
    if key == "1"@ {
        Some("\u{1F44D}"@)
    } else if key == "2"@ {
        Some("\u{2764}\u{FE0F}"@)
    } else if key == "3"@ {
        Some("\u{1F602}"@)
    } else if key == "4"@ {
        Some("\u{1F389}"@)
    } else if key == "5"@ {
        Some("\u{1F44F}"@)
    } else {
        None
    }
}

/// Get the emoji for a keyboard shortcut (1-5).
pub fn get_reaction_emoji(key: &str) -> (r: Option<&'static str>)
    ensures
        match r {
            Some(e) => reaction_emoji_of(key@) == Some(e@),
            None => reaction_emoji_of(key@) is None,
        },
{
    let k = key.to_owned();
    if k == "1".to_owned() {
        Some("\u{1F44D}")
    } else if k == "2".to_owned() {
        Some("\u{2764}\u{FE0F}")
    } else if k == "3".to_owned() {
        Some("\u{1F602}")
    } else if k == "4".to_owned() {
        Some("\u{1F389}")
    } else if k == "5".to_owned() {
        Some("\u{1F44F}")
    } else {
        None
    }
}

/// Time of the last reaction sent, for the global cooldown.
pub struct ReactionCooldown {
    last_ms: u64,
}

impl ReactionCooldown {
    /// Time of the last reaction sent.
    pub closed spec fn last(self) -> u64 {
        self.last_ms
    }

    /// No reaction sent yet (the clock starts at 0).
    pub fn new() -> (r: Self)
        ensures
            r.last() == 0,
    {
        ReactionCooldown { last_ms: 0 }
    }

    /// Decides whether a reaction at `now_ms` may be sent: only when the cooldown since the
    /// last one has passed. A reaction sent becomes the last one.
    pub fn try_send(&mut self, now_ms: u64) -> (r: bool)
        ensures
            r == (now_ms - old(self).last() >= REACTION_COOLDOWN_MS),
            final(self).last() == if r {
                now_ms
            } else {
                old(self).last()
            },
    {
        if now_ms < self.last_ms || now_ms - self.last_ms < REACTION_COOLDOWN_MS {
            return false;
        }
        self.last_ms = now_ms;
        true
    }
}

/// Two reactions that are both sent are at least a cooldown apart.
pub proof fn law_reactions_spaced(last: u64, t1: u64, t2: u64)
    requires
        t1 - last >= REACTION_COOLDOWN_MS,
        t2 - t1 >= REACTION_COOLDOWN_MS,
    ensures
        t2 >= t1 + REACTION_COOLDOWN_MS,
{
}

/// The reactions with their keyboard shortcuts, in panel order: (key, emoji).
pub open spec fn reaction_table() -> Seq<(Seq<char>, Seq<char>)> {
    seq![
        ("1"@, "\u{1F44D}"@),
        ("2"@, "\u{2764}\u{FE0F}"@),
        ("3"@, "\u{1F602}"@),
        ("4"@, "\u{1F389}"@),
        ("5"@, "\u{1F44F}"@),
    ]
}

/// The reactions with their keyboard shortcuts, in panel order.
pub fn reactions() -> (r: Vec<(&'static str, &'static str)>)
    ensures
        r@.map_values(|p: (&'static str, &'static str)| (p.0@, p.1@)) == reaction_table(),
{
    let mut v: Vec<(&'static str, &'static str)> = Vec::new();
    v.push(("1", "\u{1F44D}"));
    v.push(("2", "\u{2764}\u{FE0F}"));
    v.push(("3", "\u{1F602}"));
    v.push(("4", "\u{1F389}"));
    v.push(("5", "\u{1F44F}"));
    assert(v@.map_values(|p: (&'static str, &'static str)| (p.0@, p.1@)) =~= reaction_table());
    v
}

/// The shortcut keys give the emojis of the reaction table.
pub proof fn law_shortcuts_match_table(i: int)
    requires
        0 <= i < 5,
    ensures
        reaction_emoji_of(reaction_table()[i].0) == Some(reaction_table()[i].1),
{
    reveal_strlit("1");
    reveal_strlit("2");
    reveal_strlit("3");
    reveal_strlit("4");
    reveal_strlit("5");
    let k = reaction_table()[i].0;
    if i >= 1 {
        assert(k[0] != "1"@[0]);
    }
    if i >= 2 {
        assert(k[0] != "2"@[0]);
    }
    if i >= 3 {
        assert(k[0] != "3"@[0]);
    }
    if i >= 4 {
        assert(k[0] != "4"@[0]);
    }
}

/// The emojis of the panel, the last one used first: `last`, then the table's other emojis in
/// order.
pub open spec fn ordered_emojis_of(last: Seq<char>) -> Seq<Seq<char>> {
    seq![last] + reaction_table().map_values(|p: (Seq<char>, Seq<char>)| p.1).filter(
        |e: Seq<char>| e != last,
    )
}

/// The emojis of the panel in display order.
pub fn ordered_emojis(last: &str) -> (r: Vec<String>)
    ensures
        r@.map_values(|e: String| e@) == ordered_emojis_of(last@),
{
    let table = reactions();
    let ghost emojis = reaction_table().map_values(|p: (Seq<char>, Seq<char>)| p.1);
    let ghost pred = |e: Seq<char>| e != last@;
    let l = last.to_owned();
    let mut out: Vec<String> = Vec::new();
    out.push(last.to_owned());
    let mut i: usize = 0;
    proof {
        assert(out@.map_values(|e: String| e@) =~= seq![last@] + emojis.take(0).filter(pred));
    }
    while i < table.len()
        invariant
            table@.map_values(|p: (&'static str, &'static str)| (p.0@, p.1@)) == reaction_table(),
            emojis == reaction_table().map_values(|p: (Seq<char>, Seq<char>)| p.1),
            pred == (|e: Seq<char>| e != last@),
            l@ == last@,
            i <= table@.len(),
            out@.map_values(|e: String| e@) == seq![last@] + emojis.take(i as int).filter(pred),
        decreases table@.len() - i,
    {
        let e = table[i].1;
        let es = e.to_owned();
        proof {
            assert(table@.map_values(|p: (&'static str, &'static str)| (p.0@, p.1@))[i as int] == reaction_table()[i as int]);
            assert(emojis[i as int] == e@);
            assert(emojis.take(i + 1) =~= emojis.take(i as int).push(e@));
            emojis.take(i as int).lemma_filter_push(e@, pred);
        }
        let ghost before = out@.map_values(|e: String| e@);
        if es != l {
            out.push(es);
            proof {
                assert(out@.map_values(|e: String| e@) =~= before.push(e@));
            }
        }
        i = i + 1;
    }
    proof {
        assert(emojis.take(5) =~= emojis);
    }
    out
}

/// The shortcut key of an emoji: the key of its first row in the table, or nothing.
pub open spec fn shortcut_of(emoji: Seq<char>) -> Seq<char> {
    if emoji == reaction_table()[0].1 {
        reaction_table()[0].0
    } else if emoji == reaction_table()[1].1 {
        reaction_table()[1].0
    } else if emoji == reaction_table()[2].1 {
        reaction_table()[2].0
    } else if emoji == reaction_table()[3].1 {
        reaction_table()[3].0
    } else if emoji == reaction_table()[4].1 {
        reaction_table()[4].0
    } else {
        Seq::empty()
    }
}

/// The shortcut key shown for an emoji.
pub fn shortcut_for(emoji: &str) -> (r: String)
    ensures
        r@ == shortcut_of(emoji@),
{
    let table = reactions();
    let e = emoji.to_owned();
    let mut i: usize = 0;
    assert(table@.len() == 5) by {
        assert(table@.map_values(|p: (&'static str, &'static str)| (p.0@, p.1@)).len() == 5);
    }
    while i < table.len()
        invariant
            table@.map_values(|p: (&'static str, &'static str)| (p.0@, p.1@)) == reaction_table(),
            table@.len() == 5,
            e@ == emoji@,
            i <= table@.len(),
            forall|j: int| 0 <= j < i ==> reaction_table()[j].1 != emoji@,
        decreases table@.len() - i,
    {
        proof {
            assert(table@.map_values(|p: (&'static str, &'static str)| (p.0@, p.1@))[i as int] == reaction_table()[i as int]);
        }
        if table[i].1.to_owned() == e {
            proof {
                assert(reaction_table()[i as int].1 == emoji@);
                if i == 0 {
                } else if i == 1 {
                    assert(reaction_table()[0].1 != emoji@);
                } else if i == 2 {
                    assert(reaction_table()[0].1 != emoji@);
                    assert(reaction_table()[1].1 != emoji@);
                } else if i == 3 {
                    assert(reaction_table()[0].1 != emoji@);
                    assert(reaction_table()[1].1 != emoji@);
                    assert(reaction_table()[2].1 != emoji@);
                } else {
                    assert(reaction_table()[0].1 != emoji@);
                    assert(reaction_table()[1].1 != emoji@);
                    assert(reaction_table()[2].1 != emoji@);
                    assert(reaction_table()[3].1 != emoji@);
                }
            }
            return table[i].0.to_owned();
        }
        i = i + 1;
    }
    proof {
        assert(table@.len() == 5) by {
            assert(table@.map_values(|p: (&'static str, &'static str)| (p.0@, p.1@)).len() == 5);
        }
        assert(reaction_table()[0].1 != emoji@);
        assert(reaction_table()[1].1 != emoji@);
        assert(reaction_table()[2].1 != emoji@);
        assert(reaction_table()[3].1 != emoji@);
        assert(reaction_table()[4].1 != emoji@);
    }
    String::new()
}

/// The reaction panel's choice of the emoji shown first: a click makes its emoji pending,
/// and the pending emoji becomes the last used one only when the panel closes, so the order
/// does not change under the mouse.
pub struct PendingEmoji {
    pub pending: Option<String>,
    pub was_expanded: bool,
}

impl PendingEmoji {
    /// Nothing pending; the panel is open or not.
    pub fn new(expanded: bool) -> (r: Self)
        ensures
            r.pending is None,
            r.was_expanded == expanded,
    {
        PendingEmoji { pending: None, was_expanded: expanded }
    }

    /// An emoji was clicked.
    pub fn select(&mut self, emoji: String)
        ensures
            final(self).pending == Some(emoji),
            final(self).was_expanded == old(self).was_expanded,
    {
        self.pending = Some(emoji);
    }

    /// The panel is now open or not; when it just closed, the pending emoji (if any) becomes
    /// the last used one, which is returned.
    pub fn expanded_changed(&mut self, expanded: bool) -> (r: Option<String>)
        ensures
            final(self).was_expanded == expanded,
            old(self).was_expanded && !expanded ==> r == old(self).pending && final(self).pending is None,
            !(old(self).was_expanded && !expanded) ==> r is None && final(self).pending == old(self).pending,
    {
        let closed = self.was_expanded && !expanded;
        self.was_expanded = expanded;
        if closed {
            let p = self.pending.take();
            p
        } else {
            None
        }
    }
}

// ---------------------------------------------------------------------------
// Starting a game (host)
// ---------------------------------------------------------------------------
/// Number of player colours.
pub const PLAYER_COLOR_COUNT: usize = 8;

/// The colour (RGBA) of player colour index `i`: red, blue, green, orange, purple, pink,
/// cyan, yellow.
pub open spec fn player_color_of(i: int) -> [u8; 4] {
    if i == 0 {
        [255, 0, 0, 255]
    } else if i == 1 {
        [0, 0, 255, 255]
    } else if i == 2 {
        [0, 255, 0, 255]
    } else if i == 3 {
        [255, 128, 0, 255]
    } else if i == 4 {
        [128, 0, 255, 255]
    } else if i == 5 {
        [255, 0, 128, 255]
    } else if i == 6 {
        [0, 255, 255, 255]
    } else {
        [255, 255, 0, 255]
    }
}

/// The colour of player colour index `i` (below [`PLAYER_COLOR_COUNT`]).
pub fn player_color(i: usize) -> (r: [u8; 4])
    requires
        i < PLAYER_COLOR_COUNT,
    ensures
        r == player_color_of(i as int),
{
    if i == 0 {
        [255, 0, 0, 255]
    } else if i == 1 {
        [0, 0, 255, 255]
    } else if i == 2 {
        [0, 255, 0, 255]
    } else if i == 3 {
        [255, 128, 0, 255]
    } else if i == 4 {
        [128, 0, 255, 255]
    } else if i == 5 {
        [255, 0, 128, 255]
    } else if i == 6 {
        [0, 255, 255, 255]
    } else {
        [255, 255, 0, 255]
    }
}

/// One player added when the host starts the game.
#[derive(Debug, Clone)]
pub struct RosterEntry {
    /// Name in the game
    pub name: String,
    /// User id
    pub user_id: String,
    /// Colour index
    pub color: usize,
}

/// Abstract value of a roster entry: (name, user id, colour index).
pub open spec fn roster_view(v: Seq<RosterEntry>) -> Seq<(Seq<char>, Seq<char>, int)> {
    v.map_values(|e: RosterEntry| (e.name@, e.user_id@, e.color as int))
}

/// The entries of the first `k` peers: each peer `i` whose user is known, as (name, user id),
/// with colour `(i + 1) % 8`, in peer order.
pub open spec fn peer_entries(peers: Seq<Option<(Seq<char>, Seq<char>)>>, k: int) -> Seq<
    (Seq<char>, Seq<char>, int),
>
    decreases k,
{
    if k <= 0 {
        Seq::empty()
    } else {
        let rest = peer_entries(peers, k - 1);
        match peers[k - 1] {
            Some(p) => rest.push((p.0, p.1, k % (PLAYER_COLOR_COUNT as int))),
            None => rest,
        }
    }
}

/// The views of the peers' (name, user id) when known.
pub open spec fn peers_view(peers: Seq<Option<(String, String)>>) -> Seq<Option<(Seq<char>, Seq<char>)>> {
    peers.map_values(
        |p: Option<(String, String)>| match p {
            Some(q) => Some((q.0@, q.1@)),
            None => None,
        },
    )
}

/// The players of a game the host starts: the host itself first, with the first colour, then
/// each peer whose user is known, with the colour after its position.
pub fn start_roster(my_name: String, my_user_id: String, peers: &Vec<Option<(String, String)>>) -> (r: Vec<RosterEntry>)
    ensures
        roster_view(r@) == seq![(my_name@, my_user_id@, 0int)] + peer_entries(
            peers_view(peers@),
            peers@.len() as int,
        ),
{
    let ghost pv = peers_view(peers@);
    let mut out: Vec<RosterEntry> = Vec::new();
    out.push(RosterEntry { name: my_name, user_id: my_user_id, color: 0 });
    let ghost first = roster_view(out@);
    let n = peers.len();
    let mut i: usize = 0;
    proof {
        assert(roster_view(out@) =~= first + peer_entries(pv, 0));
    }
    while i < n
        invariant
            n == peers@.len(),
            pv == peers_view(peers@),
            i <= n,
            roster_view(out@) == first + peer_entries(pv, i as int),
        decreases n - i,
    {
        let ghost before = roster_view(out@);
        proof {
            assert(pv[i as int] == match peers@[i as int] {
                Some(q) => Some((q.0@, q.1@)),
                None => None,
            });
        }
        match &peers[i] {
            Some((name, uid)) => {
                out.push(RosterEntry { name: name.clone(), user_id: uid.clone(), color: (i + 1) % PLAYER_COLOR_COUNT });
                proof {
                    assert(roster_view(out@) =~= before.push((name@, uid@, (i + 1) % (PLAYER_COLOR_COUNT as int))));
                }
            },
            None => {},
        }
        i = i + 1;
    }
    out
}

/// The eight player colours are opaque and pairwise different, so the players of one game with
/// different colour indices never share a colour.
pub proof fn law_player_colors_distinct(i: int, j: int)
    requires
        0 <= i < j < PLAYER_COLOR_COUNT,
    ensures
        player_color_of(i) != player_color_of(j),
        player_color_of(i)[3] == 255,
{
    let a = player_color_of(i);
    let b = player_color_of(j);
    assert(a[3] == 255);
    assert(a[0] != b[0] || a[1] != b[1] || a[2] != b[2]);
}

} // verus!
