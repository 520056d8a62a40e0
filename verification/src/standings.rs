//! Ordering of the player lists.
//!
//! The player list during a game shows arrived players first (by rank), then the others (by
//! live rank); the results screen, without server results, orders the arrived players by rank.
//! Each ordering is a stable sort by a key; the sort works on positions, so the lists
//! themselves are never moved.
use vstd::prelude::*;

verus! {

/// `a` comes strictly before `b` (lexicographic order on the pair).
pub open spec fn key_lt(a: (u64, u64), b: (u64, u64)) -> bool {
    a.0 < b.0 || (a.0 == b.0 && a.1 < b.1)
}

/// `a` does not come after `b`.
pub open spec fn key_le(a: (u64, u64), b: (u64, u64)) -> bool {
    !key_lt(b, a)
}

/// `order` lists the positions `0..keys.len()` each once, sorted by key, and positions with
/// equal keys keep their original order. This pins `order` down completely.
pub open spec fn is_stable_order(keys: Seq<(u64, u64)>, order: Seq<usize>) -> bool {
    &&& order.len() == keys.len()
    &&& forall|a: int| 0 <= a < order.len() ==> #[trigger] order[a] < keys.len()
    &&& forall|a: int, b: int| 0 <= a < b < order.len() ==> order[a] != order[b]
    &&& forall|a: int, b: int|
        0 <= a < b < order.len() ==> key_le(keys[order[a] as int], keys[order[b] as int])
    &&& forall|a: int, b: int|
        0 <= a < b < order.len() && keys[order[a] as int] == keys[order[b] as int] ==> order[a]
            < order[b]
}

/// The positions of `keys` in stable sorted order.
pub fn stable_order(keys: &Vec<(u64, u64)>) -> (r: Vec<usize>)
    ensures
        is_stable_order(keys@, r@),
{
    let n = keys.len();
    let mut out: Vec<usize> = Vec::new();
    let mut i: usize = 0;
    while i < n
        invariant
            n == keys@.len(),
            i <= n,
            out@.len() == i,
            forall|a: int| 0 <= a < out@.len() ==> #[trigger] out@[a] < i,
            forall|a: int, b: int| 0 <= a < b < out@.len() ==> out@[a] != out@[b],
            forall|a: int, b: int|
                0 <= a < b < out@.len() ==> key_le(keys@[out@[a] as int], keys@[out@[b] as int]),
            forall|a: int, b: int|
                0 <= a < b < out@.len() && keys@[out@[a] as int] == keys@[out@[b] as int]
                    ==> out@[a] < out@[b],
        decreases n - i,
    {
        let ki = keys[i];
        // First position whose key is strictly after the new key.
        let mut k: usize = 0;
        while k < out.len() && !(ki.0 < keys[out[k]].0 || (ki.0 == keys[out[k]].0 && ki.1
            < keys[out[k]].1))
            invariant
                n == keys@.len(),
                i < n,
                ki == keys@[i as int],
                k <= out@.len(),
                forall|a: int| 0 <= a < out@.len() ==> #[trigger] out@[a] < i,
                forall|a: int| 0 <= a < k ==> !key_lt(ki, #[trigger] keys@[out@[a] as int]),
            decreases out@.len() - k,
        {
            k = k + 1;
        }
        let ghost before = out@;
        proof {
            // Everything from k on is strictly after the new key.
            assert forall|a: int| k <= a < before.len() implies key_lt(
                ki,
                #[trigger] keys@[before[a] as int],
            ) by {
                assert(key_lt(ki, keys@[before[k as int] as int]));
                if a > k {
                    assert(key_le(keys@[before[k as int] as int], keys@[before[a] as int]));
                }
            }
        }
        out.insert(k, i);
        proof {
            assert forall|a: int| 0 <= a < out@.len() implies #[trigger] out@[a] < i + 1 by {
                if a < k {
                    assert(out@[a] == before[a]);
                } else if a > k {
                    assert(out@[a] == before[a - 1]);
                }
            }
            assert forall|a: int, b: int| 0 <= a < b < out@.len() implies out@[a] != out@[b] by {
                if a < k && b < k {
                    assert(out@[a] == before[a] && out@[b] == before[b]);
                } else if a < k && b == k {
                    assert(out@[a] == before[a]);
                } else if a < k && b > k {
                    assert(out@[a] == before[a] && out@[b] == before[b - 1]);
                } else if a == k {
                    assert(out@[b] == before[b - 1]);
                } else {
                    assert(out@[a] == before[a - 1] && out@[b] == before[b - 1]);
                }
            }
            assert forall|a: int, b: int| 0 <= a < b < out@.len() implies key_le(
                keys@[out@[a] as int],
                keys@[out@[b] as int],
            ) by {
                if a < k && b < k {
                    assert(out@[a] == before[a] && out@[b] == before[b]);
                } else if a < k && b == k {
                    assert(out@[a] == before[a]);
                } else if a < k && b > k {
                    assert(out@[a] == before[a] && out@[b] == before[b - 1]);
                } else if a == k {
                    assert(out@[b] == before[b - 1]);
                } else {
                    assert(out@[a] == before[a - 1] && out@[b] == before[b - 1]);
                }
            }
            assert forall|a: int, b: int|
                0 <= a < b < out@.len() && keys@[out@[a] as int] == keys@[out@[b] as int]
                    implies out@[a] < out@[b] by {
                if a < k && b < k {
                    assert(out@[a] == before[a] && out@[b] == before[b]);
                } else if a < k && b == k {
                    assert(out@[a] == before[a]);
                } else if a < k && b > k {
                    assert(out@[a] == before[a] && out@[b] == before[b - 1]);
                } else if a == k {
                    assert(out@[b] == before[b - 1]);
                } else {
                    assert(out@[a] == before[a - 1] && out@[b] == before[b - 1]);
                }
            }
        }
        i = i + 1;
    }
    out
}

/// A stable order lists every position of its keys: sorting keeps every player.
pub proof fn law_order_lists_every_position(keys: Seq<(u64, u64)>, order: Seq<usize>, p: int)
    requires
        is_stable_order(keys, order),
        0 <= p < keys.len(),
    ensures
        exists|a: int| 0 <= a < order.len() && order[a] == p,
{
    let n = keys.len() as int;
    let s = Set::new(|x: int| exists|a: int| 0 <= a < order.len() && order[a] == x);
    lemma_positions_len(order, n, n);
    if !s.contains(p) {
        let full = Set::new(|x: int| 0 <= x < n);
        lemma_range_len(n);
        assert(s.subset_of(full.remove(p)));
        vstd::set_lib::lemma_len_subset(s, full.remove(p));
    }
}

/// The first `m` entries of a list of distinct positions below `n` form a set of `m` positions.
proof fn lemma_positions_len(order: Seq<usize>, n: int, m: int)
    requires
        0 <= m <= order.len(),
        forall|a: int| 0 <= a < order.len() ==> #[trigger] order[a] < n,
        forall|a: int, b: int| 0 <= a < b < order.len() ==> order[a] != order[b],
    ensures
        Set::new(|x: int| exists|a: int| 0 <= a < m && order[a] == x).finite(),
        Set::new(|x: int| exists|a: int| 0 <= a < m && order[a] == x).len() == m,
        m == order.len() ==> Set::new(|x: int| exists|a: int| 0 <= a < order.len() && order[a] == x)
            == Set::new(|x: int| exists|a: int| 0 <= a < m && order[a] == x),
    decreases m,
{
    let s = Set::new(|x: int| exists|a: int| 0 <= a < m && order[a] == x);
    if m == 0 {
        assert(s =~= Set::empty());
    } else {
        let t = Set::new(|x: int| exists|a: int| 0 <= a < m - 1 && order[a] == x);
        lemma_positions_len(order, n, m - 1);
        assert(s =~= t.insert(order[m - 1] as int));
        assert(!t.contains(order[m - 1] as int));
    }
    if m == order.len() {
        assert(Set::new(|x: int| exists|a: int| 0 <= a < order.len() && order[a] == x) =~= s);
    }
}

/// The integers `0..n` form a set of `n` elements.
proof fn lemma_range_len(n: int)
    requires
        n >= 0,
    ensures
        Set::new(|x: int| 0 <= x < n).finite(),
        Set::new(|x: int| 0 <= x < n).len() == n,
    decreases n,
{
    let s = Set::new(|x: int| 0 <= x < n);
    if n == 0 {
        assert(s =~= Set::empty());
    } else {
        lemma_range_len(n - 1);
        assert(s =~= Set::new(|x: int| 0 <= x < n - 1).insert(n - 1));
    }
}

// ---------------------------------------------------------------------------
// Player standings
// ---------------------------------------------------------------------------
/// Arrival information for a player.
#[derive(Debug, Clone, PartialEq, Default)]
pub struct ArrivalInfo {
    /// Player name
    pub player_id: String,
    /// Gamerule-applied rank (1-based, None = not arrived)
    pub rank: Option<u32>,
    /// Actual arrival order (1-based)
    pub arrival_order: Option<u32>,
    /// Live rank based on y-position (1-based, for non-arrived players)
    pub live_rank: Option<u32>,
}

/// Position of the first arrival entry for `player_id`.
pub fn find_arrival(infos: &Vec<ArrivalInfo>, player_id: &str) -> (r: Option<usize>)
    ensures
        match r {
            Some(i) => i < infos@.len() && infos@[i as int].player_id@ == player_id@ && forall|j: int|
                0 <= j < i ==> infos@[j].player_id@ != player_id@,
            None => forall|j: int| 0 <= j < infos@.len() ==> infos@[j].player_id@ != player_id@,
        },
{
    let key = player_id.to_owned();
    let n = infos.len();
    let mut i: usize = 0;
    while i < n
        invariant
            n == infos@.len(),
            i <= n,
            key@ == player_id@,
            forall|j: int| 0 <= j < i ==> infos@[j].player_id@ != player_id@,
        decreases n - i,
    {
        if infos[i].player_id == key {
            return Some(i);
        }
        i = i + 1;
    }
    None
}

/// How two players compare in the player list.
pub enum Placement {
    Before,
    Same,
    After,
}

/// Compares two optional ranks: a rank comes before no rank, smaller ranks first.
pub open spec fn compare_ranks(a: Option<u32>, b: Option<u32>) -> Placement {
    match (a, b) {
        (Some(x), Some(y)) => if x < y {
            Placement::Before
        } else if x == y {
            Placement::Same
        } else {
            Placement::After
        },
        (Some(_), None) => Placement::Before,
        (None, Some(_)) => Placement::After,
        (None, None) => Placement::Same,
    }
}

/// The player list order: arrived players first by rank, then the others by live rank, then
/// (when `by_id`) by id.
pub open spec fn compare_standings(
    a: (Option<u32>, Option<u32>, u64),
    b: (Option<u32>, Option<u32>, u64),
    by_id: bool,
) -> Placement {
    match (a.0, b.0) {
        (None, None) => match compare_ranks(a.1, b.1) {
            Placement::Same => match (a.1, b.1) {
                (None, None) => if by_id && a.2 < b.2 {
                    Placement::Before
                } else if by_id && a.2 > b.2 {
                    Placement::After
                } else {
                    Placement::Same
                },
                _ => Placement::Same,
            },
            other => other,
        },
        _ => compare_ranks(a.0, b.0),
    }
}

/// The sort key of a standing `(rank, live_rank, id)`.
pub open spec fn standing_key_of(rank: Option<u32>, live_rank: Option<u32>, id: u64, by_id: bool) -> (u64, u64) {
    match rank {
        Some(r) => (r as u64, 0),
        None => match live_rank {
            Some(l) => ((0x1_0000_0000u64 + l) as u64, 0),
            None => (0x2_0000_0000u64, if by_id { id } else { 0 }),
        },
    }
}

/// The key of a standing orders players exactly as the player list does.
pub proof fn law_standing_key_matches_order(
    a: (Option<u32>, Option<u32>, u64),
    b: (Option<u32>, Option<u32>, u64),
    by_id: bool,
)
    ensures
        key_lt(standing_key_of(a.0, a.1, a.2, by_id), standing_key_of(b.0, b.1, b.2, by_id))
            <==> compare_standings(a, b, by_id) is Before,
        standing_key_of(a.0, a.1, a.2, by_id) == standing_key_of(b.0, b.1, b.2, by_id)
            <==> compare_standings(a, b, by_id) is Same,
{
}

/// The sort key of a standing `(rank, live_rank, id)`.
pub fn standing_key(rank: Option<u32>, live_rank: Option<u32>, id: u64, by_id: bool) -> (r: (u64, u64))
    ensures
        r == standing_key_of(rank, live_rank, id, by_id),
{
    match rank {
        Some(r) => (r as u64, 0),
        None => match live_rank {
            Some(l) => (0x1_0000_0000u64 + l as u64, 0),
            None => (0x2_0000_0000u64, if by_id { id } else { 0 }),
        },
    }
}

/// The order in which the players with standings `(rank, live_rank, id)` are listed: arrived
/// players first by rank, then the others by live rank, then (when `by_id`) by id; ties keep
/// the given order.
pub fn standing_order(standings: &Vec<(Option<u32>, Option<u32>, u64)>, by_id: bool) -> (r: Vec<usize>)
    ensures
        is_stable_order(
            standings@.map_values(|s: (Option<u32>, Option<u32>, u64)| standing_key_of(s.0, s.1, s.2, by_id)),
            r@,
        ),
{
    let mut keys: Vec<(u64, u64)> = Vec::new();
    let n = standings.len();
    let mut i: usize = 0;
    while i < n
        invariant
            n == standings@.len(),
            i <= n,
            keys@.len() == i,
            forall|j: int| 0 <= j < i ==> #[trigger] keys@[j] == standing_key_of(
                standings@[j].0,
                standings@[j].1,
                standings@[j].2,
                by_id,
            ),
        decreases n - i,
    {
        let s = standings[i];
        keys.push(standing_key(s.0, s.1, s.2, by_id));
        i = i + 1;
    }
    assert(keys@ =~= standings@.map_values(|s: (Option<u32>, Option<u32>, u64)| standing_key_of(s.0, s.1, s.2, by_id)));
    stable_order(&keys)
}

/// The key of a result rank when ranking arrived players without server results: the rank,
/// with no rank counting as the largest.
pub open spec fn result_key_of(rank: Option<u32>) -> (u64, u64) {
    match rank {
        Some(r) => (r as u64, 0),
        None => (u32::MAX as u64, 0),
    }
}

/// The order in which arrived players are ranked from their optional ranks, no rank last; ties
/// keep the given order.
pub fn result_order(ranks: &Vec<Option<u32>>) -> (r: Vec<usize>)
    ensures
        is_stable_order(ranks@.map_values(|x: Option<u32>| result_key_of(x)), r@),
{
    let mut keys: Vec<(u64, u64)> = Vec::new();
    let n = ranks.len();
    let mut i: usize = 0;
    while i < n
        invariant
            n == ranks@.len(),
            i <= n,
            keys@.len() == i,
            forall|j: int| 0 <= j < i ==> #[trigger] keys@[j] == result_key_of(ranks@[j]),
        decreases n - i,
    {
        let k = match ranks[i] {
            Some(r) => (r as u64, 0u64),
            None => (u32::MAX as u64, 0u64),
        };
        keys.push(k);
        i = i + 1;
    }
    assert(keys@ =~= ranks@.map_values(|x: Option<u32>| result_key_of(x)));
    stable_order(&keys)
}

/// The rank shown for the player at `position` (0-based) of the ranked list: its own rank, or
/// its place in the list (as a `u32`, wrapping past its maximum).
pub fn displayed_rank(rank: Option<u32>, position: usize) -> (r: u32)
    requires
        position < usize::MAX,
    ensures
        r == match rank {
            Some(x) => x,
            None => (position + 1) as u32,
        },
{
    match rank {
        Some(x) => x,
        None => #[verifier::truncate] ((position + 1) as u32),
    }
}


// ---------------------------------------------------------------------------
// Finishing order and eliminations
// ---------------------------------------------------------------------------
/// `i` is the first position of `x` in `s`.
pub open spec fn is_first_at(s: Seq<u32>, x: u32, i: int) -> bool {
    &&& 0 <= i < s.len()
    &&& s[i] == x
    &&& forall|j: int| 0 <= j < i ==> s[j] != x
}

/// The first position of `x` in `s`, if it occurs.
pub open spec fn position_of(s: Seq<u32>, x: u32) -> Option<int> {
    if s.contains(x) {
        Some(choose|i: int| is_first_at(s, x, i))
    } else {
        None
    }
}

/// A value that occurs has a first position, and `position_of` gives it.
pub proof fn lemma_position_of(s: Seq<u32>, x: u32)
    ensures
        match position_of(s, x) {
            Some(p) => is_first_at(s, x, p),
            None => !s.contains(x),
        },
{
    if s.contains(x) {
        let k = choose|k: int| 0 <= k < s.len() && s[k] == x;
        lemma_first_exists(s, x, k);
    }
}

/// An occurrence at `k` means there is a first occurrence.
proof fn lemma_first_exists(s: Seq<u32>, x: u32, k: int)
    requires
        0 <= k < s.len(),
        s[k] == x,
    ensures
        exists|i: int| is_first_at(s, x, i),
    decreases k,
{
    if exists|j: int| 0 <= j < k && s[j] == x {
        let j = choose|j: int| 0 <= j < k && s[j] == x;
        lemma_first_exists(s, x, j);
    } else {
        assert(is_first_at(s, x, k));
    }
}

/// The first position of `x` in `s`.
pub fn position_in(s: &Vec<u32>, x: u32) -> (r: Option<usize>)
    ensures
        match r {
            Some(i) => position_of(s@, x) == Some(i as int),
            None => position_of(s@, x) is None,
        },
{
    let n = s.len();
    let mut i: usize = 0;
    while i < n
        invariant
            n == s@.len(),
            i <= n,
            forall|j: int| 0 <= j < i ==> s@[j] != x,
        decreases n - i,
    {
        if s[i] == x {
            proof {
                assert(is_first_at(s@, x, i as int));
                let c = choose|k: int| is_first_at(s@, x, k);
                assert(is_first_at(s@, x, c));
                if c < i {
                    assert(s@[c] != x);
                }
                if c > i {
                    assert(s@[i as int] != x);
                }
            }
            return Some(i);
        }
        i = i + 1;
    }
    proof {
        if s@.contains(x) {
            let k = choose|k: int| 0 <= k < s@.len() && s@[k] == x;
            assert(s@[k] != x);
        }
    }
    None
}

/// The sort key of a player in the finishing order: its position in the arrival order, and
/// players that never arrived last.
pub open spec fn finish_key_of(order: Seq<u32>, id: u32) -> (u64, u64) {
    match position_of(order, id) {
        Some(p) => (p as u64, 0),
        None => (u64::MAX, 0),
    }
}

/// When every player arrived (a non-empty arrival order as long as the player list, which is
/// not empty), the players `ids` listed in the order they arrived; `None` while the game goes
/// on.
pub fn finishing_order(ids: &Vec<u32>, order: &Vec<u32>) -> (r: Option<Vec<usize>>)
    ensures
        r is Some <==> (order@.len() > 0 && order@.len() == ids@.len() && ids@.len() > 0),
        match r {
            Some(v) => is_stable_order(ids@.map_values(|id: u32| finish_key_of(order@, id)), v@),
            None => true,
        },
{
    if order.len() == 0 || order.len() != ids.len() || ids.len() == 0 {
        return None;
    }
    let mut keys: Vec<(u64, u64)> = Vec::new();
    let n = ids.len();
    let mut i: usize = 0;
    while i < n
        invariant
            n == ids@.len(),
            i <= n,
            keys@.len() == i,
            forall|j: int| 0 <= j < i ==> #[trigger] keys@[j] == finish_key_of(order@, ids@[j]),
        decreases n - i,
    {
        let k = match position_in(order, ids[i]) {
            Some(p) => (p as u64, 0u64),
            None => (u64::MAX, 0u64),
        };
        keys.push(k);
        i = i + 1;
    }
    assert(keys@ =~= ids@.map_values(|id: u32| finish_key_of(order@, id)));
    Some(stable_order(&keys))
}

/// The elimination rank of a player: the first eliminated of `total` players is last
/// (`total`), each later one a place better; `None` for a player still in the game.
pub open spec fn elimination_rank_of(eliminated: Seq<u32>, total: nat, id: u32) -> Option<int> {
    match position_of(eliminated, id) {
        Some(p) => Some(total - p),
        None => None,
    }
}

/// The elimination ranks of the players `ids`, from the order in which players were
/// eliminated.
pub fn elimination_ranks(ids: &Vec<u32>, eliminated: &Vec<u32>) -> (r: Vec<Option<usize>>)
    requires
        forall|i: int|
            0 <= i < ids@.len() ==> match position_of(eliminated@, #[trigger] ids@[i]) {
                Some(p) => p <= ids@.len(),
                None => true,
            },
    ensures
        r@.len() == ids@.len(),
        forall|i: int|
            0 <= i < ids@.len() ==> match #[trigger] r@[i] {
                Some(k) => elimination_rank_of(eliminated@, ids@.len(), ids@[i]) == Some(k as int),
                None => elimination_rank_of(eliminated@, ids@.len(), ids@[i]) is None,
            },
{
    let total = ids.len();
    let mut out: Vec<Option<usize>> = Vec::new();
    let mut i: usize = 0;
    while i < total
        invariant
            total == ids@.len(),
            i <= total,
            out@.len() == i,
            forall|j: int|
                0 <= j < ids@.len() ==> match position_of(eliminated@, #[trigger] ids@[j]) {
                    Some(p) => p <= ids@.len(),
                    None => true,
                },
            forall|j: int|
                0 <= j < i ==> match #[trigger] out@[j] {
                    Some(k) => elimination_rank_of(eliminated@, ids@.len(), ids@[j]) == Some(
                        k as int,
                    ),
                    None => elimination_rank_of(eliminated@, ids@.len(), ids@[j]) is None,
                },
        decreases total - i,
    {
        let id = ids[i];
        let rank = match position_in(eliminated, id) {
            Some(p) => Some(total - p),
            None => None,
        };
        out.push(rank);
        i = i + 1;
    }
    out
}

/// The sort key of a player in the player legend: players still in the game first by id,
/// then the eliminated ones by rank, the better placed (later eliminated) first.
pub open spec fn legend_key_of(id: u32, rank: Option<usize>) -> (u64, u64) {
    match rank {
        None => (0, id as u64),
        Some(k) => (1, k as u64),
    }
}

/// The order in which the player legend lists the players `ids` with elimination ranks
/// `ranks`.
pub fn legend_order(ids: &Vec<u32>, ranks: &Vec<Option<usize>>) -> (r: Vec<usize>)
    requires
        ids@.len() == ranks@.len(),
    ensures
        is_stable_order(
            Seq::new(ids@.len(), |i: int| legend_key_of(ids@[i], ranks@[i])),
            r@,
        ),
{
    let mut keys: Vec<(u64, u64)> = Vec::new();
    let n = ids.len();
    let mut i: usize = 0;
    while i < n
        invariant
            n == ids@.len(),
            n == ranks@.len(),
            i <= n,
            keys@.len() == i,
            forall|j: int| 0 <= j < i ==> #[trigger] keys@[j] == legend_key_of(ids@[j], ranks@[j]),
        decreases n - i,
    {
        let k = match ranks[i] {
            None => (0u64, ids[i] as u64),
            Some(k) => (1u64, k as u64),
        };
        keys.push(k);
        i = i + 1;
    }
    assert(keys@ =~= Seq::new(ids@.len(), |i: int| legend_key_of(ids@[i], ranks@[i])));
    stable_order(&keys)
}

/// The legend lists every player still in the game before every eliminated one, and two
/// eliminated players by their ranks, the better placed first.
pub proof fn law_legend_alive_first(ids: Seq<u32>, ranks: Seq<Option<usize>>, order: Seq<usize>)
    requires
        ids.len() == ranks.len(),
        is_stable_order(Seq::new(ids.len(), |i: int| legend_key_of(ids[i], ranks[i])), order),
    ensures
        forall|a: int, b: int|
            0 <= a < b < order.len() && ranks[order[b] as int] is None ==> ranks[order[a] as int] is None,
        forall|a: int, b: int|
            0 <= a < b < order.len() && ranks[order[a] as int] is Some && ranks[order[b] as int] is Some
                ==> ranks[order[a] as int]->0 <= ranks[order[b] as int]->0,
{
    let keys = Seq::new(ids.len(), |i: int| legend_key_of(ids[i], ranks[i]));
    assert forall|a: int, b: int|
        0 <= a < b < order.len() && ranks[order[b] as int] is None implies ranks[order[a] as int] is None by {
        assert(key_le(keys[order[a] as int], keys[order[b] as int]));
    }
    assert forall|a: int, b: int|
        0 <= a < b < order.len() && ranks[order[a] as int] is Some && ranks[order[b] as int] is Some
            implies ranks[order[a] as int]->0 <= ranks[order[b] as int]->0 by {
        assert(key_le(keys[order[a] as int], keys[order[b] as int]));
    }
}

/// In the finishing order, of two arrived players the one that arrived first comes first,
/// and every arrived player comes before every player that never arrived.
pub proof fn law_finishing_follows_arrivals(ids: Seq<u32>, order: Seq<u32>, fin: Seq<usize>)
    requires
        order.len() <= usize::MAX,
        is_stable_order(ids.map_values(|id: u32| finish_key_of(order, id)), fin),
    ensures
        forall|a: int, b: int|
            0 <= a < b < fin.len() && position_of(order, ids[fin[b] as int]) is Some
                ==> position_of(order, ids[fin[a] as int]) is Some
                && position_of(order, ids[fin[a] as int])->0 <= position_of(order, ids[fin[b] as int])->0,
{
    let keys = ids.map_values(|id: u32| finish_key_of(order, id));
    assert forall|a: int, b: int|
        0 <= a < b < fin.len() && position_of(order, ids[fin[b] as int]) is Some implies position_of(
            order,
            ids[fin[a] as int],
        ) is Some && position_of(order, ids[fin[a] as int])->0 <= position_of(
            order,
            ids[fin[b] as int],
        )->0 by {
        assert(fin[a] < ids.len() && fin[b] < ids.len());
        assert(keys[fin[a] as int] == finish_key_of(order, ids[fin[a] as int]));
        assert(keys[fin[b] as int] == finish_key_of(order, ids[fin[b] as int]));
        assert(key_le(keys[fin[a] as int], keys[fin[b] as int]));
        lemma_position_of(order, ids[fin[a] as int]);
        lemma_position_of(order, ids[fin[b] as int]);
    }
}

} // verus!
