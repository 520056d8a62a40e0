//! The structure of the mesh-network picture: which peers form which mesh group, in group
//! order, which links are drawn inside a group, and which peers stand for their group in the
//! links between groups. The drawing itself (positions, radii, colours) is done from this plan.
use vstd::prelude::*;

verus! {

/// What the picture needs to know about one peer instance.
#[derive(Debug, Clone, Copy, PartialEq, Eq, Structural)]
pub struct PeerNode {
    /// Instance ID
    pub instance_id: u32,
    /// Mesh group ID (from the topology), if any
    pub mesh_group: Option<u32>,
    /// Whether the instance is connected
    pub is_connected: bool,
    /// Whether the peer is a bridge between groups
    pub is_bridge: bool,
    /// Whether the peer reports at least one connected peer
    pub has_links: bool,
}

/// Network information for a peer instance, as the topology reports it.
#[derive(Debug, Clone, Default)]
pub struct PeerNetworkInfo {
    /// Instance ID
    pub instance_id: u32,
    /// Player ID
    pub player_id: String,
    /// Connected peer IDs (player_id strings)
    pub connected_peers: Vec<String>,
    /// Connection state
    pub is_connected: bool,
    /// Mesh group ID (from topology)
    pub mesh_group: Option<u32>,
    /// Is this peer a bridge?
    pub is_bridge: bool,
}

impl PeerNetworkInfo {
    /// The network information of a peer instance: its connected peers are named by their
    /// player id, or by their peer id's text when the player is unknown; its mesh group and
    /// bridge role come from its topology, without one it is in no group and no bridge.
    pub fn from_state(
        instance_id: u32,
        player_id: String,
        peers: &Vec<(Option<String>, String)>,
        is_connected: bool,
        topology: Option<(u32, bool)>,
    ) -> (r: Self)
        ensures
            r.instance_id == instance_id,
            r.player_id@ == player_id@,
            r.connected_peers@.len() == peers@.len(),
            forall|i: int|
                0 <= i < peers@.len() ==> (#[trigger] r.connected_peers@[i])@ == match peers@[i].0 {
                    Some(p) => p@,
                    None => peers@[i].1@,
                },
            r.is_connected == is_connected,
            r.mesh_group == match topology {
                Some(t) => Some(t.0),
                None => None,
            },
            r.is_bridge == match topology {
                Some(t) => t.1,
                None => false,
            },
    {
        let mut names: Vec<String> = Vec::new();
        let n = peers.len();
        let mut i: usize = 0;
        while i < n
            invariant
                n == peers@.len(),
                i <= n,
                names@.len() == i,
                forall|j: int|
                    0 <= j < i ==> (#[trigger] names@[j])@ == match peers@[j].0 {
                        Some(p) => p@,
                        None => peers@[j].1@,
                    },
            decreases n - i,
        {
            let name = match &peers[i].0 {
                Some(p) => p.clone(),
                None => peers[i].1.clone(),
            };
            names.push(name);
            i = i + 1;
        }
        let (mesh_group, is_bridge) = match topology {
            Some(t) => (Some(t.0), t.1),
            None => (None, false),
        };
        PeerNetworkInfo {
            instance_id,
            player_id,
            connected_peers: names,
            is_connected,
            mesh_group,
            is_bridge,
        }
    }

    /// What the picture needs of this peer.
    pub fn node(&self) -> (r: PeerNode)
        ensures
            r.instance_id == self.instance_id,
            r.mesh_group == self.mesh_group,
            r.is_connected == self.is_connected,
            r.is_bridge == self.is_bridge,
            r.has_links == (self.connected_peers@.len() > 0),
    {
        PeerNode {
            instance_id: self.instance_id,
            mesh_group: self.mesh_group,
            is_connected: self.is_connected,
            is_bridge: self.is_bridge,
            has_links: self.connected_peers.len() > 0,
        }
    }
}

/// Number of distinct group colours; a group's colour is its id modulo this number.
pub const GROUP_COLOR_COUNT: u32 = 8;

/// A way of picking peers out of a list.
#[derive(Debug, Clone, Copy, PartialEq, Eq, Structural)]
pub enum Selection {
    /// Connected peers
    Connected,
    /// Connected peers that report links
    Linked,
    /// Bridges
    Bridges,
    /// Connected bridges
    LiveBridges,
}

/// Whether `p` is picked by `kind`.
pub open spec fn selects(kind: Selection, p: PeerNode) -> bool {
    match kind {
        Selection::Connected => p.is_connected,
        Selection::Linked => p.is_connected && p.has_links,
        Selection::Bridges => p.is_bridge,
        Selection::LiveBridges => p.is_bridge && p.is_connected,
    }
}

/// The positions `0..n`.
pub open spec fn indices(n: int) -> Seq<usize> {
    Seq::new(n as nat, |i: int| i as usize)
}

/// The positions (ascending) of the peers in mesh group `group` (`None`: in no group).
pub open spec fn members_of(peers: Seq<PeerNode>, group: Option<u32>) -> Seq<usize> {
    indices(peers.len() as int).filter(|i: usize| peers[i as int].mesh_group == group)
}

/// The members of `members` that `kind` picks, in order.
pub open spec fn selected(peers: Seq<PeerNode>, members: Seq<usize>, kind: Selection) -> Seq<usize> {
    members.filter(|i: usize| selects(kind, peers[i as int]))
}

/// The peers that stand for a group in the links to later groups: its connected bridges, or
/// without any its first connected peer.
pub open spec fn representatives_of(peers: Seq<PeerNode>, members: Seq<usize>) -> Seq<usize> {
    let b = selected(peers, members, Selection::LiveBridges);
    let c = selected(peers, members, Selection::Connected);
    if b.len() > 0 {
        b
    } else if c.len() > 0 {
        c.take(1)
    } else {
        c
    }
}

/// `ids` lists each mesh group of `peers` once, in increasing order.
pub open spec fn is_group_list(peers: Seq<PeerNode>, ids: Seq<u32>) -> bool {
    &&& forall|a: int, b: int| 0 <= a < b < ids.len() ==> ids[a] < ids[b]
    &&& forall|g: u32|
        ids.contains(g) <==> exists|i: int| 0 <= i < peers.len() && peers[i].mesh_group == Some(g)
}

/// The links drawn inside a group between its linked peers `c`: every pair, the earlier one
/// first, grouped by the first peer; this is the part for the first `i` peers of `c`.
pub open spec fn pairs_upto(c: Seq<usize>, i: int) -> Seq<(usize, usize)>
    decreases i,
{
    if i <= 0 {
        Seq::empty()
    } else {
        pairs_upto(c, i - 1) + Seq::new(
            (c.len() - i) as nat,
            |k: int| (c[i - 1], c[i + k]),
        )
    }
}

/// Every pair of `c`, the earlier one first.
pub open spec fn all_pairs(c: Seq<usize>) -> Seq<(usize, usize)> {
    pairs_upto(c, c.len() as int)
}

/// Each of `reps`, in order, paired with each of `targets`, in order.
pub open spec fn cross(reps: Seq<usize>, targets: Seq<usize>) -> Seq<(usize, usize)>
    decreases reps.len(),
{
    if reps.len() == 0 {
        Seq::empty()
    } else {
        cross(reps.drop_last(), targets) + targets.map_values(|t: usize| (reps.last(), t))
    }
}

/// The members of `members` that `kind` picks.
pub fn select(peers: &Vec<PeerNode>, members: &Vec<usize>, kind: Selection) -> (r: Vec<usize>)
    requires
        forall|k: int| 0 <= k < members@.len() ==> #[trigger] members@[k] < peers@.len(),
    ensures
        r@ == selected(peers@, members@, kind),
{
    let mut out: Vec<usize> = Vec::new();
    let n = members.len();
    let mut k: usize = 0;
    let ghost pred = |i: usize| selects(kind, peers@[i as int]);
    while k < n
        invariant
            n == members@.len(),
            k <= n,
            forall|j: int| 0 <= j < members@.len() ==> #[trigger] members@[j] < peers@.len(),
            pred == (|i: usize| selects(kind, peers@[i as int])),
            out@ == members@.take(k as int).filter(pred),
        decreases n - k,
    {
        let i = members[k];
        let p = peers[i];
        let pick = match kind {
            Selection::Connected => p.is_connected,
            Selection::Linked => p.is_connected && p.has_links,
            Selection::Bridges => p.is_bridge,
            Selection::LiveBridges => p.is_bridge && p.is_connected,
        };
        proof {
            members@.lemma_take_succ_push(k as int);
            members@.take(k as int).lemma_filter_push(i, pred);
        }
        if pick {
            out.push(i);
        }
        k = k + 1;
    }
    proof {
        members@.lemma_take_len();
    }
    out
}

/// The positions of the peers in mesh group `group` (`None`: in no group).
pub fn members_in(peers: &Vec<PeerNode>, group: Option<u32>) -> (r: Vec<usize>)
    ensures
        r@ == members_of(peers@, group),
        forall|k: int| 0 <= k < r@.len() ==> #[trigger] r@[k] < peers@.len(),
{
    let mut out: Vec<usize> = Vec::new();
    let n = peers.len();
    let mut i: usize = 0;
    let ghost pred = |i: usize| peers@[i as int].mesh_group == group;
    while i < n
        invariant
            n == peers@.len(),
            i <= n,
            pred == (|i: usize| peers@[i as int].mesh_group == group),
            out@ == indices(i as int).filter(pred),
        decreases n - i,
    {
        proof {
            assert(indices(i + 1) =~= indices(i as int).push(i));
            indices(i as int).lemma_filter_push(i, pred);
        }
        if peers[i].mesh_group == group {
            out.push(i);
        }
        i = i + 1;
    }
    proof {
        let f = indices(n as int).filter(pred);
        assert forall|k: int| 0 <= k < f.len() implies #[trigger] f[k] < peers@.len() by {
            assert(f.contains(f[k]));
            indices(n as int).lemma_filter_contains_rev(pred, f[k]);
        }
    }
    out
}

/// The mesh groups of `peers`, each once, in increasing order.
pub fn group_ids(peers: &Vec<PeerNode>) -> (r: Vec<u32>)
    ensures
        is_group_list(peers@, r@),
{
    let mut out: Vec<u32> = Vec::new();
    let n = peers.len();
    let mut i: usize = 0;
    while i < n
        invariant
            n == peers@.len(),
            i <= n,
            forall|a: int, b: int| 0 <= a < b < out@.len() ==> out@[a] < out@[b],
            forall|g: u32|
                out@.contains(g) <==> exists|j: int| 0 <= j < i && peers@[j].mesh_group == Some(g),
        decreases n - i,
    {
        match peers[i].mesh_group {
            Some(g) => {
                let mut k: usize = 0;
                while k < out.len() && out[k] < g
                    invariant
                        k <= out@.len(),
                        forall|a: int| 0 <= a < k ==> out@[a] < g,
                    decreases out@.len() - k,
                {
                    k = k + 1;
                }
                if k < out.len() && out[k] == g {
                    proof {
                        assert forall|h: u32| out@.contains(h) <==> exists|j: int|
                            0 <= j < i + 1 && peers@[j].mesh_group == Some(h) by {
                            if exists|j: int| 0 <= j < i + 1 && peers@[j].mesh_group == Some(h) {
                                let j = choose|j: int| 0 <= j < i + 1 && peers@[j].mesh_group == Some(h);
                                if j == i {
                                    assert(out@[k as int] == h);
                                }
                            }
                        }
                    }
                } else {
                    let ghost before = out@;
                    proof {
                        // everything from k on is larger than g
                        assert forall|a: int| k <= a < before.len() implies g < #[trigger] before[a] by {
                            assert(g < before[k as int] || g == before[k as int]);
                            if a > k {
                                assert(before[k as int] < before[a]);
                            }
                        }
                    }
                    out.insert(k, g);
                    proof {
                        before.insert_ensures(k as int, g);
                        assert forall|a: int, b: int| 0 <= a < b < out@.len() implies out@[a]
                            < out@[b] by {
                            if a < k && b < k {
                            } else if a < k && b == k {
                            } else if a < k && b > k {
                                assert(out@[b] == before[b - 1]);
                            } else if a == k {
                                assert(out@[b] == before[b - 1]);
                            } else {
                                assert(out@[a] == before[a - 1] && out@[b] == before[b - 1]);
                            }
                        }
                        assert forall|h: u32| out@.contains(h) <==> exists|j: int|
                            0 <= j < i + 1 && peers@[j].mesh_group == Some(h) by {
                            if out@.contains(h) {
                                let a = choose|a: int| 0 <= a < out@.len() && out@[a] == h;
                                if a < k {
                                    assert(before[a] == h);
                                    assert(before.contains(h));
                                } else if a > k {
                                    assert(before[a - 1] == h);
                                    assert(before.contains(h));
                                }
                            }
                            if exists|j: int| 0 <= j < i + 1 && peers@[j].mesh_group == Some(h) {
                                let j = choose|j: int| 0 <= j < i + 1 && peers@[j].mesh_group == Some(h);
                                if j == i {
                                    assert(out@[k as int] == h);
                                } else {
                                    assert(before.contains(h));
                                    let a = choose|a: int| 0 <= a < before.len() && before[a] == h;
                                    if a < k {
                                        assert(out@[a] == h);
                                    } else {
                                        assert(out@[a + 1] == h);
                                    }
                                }
                            }
                        }
                    }
                }
            },
            None => {
                proof {
                    assert forall|h: u32| out@.contains(h) <==> exists|j: int|
                        0 <= j < i + 1 && peers@[j].mesh_group == Some(h) by {
                        if exists|j: int| 0 <= j < i + 1 && peers@[j].mesh_group == Some(h) {
                            let j = choose|j: int| 0 <= j < i + 1 && peers@[j].mesh_group == Some(h);
                            assert(j != i);
                        }
                    }
                }
            },
        }
        i = i + 1;
    }
    out
}

/// Every pair of `c`, the earlier one first, grouped by the first one.
pub fn pairs(c: &Vec<usize>) -> (r: Vec<(usize, usize)>)
    ensures
        r@ == all_pairs(c@),
{
    let mut out: Vec<(usize, usize)> = Vec::new();
    let n = c.len();
    let mut i: usize = 0;
    while i < n
        invariant
            n == c@.len(),
            i <= n,
            out@ == pairs_upto(c@, i as int),
        decreases n - i,
    {
        let ghost start = out@;
        let mut j: usize = i + 1;
        while j < n
            invariant
                n == c@.len(),
                i < n,
                i + 1 <= j <= n,
                start == pairs_upto(c@, i as int),
                out@ == start + Seq::new((j - i - 1) as nat, |k: int| (c@[i as int], c@[i + 1 + k])),
            decreases n - j,
        {
            out.push((c[i], c[j]));
            proof {
                assert(out@ =~= start + Seq::new((j + 1 - i - 1) as nat, |k: int| (c@[i as int], c@[i + 1 + k])));
            }
            j = j + 1;
        }
        proof {
            assert(Seq::new((n - i - 1) as nat, |k: int| (c@[i as int], c@[i + 1 + k])) =~= Seq::new(
                (c@.len() - (i + 1)) as nat,
                |k: int| (c@[(i + 1) - 1], c@[(i + 1) + k]),
            ));
        }
        i = i + 1;
    }
    out
}

/// Each of `reps`, in order, paired with each of `targets`, in order.
pub fn cross_pairs(reps: &Vec<usize>, targets: &Vec<usize>) -> (r: Vec<(usize, usize)>)
    ensures
        r@ == cross(reps@, targets@),
{
    let mut out: Vec<(usize, usize)> = Vec::new();
    let n = reps.len();
    let m = targets.len();
    let mut i: usize = 0;
    while i < n
        invariant
            n == reps@.len(),
            m == targets@.len(),
            i <= n,
            out@ == cross(reps@.take(i as int), targets@),
        decreases n - i,
    {
        let ghost start = out@;
        let rep = reps[i];
        let mut j: usize = 0;
        while j < m
            invariant
                m == targets@.len(),
                j <= m,
                out@ == start + targets@.take(j as int).map_values(|t: usize| (rep, t)),
            decreases m - j,
        {
            out.push((rep, targets[j]));
            proof {
                assert(targets@.take(j + 1).map_values(|t: usize| (rep, t)) =~= targets@.take(
                    j as int,
                ).map_values(|t: usize| (rep, t)).push((rep, targets@[j as int])));
            }
            j = j + 1;
        }
        proof {
            assert(reps@.take(i + 1).drop_last() =~= reps@.take(i as int));
            assert(targets@.take(m as int) =~= targets@);
        }
        i = i + 1;
    }
    proof {
        assert(reps@.take(n as int) =~= reps@);
    }
    out
}

/// The peers that stand for a group in the links to later groups.
pub fn representatives(peers: &Vec<PeerNode>, members: &Vec<usize>) -> (r: Vec<usize>)
    requires
        forall|k: int| 0 <= k < members@.len() ==> #[trigger] members@[k] < peers@.len(),
    ensures
        r@ == representatives_of(peers@, members@),
{
    let b = select(peers, members, Selection::LiveBridges);
    if b.len() > 0 {
        return b;
    }
    let c = select(peers, members, Selection::Connected);
    if c.len() > 0 {
        let mut first: Vec<usize> = Vec::new();
        first.push(c[0]);
        assert(first@ =~= c@.take(1));
        first
    } else {
        c
    }
}

/// The group positions `a..b`.
pub open spec fn positions_from(a: int, b: int) -> Seq<usize> {
    Seq::new((b - a) as nat, |k: int| (a + k) as usize)
}

/// Whether the group `g` has a connected peer.
pub open spec fn group_is_live(peers: Seq<PeerNode>, g: u32) -> bool {
    selected(peers, members_of(peers, Some(g)), Selection::Connected).len() > 0
}

/// The positions of the groups after position `gi` (in the list `ids`) that have a connected
/// peer: the groups a representative of group `gi` is linked to.
pub open spec fn later_live_groups(peers: Seq<PeerNode>, ids: Seq<u32>, gi: int) -> Seq<usize> {
    positions_from(gi + 1, ids.len() as int).filter(|oj: usize| group_is_live(peers, ids[oj as int]))
}

/// One mesh group of the picture.
#[derive(Debug, Clone)]
pub struct MeshGroup {
    /// Mesh group ID
    pub group_id: u32,
    /// Positions of its peers, in the order given
    pub members: Vec<usize>,
    /// Number of its bridges
    pub bridge_count: usize,
    /// Index of its colour (below [`GROUP_COLOR_COUNT`])
    pub color_index: u32,
    /// Links drawn inside the group: pairs of peer positions
    pub links: Vec<(usize, usize)>,
    /// Links to later groups: (peer position, group position)
    pub bridge_links: Vec<(usize, usize)>,
}

/// The plan of the whole picture.
#[derive(Debug, Clone)]
pub struct MeshPlan {
    /// The mesh groups, by increasing group ID
    pub groups: Vec<MeshGroup>,
    /// Positions of the peers in no group, in the order given
    pub ungrouped: Vec<usize>,
    /// Size of the largest group (1 when there is none), which sizes the clusters
    pub largest_group: usize,
}

/// The IDs of a list of groups.
pub open spec fn ids_of(groups: Seq<MeshGroup>) -> Seq<u32> {
    groups.map_values(|g: MeshGroup| g.group_id)
}

/// `g` is the plan of the group at position `gi` of `ids`.
pub open spec fn is_group_plan(peers: Seq<PeerNode>, ids: Seq<u32>, gi: int, g: MeshGroup) -> bool {
    let members = members_of(peers, Some(ids[gi]));
    &&& g.group_id == ids[gi]
    &&& g.members@ == members
    &&& g.bridge_count == selected(peers, members, Selection::Bridges).len()
    &&& g.color_index == ids[gi] % GROUP_COLOR_COUNT
    &&& g.links@ == all_pairs(selected(peers, members, Selection::Linked))
    &&& g.bridge_links@ == cross(representatives_of(peers, members), later_live_groups(peers, ids, gi))
}

/// The plan of the mesh picture of `peers`.
#[verifier::spinoff_prover]
pub fn mesh_plan(peers: &Vec<PeerNode>) -> (r: MeshPlan)
    ensures
        is_group_list(peers@, ids_of(r.groups@)),
        forall|gi: int|
            0 <= gi < r.groups@.len() ==> is_group_plan(peers@, ids_of(r.groups@), gi, #[trigger] r.groups@[gi]),
        r.ungrouped@ == members_of(peers@, None),
        r.largest_group >= 1,
        forall|gi: int| 0 <= gi < r.groups@.len() ==> r.largest_group >= (#[trigger] r.groups@[gi]).members@.len(),
        r.largest_group == 1 || exists|gi: int|
            0 <= gi < r.groups@.len() && r.largest_group == (#[trigger] r.groups@[gi]).members@.len(),
{
    let ids = group_ids(peers);
    let ng = ids.len();
    // which groups have a connected peer
    let mut live: Vec<bool> = Vec::new();
    let mut gi: usize = 0;
    while gi < ng
        invariant
            ng == ids@.len(),
            gi <= ng,
            live@.len() == gi,
            forall|j: int| 0 <= j < gi ==> #[trigger] live@[j] == group_is_live(peers@, ids@[j]),
        decreases ng - gi,
    {
        let members = members_in(peers, Some(ids[gi]));
        let connected = select(peers, &members, Selection::Connected);
        live.push(connected.len() > 0);
        gi = gi + 1;
    }
    let mut groups: Vec<MeshGroup> = Vec::new();
    let mut largest: usize = 1;
    gi = 0;
    while gi < ng
        invariant
            ng == ids@.len(),
            gi <= ng,
            live@.len() == ng,
            forall|j: int| 0 <= j < ng ==> #[trigger] live@[j] == group_is_live(peers@, ids@[j]),
            groups@.len() == gi,
            forall|j: int| 0 <= j < gi ==> is_group_plan(peers@, ids@, j, #[trigger] groups@[j]),
            largest >= 1,
            forall|j: int| 0 <= j < gi ==> largest >= (#[trigger] groups@[j]).members@.len(),
            largest == 1 || exists|j: int| 0 <= j < gi && largest == (#[trigger] groups@[j]).members@.len(),
        decreases ng - gi,
    {
        let gid = ids[gi];
        let members = members_in(peers, Some(gid));
        let bridges = select(peers, &members, Selection::Bridges);
        let linked = select(peers, &members, Selection::Linked);
        let links = pairs(&linked);
        let reps = representatives(peers, &members);
        let mut targets: Vec<usize> = Vec::new();
        let mut oj: usize = gi + 1;
        let ghost pred = |oj: usize| group_is_live(peers@, ids@[oj as int]);
        while oj < ng
            invariant
                ng == ids@.len(),
                live@.len() == ng,
                forall|j: int| 0 <= j < ng ==> #[trigger] live@[j] == group_is_live(peers@, ids@[j]),
                gi < ng,
                gi + 1 <= oj <= ng,
                pred == (|oj: usize| group_is_live(peers@, ids@[oj as int])),
                targets@ == positions_from(gi + 1, oj as int).filter(pred),
            decreases ng - oj,
        {
            proof {
                assert(positions_from(gi + 1, oj + 1) =~= positions_from(gi + 1, oj as int).push(oj));
                positions_from(gi + 1, oj as int).lemma_filter_push(oj, pred);
            }
            if live[oj] {
                targets.push(oj);
            }
            oj = oj + 1;
        }
        let bridge_links = cross_pairs(&reps, &targets);
        let size = members.len();
        let ghost before = groups@;
        groups.push(
            MeshGroup {
                group_id: gid,
                members,
                bridge_count: bridges.len(),
                color_index: gid % GROUP_COLOR_COUNT,
                links,
                bridge_links,
            },
        );
        proof {
            assert(groups@[gi as int].members@.len() == size);
            assert forall|j: int| 0 <= j < gi + 1 implies is_group_plan(peers@, ids@, j, #[trigger] groups@[j]) by {
                if j < gi {
                    assert(groups@[j] == before[j]);
                }
            }
        }
        if size > largest {
            largest = size;
        }
        proof {
            assert forall|j: int| 0 <= j < gi + 1 implies largest >= (#[trigger] groups@[j]).members@.len() by {
                if j < gi {
                    assert(groups@[j] == before[j]);
                }
            }
            if largest != 1 {
                if largest == size {
                    assert(groups@[gi as int].members@.len() == largest);
                } else {
                    let j = choose|j: int| 0 <= j < gi && largest == (#[trigger] before[j]).members@.len();
                    assert(groups@[j] == before[j]);
                }
            }
        }
        gi = gi + 1;
    }
    let ungrouped = members_in(peers, None);
    proof {
        assert(ids_of(groups@) =~= ids@);
    }
    let plan = MeshPlan { groups, ungrouped, largest_group: largest };
    proof {
        assert(plan.groups@ == groups@);
        if plan.largest_group != 1 {
            let j = choose|j: int| 0 <= j < ng && largest == (#[trigger] groups@[j]).members@.len();
            assert(plan.largest_group == (plan.groups@[j]).members@.len());
        }
    }
    plan
}

/// Every peer is drawn exactly once: among the members of its own group (or with the peers
/// in no group), and among no other group's.
pub proof fn law_each_peer_placed_once(peers: Seq<PeerNode>, i: int, other: Option<u32>)
    requires
        peers.len() <= usize::MAX,
        0 <= i < peers.len(),
        other != peers[i].mesh_group,
    ensures
        members_of(peers, peers[i].mesh_group).contains(i as usize),
        !members_of(peers, other).contains(i as usize),
{
    let own = |k: usize| peers[k as int].mesh_group == peers[i].mesh_group;
    let oth = |k: usize| peers[k as int].mesh_group == other;
    let idx = indices(peers.len() as int);
    assert(idx[i] == i as usize);
    idx.lemma_filter_contains(own, i);
    if idx.filter(oth).contains(i as usize) {
        let a = choose|a: int| 0 <= a < idx.filter(oth).len() && idx.filter(oth)[a] == i as usize;
        idx.lemma_filter_pred(oth, a);
    }
}

/// Each link inside a group joins a linked peer to one listed after it, and there is one link
/// per pair: `n` peers give `n * (n - 1) / 2` links.
pub proof fn law_links_are_pairs(c: Seq<usize>, i: int)
    requires
        0 <= i <= c.len(),
    ensures
        forall|k: int|
            0 <= k < pairs_upto(c, i).len() ==> exists|x: int, y: int|
                0 <= x < y < c.len() && x < i && #[trigger] pairs_upto(c, i)[k] == (c[x], c[y]),
        2 * pairs_upto(c, i).len() == i * (2 * c.len() - i - 1),
    decreases i,
{
    if i > 0 {
        law_links_are_pairs(c, i - 1);
        let prev = pairs_upto(c, i - 1);
        let row = Seq::new((c.len() - i) as nat, |k: int| (c[i - 1], c[i + k]));
        assert(pairs_upto(c, i) == prev + row);
        assert forall|k: int| 0 <= k < pairs_upto(c, i).len() implies exists|x: int, y: int|
            0 <= x < y < c.len() && x < i && #[trigger] pairs_upto(c, i)[k] == (c[x], c[y]) by {
            if k < prev.len() {
                assert(pairs_upto(c, i)[k] == prev[k]);
                let (x, y) = choose|x: int, y: int| 0 <= x < y < c.len() && x < i - 1 && prev[k] == (c[x], c[y]);
                assert(0 <= x < y < c.len() && x < i && pairs_upto(c, i)[k] == (c[x], c[y]));
            } else {
                let m = k - prev.len();
                assert(pairs_upto(c, i)[k] == row[m]);
                assert(pairs_upto(c, i)[k] == (c[i - 1], c[i + m]));
            }
        }
        let n = c.len() as int;
        assert((i - 1) * (2 * n - i) + 2 * (n - i) == i * (2 * n - i - 1)) by (nonlinear_arith);
    }
}

/// Which peers stand for a group: every connected bridge among its members does, and only
/// members that are connected do. Without a connected bridge, exactly one member stands for the
/// group when one is connected: the first connected member.
pub proof fn law_representatives(peers: Seq<PeerNode>, members: Seq<usize>)
    requires
        forall|k: int| 0 <= k < members.len() ==> #[trigger] members[k] < peers.len(),
    ensures
        forall|k: int|
            0 <= k < members.len() && peers[members[k] as int].is_bridge
                && peers[members[k] as int].is_connected ==> representatives_of(peers, members).contains(
                #[trigger] members[k],
            ),
        forall|r: usize|
            representatives_of(peers, members).contains(r) ==> members.contains(r)
                && peers[r as int].is_connected,
        (forall|k: int|
            0 <= k < members.len() ==> !(peers[members[k] as int].is_bridge
                && #[trigger] peers[members[k] as int].is_connected)) ==> (forall|j: int|
            0 <= j < members.len() && #[trigger] peers[members[j] as int].is_connected && (forall|k: int|
                0 <= k < j ==> !peers[members[k] as int].is_connected) ==> representatives_of(
                peers,
                members,
            ) == seq![members[j]]),
{
    broadcast use vstd::seq_lib::group_filter_ensures;
    let bp = |i: usize| selects(Selection::LiveBridges, peers[i as int]);
    let cp = |i: usize| selects(Selection::Connected, peers[i as int]);
    let b = members.filter(bp);
    let c = members.filter(cp);
    assert forall|k: int|
        0 <= k < members.len() && peers[members[k] as int].is_bridge
            && peers[members[k] as int].is_connected implies representatives_of(peers, members).contains(
        #[trigger] members[k],
    ) by {
        members.lemma_filter_contains(bp, k);
        assert(b.len() > 0);
    }
    assert forall|r: usize| representatives_of(peers, members).contains(r) implies members.contains(r)
        && peers[r as int].is_connected by {
        let reps = representatives_of(peers, members);
        let a = choose|a: int| 0 <= a < reps.len() && reps[a] == r;
        if b.len() > 0 {
            members.lemma_filter_pred(bp, a);
            members.lemma_filter_contains_rev(bp, r);
        } else {
            assert(c[a] == r);
            members.lemma_filter_pred(cp, a);
            members.lemma_filter_contains_rev(cp, r);
        }
    }
    if forall|k: int|
        0 <= k < members.len() ==> !(peers[members[k] as int].is_bridge
            && #[trigger] peers[members[k] as int].is_connected) {
        assert(b.len() == 0) by {
            if b.len() > 0 {
                members.lemma_filter_pred(bp, 0);
                members.lemma_filter_contains_rev(bp, b[0]);
                let k = choose|k: int| 0 <= k < members.len() && members[k] == b[0];
                assert(peers[members[k] as int].is_connected);
            }
        }
        assert forall|j: int|
            0 <= j < members.len() && #[trigger] peers[members[j] as int].is_connected && (forall|k: int|
                0 <= k < j ==> !peers[members[k] as int].is_connected) implies representatives_of(
            peers,
            members,
        ) == seq![members[j]] by {
            lemma_first_selected(members, cp, j);
            assert(c.take(1) =~= seq![members[j]]);
        }
    }
}

/// When the member at `j` is the first one `p` picks, it is the first of the picked ones.
proof fn lemma_first_selected(members: Seq<usize>, p: spec_fn(usize) -> bool, j: int)
    requires
        0 <= j < members.len(),
        p(members[j]),
        forall|k: int| 0 <= k < j ==> !p(members[k]),
    ensures
        members.filter(p).len() > 0,
        members.filter(p)[0] == members[j],
    decreases members.len(),
{
    reveal(Seq::filter);
    if j < members.len() - 1 {
        lemma_first_selected(members.drop_last(), p, j);
        assert(members.drop_last()[j] == members[j]);
        assert forall|k: int| 0 <= k < j implies !p(members.drop_last()[k]) by {
            assert(members.drop_last()[k] == members[k]);
        }
    } else {
        assert(members.drop_last().filter(p).len() == 0) by {
            if members.drop_last().filter(p).len() > 0 {
                members.drop_last().lemma_filter_pred(p, 0);
                members.drop_last().lemma_filter_contains_rev(p, members.drop_last().filter(p)[0]);
                let x = members.drop_last().filter(p)[0];
                let k = choose|k: int| 0 <= k < members.drop_last().len() && members.drop_last()[k] == x;
                assert(members[k] == x);
            }
        }
    }
}

/// Every representative of a group is linked to every later group that has a connected peer,
/// and every bridge link is such a pair.
pub proof fn law_bridge_links(reps: Seq<usize>, targets: Seq<usize>)
    ensures
        forall|r: usize, t: usize|
            reps.contains(r) && targets.contains(t) ==> #[trigger] cross(reps, targets).contains((r, t)),
        forall|x: (usize, usize)|
            #[trigger] cross(reps, targets).contains(x) ==> reps.contains(x.0) && targets.contains(x.1),
    decreases reps.len(),
{
    if reps.len() > 0 {
        let prev = reps.drop_last();
        let row = targets.map_values(|t: usize| (reps.last(), t));
        law_bridge_links(prev, targets);
        assert(cross(reps, targets) == cross(prev, targets) + row);
        assert forall|r: usize, t: usize|
            reps.contains(r) && targets.contains(t) implies #[trigger] cross(reps, targets).contains((r, t)) by {
            let a = choose|a: int| 0 <= a < reps.len() && reps[a] == r;
            let bi = choose|bi: int| 0 <= bi < targets.len() && targets[bi] == t;
            if a < reps.len() - 1 {
                assert(prev[a] == r);
                assert(prev.contains(r));
                assert(cross(prev, targets).contains((r, t)));
                let q = choose|q: int| 0 <= q < cross(prev, targets).len() && cross(prev, targets)[q] == (r, t);
                assert(cross(reps, targets)[q] == (r, t));
            } else {
                assert(row[bi] == (r, t));
                assert(cross(reps, targets)[cross(prev, targets).len() + bi] == (r, t));
            }
        }
        assert forall|x: (usize, usize)| #[trigger] cross(reps, targets).contains(x) implies reps.contains(
            x.0,
        ) && targets.contains(x.1) by {
            let q = choose|q: int| 0 <= q < cross(reps, targets).len() && cross(reps, targets)[q] == x;
            if q < cross(prev, targets).len() {
                assert(cross(prev, targets)[q] == x);
                assert(cross(prev, targets).contains(x));
                let a = choose|a: int| 0 <= a < prev.len() && prev[a] == x.0;
                assert(reps[a] == x.0);
            } else {
                let bi = q - cross(prev, targets).len();
                assert(row[bi] == x);
                assert(targets[bi] == x.1);
                assert(reps[reps.len() - 1] == x.0);
            }
        }
    }
}

/// In a group's plan, every connected bridge of the group is linked to every later group that
/// has a connected peer.
pub proof fn law_every_live_bridge_links(peers: Seq<PeerNode>, ids: Seq<u32>, gi: int, g: MeshGroup)
    requires
        0 <= gi < ids.len(),
        is_group_plan(peers, ids, gi, g),
    ensures
        forall|m: usize, t: usize|
            g.members@.contains(m) && peers[m as int].is_bridge && peers[m as int].is_connected
                && later_live_groups(peers, ids, gi).contains(t) ==> #[trigger] g.bridge_links@.contains((m, t)),
{
    let members = members_of(peers, Some(ids[gi]));
    let pred = |i: usize| peers[i as int].mesh_group == Some(ids[gi]);
    let idx = indices(peers.len() as int);
    assert forall|k: int| 0 <= k < members.len() implies #[trigger] members[k] < peers.len() by {
        assert(members.contains(members[k]));
        idx.lemma_filter_contains_rev(pred, members[k]);
    }
    law_representatives(peers, members);
    law_bridge_links(representatives_of(peers, members), later_live_groups(peers, ids, gi));
    assert forall|m: usize, t: usize|
        g.members@.contains(m) && peers[m as int].is_bridge && peers[m as int].is_connected
            && later_live_groups(peers, ids, gi).contains(t) implies #[trigger] g.bridge_links@.contains((m, t)) by {
        let k = choose|k: int| 0 <= k < members.len() && members[k] == m;
        assert(representatives_of(peers, members).contains(members[k]));
    }
}

} // verus!
