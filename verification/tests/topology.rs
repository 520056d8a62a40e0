use marble_client::topology::{
    PeerNetworkInfo, cross_pairs, group_ids, members_in, mesh_plan, pairs, representatives, select, PeerNode,
    Selection, GROUP_COLOR_COUNT,
};

fn node(id: u32, group: Option<u32>, connected: bool, bridge: bool, links: bool) -> PeerNode {
    PeerNode { instance_id: id, mesh_group: group, is_connected: connected, is_bridge: bridge, has_links: links }
}

fn sample() -> Vec<PeerNode> {
    vec![
        node(1, Some(9), true, false, true),   // 0
        node(2, Some(2), true, true, true),    // 1
        node(3, None, true, false, false),     // 2
        node(4, Some(9), true, false, true),   // 3
        node(5, Some(2), false, false, false), // 4
        node(6, Some(9), false, true, true),   // 5
        node(7, Some(4), false, false, false), // 6
    ]
}

#[test]
fn group_ids_are_sorted_and_distinct() {
    assert_eq!(group_ids(&sample()), vec![2, 4, 9]);
    assert!(group_ids(&vec![node(1, None, true, false, false)]).is_empty());
}

#[test]
fn members_keep_the_given_order() {
    let p = sample();
    assert_eq!(members_in(&p, Some(9)), vec![0, 3, 5]);
    assert_eq!(members_in(&p, None), vec![2]);
    assert!(members_in(&p, Some(7)).is_empty());
}

#[test]
fn selections() {
    let p = sample();
    let m = vec![0usize, 3, 5];
    assert_eq!(select(&p, &m, Selection::Connected), vec![0, 3]);
    assert_eq!(select(&p, &m, Selection::Linked), vec![0, 3]);
    assert_eq!(select(&p, &m, Selection::Bridges), vec![5]);
    assert!(select(&p, &m, Selection::LiveBridges).is_empty());
}

#[test]
fn representatives_prefer_connected_bridges() {
    let p = sample();
    // group 9: its bridge is not connected, so the first connected peer stands for it
    assert_eq!(representatives(&p, &vec![0, 3, 5]), vec![0]);
    // group 2: a connected bridge
    assert_eq!(representatives(&p, &vec![1, 4]), vec![1]);
    // group 4: nobody connected
    assert!(representatives(&p, &vec![6]).is_empty());
}

#[test]
fn pairs_and_cross() {
    assert_eq!(pairs(&vec![4, 7, 9]), vec![(4, 7), (4, 9), (7, 9)]);
    assert!(pairs(&vec![4]).is_empty());
    assert_eq!(cross_pairs(&vec![1, 2], &vec![5, 6]), vec![(1, 5), (1, 6), (2, 5), (2, 6)]);
    assert!(cross_pairs(&vec![1], &vec![]).is_empty());
}

#[test]
fn plan_of_sample() {
    let plan = mesh_plan(&sample());
    let ids: Vec<u32> = plan.groups.iter().map(|g| g.group_id).collect();
    assert_eq!(ids, vec![2, 4, 9]);
    assert_eq!(plan.ungrouped, vec![2]);
    assert_eq!(plan.largest_group, 3);

    let g2 = &plan.groups[0];
    assert_eq!(g2.members, vec![1, 4]);
    assert_eq!(g2.bridge_count, 1);
    assert_eq!(g2.color_index, 2);
    assert!(g2.links.is_empty());
    // linked to group 9 (position 2) only: group 4 has nobody connected
    assert_eq!(g2.bridge_links, vec![(1, 2)]);

    let g4 = &plan.groups[1];
    assert_eq!(g4.members, vec![6]);
    assert!(g4.bridge_links.is_empty());

    let g9 = &plan.groups[2];
    assert_eq!(g9.members, vec![0, 3, 5]);
    assert_eq!(g9.bridge_count, 1);
    assert_eq!(g9.color_index, 9 % GROUP_COLOR_COUNT);
    assert_eq!(g9.links, vec![(0, 3)]);
    assert!(g9.bridge_links.is_empty());
}

#[test]
fn plan_of_nothing() {
    let plan = mesh_plan(&vec![]);
    assert!(plan.groups.is_empty());
    assert!(plan.ungrouped.is_empty());
    assert_eq!(plan.largest_group, 1);
}

#[test]
fn network_info_from_instance_state() {
    let peers = vec![(Some("alice".to_string()), "p1".to_string()), (None, "PeerId(7)".to_string())];
    let info = PeerNetworkInfo::from_state(3, "me".to_string(), &peers, true, Some((2, true)));
    assert_eq!(info.instance_id, 3);
    assert_eq!(info.player_id, "me");
    assert_eq!(info.connected_peers, vec!["alice".to_string(), "PeerId(7)".to_string()]);
    assert!(info.is_connected);
    assert_eq!(info.mesh_group, Some(2));
    assert!(info.is_bridge);
    let lone = PeerNetworkInfo::from_state(4, "x".to_string(), &vec![], false, None);
    assert_eq!(lone.mesh_group, None);
    assert!(!lone.is_bridge);
    assert!(lone.connected_peers.is_empty());
}
