use marble_client::standings::{
    displayed_rank, elimination_ranks, find_arrival, finishing_order, legend_order, position_in,
    result_order, stable_order, standing_key, standing_order, ArrivalInfo,
};

fn info(id: &str, rank: Option<u32>, live: Option<u32>) -> ArrivalInfo {
    ArrivalInfo { player_id: id.to_string(), rank, arrival_order: rank, live_rank: live }
}

#[test]
fn stable_order_sorts_by_key() {
    let keys = vec![(3u64, 0u64), (1, 5), (1, 2), (2, 0)];
    assert_eq!(stable_order(&keys), vec![2, 1, 3, 0]);
}

#[test]
fn stable_order_keeps_ties_in_place() {
    let keys = vec![(2u64, 0u64), (1, 0), (2, 0), (1, 0)];
    assert_eq!(stable_order(&keys), vec![1, 3, 0, 2]);
}

#[test]
fn stable_order_of_nothing() {
    assert!(stable_order(&Vec::new()).is_empty());
}

#[test]
fn arrived_players_come_first_by_rank() {
    // (rank, live_rank, id)
    let standings = vec![
        (None, Some(1), 10u64),
        (Some(2), None, 11),
        (None, None, 12),
        (Some(1), None, 13),
        (None, Some(2), 14),
    ];
    assert_eq!(standing_order(&standings, false), vec![3, 1, 0, 4, 2]);
}

#[test]
fn unranked_players_order_by_id_when_asked() {
    let standings = vec![(None, None, 30u64), (None, None, 10), (None, None, 20)];
    assert_eq!(standing_order(&standings, true), vec![1, 2, 0]);
    // without ids they keep their order
    assert_eq!(standing_order(&standings, false), vec![0, 1, 2]);
}

#[test]
fn standing_key_values() {
    assert_eq!(standing_key(Some(4), Some(1), 9, true), (4, 0));
    assert_eq!(standing_key(None, Some(1), 9, true), (0x1_0000_0001, 0));
    assert_eq!(standing_key(None, None, 9, true), (0x2_0000_0000, 9));
    assert_eq!(standing_key(None, None, 9, false), (0x2_0000_0000, 0));
}

#[test]
fn results_without_server_order_by_rank() {
    let ranks = vec![None, Some(3), Some(1), None, Some(2)];
    let order = result_order(&ranks);
    assert_eq!(order, vec![2, 4, 1, 0, 3]);
    let shown: Vec<u32> =
        order.iter().enumerate().map(|(pos, &i)| displayed_rank(ranks[i], pos)).collect();
    assert_eq!(shown, vec![1, 2, 3, 4, 5]);
}

#[test]
fn displayed_rank_prefers_own_rank() {
    assert_eq!(displayed_rank(Some(7), 0), 7);
    assert_eq!(displayed_rank(None, 0), 1);
    assert_eq!(displayed_rank(None, 4), 5);
}

#[test]
fn find_arrival_finds_first_entry() {
    let infos = vec![info("a", Some(1), None), info("b", None, Some(1)), info("a", Some(2), None)];
    assert_eq!(find_arrival(&infos, "a"), Some(0));
    assert_eq!(find_arrival(&infos, "b"), Some(1));
    assert_eq!(find_arrival(&infos, "c"), None);
    assert_eq!(find_arrival(&Vec::new(), "a"), None);
}

#[test]
fn position_in_finds_first() {
    let v = vec![5u32, 7, 5, 9];
    assert_eq!(position_in(&v, 5), Some(0));
    assert_eq!(position_in(&v, 9), Some(3));
    assert_eq!(position_in(&v, 1), None);
}

#[test]
fn finishing_order_waits_for_everyone() {
    let ids = vec![10u32, 20, 30];
    assert_eq!(finishing_order(&ids, &vec![]), None);
    assert_eq!(finishing_order(&ids, &vec![20, 10]), None);
    assert_eq!(finishing_order(&vec![], &vec![]), None);
    assert_eq!(finishing_order(&ids, &vec![30, 10, 20]), Some(vec![2, 0, 1]));
}

#[test]
fn finishing_order_puts_unknown_players_last() {
    // an arrival order that names someone else leaves the missing player last
    let ids = vec![1u32, 2, 3];
    assert_eq!(finishing_order(&ids, &vec![3, 99, 1]), Some(vec![2, 0, 1]));
}

#[test]
fn elimination_ranks_count_from_last_place() {
    let ids = vec![1u32, 2, 3, 4];
    let ranks = elimination_ranks(&ids, &vec![3, 1]);
    assert_eq!(ranks, vec![Some(3), None, Some(4), None]);
}

#[test]
fn legend_lists_alive_by_id_then_better_placed_eliminated() {
    let ids = vec![4u32, 2, 3, 1];
    // 3 eliminated first (rank 4), then 4 (rank 3)
    let ranks = elimination_ranks(&ids, &vec![3, 4]);
    assert_eq!(ranks, vec![Some(3), None, Some(4), None]);
    let order = legend_order(&ids, &ranks);
    let listed: Vec<u32> = order.iter().map(|&i| ids[i]).collect();
    assert_eq!(listed, vec![1, 2, 4, 3]);
}
