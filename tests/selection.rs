use least_conn_lb::{select_least_loaded, BackendPool, PoolError};

fn pool_of(addrs: &[&str]) -> BackendPool {
    BackendPool::new(addrs.iter().map(|a| a.to_string()).collect()).unwrap()
}

#[test]
fn empty_pool_is_refused() {
    assert_eq!(BackendPool::new(Vec::new()).err(), Some(PoolError::Empty));
}

#[test]
fn new_pool_starts_at_zero_in_order() {
    let p = pool_of(&["10.0.0.1:80", "10.0.0.2:80", "10.0.0.3:80"]);
    assert_eq!(p.len(), 3);
    assert_eq!(p.address(0), "10.0.0.1:80");
    assert_eq!(p.address(2), "10.0.0.3:80");
    assert_eq!(p.snapshot(), vec![0, 0, 0]);
}

#[test]
fn acquire_and_release_move_one_counter() {
    let mut p = pool_of(&["a:1", "b:2"]);
    p.acquire(1);
    p.acquire(1);
    assert_eq!(p.snapshot(), vec![0, 2]);
    p.release(1);
    assert_eq!(p.active_connections(1), 1);
    assert_eq!(p.active_connections(0), 0);
}

#[test]
fn least_loaded_distinct_counts() {
    assert_eq!(select_least_loaded(&vec![5, 3, 7, 4], &vec![true, true, true, true]), Some(1));
}

#[test]
fn least_loaded_tie_goes_to_earliest() {
    assert_eq!(select_least_loaded(&vec![4, 2, 2, 2], &vec![true, true, true, true]), Some(1));
    assert_eq!(select_least_loaded(&vec![0, 0], &vec![true, true]), Some(0));
}

#[test]
fn unreachable_backend_never_chosen() {
    assert_eq!(select_least_loaded(&vec![9, 0, 4], &vec![true, false, true]), Some(2));
}

#[test]
fn counter_at_maximum_still_selectable() {
    assert_eq!(select_least_loaded(&vec![usize::MAX], &vec![true]), Some(0));
}

#[test]
fn no_result_when_nothing_reachable() {
    assert_eq!(select_least_loaded(&vec![], &vec![]), None);
    assert_eq!(select_least_loaded(&vec![1, 0], &vec![false, false]), None);
}

#[test]
fn dispatch_without_reachable_backend_moves_no_counter() {
    let mut p = pool_of(&["a:1", "b:2"]);
    p.acquire(0);
    assert_eq!(p.dispatch(&vec![false, false]), None);
    assert_eq!(p.snapshot(), vec![1, 0]);
}

#[test]
fn scenario_unreachable_zero_count_skipped() {
    let mut p = pool_of(&["A:80", "B:80", "C:80"]);
    p.acquire(0);
    p.acquire(0);
    p.acquire(1);
    let reachable = vec![true, true, false];
    assert_eq!(p.select(&reachable), Some(1));
    assert_eq!(select_least_loaded(&vec![2, 1, 0], &reachable), Some(1));
}

#[test]
fn dispatch_spreads_and_counters_return_to_zero() {
    let mut p = pool_of(&["a:1", "b:2", "c:3"]);
    let all = vec![true, true, true];
    let mut chosen = Vec::new();
    for _ in 0..7 {
        chosen.push(p.dispatch(&all).unwrap());
    }
    assert_eq!(chosen, vec![0, 1, 2, 0, 1, 2, 0]);
    assert_eq!(p.snapshot(), vec![3, 2, 2]);
    for i in [2, 0, 1, 0, 2, 1, 0] {
        p.release(i);
    }
    assert_eq!(p.snapshot(), vec![0, 0, 0]);
}
