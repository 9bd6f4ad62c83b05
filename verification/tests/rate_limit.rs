use kovi_plugin_acl::rate_limit::{check_rate_limit, prune_expired, ClientAddr, GuardTable, LoginGuard};

const SEC: u64 = 1_000_000_000;

fn addr(n: u128) -> ClientAddr {
    ClientAddr { is_v6: false, ip: n, port: 40000, flowinfo: 0, scope_id: 0 }
}

#[test]
fn limit_lets_through_max_attempts_per_window() {
    let mut g = GuardTable::new();
    let a = addr(1);
    for _ in 0..10 {
        assert!(check_rate_limit(&mut g, a, 10, 60, 5 * SEC));
    }
    assert!(!check_rate_limit(&mut g, a, 10, 60, 6 * SEC));
    assert_eq!(g.get(&a), Some(LoginGuard { attempts: 10, window_start: 5 * SEC }));
}

#[test]
fn refusal_persists_until_window_expires() {
    let mut g = GuardTable::new();
    let a = addr(2);
    assert!(check_rate_limit(&mut g, a, 1, 60, 0));
    assert!(!check_rate_limit(&mut g, a, 1, 60, 30 * SEC));
    // 60 whole seconds is still inside the window.
    assert!(!check_rate_limit(&mut g, a, 1, 60, 60 * SEC + SEC / 2));
    // 61 whole seconds is past it.
    assert!(check_rate_limit(&mut g, a, 1, 60, 61 * SEC));
    assert_eq!(g.get(&a), Some(LoginGuard { attempts: 1, window_start: 61 * SEC }));
}

#[test]
fn other_clients_are_counted_apart() {
    let mut g = GuardTable::new();
    assert!(check_rate_limit(&mut g, addr(3), 1, 60, 0));
    assert!(!check_rate_limit(&mut g, addr(3), 1, 60, 0));
    assert!(check_rate_limit(&mut g, addr(4), 1, 60, 0));
    let v6 = ClientAddr { is_v6: true, ip: 3, port: 40000, flowinfo: 0, scope_id: 0 };
    assert!(check_rate_limit(&mut g, v6, 1, 60, 0));
    assert_eq!(g.len(), 3);
}

#[test]
fn zero_limit_refuses_everything() {
    let mut g = GuardTable::new();
    assert!(!check_rate_limit(&mut g, addr(5), 0, 60, 0));
    assert_eq!(g.get(&addr(5)), Some(LoginGuard { attempts: 0, window_start: 0 }));
}

#[test]
fn clock_going_back_counts_as_no_time() {
    let mut g = GuardTable::new();
    assert!(check_rate_limit(&mut g, addr(6), 1, 60, 100 * SEC));
    assert!(!check_rate_limit(&mut g, addr(6), 1, 60, 0));
}

#[test]
fn prune_drops_only_expired_windows() {
    let mut g = GuardTable::new();
    check_rate_limit(&mut g, addr(7), 5, 60, 0);
    check_rate_limit(&mut g, addr(8), 5, 60, 50 * SEC);
    prune_expired(&mut g, 60, 100 * SEC);
    assert_eq!(g.get(&addr(7)), None);
    assert_eq!(g.get(&addr(8)), Some(LoginGuard { attempts: 1, window_start: 50 * SEC }));
    assert_eq!(g.len(), 1);
}

#[test]
fn prune_then_check_decides_as_check_alone() {
    let mut pruned = GuardTable::new();
    let mut plain = GuardTable::new();
    for g in [&mut pruned, &mut plain] {
        check_rate_limit(g, addr(9), 1, 60, 0);
    }
    prune_expired(&mut pruned, 60, 200 * SEC);
    let x = check_rate_limit(&mut pruned, addr(9), 1, 60, 200 * SEC);
    let y = check_rate_limit(&mut plain, addr(9), 1, 60, 200 * SEC);
    assert_eq!(x, y);
    assert_eq!(pruned.get(&addr(9)), plain.get(&addr(9)));
}

#[test]
fn remove_forgets_a_client() {
    let mut g = GuardTable::new();
    assert!(check_rate_limit(&mut g, addr(10), 1, 60, 0));
    g.remove(&addr(10));
    assert_eq!(g.get(&addr(10)), None);
    assert!(check_rate_limit(&mut g, addr(10), 1, 60, 0));
}
