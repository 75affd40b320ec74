use ollamamq::dashboard::{Action, Key, Panel, TuiDashboard};
use ollamamq::snapshot::{BlockedKind, DashboardSnapshot, UserStats, UserStatus};

fn user(id: &str, queued: Option<usize>, processing: usize, processed: usize, dropped: usize, ip: Option<&str>) -> UserStats {
    UserStats {
        user_id: id.to_string(),
        queued,
        processing,
        processed,
        dropped,
        ip: ip.map(|s| s.to_string()),
    }
}

fn strings(v: &[&str]) -> Vec<String> {
    v.iter().map(|s| s.to_string()).collect()
}

fn sample() -> DashboardSnapshot {
    DashboardSnapshot::new(
        vec![
            user("carol", Some(2), 0, 5, 0, Some("10.0.0.3")),
            user("alice", Some(1), 1, 1, 1, Some("10.0.0.1")),
            user("bob", Some(2), 0, 3, 3, None),
            user("dave", Some(0), 0, 0, 0, Some("10.0.0.4")),
            // counted in the totals, but not listed (no queue)
            user("erin", None, 1, 7, 2, None),
        ],
        strings(&["10.0.0.1", "bob"]),
        strings(&["carol", "bob"]),
    )
    .unwrap()
}

fn ids(v: Vec<String>) -> Vec<String> {
    v
}

#[test]
fn snapshot_refuses_repeated_user_ids() {
    let s = DashboardSnapshot::new(
        vec![user("a", Some(1), 0, 0, 0, None), user("a", Some(2), 0, 0, 0, None)],
        vec![],
        vec![],
    );
    assert!(s.is_none());
}

#[test]
fn snapshot_refuses_overflowing_totals() {
    let s = DashboardSnapshot::new(
        vec![user("a", Some(usize::MAX), 0, 0, 0, None), user("b", Some(1), 0, 0, 0, None)],
        vec![],
        vec![],
    );
    assert!(s.is_none());
    let s = DashboardSnapshot::new(vec![user("a", Some(1), 0, usize::MAX, 1, None)], vec![], vec![]);
    assert!(s.is_none());
}

#[test]
fn users_table_order_load_then_finished_then_id() {
    let snap = sample();
    let rows = snap.user_rows();
    let order: Vec<String> = rows.iter().map(|r| r.user_id.clone()).collect();
    // loads: carol 2, alice 2, bob 2, dave 0; finished: carol 5, alice 2, bob 6
    assert_eq!(ids(order), strings(&["bob", "carol", "alice", "dave"]));
}

#[test]
fn queue_table_order_load_then_processed_then_id() {
    let snap = sample();
    let rows = snap.queue_rows();
    let order: Vec<String> = rows.iter().map(|r| r.user_id.clone()).collect();
    // processed: carol 5, bob 3, alice 1
    assert_eq!(order, strings(&["carol", "bob", "alice", "dave"]));
    assert_eq!(rows[2].queue_len, 2);
    assert!(rows[2].is_processing);
    assert!(!rows[0].is_processing);
}

#[test]
fn ties_broken_by_user_id_bytes() {
    let snap = DashboardSnapshot::new(
        vec![
            user("b", Some(1), 0, 0, 0, None),
            user("B", Some(1), 0, 0, 0, None),
            user("ab", Some(1), 0, 0, 0, None),
            user("a", Some(1), 0, 0, 0, None),
        ],
        vec![],
        vec![],
    )
    .unwrap();
    let order: Vec<String> = snap.user_rows().iter().map(|r| r.user_id.clone()).collect();
    assert_eq!(order, strings(&["B", "a", "ab", "b"]));
}

#[test]
fn user_rows_show_status_and_blocking() {
    let snap = sample();
    let rows = snap.user_rows();
    // bob: user blocked
    assert!(rows[0].user_blocked);
    assert!(!rows[0].ip_blocked);
    assert_eq!(rows[0].status, UserStatus::Blocked);
    // carol: user blocked
    assert_eq!(rows[1].status, UserStatus::Blocked);
    // alice: IP blocked, processing
    assert!(!rows[2].user_blocked);
    assert!(rows[2].ip_blocked);
    assert_eq!(rows[2].status, UserStatus::Blocked);
    assert_eq!(rows[2].queue_len, 2);
    assert_eq!(rows[2].queued, 1);
    assert_eq!(rows[2].processing, 1);
    // dave: idle
    assert_eq!(rows[3].status, UserStatus::Idle);
    assert_eq!(rows[3].ip, Some("10.0.0.4".to_string()));
}

#[test]
fn status_processing_and_queued() {
    let snap = DashboardSnapshot::new(
        vec![user("p", Some(0), 2, 0, 0, None), user("q", Some(3), 0, 0, 0, None)],
        vec![],
        vec![],
    )
    .unwrap();
    let rows = snap.user_rows();
    assert_eq!(rows[0].user_id, "q");
    assert_eq!(rows[0].status, UserStatus::Queued);
    assert_eq!(rows[1].status, UserStatus::Processing);
}

#[test]
fn blocked_rows_sorted_by_value_ip_first_on_ties() {
    let snap = sample();
    let rows = snap.blocked_rows();
    let got: Vec<(BlockedKind, String)> = rows.iter().map(|r| (r.kind, r.value.clone())).collect();
    assert_eq!(
        got,
        vec![
            (BlockedKind::Ip, "10.0.0.1".to_string()),
            (BlockedKind::Ip, "bob".to_string()),
            (BlockedKind::User, "bob".to_string()),
            (BlockedKind::User, "carol".to_string()),
        ]
    );
}

#[test]
fn stats_totals_cover_all_users() {
    let snap = sample();
    let d = TuiDashboard::new();
    let s = d.stats(&snap);
    assert_eq!(s.panel, Panel::Users);
    assert_eq!(s.users, 4);
    assert_eq!(s.queued, 2 + 2 + 2 + 0 + 1);
    assert_eq!(s.processed, 5 + 1 + 3 + 0 + 7);
    assert_eq!(s.dropped, 0 + 1 + 3 + 0 + 2);
}

#[test]
fn new_dashboard_state() {
    let d = TuiDashboard::new();
    assert_eq!(d.user_selection, None);
    assert_eq!(d.blocked_selection, None);
    assert_eq!(d.active_panel, Panel::Users);
    assert!(!d.show_help);
}

#[test]
fn sync_selection_clamps_active_panel_only() {
    let snap = sample();
    let mut d = TuiDashboard::new();
    d.sync_selection(&snap);
    assert_eq!(d.user_selection, Some(0));
    d.user_selection = Some(10);
    d.blocked_selection = Some(10);
    d.sync_selection(&snap);
    assert_eq!(d.user_selection, Some(3));
    assert_eq!(d.blocked_selection, Some(10));
    d.active_panel = Panel::Blocked;
    d.sync_selection(&snap);
    assert_eq!(d.blocked_selection, Some(3));
    let empty = DashboardSnapshot::new(vec![], vec![], vec![]).unwrap();
    d.sync_selection(&empty);
    assert_eq!(d.blocked_selection, None);
}

#[test]
fn navigation_up_and_down() {
    let snap = sample();
    let mut d = TuiDashboard::new();
    assert!(matches!(d.handle_key(Key::Up, &snap), Action::Nothing));
    assert_eq!(d.user_selection, Some(0));
    d.handle_key(Key::Char('j'), &snap);
    d.handle_key(Key::Down, &snap);
    assert_eq!(d.user_selection, Some(2));
    d.handle_key(Key::Down, &snap);
    d.handle_key(Key::Down, &snap);
    assert_eq!(d.user_selection, Some(3));
    d.handle_key(Key::Char('k'), &snap);
    assert_eq!(d.user_selection, Some(2));
    // down in an empty table changes nothing
    let empty = DashboardSnapshot::new(vec![], vec![], vec![]).unwrap();
    let mut e = TuiDashboard::new();
    e.handle_key(Key::Down, &empty);
    assert_eq!(e.user_selection, None);
    // down from nothing selected goes to the first row
    let mut f = TuiDashboard::new();
    f.handle_key(Key::Down, &snap);
    assert_eq!(f.user_selection, Some(0));
}

#[test]
fn panel_and_help_toggles() {
    let snap = sample();
    let mut d = TuiDashboard::new();
    d.handle_key(Key::Tab, &snap);
    assert_eq!(d.active_panel, Panel::Blocked);
    d.handle_key(Key::Char('h'), &snap);
    assert_eq!(d.active_panel, Panel::Users);
    d.handle_key(Key::Char('l'), &snap);
    d.handle_key(Key::Tab, &snap);
    assert_eq!(d.active_panel, Panel::Users);
    d.handle_key(Key::Char('?'), &snap);
    assert!(d.show_help);
    d.handle_key(Key::Char('?'), &snap);
    assert!(!d.show_help);
}

#[test]
fn quit_keys() {
    let snap = sample();
    let mut d = TuiDashboard::new();
    assert!(matches!(d.handle_key(Key::Esc, &snap), Action::Quit));
    assert!(matches!(d.handle_key(Key::Char('q'), &snap), Action::Quit));
    assert!(matches!(d.handle_key(Key::Other, &snap), Action::Nothing));
    assert!(matches!(d.handle_key(Key::Char('x'), &snap), Action::Nothing));
}

#[test]
fn block_keys_act_on_selected_row() {
    let snap = sample();
    let mut d = TuiDashboard::new();
    // nothing selected: nothing happens
    assert!(matches!(d.handle_key(Key::Char('b'), &snap), Action::Nothing));
    d.user_selection = Some(2);
    match d.handle_key(Key::Char('b'), &snap) {
        Action::BlockUser(u) => assert_eq!(u, "alice"),
        _ => panic!("expected BlockUser"),
    }
    match d.handle_key(Key::Char('B'), &snap) {
        Action::BlockIp(ip) => assert_eq!(ip, "10.0.0.1"),
        _ => panic!("expected BlockIp"),
    }
    // bob has no known IP
    d.user_selection = Some(0);
    assert!(matches!(d.handle_key(Key::Char('B'), &snap), Action::Nothing));
    // selection past the table
    d.user_selection = Some(4);
    assert!(matches!(d.handle_key(Key::Char('b'), &snap), Action::Nothing));
    // in the blocked panel, b does nothing
    d.user_selection = Some(1);
    d.active_panel = Panel::Blocked;
    assert!(matches!(d.handle_key(Key::Char('b'), &snap), Action::Nothing));
}

#[test]
fn unblock_key_in_each_panel() {
    let snap = sample();
    let mut d = TuiDashboard::new();
    d.user_selection = Some(1);
    match d.handle_key(Key::Char('u'), &snap) {
        Action::UnblockUserAndIp(u, ip) => {
            assert_eq!(u, "carol");
            assert_eq!(ip, Some("10.0.0.3".to_string()));
        }
        _ => panic!("expected UnblockUserAndIp"),
    }
    d.active_panel = Panel::Blocked;
    d.blocked_selection = Some(1);
    match d.handle_key(Key::Char('u'), &snap) {
        Action::UnblockIp(ip) => assert_eq!(ip, "bob"),
        _ => panic!("expected UnblockIp"),
    }
    d.blocked_selection = Some(3);
    match d.handle_key(Key::Char('u'), &snap) {
        Action::UnblockUser(u) => assert_eq!(u, "carol"),
        _ => panic!("expected UnblockUser"),
    }
    d.blocked_selection = Some(4);
    assert!(matches!(d.handle_key(Key::Char('u'), &snap), Action::Nothing));
}

#[test]
fn up_then_down_and_down_then_up_return() {
    let snap = sample();
    let mut d = TuiDashboard::new();
    d.user_selection = Some(2);
    d.handle_key(Key::Up, &snap);
    d.handle_key(Key::Down, &snap);
    assert_eq!(d.user_selection, Some(2));
    d.handle_key(Key::Down, &snap);
    d.handle_key(Key::Up, &snap);
    assert_eq!(d.user_selection, Some(2));
    // at the first row, up stays there
    d.user_selection = Some(0);
    d.handle_key(Key::Up, &snap);
    assert_eq!(d.user_selection, Some(0));
}

#[test]
fn keys_act_on_the_row_shown_at_the_selection() {
    let snap = sample();
    let rows = snap.user_rows();
    for i in 0..rows.len() {
        let mut d = TuiDashboard::new();
        d.user_selection = Some(i);
        match d.handle_key(Key::Char('b'), &snap) {
            Action::BlockUser(u) => assert_eq!(u, rows[i].user_id),
            _ => panic!("expected BlockUser"),
        }
        match d.handle_key(Key::Char('u'), &snap) {
            Action::UnblockUserAndIp(u, ip) => {
                assert_eq!(u, rows[i].user_id);
                assert_eq!(ip, rows[i].ip);
            }
            _ => panic!("expected UnblockUserAndIp"),
        }
    }
    let items = snap.blocked_rows();
    for i in 0..items.len() {
        let mut d = TuiDashboard::new();
        d.active_panel = Panel::Blocked;
        d.blocked_selection = Some(i);
        match (d.handle_key(Key::Char('u'), &snap), items[i].kind) {
            (Action::UnblockIp(v), BlockedKind::Ip) => assert_eq!(v, items[i].value),
            (Action::UnblockUser(v), BlockedKind::User) => assert_eq!(v, items[i].value),
            _ => panic!("unblock does not match the shown entry"),
        }
    }
}

#[test]
fn down_in_blocked_panel_uses_blocked_count() {
    let snap = sample();
    let mut d = TuiDashboard::new();
    d.active_panel = Panel::Blocked;
    for _ in 0..10 {
        d.handle_key(Key::Down, &snap);
    }
    assert_eq!(d.blocked_selection, Some(3));
    assert_eq!(d.user_selection, None);
    assert_eq!(snap.blocked_count(), 4);
    assert_eq!(snap.listed_users(), 4);
}
