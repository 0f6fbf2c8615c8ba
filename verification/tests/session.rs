use portwatch::{App, PopupButton, PortInfo};

fn rec(port: u16, pid: u32) -> PortInfo {
    PortInfo {
        port,
        address: String::from("127.0.0.1:80"),
        pid,
        process_name: String::from("proc"),
        exe_path: None,
        cwd: None,
        cmd_args: Vec::new(),
    }
}

fn session(ports: Vec<PortInfo>, selected: Option<usize>) -> App {
    App {
        ports,
        selected,
        error: None,
        scroll_offset: 0,
        status_message: None,
        status_time: None,
        show_terminate_popup: false,
        popup_selection: PopupButton::Cancel,
    }
}

#[test]
fn scenario_select_and_force_kill() {
    let mut app = session(vec![rec(80, 100), rec(443, 200)], Some(0));
    app.next();
    assert_eq!(app.selected, Some(1));
    app.open_terminate_popup();
    assert!(app.show_terminate_popup);
    assert!(matches!(app.popup_selection, PopupButton::Cancel));
    app.popup_next();
    app.popup_next();
    assert!(matches!(app.popup_selection, PopupButton::ForceKill));
    let r = app.execute_popup_action();
    assert_eq!(r, Some((200, true)));
    assert!(!app.show_terminate_popup);
}

#[test]
fn refresh_shrink_clamps_selection() {
    let mut app = session(
        vec![rec(1, 1), rec(2, 2), rec(3, 3), rec(4, 4), rec(5, 5)],
        Some(4),
    );
    app.apply_refresh_result(Ok(vec![rec(80, 100), rec(443, 200)]));
    assert_eq!(app.ports.len(), 2);
    assert_eq!(app.selected, Some(1));
    assert!(app.error.is_none());
}

#[test]
fn refresh_to_empty_clears_selection() {
    let mut app = session(vec![rec(1, 1), rec(2, 2)], Some(1));
    app.apply_refresh_result(Ok(Vec::new()));
    assert_eq!(app.selected, None);
    app.open_terminate_popup();
    assert!(!app.show_terminate_popup);
}

#[test]
fn refresh_failure_keeps_ports() {
    let mut app = session(vec![rec(80, 100), rec(443, 200)], Some(0));
    app.apply_refresh_result(Err(String::from("socket table unavailable")));
    assert_eq!(app.ports.len(), 2);
    assert_eq!(app.ports[0].port, 80);
    assert_eq!(app.ports[1].port, 443);
    assert_eq!(app.selected, Some(0));
    assert_eq!(app.error.as_deref(), Some("socket table unavailable"));
    assert_eq!(app.status_message.as_deref(), Some("Refresh failed"));
}

#[test]
fn refresh_success_counts_ports() {
    let mut app = session(Vec::new(), None);
    app.apply_refresh_result(Ok(vec![
        rec(1, 1),
        rec(2, 2),
        rec(3, 3),
        rec(4, 4),
        rec(5, 5),
        rec(6, 6),
        rec(7, 7),
        rec(8, 8),
        rec(9, 9),
        rec(10, 10),
        rec(11, 11),
        rec(12, 12),
    ]));
    assert_eq!(app.status_message.as_deref(), Some("Refreshed - 12 ports"));
    assert_eq!(app.selected, Some(0));
}

#[test]
fn move_selection_saturates_at_top() {
    let mut app = session(vec![rec(1, 1), rec(2, 2)], Some(0));
    app.previous();
    assert_eq!(app.selected, Some(0));
    app.previous();
    assert_eq!(app.selected, Some(0));
}

#[test]
fn move_selection_saturates_at_bottom() {
    let mut app = session(vec![rec(1, 1), rec(2, 2)], Some(1));
    app.next();
    assert_eq!(app.selected, Some(1));
    app.next();
    assert_eq!(app.selected, Some(1));
}

#[test]
fn move_selection_on_empty_list_does_nothing() {
    let mut app = session(Vec::new(), None);
    app.next();
    assert_eq!(app.selected, None);
    app.previous();
    assert_eq!(app.selected, None);
}

#[test]
fn popup_cycle_is_a_three_cycle() {
    for start in [
        PopupButton::Cancel,
        PopupButton::Terminate,
        PopupButton::ForceKill,
    ] {
        let mut app = session(vec![rec(1, 1)], Some(0));
        app.popup_selection = start;
        app.popup_next();
        app.popup_next();
        app.popup_next();
        assert_eq!(app.popup_selection, start);
        app.popup_prev();
        app.popup_prev();
        app.popup_prev();
        assert_eq!(app.popup_selection, start);
    }
}

#[test]
fn popup_cycle_order_forward() {
    let mut app = session(vec![rec(1, 1)], Some(0));
    assert_eq!(app.popup_selection, PopupButton::Cancel);
    app.popup_next();
    assert_eq!(app.popup_selection, PopupButton::Terminate);
    app.popup_next();
    assert_eq!(app.popup_selection, PopupButton::ForceKill);
    app.popup_next();
    assert_eq!(app.popup_selection, PopupButton::Cancel);
    app.popup_prev();
    assert_eq!(app.popup_selection, PopupButton::ForceKill);
}

#[test]
fn confirm_on_cancel_returns_nothing_and_closes() {
    let mut app = session(vec![rec(80, 100)], Some(0));
    app.open_terminate_popup();
    assert!(app.show_terminate_popup);
    let r = app.execute_popup_action();
    assert_eq!(r, None);
    assert!(!app.show_terminate_popup);

    let mut empty = session(Vec::new(), None);
    empty.popup_selection = PopupButton::Cancel;
    let r = empty.execute_popup_action();
    assert_eq!(r, None);
    assert!(!empty.show_terminate_popup);
}

#[test]
fn confirm_terminate_returns_graceful_request() {
    let mut app = session(vec![rec(80, 100)], Some(0));
    app.open_terminate_popup();
    app.popup_next();
    let r = app.execute_popup_action();
    assert_eq!(r, Some((100, false)));
}

#[test]
fn open_popup_needs_selection() {
    let mut app = session(Vec::new(), None);
    app.open_terminate_popup();
    assert!(!app.show_terminate_popup);
}

#[test]
fn scroll_saturates_at_zero() {
    let mut app = session(Vec::new(), None);
    app.scroll_left();
    assert_eq!(app.scroll_offset, 0);
    app.scroll_right();
    assert_eq!(app.scroll_offset, 10);
    app.scroll_right();
    assert_eq!(app.scroll_offset, 20);
    app.scroll_left();
    app.scroll_left();
    app.scroll_left();
    assert_eq!(app.scroll_offset, 0);
}

#[test]
fn scroll_saturates_at_max() {
    let mut app = session(Vec::new(), None);
    app.scroll_offset = u16::MAX - 5;
    app.scroll_right();
    assert_eq!(app.scroll_offset, u16::MAX);
}

#[test]
fn set_status_stamps_message() {
    let mut app = session(Vec::new(), None);
    app.set_status("hello");
    assert_eq!(app.status_message.as_deref(), Some("hello"));
    assert!(app.status_time.is_some());
}

#[test]
fn status_expires_after_two_seconds() {
    let mut app = session(Vec::new(), None);
    app.status_message = Some(String::from("msg"));
    app.status_time = Some(10_000);
    app.clear_old_status_at(11_999);
    assert_eq!(app.status_message.as_deref(), Some("msg"));
    app.clear_old_status_at(12_000);
    assert_eq!(app.status_message, None);
    assert_eq!(app.status_time, None);
}

#[test]
fn get_selected_port_follows_cursor() {
    let app = session(vec![rec(80, 100), rec(443, 200)], Some(1));
    let p = app.get_selected_port().expect("selection in bounds");
    assert_eq!(p.port, 443);
    assert_eq!(p.pid, 200);

    let empty = session(Vec::new(), None);
    assert!(empty.get_selected_port().is_none());
}

#[test]
fn failed_kill_reports_reason_only() {
    let mut app = session(vec![rec(80, 100)], Some(0));
    app.apply_kill_result(100, false, Err(String::from("EPERM: Operation not permitted")));
    assert_eq!(
        app.status_message.as_deref(),
        Some("Failed: EPERM: Operation not permitted")
    );
    assert_eq!(app.ports.len(), 1);
    assert_eq!(app.selected, Some(0));
    assert!(app.error.is_none());
}

#[test]
fn reset_scroll_jumps_to_first_column() {
    let mut app = session(Vec::new(), None);
    app.scroll_right();
    app.scroll_right();
    app.reset_scroll();
    assert_eq!(app.scroll_offset, 0);
}
