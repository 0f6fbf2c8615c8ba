use portwatch::{handle_main_key, handle_popup_key, App, KeyInput, PopupButton, PortInfo};

fn rec(port: u16, pid: u32) -> PortInfo {
    PortInfo {
        port,
        address: String::from("[::1]:443"),
        pid,
        process_name: String::from("srv"),
        exe_path: None,
        cwd: None,
        cmd_args: Vec::new(),
    }
}

fn session(ports: Vec<PortInfo>, selected: Option<usize>) -> App {
    App {
        ports,
        selected,
        error: None,
        scroll_offset: 0,
        status_message: None,
        status_time: None,
        show_terminate_popup: false,
        popup_selection: PopupButton::Cancel,
    }
}

#[test]
fn quit_keys_quit_and_change_nothing() {
    let mut app = session(vec![rec(80, 1)], Some(0));
    assert!(handle_main_key(KeyInput::Char('q'), &mut app));
    assert!(handle_main_key(KeyInput::Esc, &mut app));
    assert!(!handle_main_key(KeyInput::Char('x'), &mut app));
    assert_eq!(app.selected, Some(0));
    assert!(!app.show_terminate_popup);
}

#[test]
fn movement_keys_move_selection() {
    let mut app = session(vec![rec(80, 1), rec(81, 2), rec(82, 3)], Some(0));
    assert!(!handle_main_key(KeyInput::Down, &mut app));
    assert_eq!(app.selected, Some(1));
    assert!(!handle_main_key(KeyInput::Char('j'), &mut app));
    assert_eq!(app.selected, Some(2));
    assert!(!handle_main_key(KeyInput::Up, &mut app));
    assert_eq!(app.selected, Some(1));
    assert!(!handle_main_key(KeyInput::Char('k'), &mut app));
    assert_eq!(app.selected, Some(0));
}

#[test]
fn scroll_keys_scroll_and_home_resets() {
    let mut app = session(vec![rec(80, 1)], Some(0));
    handle_main_key(KeyInput::Right, &mut app);
    handle_main_key(KeyInput::Char('l'), &mut app);
    assert_eq!(app.scroll_offset, 20);
    handle_main_key(KeyInput::Char('h'), &mut app);
    assert_eq!(app.scroll_offset, 10);
    handle_main_key(KeyInput::Right, &mut app);
    handle_main_key(KeyInput::Home, &mut app);
    assert_eq!(app.scroll_offset, 0);
    handle_main_key(KeyInput::Left, &mut app);
    assert_eq!(app.scroll_offset, 0);
}

#[test]
fn enter_opens_popup_on_selection() {
    let mut app = session(vec![rec(80, 1)], Some(0));
    handle_main_key(KeyInput::Enter, &mut app);
    assert!(app.show_terminate_popup);
    assert_eq!(app.popup_selection, PopupButton::Cancel);

    let mut empty = session(Vec::new(), None);
    handle_main_key(KeyInput::Char('t'), &mut empty);
    assert!(!empty.show_terminate_popup);
}

#[test]
fn popup_keys_cycle_and_cancel() {
    let mut app = session(vec![rec(80, 1)], Some(0));
    app.show_terminate_popup = true;
    assert_eq!(handle_popup_key(KeyInput::Tab, &mut app), None);
    assert_eq!(app.popup_selection, PopupButton::Terminate);
    assert_eq!(handle_popup_key(KeyInput::Right, &mut app), None);
    assert_eq!(app.popup_selection, PopupButton::ForceKill);
    assert_eq!(handle_popup_key(KeyInput::BackTab, &mut app), None);
    assert_eq!(app.popup_selection, PopupButton::Terminate);
    assert_eq!(handle_popup_key(KeyInput::Left, &mut app), None);
    assert_eq!(app.popup_selection, PopupButton::Cancel);
    assert_eq!(handle_popup_key(KeyInput::Esc, &mut app), None);
    assert!(!app.show_terminate_popup);
}

#[test]
fn popup_enter_confirms_highlighted_button() {
    let mut app = session(vec![rec(80, 7)], Some(0));
    app.show_terminate_popup = true;
    app.popup_selection = PopupButton::Terminate;
    let r = handle_popup_key(KeyInput::Enter, &mut app);
    assert_eq!(r, Some((7, false)));
    assert!(!app.show_terminate_popup);
}

#[test]
fn popup_shortcuts_ignore_highlighted_button() {
    let mut app = session(vec![rec(80, 9)], Some(0));
    app.show_terminate_popup = true;
    app.popup_selection = PopupButton::Cancel;
    let r = handle_popup_key(KeyInput::Char('t'), &mut app);
    assert_eq!(r, Some((9, false)));
    assert!(!app.show_terminate_popup);

    let mut app = session(vec![rec(80, 9)], Some(0));
    app.show_terminate_popup = true;
    let r = handle_popup_key(KeyInput::Char('k'), &mut app);
    assert_eq!(r, Some((9, true)));
    assert!(!app.show_terminate_popup);
}

#[test]
fn unbound_popup_key_does_nothing() {
    let mut app = session(vec![rec(80, 9)], Some(0));
    app.show_terminate_popup = true;
    app.popup_selection = PopupButton::ForceKill;
    assert_eq!(handle_popup_key(KeyInput::Char('z'), &mut app), None);
    assert!(app.show_terminate_popup);
    assert_eq!(app.popup_selection, PopupButton::ForceKill);
}
