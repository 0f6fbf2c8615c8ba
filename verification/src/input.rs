use vstd::prelude::*;

use crate::app::{
    next_selection, popup_action, prev_selection, refresh_post, same_but_popup, same_but_scroll,
    same_but_selection, scrolled_left, scrolled_right, App, PopupButton,
};

verus! {

/// One keyboard event, as the session cares about it; the event source maps
/// its own key type onto this one.
#[derive(Clone, Copy, Debug, PartialEq, Eq, Structural)]
pub enum KeyInput {
    Char(char),
    Up,
    Down,
    Left,
    Right,
    Enter,
    Esc,
    Tab,
    BackTab,
    Home,
    Other,
}

/// The process identifier under the selection cursor, if the cursor is in
/// bounds.
pub open spec fn selected_pid(s: App) -> Option<u32> {
    match s.selected {
        Some(i) => if (i as int) < s.ports@.len() {
            Some(s.ports@[i as int].pid)
        } else {
            None
        },
        None => None,
    }
}

/// What closing the popup leaves behind: everything but the popup flag
/// survives, and the flag is down.
pub open spec fn popup_closed(pre: App, post: App) -> bool {
    &&& same_but_popup(pre, post)
    &&& !post.show_terminate_popup
    &&& post.popup_selection == pre.popup_selection
}

/// What cycling the popup button leaves behind.
pub open spec fn popup_cycled(pre: App, post: App, b: PopupButton) -> bool {
    &&& same_but_popup(pre, post)
    &&& post.show_terminate_popup == pre.show_terminate_popup
    &&& post.popup_selection == b
}

/// Routes one key in the main view to the session operation it is bound to:
/// `q`/Esc quits, `r` refreshes, down/`j` and up/`k` move the selection,
/// left/`h` and right/`l` scroll, `t`/Enter opens the popup, Home resets the
/// scroll, and anything else does nothing.
pub fn handle_main_key(code: KeyInput, app: &mut App) -> (quit: bool)
    requires
        old(app).inv(),
    ensures
        final(app).inv(),
        quit == (code == KeyInput::Char('q') || code == KeyInput::Esc),
        match code {
            KeyInput::Char(c) => if c == 'q' {
                *final(app) == *old(app)
            } else if c == 'r' {
                refresh_post(*old(app), *final(app))
            } else if c == 'j' {
                same_but_selection(*old(app), *final(app)) && final(app).selected == next_selection(
                    old(app).selected,
                    old(app).ports@.len() as int,
                )
            } else if c == 'k' {
                same_but_selection(*old(app), *final(app)) && final(app).selected == prev_selection(
                    old(app).selected,
                    old(app).ports@.len() as int,
                )
            } else if c == 'h' {
                same_but_scroll(*old(app), *final(app)) && final(app).scroll_offset == scrolled_left(
                    old(app).scroll_offset,
                )
            } else if c == 'l' {
                same_but_scroll(*old(app), *final(app)) && final(app).scroll_offset == scrolled_right(
                    old(app).scroll_offset,
                )
            } else if c == 't' {
                popup_opened(*old(app), *final(app))
            } else {
                *final(app) == *old(app)
            },
            KeyInput::Esc => *final(app) == *old(app),
            KeyInput::Down => same_but_selection(*old(app), *final(app)) && final(app).selected
                == next_selection(old(app).selected, old(app).ports@.len() as int),
            KeyInput::Up => same_but_selection(*old(app), *final(app)) && final(app).selected == prev_selection(
                old(app).selected,
                old(app).ports@.len() as int,
            ),
            KeyInput::Left => same_but_scroll(*old(app), *final(app)) && final(app).scroll_offset
                == scrolled_left(old(app).scroll_offset),
            KeyInput::Right => same_but_scroll(*old(app), *final(app)) && final(app).scroll_offset
                == scrolled_right(old(app).scroll_offset),
            KeyInput::Enter => popup_opened(*old(app), *final(app)),
            KeyInput::Home => same_but_scroll(*old(app), *final(app)) && final(app).scroll_offset == 0,
            _ => *final(app) == *old(app),
        },
{
    match code {
        KeyInput::Char('q') | KeyInput::Esc => true,
        KeyInput::Char('r') => {
            app.refresh();
            false
        },
        KeyInput::Down | KeyInput::Char('j') => {
            app.next();
            false
        },
        KeyInput::Up | KeyInput::Char('k') => {
            app.previous();
            false
        },
        KeyInput::Left | KeyInput::Char('h') => {
            app.scroll_left();
            false
        },
        KeyInput::Right | KeyInput::Char('l') => {
            app.scroll_right();
            false
        },
        KeyInput::Char('t') | KeyInput::Enter => {
            app.open_terminate_popup();
            false
        },
        KeyInput::Home => {
            app.reset_scroll();
            false
        },
        _ => false,
    }
}

/// What opening the popup leaves behind: with a selection the popup is up on
/// the Cancel button, without one nothing changed.
pub open spec fn popup_opened(pre: App, post: App) -> bool {
    &&& same_but_popup(pre, post)
    &&& (pre.selected is Some && pre.ports@.len() > 0) ==> (post.show_terminate_popup
        && post.popup_selection == PopupButton::Cancel)
    &&& !(pre.selected is Some && pre.ports@.len() > 0) ==> (post.show_terminate_popup
        == pre.show_terminate_popup && post.popup_selection == pre.popup_selection)
}

/// Routes one key inside the popup. Esc/`q` cancels; left/right and
/// Tab/BackTab cycle the button; Enter confirms the highlighted button and
/// yields the termination request, if any; `t` and `k` are shortcuts that
/// confirm a graceful or forceful termination of the selected process
/// without touching the highlighted button. The popup closes on cancel, on
/// confirm, and on a shortcut that found a selected process.
pub fn handle_popup_key(code: KeyInput, app: &mut App) -> (r: Option<(u32, bool)>)
    requires
        old(app).inv(),
    ensures
        final(app).inv(),
        match code {
            KeyInput::Char(c) => if c == 'q' {
                popup_closed(*old(app), *final(app)) && r is None
            } else if c == 'h' {
                popup_cycled(*old(app), *final(app), old(app).popup_selection.spec_prev()) && r is None
            } else if c == 'l' {
                popup_cycled(*old(app), *final(app), old(app).popup_selection.spec_next()) && r is None
            } else if c == 't' {
                shortcut_post(*old(app), *final(app), r, false)
            } else if c == 'k' {
                shortcut_post(*old(app), *final(app), r, true)
            } else {
                *final(app) == *old(app) && r is None
            },
            KeyInput::Esc => popup_closed(*old(app), *final(app)) && r is None,
            KeyInput::Left => popup_cycled(*old(app), *final(app), old(app).popup_selection.spec_prev())
                && r is None,
            KeyInput::BackTab => popup_cycled(
                *old(app),
                *final(app),
                old(app).popup_selection.spec_prev(),
            ) && r is None,
            KeyInput::Right => popup_cycled(*old(app), *final(app), old(app).popup_selection.spec_next())
                && r is None,
            KeyInput::Tab => popup_cycled(*old(app), *final(app), old(app).popup_selection.spec_next())
                && r is None,
            KeyInput::Enter => popup_closed(*old(app), *final(app)) && r == popup_action(*old(app)),
            _ => *final(app) == *old(app) && r is None,
        },
{
    match code {
        KeyInput::Esc | KeyInput::Char('q') => {
            app.close_popup();
            None
        },
        KeyInput::Left | KeyInput::Char('h') => {
            app.popup_prev();
            None
        },
        KeyInput::Right | KeyInput::Char('l') => {
            app.popup_next();
            None
        },
        KeyInput::Tab => {
            app.popup_next();
            None
        },
        KeyInput::BackTab => {
            app.popup_prev();
            None
        },
        KeyInput::Enter => app.execute_popup_action(),
        KeyInput::Char('t') => {
            let pid = match app.get_selected_port() {
                Some(p) => Some(p.pid),
                None => None,
            };
            match pid {
                Some(pid) => {
                    app.close_popup();
                    Some((pid, false))
                },
                None => None,
            }
        },
        KeyInput::Char('k') => {
            let pid = match app.get_selected_port() {
                Some(p) => Some(p.pid),
                None => None,
            };
            match pid {
                Some(pid) => {
                    app.close_popup();
                    Some((pid, true))
                },
                None => None,
            }
        },
        _ => None,
    }
}

/// What the `t`/`k` shortcut keys leave behind: with a selected process the
/// popup closes and its identifier comes back with the given force flag;
/// without one, nothing changed and nothing comes back.
pub open spec fn shortcut_post(pre: App, post: App, r: Option<(u32, bool)>, force: bool) -> bool {
    match selected_pid(pre) {
        Some(pid) => popup_closed(pre, post) && r == Some((pid, force)),
        None => post == pre && r is None,
    }
}

} // verus!
