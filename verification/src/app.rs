use vstd::prelude::*;

use crate::ports::{distinct_keys, get_listening_ports, sorted_by_port, PortInfo};

verus! {

/// How long status messages are shown (milliseconds).
pub const STATUS_DISPLAY_DURATION_MILLIS: u64 = 2000;

/// Horizontal scroll step size.
pub const SCROLL_STEP: u16 = 10;

/// The three buttons of the confirmation popup, in their fixed cycle order.
#[derive(Clone, Copy, Debug, PartialEq, Eq, Structural)]
pub enum PopupButton {
    Cancel,
    Terminate,
    ForceKill,
}

impl Default for PopupButton {
    /// The popup always opens on `Cancel`.
    fn default() -> (r: Self)
        ensures
            r == PopupButton::Cancel,
    {
        PopupButton::Cancel
    }
}

impl PopupButton {
    /// The button after this one in the cycle Cancel -> Terminate -> ForceKill -> Cancel.
    pub open spec fn spec_next(self) -> PopupButton {
        match self {
            PopupButton::Cancel => PopupButton::Terminate,
            PopupButton::Terminate => PopupButton::ForceKill,
            PopupButton::ForceKill => PopupButton::Cancel,
        }
    }

    /// The button before this one in the cycle.
    pub open spec fn spec_prev(self) -> PopupButton {
        match self {
            PopupButton::Cancel => PopupButton::ForceKill,
            PopupButton::Terminate => PopupButton::Cancel,
            PopupButton::ForceKill => PopupButton::Terminate,
        }
    }
}

/// Cycling forward three times returns to the starting button, and likewise
/// backward; one step forward undoes one step backward and vice versa.
pub proof fn lemma_popup_cycle_period(b: PopupButton)
    ensures
        b.spec_next().spec_next().spec_next() == b,
        b.spec_prev().spec_prev().spec_prev() == b,
        b.spec_next().spec_prev() == b,
        b.spec_prev().spec_next() == b,
{
}

/// The character standing for one decimal digit.
pub open spec fn digit_char(d: nat) -> char
    recommends
        d < 10,
{
    if d == 0 {
        '0'
    } else if d == 1 {
        '1'
    } else if d == 2 {
        '2'
    } else if d == 3 {
        '3'
    } else if d == 4 {
        '4'
    } else if d == 5 {
        '5'
    } else if d == 6 {
        '6'
    } else if d == 7 {
        '7'
    } else if d == 8 {
        '8'
    } else {
        '9'
    }
}

/// The decimal rendering of `n`, most significant digit first and without
/// leading zeros (`0` itself renders as one digit).
pub open spec fn spec_decimal(n: nat) -> Seq<char>
    decreases n,
{
    if n < 10 {
        seq![digit_char(n)]
    } else {
        spec_decimal(n / 10).push(digit_char(n % 10))
    }
}

fn digit_str(d: usize) -> (r: &'static str)
    requires
        d < 10,
    ensures
        r@ == seq![digit_char(d as nat)],
{
    let r: &'static str = if d == 0 {
        "0"
    } else if d == 1 {
        "1"
    } else if d == 2 {
        "2"
    } else if d == 3 {
        "3"
    } else if d == 4 {
        "4"
    } else if d == 5 {
        "5"
    } else if d == 6 {
        "6"
    } else if d == 7 {
        "7"
    } else if d == 8 {
        "8"
    } else {
        "9"
    };
    proof {
        reveal_strlit("0");
        reveal_strlit("1");
        reveal_strlit("2");
        reveal_strlit("3");
        reveal_strlit("4");
        reveal_strlit("5");
        reveal_strlit("6");
        reveal_strlit("7");
        reveal_strlit("8");
        reveal_strlit("9");
        assert(r@ =~= seq![digit_char(d as nat)]);
    }
    r
}

/// Renders `n` in decimal, as `spec_decimal` states.
pub fn decimal_string(n: usize) -> (r: String)
    ensures
        r@ == spec_decimal(n as nat),
    decreases n,
{
    if n < 10 {
        String::from_str(digit_str(n))
    } else {
        let mut s = decimal_string(n / 10);
        s.append(digit_str(n % 10));
        proof {
            assert(s@ =~= spec_decimal((n / 10) as nat).push(digit_char((n % 10) as nat)));
        }
        s
    }
}

/// Relies on std::time::SystemTime::now and duration_since: the wall-clock
/// time in milliseconds since the Unix epoch. Nothing is promised of the
/// value, which depends on the machine's clock.
#[verifier::external_body]
fn now_millis() -> (r: u64) {
    match std::time::SystemTime::now().duration_since(std::time::UNIX_EPOCH) {
        Ok(d) => d.as_millis() as u64,
        Err(_) => 0,
    }
}

/// Where the selection lands after the list is replaced by one of length
/// `n`: an out-of-bounds selection clamps to the last row, a missing
/// selection lands on the first row, and an empty list clears it.
pub open spec fn adjusted_selection(sel: Option<usize>, n: int) -> Option<usize> {
    match sel {
        Some(i) => if n == 0 {
            None
        } else if i as int >= n {
            Some((n - 1) as usize)
        } else {
            Some(i)
        },
        None => if n == 0 {
            None
        } else {
            Some(0usize)
        },
    }
}

/// Where the selection lands after one step down a list of length `n`:
/// it saturates at the last row instead of wrapping.
pub open spec fn next_selection(sel: Option<usize>, n: int) -> Option<usize> {
    if n == 0 {
        sel
    } else {
        match sel {
            Some(i) => if i + 1 < n {
                Some((i + 1) as usize)
            } else {
                Some((n - 1) as usize)
            },
            None => Some(0usize),
        }
    }
}

/// Where the selection lands after one step up: it saturates at the first
/// row instead of wrapping.
pub open spec fn prev_selection(sel: Option<usize>, n: int) -> Option<usize> {
    if n == 0 {
        sel
    } else {
        match sel {
            Some(i) => if i > 0 {
                Some((i - 1) as usize)
            } else {
                Some(0usize)
            },
            None => Some(0usize),
        }
    }
}

/// Moving the selection saturates at both ends: a step up from the first
/// row stays on the first row and a step down from the last row stays on
/// the last row, however often either is repeated.
pub proof fn lemma_selection_saturates(n: int)
    requires
        0 < n <= usize::MAX,
    ensures
        prev_selection(Some(0usize), n) == Some(0usize),
        next_selection(Some((n - 1) as usize), n) == Some((n - 1) as usize),
{
}

/// Whether a status message stamped at `time` has outlived its display
/// duration at instant `now`.
pub open spec fn status_expired(time: Option<u64>, now: u64) -> bool {
    match time {
        Some(t) => now >= t + STATUS_DISPLAY_DURATION_MILLIS,
        None => false,
    }
}

/// The scroll offset after one step left: ten columns back, stopping at zero.
pub open spec fn scrolled_left(x: u16) -> u16 {
    if x >= SCROLL_STEP {
        (x - SCROLL_STEP) as u16
    } else {
        0u16
    }
}

/// The scroll offset after one step right: ten columns on, stopping at the
/// top of the offset's range.
pub open spec fn scrolled_right(x: u16) -> u16 {
    if x + SCROLL_STEP <= u16::MAX {
        (x + SCROLL_STEP) as u16
    } else {
        u16::MAX
    }
}

/// The interactive session state: the current port list, the selection
/// cursor, the horizontal scroll offset, transient status feedback, the
/// persistent error banner, and the confirmation-popup sub-state.
pub struct App {
    pub ports: Vec<PortInfo>,
    pub selected: Option<usize>,
    pub error: Option<String>,
    pub scroll_offset: u16,
    pub status_message: Option<String>,
    pub status_time: Option<u64>,
    pub show_terminate_popup: bool,
    pub popup_selection: PopupButton,
}

/// All fields but the selection cursor agree.
pub open spec fn same_but_selection(pre: App, post: App) -> bool {
    &&& post.ports == pre.ports
    &&& post.error == pre.error
    &&& post.scroll_offset == pre.scroll_offset
    &&& post.status_message == pre.status_message
    &&& post.status_time == pre.status_time
    &&& post.show_terminate_popup == pre.show_terminate_popup
    &&& post.popup_selection == pre.popup_selection
}

/// All fields but the scroll offset agree.
pub open spec fn same_but_scroll(pre: App, post: App) -> bool {
    &&& post.ports == pre.ports
    &&& post.selected == pre.selected
    &&& post.error == pre.error
    &&& post.status_message == pre.status_message
    &&& post.status_time == pre.status_time
    &&& post.show_terminate_popup == pre.show_terminate_popup
    &&& post.popup_selection == pre.popup_selection
}

/// All fields but the popup sub-state agree.
pub open spec fn same_but_popup(pre: App, post: App) -> bool {
    &&& post.ports == pre.ports
    &&& post.selected == pre.selected
    &&& post.error == pre.error
    &&& post.scroll_offset == pre.scroll_offset
    &&& post.status_message == pre.status_message
    &&& post.status_time == pre.status_time
}

/// All fields but the status message and its timestamp agree.
pub open spec fn same_but_status(pre: App, post: App) -> bool {
    &&& post.ports == pre.ports
    &&& post.selected == pre.selected
    &&& post.error == pre.error
    &&& post.scroll_offset == pre.scroll_offset
    &&& post.show_terminate_popup == pre.show_terminate_popup
    &&& post.popup_selection == pre.popup_selection
}

/// The termination request `execute_popup_action` emits: nothing on Cancel
/// or without a valid selection, otherwise the selected record's process
/// identifier with the force flag set exactly for ForceKill.
pub open spec fn popup_action(s: App) -> Option<(u32, bool)> {
    match s.selected {
        Some(i) => if (i as int) < s.ports@.len() {
            match s.popup_selection {
                PopupButton::Cancel => None,
                PopupButton::Terminate => Some((s.ports@[i as int].pid, false)),
                PopupButton::ForceKill => Some((s.ports@[i as int].pid, true)),
            }
        } else {
            None
        },
        None => None,
    }
}

/// Confirming on the Cancel button never yields a termination request,
/// whatever the selection state.
pub proof fn lemma_cancel_confirms_nothing(s: App)
    requires
        s.popup_selection == PopupButton::Cancel,
    ensures
        popup_action(s) is None,
{
}

/// What `refresh` guarantees: the popup and scroll state survive; on
/// success (no error recorded) the new list is well formed, the selection is
/// clamped to it and the status counts the ports; on failure the previous
/// list and selection survive and the status reports the failure.
pub open spec fn refresh_post(pre: App, post: App) -> bool {
    &&& post.inv()
    &&& post.scroll_offset == pre.scroll_offset
    &&& post.show_terminate_popup == pre.show_terminate_popup
    &&& post.popup_selection == pre.popup_selection
    &&& post.status_time is Some
    &&& post.error is None ==> {
        &&& sorted_by_port(post.ports.deep_view())
        &&& distinct_keys(post.ports.deep_view())
        &&& post.selected == adjusted_selection(pre.selected, post.ports@.len() as int)
        &&& post.status_message matches Some(m) && m@ == "Refreshed - "@ + spec_decimal(
            post.ports@.len() as nat,
        ) + " ports"@
    }
    &&& post.error is Some ==> {
        &&& post.ports == pre.ports
        &&& post.selected == pre.selected
        &&& post.status_message matches Some(m) && m@ == "Refresh failed"@
    }
}

impl App {
    /// Selection invariant: a selection exists exactly when the list is
    /// non-empty, and always stays in bounds.
    pub open spec fn inv(self) -> bool {
        match self.selected {
            Some(i) => self.ports@.len() > 0 && (i as int) < self.ports@.len(),
            None => self.ports@.len() == 0,
        }
    }

    /// Takes the initial registry snapshot. On success the first row is
    /// selected (none on an empty list); on failure the list is empty and
    /// the error is recorded. No popup is open and no status is set.
    pub fn new() -> (r: App)
        ensures
            r.inv(),
            r.scroll_offset == 0,
            r.status_message is None,
            r.status_time is None,
            !r.show_terminate_popup,
            r.popup_selection == PopupButton::Cancel,
            r.error is None ==> sorted_by_port(r.ports.deep_view()) && distinct_keys(
                r.ports.deep_view(),
            ),
            r.error is Some ==> r.ports@.len() == 0,
            r.selected == (if r.ports@.len() == 0 {
                None::<usize>
            } else {
                Some(0usize)
            }),
    {
        let (ports, error) = match get_listening_ports() {
            Ok(p) => (p, None),
            Err(e) => (Vec::new(), Some(e)),
        };
        let selected = if ports.len() > 0 {
            Some(0usize)
        } else {
            None
        };
        App {
            ports,
            selected,
            error,
            scroll_offset: 0,
            status_message: None,
            status_time: None,
            show_terminate_popup: false,
            popup_selection: PopupButton::default(),
        }
    }

    /// Clamps the selection after the port list changed, as
    /// `adjusted_selection` states.
    fn adjust_selection(&mut self)
        ensures
            final(self).selected == adjusted_selection(
                old(self).selected,
                old(self).ports@.len() as int,
            ),
            same_but_selection(*old(self), *final(self)),
            final(self).inv(),
    {
        match self.selected {
            Some(i) => {
                if i >= self.ports.len() {
                    self.selected = if self.ports.len() == 0 {
                        None
                    } else {
                        Some(self.ports.len() - 1)
                    };
                }
            },
            None => {
                if self.ports.len() > 0 {
                    self.selected = Some(0usize);
                }
            },
        }
    }

    /// Replaces the status message, stamped with the current time.
    pub fn set_status(&mut self, msg: &str)
        ensures
            final(self).status_message matches Some(m) && m@ == msg@,
            final(self).status_time is Some,
            same_but_status(*old(self), *final(self)),
    {
        self.status_message = Some(msg.to_owned());
        self.status_time = Some(now_millis());
    }

    /// Folds one snapshot result into the session. On success the list is
    /// replaced, the error banner cleared, the selection clamped and a
    /// "Refreshed - N ports" status set; on failure the list and selection
    /// stay untouched, the error is recorded and the status reads
    /// "Refresh failed".
    pub fn apply_refresh_result(&mut self, result: Result<Vec<PortInfo>, String>)
        requires
            old(self).inv(),
        ensures
            final(self).inv(),
            final(self).scroll_offset == old(self).scroll_offset,
            final(self).show_terminate_popup == old(self).show_terminate_popup,
            final(self).popup_selection == old(self).popup_selection,
            final(self).status_time is Some,
            match result {
                Ok(p) => {
                    &&& final(self).ports == p
                    &&& final(self).error is None
                    &&& final(self).selected == adjusted_selection(
                        old(self).selected,
                        p@.len() as int,
                    )
                    &&& final(self).status_message matches Some(m) && m@ == "Refreshed - "@
                        + spec_decimal(p@.len() as nat) + " ports"@
                },
                Err(e) => {
                    &&& final(self).ports == old(self).ports
                    &&& final(self).selected == old(self).selected
                    &&& final(self).error == Some(e)
                    &&& final(self).status_message matches Some(m) && m@ == "Refresh failed"@
                },
            },
    {
        match result {
            Ok(p) => {
                self.ports = p;
                self.error = None;
                self.adjust_selection();
                let mut m = String::from_str("Refreshed - ");
                let count = decimal_string(self.ports.len());
                m.append(count.as_str());
                m.append(" ports");
                self.set_status(m.as_str());
            },
            Err(e) => {
                self.error = Some(e);
                self.set_status("Refresh failed");
            },
        }
    }

    /// Re-snapshots the registry. Sets a "Refreshing..." status first, then
    /// folds the result in as `apply_refresh_result` states: the new list
    /// replaces the old one only on success, and on failure the previous
    /// list and selection survive with the error recorded.
    pub fn refresh(&mut self)
        requires
            old(self).inv(),
        ensures
            refresh_post(*old(self), *final(self)),
    {
        self.set_status("Refreshing...");
        let result = get_listening_ports();
        self.apply_refresh_result(result);
    }

    /// Clears the status message once its age at instant `now` exceeds the
    /// display duration, as `status_expired` states.
    pub fn clear_old_status_at(&mut self, now: u64)
        ensures
            same_but_status(*old(self), *final(self)),
            if status_expired(old(self).status_time, now) {
                final(self).status_message is None && final(self).status_time is None
            } else {
                final(self).status_message == old(self).status_message && final(self).status_time == old(self).status_time
            },
    {
        if let Some(t) = self.status_time {
            if now.saturating_sub(t) >= STATUS_DISPLAY_DURATION_MILLIS {
                self.status_message = None;
                self.status_time = None;
            }
        }
    }

    /// Clears the status message once it has been shown long enough,
    /// reading the clock; everything else is left untouched.
    pub fn clear_old_status(&mut self)
        ensures
            same_but_status(*old(self), *final(self)),
            (final(self).status_message == old(self).status_message && final(self).status_time
                == old(self).status_time) || (final(self).status_message is None && final(self).status_time is None),
    {
        let now = now_millis();
        self.clear_old_status_at(now);
    }

    /// Moves the selection one row down, saturating at the last row, as
    /// `next_selection` states.
    pub fn next(&mut self)
        requires
            old(self).inv(),
        ensures
            final(self).inv(),
            same_but_selection(*old(self), *final(self)),
            final(self).selected == next_selection(
                old(self).selected,
                old(self).ports@.len() as int,
            ),
    {
        if self.ports.len() == 0 {
            return ;
        }
        let i = match self.selected {
            Some(i) => if i + 1 < self.ports.len() {
                i + 1
            } else {
                self.ports.len() - 1
            },
            None => 0,
        };
        self.selected = Some(i);
    }

    /// Moves the selection one row up, saturating at the first row, as
    /// `prev_selection` states.
    pub fn previous(&mut self)
        requires
            old(self).inv(),
        ensures
            final(self).inv(),
            same_but_selection(*old(self), *final(self)),
            final(self).selected == prev_selection(
                old(self).selected,
                old(self).ports@.len() as int,
            ),
    {
        if self.ports.len() == 0 {
            return ;
        }
        let i = match self.selected {
            Some(i) => i.saturating_sub(1),
            None => 0,
        };
        self.selected = Some(i);
    }

    /// Scrolls the path column left by one step, saturating at zero.
    pub fn scroll_left(&mut self)
        ensures
            same_but_scroll(*old(self), *final(self)),
            final(self).scroll_offset == scrolled_left(old(self).scroll_offset),
    {
        self.scroll_offset = self.scroll_offset.saturating_sub(SCROLL_STEP);
    }

    /// Scrolls the path column right by one step, saturating at the top of
    /// the offset's range.
    pub fn scroll_right(&mut self)
        ensures
            same_but_scroll(*old(self), *final(self)),
            final(self).scroll_offset == scrolled_right(old(self).scroll_offset),
    {
        self.scroll_offset = self.scroll_offset.saturating_add(SCROLL_STEP);
    }

    /// Jumps the path column back to its first character.
    pub fn reset_scroll(&mut self)
        ensures
            same_but_scroll(*old(self), *final(self)),
            final(self).scroll_offset == 0,
    {
        self.scroll_offset = 0;
    }

    /// Opens the confirmation popup on the Cancel button; without a
    /// selection this does nothing.
    pub fn open_terminate_popup(&mut self)
        ensures
            same_but_popup(*old(self), *final(self)),
            (old(self).selected is Some && old(self).ports@.len() > 0) ==> (final(self).show_terminate_popup && final(self).popup_selection == PopupButton::Cancel),
            !(old(self).selected is Some && old(self).ports@.len() > 0) ==> (final(self).show_terminate_popup == old(self).show_terminate_popup && final(self).popup_selection == old(self).popup_selection),
    {
        if self.selected.is_some() && self.ports.len() > 0 {
            self.show_terminate_popup = true;
            self.popup_selection = PopupButton::default();
        }
    }

    /// Closes the popup; the button, list and selection are untouched.
    pub fn close_popup(&mut self)
        ensures
            same_but_popup(*old(self), *final(self)),
            !final(self).show_terminate_popup,
            final(self).popup_selection == old(self).popup_selection,
    {
        self.show_terminate_popup = false;
    }

    /// Moves the popup button one step forward along the cycle, wrapping.
    pub fn popup_next(&mut self)
        ensures
            same_but_popup(*old(self), *final(self)),
            final(self).show_terminate_popup == old(self).show_terminate_popup,
            final(self).popup_selection == old(self).popup_selection.spec_next(),
    {
        self.popup_selection = match self.popup_selection {
            PopupButton::Cancel => PopupButton::Terminate,
            PopupButton::Terminate => PopupButton::ForceKill,
            PopupButton::ForceKill => PopupButton::Cancel,
        };
    }

    /// Moves the popup button one step backward along the cycle, wrapping.
    pub fn popup_prev(&mut self)
        ensures
            same_but_popup(*old(self), *final(self)),
            final(self).show_terminate_popup == old(self).show_terminate_popup,
            final(self).popup_selection == old(self).popup_selection.spec_prev(),
    {
        self.popup_selection = match self.popup_selection {
            PopupButton::Cancel => PopupButton::ForceKill,
            PopupButton::Terminate => PopupButton::Cancel,
            PopupButton::ForceKill => PopupButton::Terminate,
        };
    }

    /// The record under the selection cursor, if the cursor is in bounds.
    pub fn get_selected_port(&self) -> (r: Option<&PortInfo>)
        ensures
            match self.selected {
                Some(i) => if (i as int) < self.ports@.len() {
                    r matches Some(p) && *p == self.ports@[i as int]
                } else {
                    r is None
                },
                None => r is None,
            },
    {
        match self.selected {
            Some(i) => if i < self.ports.len() {
                Some(&self.ports[i])
            } else {
                None
            },
            None => None,
        }
    }

    /// Reads the selected record and the popup button, closes the popup in
    /// every case, and returns the termination request `popup_action`
    /// states: none on Cancel or without a valid selection.
    pub fn execute_popup_action(&mut self) -> (r: Option<(u32, bool)>)
        ensures
            !final(self).show_terminate_popup,
            same_but_popup(*old(self), *final(self)),
            final(self).popup_selection == old(self).popup_selection,
            r == popup_action(*old(self)),
    {
        let result = match self.get_selected_port() {
            Some(p) => {
                let pid = p.pid;
                match self.popup_selection {
                    PopupButton::Cancel => None,
                    PopupButton::Terminate => Some((pid, false)),
                    PopupButton::ForceKill => Some((pid, true)),
                }
            },
            None => None,
        };
        self.close_popup();
        result
    }

    /// Folds the terminator's verdict back in. On success a status naming
    /// the process and severity is set and the registry is refreshed at
    /// once, which replaces that status as `refresh_post` states; on failure
    /// only the reason is shown and nothing else changes.
    pub fn apply_kill_result(&mut self, pid: u32, force: bool, result: Result<(), String>)
        requires
            old(self).inv(),
        ensures
            match result {
                Ok(_) => refresh_post(*old(self), *final(self)),
                Err(reason) => {
                    &&& same_but_status(*old(self), *final(self))
                    &&& final(self).status_message matches Some(m) && m@ == "Failed: "@ + reason@
                    &&& final(self).status_time is Some
                },
            },
    {
        match result {
            Ok(_) => {
                let mut msg = if force {
                    String::from_str("Force killed PID ")
                } else {
                    String::from_str("Terminated PID ")
                };
                let digits = decimal_string(pid as usize);
                msg.append(digits.as_str());
                self.set_status(msg.as_str());
                self.refresh();
            },
            Err(reason) => {
                let mut msg = String::from_str("Failed: ");
                msg.append(reason.as_str());
                self.set_status(msg.as_str());
            },
        }
    }
}

impl Default for App {
    /// A fresh session, as `App::new` builds it.
    fn default() -> (r: Self)
        ensures
            r.inv(),
            r.scroll_offset == 0,
            !r.show_terminate_popup,
            r.popup_selection == PopupButton::Cancel,
    {
        Self::new()
    }
}

} // verus!
