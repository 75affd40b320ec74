use crate::snapshot::{
    blocked_entries, blocked_listing, listed_count, opt_text, row_listing, BlockedKind,
    DashboardSnapshot, Totals,
};
use vstd::prelude::*;

verus! {

/// The two panels of the dashboard; one of them has the focus.
#[derive(PartialEq, Eq, Structural, Clone, Copy, Debug)]
pub enum Panel {
    /// The table of active users.
    Users,
    /// The table of blocked IP addresses and user IDs.
    Blocked,
}

/// A key press, as far as the dashboard tells keys apart.
#[derive(PartialEq, Eq, Structural, Clone, Copy, Debug)]
pub enum Key {
    Esc,
    Tab,
    Up,
    Down,
    Char(char),
    /// Any other key.
    Other,
}

/// What the dashboard asks of the gateway after a key press.
pub enum Action {
    /// Leave the dashboard.
    Quit,
    /// Nothing beyond the dashboard's own state.
    Nothing,
    /// Block this user ID.
    BlockUser(String),
    /// Block this IP address.
    BlockIp(String),
    /// Unblock this user ID.
    UnblockUser(String),
    /// Unblock this IP address.
    UnblockIp(String),
    /// Unblock this user ID, and the user's last IP address where known.
    UnblockUserAndIp(String, Option<String>),
}

/// The mathematical content of an [`Action`].
pub enum ActionView {
    Quit,
    Nothing,
    BlockUser(Seq<char>),
    BlockIp(Seq<char>),
    UnblockUser(Seq<char>),
    UnblockIp(Seq<char>),
    UnblockUserAndIp(Seq<char>, Option<Seq<char>>),
}

impl View for Action {
    type V = ActionView;

    open spec fn view(&self) -> ActionView {
        match self {
            Action::Quit => ActionView::Quit,
            Action::Nothing => ActionView::Nothing,
            Action::BlockUser(u) => ActionView::BlockUser(u@),
            Action::BlockIp(ip) => ActionView::BlockIp(ip@),
            Action::UnblockUser(u) => ActionView::UnblockUser(u@),
            Action::UnblockIp(ip) => ActionView::UnblockIp(ip@),
            Action::UnblockUserAndIp(u, ip) => ActionView::UnblockUserAndIp(u@, opt_text(*ip)),
        }
    }
}

/// What the stats bar shows.
pub struct DashboardStats {
    /// The panel with the focus.
    pub panel: Panel,
    /// Users with a queue.
    pub users: usize,
    /// Requests queued or being processed.
    pub queued: usize,
    /// Requests processed.
    pub processed: usize,
    /// Requests dropped.
    pub dropped: usize,
}

/// The state of the terminal dashboard: the selected row of each table,
/// the panel with the focus, and whether the detailed help is shown.
pub struct TuiDashboard {
    /// The selected row of the users table.
    pub user_selection: Option<usize>,
    /// The selected row of the blocked-items table.
    pub blocked_selection: Option<usize>,
    pub active_panel: Panel,
    pub show_help: bool,
}

/// The number of rows of the panel with the focus.
pub open spec fn panel_rows(d: TuiDashboard, snap: DashboardSnapshot) -> int {
    match d.active_panel {
        Panel::Users => listed_count(snap.users()),
        Panel::Blocked => (snap.blocked_ips().len() + snap.blocked_users().len()) as int,
    }
}

/// A selection kept inside a table of `len` rows: none in an empty table,
/// the first row where nothing was selected, the last row where the
/// selection lies past the end.
pub open spec fn clamp_selection(sel: Option<usize>, len: int) -> Option<usize> {
    if len == 0 {
        None
    } else {
        match sel {
            None => Some(0),
            Some(s) => if s >= len {
                Some((len - 1) as usize)
            } else {
                Some(s)
            },
        }
    }
}

/// The selection one row up (staying at the first row).
pub open spec fn select_up(sel: Option<usize>) -> Option<usize> {
    match sel {
        Some(s) => if s == 0 {
            Some(0)
        } else {
            Some((s - 1) as usize)
        },
        None => Some(0),
    }
}

/// The selection one row down in a table of `len` rows (staying at the
/// last row); unchanged in an empty table.
pub open spec fn select_down(sel: Option<usize>, len: int) -> Option<usize> {
    if len == 0 {
        sel
    } else {
        match sel {
            Some(s) => if s + 1 < len - 1 {
                Some((s + 1) as usize)
            } else {
                Some((len - 1) as usize)
            },
            None => Some(0),
        }
    }
}

/// `d` with the selection of the panel with the focus replaced.
pub open spec fn with_active_selection(d: TuiDashboard, sel: Option<usize>) -> TuiDashboard {
    match d.active_panel {
        Panel::Users => TuiDashboard { user_selection: sel, ..d },
        Panel::Blocked => TuiDashboard { blocked_selection: sel, ..d },
    }
}

/// The selection of the panel with the focus.
pub open spec fn active_selection(d: TuiDashboard) -> Option<usize> {
    match d.active_panel {
        Panel::Users => d.user_selection,
        Panel::Blocked => d.blocked_selection,
    }
}

/// The other panel.
pub open spec fn other_panel(p: Panel) -> Panel {
    match p {
        Panel::Users => Panel::Blocked,
        Panel::Blocked => Panel::Users,
    }
}

/// The dashboard's state after a key press.
pub open spec fn after_key(d: TuiDashboard, key: Key, snap: DashboardSnapshot) -> TuiDashboard {
    if key == Key::Char('?') {
        TuiDashboard { show_help: !d.show_help, ..d }
    } else if key == Key::Tab || key == Key::Char('l') || key == Key::Char('h') {
        TuiDashboard { active_panel: other_panel(d.active_panel), ..d }
    } else if key == Key::Up || key == Key::Char('k') {
        with_active_selection(d, select_up(active_selection(d)))
    } else if key == Key::Down || key == Key::Char('j') {
        with_active_selection(d, select_down(active_selection(d), panel_rows(d, snap)))
    } else {
        d
    }
}

/// The user shown at row `i` of the users table.
pub open spec fn user_at_row(snap: DashboardSnapshot, i: int) -> crate::snapshot::UserStats {
    snap.users()[row_listing(snap.users(), false)[i] as int]
}

/// What a key press asks of the gateway.
pub open spec fn key_action(d: TuiDashboard, key: Key, snap: DashboardSnapshot) -> ActionView {
    let rows = row_listing(snap.users(), false).len();
    let items = blocked_entries(snap.blocked_ips(), snap.blocked_users());
    if key == Key::Esc || key == Key::Char('q') {
        ActionView::Quit
    } else if key == Key::Char('b') {
        match (d.active_panel, d.user_selection) {
            (Panel::Users, Some(i)) if i < rows => ActionView::BlockUser(user_at_row(snap, i as int).user_id@),
            _ => ActionView::Nothing,
        }
    } else if key == Key::Char('B') {
        match (d.active_panel, d.user_selection) {
            (Panel::Users, Some(i)) if i < rows => match user_at_row(snap, i as int).ip {
                Some(ip) => ActionView::BlockIp(ip@),
                None => ActionView::Nothing,
            },
            _ => ActionView::Nothing,
        }
    } else if key == Key::Char('u') {
        match (d.active_panel, d.user_selection, d.blocked_selection) {
            (Panel::Blocked, _, Some(i)) if i < items.len() => {
                let e = items[blocked_listing(items)[i as int] as int];
                match e.0 {
                    BlockedKind::Ip => ActionView::UnblockIp(e.1),
                    BlockedKind::User => ActionView::UnblockUser(e.1),
                }
            },
            (Panel::Users, Some(i), _) if i < rows => {
                let u = user_at_row(snap, i as int);
                ActionView::UnblockUserAndIp(u.user_id@, opt_text(u.ip))
            },
            _ => ActionView::Nothing,
        }
    } else {
        ActionView::Nothing
    }
}

/// Keeping the selection inside the focused table before a frame: the other
/// table's selection, the focus and the help stay; in an empty table nothing
/// is selected; otherwise a missing selection becomes the first row, one past
/// the end becomes the last row, and one inside the table does not move.
pub proof fn law_sync_selection_moves_only_what_is_outside(d: TuiDashboard, snap: DashboardSnapshot)
    requires
        panel_rows(d, snap) <= usize::MAX,
    ensures
        ({
            let len = panel_rows(d, snap);
            let after = with_active_selection(d, clamp_selection(active_selection(d), len));
            &&& after.active_panel == d.active_panel
            &&& after.show_help == d.show_help
            &&& d.active_panel == Panel::Users ==> after.blocked_selection == d.blocked_selection
            &&& d.active_panel == Panel::Blocked ==> after.user_selection == d.user_selection
            &&& len == 0 ==> active_selection(after) is None
            &&& len > 0 ==> match active_selection(d) {
                None => active_selection(after) == Some(0usize),
                Some(s) => if s < len {
                    active_selection(after) == Some(s)
                } else {
                    active_selection(after) == Some((len - 1) as usize)
                },
            }
        }),
{
}

/// A selection inside a table stays where it is when it is kept inside the table.
pub proof fn law_clamp_keeps_selection_inside(s: usize, len: int)
    requires
        s < len,
    ensures
        clamp_selection(Some(s), len) == Some(s),
{
}

/// `?` toggles the help and changes nothing else, and asks nothing of the gateway.
pub proof fn law_help_key_changes_only_help(d: TuiDashboard, snap: DashboardSnapshot)
    ensures
        after_key(d, Key::Char('?'), snap).show_help == !d.show_help,
        after_key(d, Key::Char('?'), snap).active_panel == d.active_panel,
        after_key(d, Key::Char('?'), snap).user_selection == d.user_selection,
        after_key(d, Key::Char('?'), snap).blocked_selection == d.blocked_selection,
        key_action(d, Key::Char('?'), snap) == ActionView::Nothing,
{
}

/// Tab, `h` and `l` move the focus to the other panel and change nothing else.
pub proof fn law_panel_keys_change_only_focus(d: TuiDashboard, snap: DashboardSnapshot, key: Key)
    requires
        key == Key::Tab || key == Key::Char('h') || key == Key::Char('l'),
    ensures
        after_key(d, key, snap).active_panel != d.active_panel,
        after_key(d, key, snap).show_help == d.show_help,
        after_key(d, key, snap).user_selection == d.user_selection,
        after_key(d, key, snap).blocked_selection == d.blocked_selection,
        key_action(d, key, snap) == ActionView::Nothing,
{
}

/// Up and `k` move the focused table's selection one row up (to the first
/// row from nothing or from the first row) and change nothing else.
pub proof fn law_up_keys_move_focused_selection(d: TuiDashboard, snap: DashboardSnapshot, key: Key)
    requires
        key == Key::Up || key == Key::Char('k'),
    ensures
        ({
            let after = after_key(d, key, snap);
            let up = match active_selection(d) {
                Some(s) => if s > 0 {
                    Some((s - 1) as usize)
                } else {
                    Some(0usize)
                },
                None => Some(0usize),
            };
            &&& after.active_panel == d.active_panel
            &&& after.show_help == d.show_help
            &&& d.active_panel == Panel::Users ==> after.user_selection == up
                && after.blocked_selection == d.blocked_selection
            &&& d.active_panel == Panel::Blocked ==> after.blocked_selection == up
                && after.user_selection == d.user_selection
        }),
        key_action(d, key, snap) == ActionView::Nothing,
{
}

/// Down and `j` move the focused table's selection one row down, staying at
/// the last row (to the first row from nothing); in an empty table nothing
/// changes; the other table's selection, the focus and the help stay.
pub proof fn law_down_keys_move_focused_selection(d: TuiDashboard, snap: DashboardSnapshot, key: Key)
    requires
        key == Key::Down || key == Key::Char('j'),
        panel_rows(d, snap) <= usize::MAX,
    ensures
        ({
            let after = after_key(d, key, snap);
            let len = panel_rows(d, snap);
            &&& after.active_panel == d.active_panel
            &&& after.show_help == d.show_help
            &&& d.active_panel == Panel::Users ==> after.blocked_selection == d.blocked_selection
            &&& d.active_panel == Panel::Blocked ==> after.user_selection == d.user_selection
            &&& len == 0 ==> active_selection(after) == active_selection(d)
            &&& len > 0 ==> match active_selection(d) {
                None => active_selection(after) == Some(0usize),
                Some(s) => if s + 1 < len {
                    active_selection(after) == Some((s + 1) as usize)
                } else {
                    active_selection(after) == Some((len - 1) as usize)
                },
            }
        }),
        key_action(d, key, snap) == ActionView::Nothing,
{
}

/// Keys that act on the gateway, quit, or are not bound leave the
/// dashboard's state as it is.
pub proof fn law_other_keys_keep_state(d: TuiDashboard, snap: DashboardSnapshot, key: Key)
    requires
        key != Key::Tab && key != Key::Char('h') && key != Key::Char('l'),
        key != Key::Up && key != Key::Char('k'),
        key != Key::Down && key != Key::Char('j'),
        key != Key::Char('?'),
    ensures
        after_key(d, key, snap) == d,
{
}

/// With the blocked panel focused, `b` and `B` ask nothing of the gateway.
pub proof fn law_block_keys_need_users_panel(d: TuiDashboard, snap: DashboardSnapshot)
    requires
        d.active_panel == Panel::Blocked,
    ensures
        key_action(d, Key::Char('b'), snap) == ActionView::Nothing,
        key_action(d, Key::Char('B'), snap) == ActionView::Nothing,
{
}

/// Keys other than `q`, Esc, `b`, `B` and `u` ask nothing of the gateway.
pub proof fn law_only_action_keys_act(d: TuiDashboard, snap: DashboardSnapshot, key: Key)
    requires
        key != Key::Esc && key != Key::Char('q'),
        key != Key::Char('b') && key != Key::Char('B') && key != Key::Char('u'),
    ensures
        key_action(d, key, snap) == ActionView::Nothing,
{
}

/// Switching panels twice gives back the same state.
pub proof fn law_panel_switch_twice(d: TuiDashboard, snap: DashboardSnapshot)
    ensures
        after_key(after_key(d, Key::Tab, snap), Key::Tab, snap) == d,
{
}

/// Toggling the help twice gives back the same state.
pub proof fn law_help_toggle_twice(d: TuiDashboard, snap: DashboardSnapshot)
    ensures
        after_key(after_key(d, Key::Char('?'), snap), Key::Char('?'), snap) == d,
{
}

/// `q` and `Esc` quit and leave the state as it is.
pub proof fn law_quit_keys(d: TuiDashboard, snap: DashboardSnapshot)
    ensures
        after_key(d, Key::Esc, snap) == d,
        after_key(d, Key::Char('q'), snap) == d,
        key_action(d, Key::Esc, snap) == ActionView::Quit,
        key_action(d, Key::Char('q'), snap) == ActionView::Quit,
{
}

/// After the selection is kept inside a table, a non-empty table has a
/// selected row inside it, an empty table none; keeping it inside again
/// changes nothing.
pub proof fn law_clamped_selection_in_table(sel: Option<usize>, len: int)
    requires
        0 <= len <= usize::MAX,
    ensures
        clamp_selection(sel, len) is None <==> len == 0,
        clamp_selection(sel, len) matches Some(s) ==> s < len,
        clamp_selection(clamp_selection(sel, len), len) == clamp_selection(sel, len),
{
}

/// Moving down in a non-empty table selects a row inside it, starting from
/// any selection.
pub proof fn law_down_stays_in_table(sel: Option<usize>, len: int)
    requires
        0 < len <= usize::MAX,
    ensures
        select_down(sel, len) matches Some(s) && s < len,
{
}

/// Moving up then down returns to a row that is neither the first nor past the end.
pub proof fn law_up_then_down(s: usize, len: int)
    requires
        0 < s < len <= usize::MAX,
    ensures
        select_down(select_up(Some(s)), len) == Some(s),
{
}

/// Moving down then up returns to a row that is not the last.
pub proof fn law_down_then_up(s: usize, len: int)
    requires
        s + 1 < len <= usize::MAX,
    ensures
        select_up(select_down(Some(s), len)) == Some(s),
{
}

/// The keys `b`, `B` and `u` of the users panel act on the user shown at
/// the selected row of the users table.
pub proof fn law_user_keys_act_on_shown_row(
    d: TuiDashboard,
    snap: DashboardSnapshot,
    rows: Seq<crate::snapshot::UserRow>,
    i: usize,
)
    requires
        d.active_panel == Panel::Users,
        d.user_selection == Some(i),
        i < rows.len(),
        rows.len() == row_listing(snap.users(), false).len(),
        forall|p: int|
            0 <= p < rows.len() ==> crate::snapshot::row_shows(
                #[trigger] rows[p],
                snap.users()[row_listing(snap.users(), false)[p] as int],
                snap.blocked_ips(),
                snap.blocked_users(),
            ),
    ensures
        key_action(d, Key::Char('b'), snap) == ActionView::BlockUser(rows[i as int].user_id@),
        key_action(d, Key::Char('B'), snap) == match opt_text(rows[i as int].ip) {
            Some(ip) => ActionView::BlockIp(ip),
            None => ActionView::Nothing,
        },
        key_action(d, Key::Char('u'), snap) == ActionView::UnblockUserAndIp(
            rows[i as int].user_id@,
            opt_text(rows[i as int].ip),
        ),
{
    assert(crate::snapshot::row_shows(
        rows[i as int],
        snap.users()[row_listing(snap.users(), false)[i as int] as int],
        snap.blocked_ips(),
        snap.blocked_users(),
    ));
}

/// The key `u` of the blocked panel unblocks the entry shown at the
/// selected row of the blocked table.
pub proof fn law_unblock_acts_on_shown_entry(
    d: TuiDashboard,
    snap: DashboardSnapshot,
    rows: Seq<crate::snapshot::BlockedItem>,
    i: usize,
)
    requires
        d.active_panel == Panel::Blocked,
        d.blocked_selection == Some(i),
        i < rows.len(),
        ({
            let items = blocked_entries(snap.blocked_ips(), snap.blocked_users());
            &&& rows.len() == items.len()
            &&& forall|p: int|
                0 <= p < rows.len() ==> ((#[trigger] rows[p]).kind, rows[p].value@) == items[blocked_listing(
                    items,
                )[p] as int]
        }),
    ensures
        key_action(d, Key::Char('u'), snap) == match rows[i as int].kind {
            BlockedKind::Ip => ActionView::UnblockIp(rows[i as int].value@),
            BlockedKind::User => ActionView::UnblockUser(rows[i as int].value@),
        },
{
    let items = blocked_entries(snap.blocked_ips(), snap.blocked_users());
    assert((rows[i as int].kind, rows[i as int].value@) == items[blocked_listing(items)[i as int] as int]);
}

impl TuiDashboard {
    /// A fresh dashboard: nothing selected, the users panel focused, no help shown.
    pub fn new() -> (d: Self)
        ensures
            d.user_selection is None,
            d.blocked_selection is None,
            d.active_panel == Panel::Users,
            !d.show_help,
    {
        TuiDashboard {
            user_selection: None,
            blocked_selection: None,
            active_panel: Panel::Users,
            show_help: false,
        }
    }

    /// The number of rows of the panel with the focus.
    fn active_rows(&self, snap: &DashboardSnapshot) -> (n: usize)
        ensures
            n == panel_rows(*self, *snap),
    {
        match self.active_panel {
            Panel::Users => snap.listed_users(),
            Panel::Blocked => snap.blocked_count(),
        }
    }

    /// Keeps the selection of the panel with the focus inside its table, as
    /// before each frame is drawn.
    pub fn sync_selection(&mut self, snap: &DashboardSnapshot)
        ensures
            *final(self) == with_active_selection(
                *old(self),
                clamp_selection(active_selection(*old(self)), panel_rows(*old(self), *snap)),
            ),
    {
        let len = self.active_rows(snap);
        let sel = match self.active_panel {
            Panel::Users => self.user_selection,
            Panel::Blocked => self.blocked_selection,
        };
        let new_sel = if len == 0 {
            None
        } else {
            match sel {
                None => Some(0),
                Some(s) => if s >= len {
                    Some(len - 1)
                } else {
                    Some(s)
                },
            }
        };
        match self.active_panel {
            Panel::Users => self.user_selection = new_sel,
            Panel::Blocked => self.blocked_selection = new_sel,
        }
    }

    /// Handles a key press: updates the dashboard's state and says what the
    /// gateway has to do.
    pub fn handle_key(&mut self, key: Key, snap: &DashboardSnapshot) -> (a: Action)
        ensures
            *final(self) == after_key(*old(self), key, *snap),
            a@ == key_action(*old(self), key, *snap),
    {
        if key == Key::Esc || key == Key::Char('q') {
            return Action::Quit;
        }
        if key == Key::Char('?') {
            self.show_help = !self.show_help;
            return Action::Nothing;
        }
        if key == Key::Tab || key == Key::Char('l') || key == Key::Char('h') {
            self.active_panel = match self.active_panel {
                Panel::Users => Panel::Blocked,
                Panel::Blocked => Panel::Users,
            };
            return Action::Nothing;
        }
        if key == Key::Up || key == Key::Char('k') {
            let sel = match self.active_panel {
                Panel::Users => self.user_selection,
                Panel::Blocked => self.blocked_selection,
            };
            let s = match sel {
                Some(s) => s,
                None => 0,
            };
            let up = Some(if s == 0 { 0 } else { s - 1 });
            match self.active_panel {
                Panel::Users => self.user_selection = up,
                Panel::Blocked => self.blocked_selection = up,
            }
            return Action::Nothing;
        }
        if key == Key::Down || key == Key::Char('j') {
            let len = self.active_rows(snap);
            if len > 0 {
                let sel = match self.active_panel {
                    Panel::Users => self.user_selection,
                    Panel::Blocked => self.blocked_selection,
                };
                let down = match sel {
                    Some(s) => if s < len - 1 {
                        Some(s + 1)
                    } else {
                        Some(len - 1)
                    },
                    None => Some(0),
                };
                match self.active_panel {
                    Panel::Users => self.user_selection = down,
                    Panel::Blocked => self.blocked_selection = down,
                }
            }
            return Action::Nothing;
        }
        if key == Key::Char('b') || key == Key::Char('B') {
            if self.active_panel == Panel::Users {
                if let Some(i) = self.user_selection {
                    let order = snap.row_order(false);
                    if i < order.len() {
                        let u = snap.user(order[i]);
                        if key == Key::Char('b') {
                            return Action::BlockUser(u.user_id.clone());
                        }
                        return match &u.ip {
                            Some(ip) => Action::BlockIp(ip.clone()),
                            None => Action::Nothing,
                        };
                    }
                }
            }
            return Action::Nothing;
        }
        if key == Key::Char('u') {
            if self.active_panel == Panel::Blocked {
                if let Some(i) = self.blocked_selection {
                    let items = snap.blocked_rows();
                    if i < items.len() {
                        let it = &items[i];
                        return match it.kind {
                            BlockedKind::Ip => Action::UnblockIp(it.value.clone()),
                            BlockedKind::User => Action::UnblockUser(it.value.clone()),
                        };
                    }
                }
            } else {
                if let Some(i) = self.user_selection {
                    let order = snap.row_order(false);
                    if i < order.len() {
                        let u = snap.user(order[i]);
                        let ip = match &u.ip {
                            Some(ip) => Some(ip.clone()),
                            None => None,
                        };
                        return Action::UnblockUserAndIp(u.user_id.clone(), ip);
                    }
                }
            }
            return Action::Nothing;
        }
        Action::Nothing
    }

    /// What the stats bar shows: the focused panel and the totals.
    pub fn stats(&self, snap: &DashboardSnapshot) -> (s: DashboardStats)
        ensures
            s.panel == self.active_panel,
            s.users == listed_count(snap.users()),
            s.queued == crate::snapshot::sum_of(snap.users(), crate::snapshot::load_of()),
            s.processed == crate::snapshot::sum_of(snap.users(), crate::snapshot::processed_of()),
            s.dropped == crate::snapshot::sum_of(snap.users(), crate::snapshot::dropped_of()),
    {
        let t: Totals = snap.totals();
        DashboardStats {
            panel: self.active_panel,
            users: t.users,
            queued: t.queued,
            processed: t.processed,
            dropped: t.dropped,
        }
    }
}

} // verus!
