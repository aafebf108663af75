//! Interactive state of the monitor and the keyboard rules that change it.
//!
//! The application reads key presses from the terminal, turns each into a
//! [`Key`], hands it to [`AppState::handle_key`] and then performs the
//! [`KeyEffect`] that comes back (terminating a process, saving the
//! preferences, opening the project page).
use vstd::prelude::*;
use crate::config::{
    faster_rate, slower_rate, toggled_theme, AppConfig, ProcessSortBy, ThemeMode,
};
use crate::text::{is_control, is_control_spec, pop_char, push_char};
use crate::updater::UpdateStatus;

verus! {

broadcast use vstd::string::group_string_axioms;

/// Rows of the process list that the selection is kept within.
pub const PROC_VISIBLE_ROWS: usize = 20;

/// Rows skipped by PgUp / PgDn.
pub const PROC_PAGE: usize = 10;

/// The panel that has keyboard focus.
#[derive(Debug, Clone, Copy, PartialEq, Eq, Structural)]
pub enum ActivePanel {
    Cpu,
    Memory,
    Disk,
    Gpu,
    Network,
    Processes,
}

/// A key press, as far as the monitor tells keys apart.
#[derive(Debug, Clone, Copy, PartialEq, Eq, Structural)]
pub enum Key {
    Char(char),
    Esc,
    Enter,
    Backspace,
    Tab,
    BackTab,
    Up,
    Down,
    PageUp,
    PageDown,
    Home,
    End,
    Delete,
    Other,
}

/// What the application has to do after a key press.
#[derive(Debug, Clone, Copy, PartialEq, Eq, Structural)]
pub enum KeyEffect {
    /// Nothing outside the state.
    Nothing,
    /// Terminate the process with this id (its outcome changes nothing).
    KillProcess(u32),
    /// Write the preferences to disk.
    SaveConfig,
    /// Open the developer's GitHub profile in the default browser.
    OpenProfile,
}

/// The interactive state. `proc_pids` holds the ids of the processes of the
/// latest snapshot, in the order they are listed.
pub struct AppState {
    pub config: AppConfig,
    pub proc_pids: Vec<u32>,
    pub active_panel: ActivePanel,
    pub proc_selected_idx: usize,
    pub proc_scroll_offset: usize,
    pub proc_filter: String,
    pub is_filtering: bool,
    pub pending_kill: Option<u32>,
    pub show_help: bool,
    pub should_quit: bool,
    pub update_status: UpdateStatus,
    pub pending_update_confirm: bool,
    pub update_confirmed: bool,
}

/// The mathematical value of an [`AppState`].
#[verifier::ext_equal]
pub struct AppModel {
    pub config: AppConfig,
    pub pids: Seq<u32>,
    pub active_panel: ActivePanel,
    pub selected: nat,
    pub scroll: nat,
    pub filter: Seq<char>,
    pub is_filtering: bool,
    pub pending_kill: Option<u32>,
    pub show_help: bool,
    pub should_quit: bool,
    pub update_status: UpdateStatus,
    pub pending_update_confirm: bool,
    pub update_confirmed: bool,
}

impl View for AppState {
    type V = AppModel;

    open spec fn view(&self) -> AppModel {
        AppModel {
            config: self.config,
            pids: self.proc_pids@,
            active_panel: self.active_panel,
            selected: self.proc_selected_idx as nat,
            scroll: self.proc_scroll_offset as nat,
            filter: self.proc_filter@,
            is_filtering: self.is_filtering,
            pending_kill: self.pending_kill,
            show_help: self.show_help,
            should_quit: self.should_quit,
            update_status: self.update_status,
            pending_update_confirm: self.pending_update_confirm,
            update_confirmed: self.update_confirmed,
        }
    }
}

// ---------------------------------------------------------------------------
// The rules, stated over the model.
// ---------------------------------------------------------------------------

/// The panel after `current` in Tab order.
pub open spec fn next_panel(current: ActivePanel) -> ActivePanel {
    match current {
        ActivePanel::Cpu => ActivePanel::Memory,
        ActivePanel::Memory => ActivePanel::Disk,
        ActivePanel::Disk => ActivePanel::Gpu,
        ActivePanel::Gpu => ActivePanel::Network,
        ActivePanel::Network => ActivePanel::Processes,
        ActivePanel::Processes => ActivePanel::Cpu,
    }
}

/// The panel before `current` in Tab order.
pub open spec fn prev_panel(current: ActivePanel) -> ActivePanel {
    match current {
        ActivePanel::Cpu => ActivePanel::Processes,
        ActivePanel::Processes => ActivePanel::Network,
        ActivePanel::Network => ActivePanel::Gpu,
        ActivePanel::Gpu => ActivePanel::Disk,
        ActivePanel::Disk => ActivePanel::Memory,
        ActivePanel::Memory => ActivePanel::Cpu,
    }
}

/// The scroll offset that keeps row `selected` inside a window of `rows`
/// rows starting at `offset`, moving the window as little as possible.
pub open spec fn scrolled_to(selected: nat, offset: nat, rows: nat) -> nat {
    if selected < offset {
        selected
    } else if selected >= offset + rows {
        (selected + 1 - rows) as nat
    } else {
        offset
    }
}

/// `m` with row `selected` selected and the list scrolled to show it.
pub open spec fn select_row(m: AppModel, selected: nat) -> AppModel {
    AppModel {
        selected,
        scroll: scrolled_to(selected, m.scroll, PROC_VISIBLE_ROWS as nat),
        ..m
    }
}

/// `m` with the filter replaced and the list back at its top.
pub open spec fn with_filter(m: AppModel, filter: Seq<char>) -> AppModel {
    AppModel { filter, selected: 0, scroll: 0, ..m }
}

/// Keys while the filter is being typed: Esc and Enter stop typing,
/// Backspace deletes, a printable character is appended; each edit brings
/// the list back to its top.
pub open spec fn filter_step(m: AppModel, key: Key) -> AppModel {
    match key {
        Key::Esc => AppModel { is_filtering: false, ..m },
        Key::Enter => AppModel { is_filtering: false, ..m },
        Key::Backspace => with_filter(
            m,
            if m.filter.len() > 0 {
                m.filter.drop_last()
            } else {
                m.filter
            },
        ),
        Key::Char(c) => if !is_control_spec(c) {
            with_filter(m, m.filter.push(c))
        } else {
            m
        },
        _ => m,
    }
}

/// Keys while a kill is awaiting confirmation: y/Y confirms, n/N/Esc
/// cancels; either way the prompt closes.
pub open spec fn kill_prompt_step(m: AppModel, key: Key) -> AppModel {
    if key == Key::Char('y') || key == Key::Char('Y') || key == Key::Char('n') || key
        == Key::Char('N') || key == Key::Esc {
        AppModel { pending_kill: None, ..m }
    } else {
        m
    }
}

/// Keys while an update is awaiting confirmation: y/Y confirms it, n/N/Esc
/// dismisses the prompt.
pub open spec fn update_prompt_step(m: AppModel, key: Key) -> AppModel {
    if key == Key::Char('y') || key == Key::Char('Y') {
        AppModel { pending_update_confirm: false, update_confirmed: true, ..m }
    } else if key == Key::Char('n') || key == Key::Char('N') || key == Key::Esc {
        AppModel { pending_update_confirm: false, ..m }
    } else {
        m
    }
}

/// Keys while the help window is open: Esc, ?, h and q close it.
pub open spec fn help_step(m: AppModel, key: Key) -> AppModel {
    if key == Key::Esc || key == Key::Char('?') || key == Key::Char('h') || key == Key::Char(
        'q',
    ) {
        AppModel { show_help: false, ..m }
    } else {
        m
    }
}

/// The ordering chosen by a sort key: pressing the key of the current column
/// reverses the direction, another column starts in its own default
/// direction.
pub open spec fn sort_step(config: AppConfig, column: ProcessSortBy, default_desc: bool) -> AppConfig {
    if config.proc_sort_by == column {
        AppConfig { proc_sort_desc: !config.proc_sort_desc, ..config }
    } else {
        AppConfig { proc_sort_by: column, proc_sort_desc: default_desc, ..config }
    }
}

/// Keys with no prompt or modal open.
pub open spec fn nav_step(m: AppModel, key: Key) -> AppModel {
    let n = m.pids.len();
    if key == Key::Char('q') {
        AppModel { should_quit: true, ..m }
    } else if key == Key::Char('?') || key == Key::Char('h') {
        AppModel { show_help: true, ..m }
    } else if key == Key::Char('u') {
        if m.update_status is Available {
            AppModel { pending_update_confirm: true, ..m }
        } else {
            m
        }
    } else if key == Key::Char('t') {
        AppModel {
            config: AppConfig { theme: toggled_theme(m.config.theme), ..m.config },
            ..m
        }
    } else if key == Key::Char('+') || key == Key::Char('=') {
        AppModel {
            config: AppConfig { sampling_rate_ms: faster_rate(m.config.sampling_rate_ms), ..m.config },
            ..m
        }
    } else if key == Key::Char('-') || key == Key::Char('_') {
        AppModel {
            config: AppConfig { sampling_rate_ms: slower_rate(m.config.sampling_rate_ms), ..m.config },
            ..m
        }
    } else if key == Key::Tab {
        AppModel { active_panel: next_panel(m.active_panel), ..m }
    } else if key == Key::BackTab {
        AppModel { active_panel: prev_panel(m.active_panel), ..m }
    } else if key == Key::Up || key == Key::Char('k') {
        if m.selected > 0 {
            select_row(m, (m.selected - 1) as nat)
        } else {
            m
        }
    } else if key == Key::Down || key == Key::Char('j') {
        if m.selected + 1 < n {
            select_row(m, m.selected + 1)
        } else {
            m
        }
    } else if key == Key::PageUp {
        select_row(
            m,
            if m.selected >= PROC_PAGE {
                (m.selected - PROC_PAGE) as nat
            } else {
                0
            },
        )
    } else if key == Key::PageDown {
        if n > 0 {
            select_row(
                m,
                if m.selected + PROC_PAGE < n - 1 {
                    (m.selected + PROC_PAGE) as nat
                } else {
                    (n - 1) as nat
                },
            )
        } else {
            m
        }
    } else if key == Key::Home {
        AppModel { selected: 0, scroll: 0, ..m }
    } else if key == Key::End {
        if n > 0 {
            select_row(m, (n - 1) as nat)
        } else {
            m
        }
    } else if key == Key::Char('c') {
        AppModel { config: sort_step(m.config, ProcessSortBy::Cpu, true), ..m }
    } else if key == Key::Char('m') {
        AppModel { config: sort_step(m.config, ProcessSortBy::Memory, true), ..m }
    } else if key == Key::Char('p') {
        AppModel { config: sort_step(m.config, ProcessSortBy::Pid, false), ..m }
    } else if key == Key::Char('n') {
        AppModel { config: sort_step(m.config, ProcessSortBy::Name, false), ..m }
    } else if key == Key::Char('d') {
        AppModel {
            config: AppConfig { proc_sort_desc: !m.config.proc_sort_desc, ..m.config },
            ..m
        }
    } else if key == Key::Char('/') {
        AppModel { is_filtering: true, ..m }
    } else if key == Key::Esc {
        if m.filter.len() > 0 {
            with_filter(m, Seq::empty())
        } else {
            m
        }
    } else if key == Key::Char('x') || key == Key::Char('K') || key == Key::Delete {
        if m.selected < n {
            AppModel { pending_kill: Some(m.pids[m.selected as int]), ..m }
        } else {
            m
        }
    } else {
        m
    }
}

/// The keys of the standard mode that change the saved preferences.
pub open spec fn is_config_key(key: Key) -> bool {
    ||| key == Key::Char('t')
    ||| key == Key::Char('+')
    ||| key == Key::Char('=')
    ||| key == Key::Char('-')
    ||| key == Key::Char('_')
    ||| key == Key::Char('c')
    ||| key == Key::Char('m')
    ||| key == Key::Char('p')
    ||| key == Key::Char('n')
    ||| key == Key::Char('d')
}

/// The state after `key`: the open prompt or modal, in the order filter
/// typing, kill confirmation, update confirmation, help, takes the key;
/// otherwise the standard shortcuts apply.
pub open spec fn next_state(m: AppModel, key: Key) -> AppModel {
    if m.is_filtering {
        filter_step(m, key)
    } else if m.pending_kill is Some {
        kill_prompt_step(m, key)
    } else if m.pending_update_confirm {
        update_prompt_step(m, key)
    } else if m.show_help {
        help_step(m, key)
    } else {
        nav_step(m, key)
    }
}

/// What the application has to do after `key`.
pub open spec fn key_effect(m: AppModel, key: Key) -> KeyEffect {
    if m.is_filtering {
        KeyEffect::Nothing
    } else if m.pending_kill is Some {
        if key == Key::Char('y') || key == Key::Char('Y') {
            KeyEffect::KillProcess(m.pending_kill->0)
        } else {
            KeyEffect::Nothing
        }
    } else if m.pending_update_confirm || m.show_help {
        KeyEffect::Nothing
    } else if key == Key::Char('g') {
        KeyEffect::OpenProfile
    } else if is_config_key(key) {
        KeyEffect::SaveConfig
    } else {
        KeyEffect::Nothing
    }
}

/// The state right after start-up with the given preferences.
pub open spec fn initial_model(config: AppConfig) -> AppModel {
    AppModel {
        config,
        pids: Seq::empty(),
        active_panel: ActivePanel::Processes,
        selected: 0,
        scroll: 0,
        filter: Seq::empty(),
        is_filtering: false,
        pending_kill: None,
        show_help: false,
        should_quit: false,
        update_status: UpdateStatus::Idle,
        pending_update_confirm: false,
        update_confirmed: false,
    }
}

/// The state after a new snapshot listing `pids`: a selection past the end
/// of a non-empty list moves to its last row, and the list scrolls to show
/// the selection.
pub open spec fn snapshot_step(m: AppModel, pids: Seq<u32>) -> AppModel {
    let selected = if pids.len() > 0 && m.selected >= pids.len() {
        (pids.len() - 1) as nat
    } else {
        m.selected
    };
    select_row(AppModel { pids, ..m }, selected)
}

/// The selection lies inside the list (when the list is not empty) and
/// inside the visible window of rows.
pub open spec fn selection_visible(m: AppModel) -> bool {
    &&& (m.pids.len() == 0 || m.selected < m.pids.len())
    &&& m.scroll <= m.selected < m.scroll + PROC_VISIBLE_ROWS
}

// ---------------------------------------------------------------------------
// The executable state machine.
// ---------------------------------------------------------------------------

impl AppState {
    /// The state right after start-up.
    pub fn new(config: AppConfig) -> (r: Self)
        ensures
            r@ == initial_model(config),
    {
        AppState {
            config,
            proc_pids: Vec::new(),
            active_panel: ActivePanel::Processes,
            proc_selected_idx: 0,
            proc_scroll_offset: 0,
            proc_filter: String::new(),
            is_filtering: false,
            pending_kill: None,
            show_help: false,
            should_quit: false,
            update_status: UpdateStatus::Idle,
            pending_update_confirm: false,
            update_confirmed: false,
        }
    }

    /// Takes the process list of a new snapshot (its ids in listed order).
    pub fn update_snapshot(&mut self, pids: Vec<u32>)
        ensures
            final(self)@ == snapshot_step(old(self)@, pids@),
    {
        let ghost before = self@;
        let count = pids.len();
        self.proc_pids = pids;
        if count > 0 && self.proc_selected_idx >= count {
            self.proc_selected_idx = count - 1;
        }
        self.adjust_proc_scroll(PROC_VISIBLE_ROWS);
        assert(self@ =~= snapshot_step(before, self.proc_pids@));
    }

    /// Applies one key press and says what the application has to do next.
    pub fn handle_key(&mut self, key: Key) -> (effect: KeyEffect)
        ensures
            final(self)@ == next_state(old(self)@, key),
            effect == key_effect(old(self)@, key),
    {
        if self.is_filtering {
            self.filter_key(key);
            return KeyEffect::Nothing;
        }
        if let Some(pid) = self.pending_kill {
            let confirmed = key == Key::Char('y') || key == Key::Char('Y');
            if confirmed || key == Key::Char('n') || key == Key::Char('N') || key == Key::Esc {
                self.pending_kill = None;
            }
            return if confirmed {
                KeyEffect::KillProcess(pid)
            } else {
                KeyEffect::Nothing
            };
        }
        if self.pending_update_confirm {
            if key == Key::Char('y') || key == Key::Char('Y') {
                self.pending_update_confirm = false;
                self.update_confirmed = true;
            } else if key == Key::Char('n') || key == Key::Char('N') || key == Key::Esc {
                self.pending_update_confirm = false;
            }
            return KeyEffect::Nothing;
        }
        if self.show_help {
            if key == Key::Esc || key == Key::Char('?') || key == Key::Char('h') || key
                == Key::Char('q') {
                self.show_help = false;
            }
            return KeyEffect::Nothing;
        }
        self.nav_key(key)
    }

    /// A key typed into the process filter.
    fn filter_key(&mut self, key: Key)
        requires
            old(self).is_filtering,
        ensures
            final(self)@ == filter_step(old(self)@, key),
    {
        let ghost before = self@;
        match key {
            Key::Esc | Key::Enter => {
                self.is_filtering = false;
            },
            Key::Backspace => {
                let _ = pop_char(&mut self.proc_filter);
                self.proc_selected_idx = 0;
                self.proc_scroll_offset = 0;
            },
            Key::Char(c) => {
                if !is_control(c) {
                    push_char(&mut self.proc_filter, c);
                    self.proc_selected_idx = 0;
                    self.proc_scroll_offset = 0;
                }
            },
            _ => {},
        }
        assert(self@ =~= filter_step(before, key));
    }

    /// A key with no prompt or modal open.
    fn nav_key(&mut self, key: Key) -> (effect: KeyEffect)
        requires
            !old(self).is_filtering,
            (old(self).pending_kill is None),
            !old(self).pending_update_confirm,
            !old(self).show_help,
        ensures
            final(self)@ == nav_step(old(self)@, key),
            effect == key_effect(old(self)@, key),
    {
        let ghost before = self@;
        let n = self.proc_pids.len();
        let mut effect = KeyEffect::Nothing;
        if key == Key::Char('q') {
            self.should_quit = true;
        } else if key == Key::Char('?') || key == Key::Char('h') {
            self.show_help = true;
        } else if key == Key::Char('u') {
            if let UpdateStatus::Available(_) = &self.update_status {
                self.pending_update_confirm = true;
            }
        } else if key == Key::Char('g') {
            effect = KeyEffect::OpenProfile;
        } else if key == Key::Char('t') {
            self.config.theme = match self.config.theme {
                ThemeMode::Dark => ThemeMode::Light,
                ThemeMode::Light => ThemeMode::Dark,
            };
            effect = KeyEffect::SaveConfig;
        } else if key == Key::Char('+') || key == Key::Char('=') {
            self.config.cycle_sampling_rate(false);
            effect = KeyEffect::SaveConfig;
        } else if key == Key::Char('-') || key == Key::Char('_') {
            self.config.cycle_sampling_rate(true);
            effect = KeyEffect::SaveConfig;
        } else if key == Key::Tab {
            self.cycle_panel(false);
        } else if key == Key::BackTab {
            self.cycle_panel(true);
        } else if key == Key::Up || key == Key::Char('k') {
            if self.proc_selected_idx > 0 {
                self.proc_selected_idx = self.proc_selected_idx - 1;
                self.adjust_proc_scroll(PROC_VISIBLE_ROWS);
            }
        } else if key == Key::Down || key == Key::Char('j') {
            if n > 0 && self.proc_selected_idx < n - 1 {
                self.proc_selected_idx = self.proc_selected_idx + 1;
                self.adjust_proc_scroll(PROC_VISIBLE_ROWS);
            }
        } else if key == Key::PageUp {
            self.proc_selected_idx = if self.proc_selected_idx >= PROC_PAGE {
                self.proc_selected_idx - PROC_PAGE
            } else {
                0
            };
            self.adjust_proc_scroll(PROC_VISIBLE_ROWS);
        } else if key == Key::PageDown {
            if n > 0 {
                self.proc_selected_idx = if self.proc_selected_idx < n - 1
                    && n - 1 - self.proc_selected_idx > PROC_PAGE {
                    self.proc_selected_idx + PROC_PAGE
                } else {
                    n - 1
                };
                self.adjust_proc_scroll(PROC_VISIBLE_ROWS);
            }
        } else if key == Key::Home {
            self.proc_selected_idx = 0;
            self.proc_scroll_offset = 0;
        } else if key == Key::End {
            if n > 0 {
                self.proc_selected_idx = n - 1;
                self.adjust_proc_scroll(PROC_VISIBLE_ROWS);
            }
        } else if key == Key::Char('c') {
            self.sort_key(ProcessSortBy::Cpu, true);
            effect = KeyEffect::SaveConfig;
        } else if key == Key::Char('m') {
            self.sort_key(ProcessSortBy::Memory, true);
            effect = KeyEffect::SaveConfig;
        } else if key == Key::Char('p') {
            self.sort_key(ProcessSortBy::Pid, false);
            effect = KeyEffect::SaveConfig;
        } else if key == Key::Char('n') {
            self.sort_key(ProcessSortBy::Name, false);
            effect = KeyEffect::SaveConfig;
        } else if key == Key::Char('d') {
            self.config.proc_sort_desc = !self.config.proc_sort_desc;
            effect = KeyEffect::SaveConfig;
        } else if key == Key::Char('/') {
            self.is_filtering = true;
        } else if key == Key::Esc {
            if self.proc_filter.as_str().unicode_len() > 0 {
                self.proc_filter = String::new();
                self.proc_selected_idx = 0;
                self.proc_scroll_offset = 0;
            }
        } else if key == Key::Char('x') || key == Key::Char('K') || key == Key::Delete {
            if self.proc_selected_idx < n {
                self.pending_kill = Some(self.proc_pids[self.proc_selected_idx]);
            }
        }
        assert(self@ =~= nav_step(before, key));
        effect
    }

    /// Applies a sort-column key.
    fn sort_key(&mut self, column: ProcessSortBy, default_desc: bool)
        ensures
            final(self)@ == (AppModel { config: sort_step(old(self).config, column, default_desc), ..old(self)@ }),
    {
        let ghost before = self@;
        if self.config.proc_sort_by == column {
            self.config.proc_sort_desc = !self.config.proc_sort_desc;
        } else {
            self.config.proc_sort_by = column;
            self.config.proc_sort_desc = default_desc;
        }
        assert(self@ =~= AppModel { config: sort_step(before.config, column, default_desc), ..before });
    }

    /// Moves the focus to the next panel, or the previous one when `reverse`.
    fn cycle_panel(&mut self, reverse: bool)
        ensures
            final(self)@ == (AppModel {
                active_panel: if reverse {
                    prev_panel(old(self).active_panel)
                } else {
                    next_panel(old(self).active_panel)
                },
                ..old(self)@
            }),
    {
        let ghost before = self@;
        self.active_panel = match (self.active_panel, reverse) {
            (ActivePanel::Cpu, false) => ActivePanel::Memory,
            (ActivePanel::Memory, false) => ActivePanel::Disk,
            (ActivePanel::Disk, false) => ActivePanel::Gpu,
            (ActivePanel::Gpu, false) => ActivePanel::Network,
            (ActivePanel::Network, false) => ActivePanel::Processes,
            (ActivePanel::Processes, false) => ActivePanel::Cpu,
            (ActivePanel::Cpu, true) => ActivePanel::Processes,
            (ActivePanel::Processes, true) => ActivePanel::Network,
            (ActivePanel::Network, true) => ActivePanel::Gpu,
            (ActivePanel::Gpu, true) => ActivePanel::Disk,
            (ActivePanel::Disk, true) => ActivePanel::Memory,
            (ActivePanel::Memory, true) => ActivePanel::Cpu,
        };
        assert(self@ =~= AppModel {
            active_panel: if reverse {
                prev_panel(before.active_panel)
            } else {
                next_panel(before.active_panel)
            },
            ..before
        });
    }

    /// Scrolls the process list so that the selected row lies within the
    /// first `visible_rows` rows shown.
    fn adjust_proc_scroll(&mut self, visible_rows: usize)
        requires
            visible_rows >= 1,
        ensures
            final(self)@ == (AppModel {
                scroll: scrolled_to(
                    old(self).proc_selected_idx as nat,
                    old(self).proc_scroll_offset as nat,
                    visible_rows as nat,
                ),
                ..old(self)@
            }),
    {
        let ghost before = self@;
        if self.proc_selected_idx < self.proc_scroll_offset {
            self.proc_scroll_offset = self.proc_selected_idx;
        } else if self.proc_selected_idx - self.proc_scroll_offset >= visible_rows {
            self.proc_scroll_offset = self.proc_selected_idx - (visible_rows - 1);
        }
        assert(self@ =~= AppModel {
            scroll: scrolled_to(before.selected, before.scroll, visible_rows as nat),
            ..before
        });
    }
}

// ---------------------------------------------------------------------------
// Laws.
// ---------------------------------------------------------------------------

/// Scrolling always leaves the selected row inside the visible window.
pub proof fn law_scrolled_to_shows_selection(selected: nat, offset: nat, rows: nat)
    requires
        rows >= 1,
    ensures
        scrolled_to(selected, offset, rows) <= selected < scrolled_to(selected, offset, rows)
            + rows,
{
}

/// The state after start-up shows its (empty) selection.
pub proof fn law_initial_selection_visible(config: AppConfig)
    ensures
        selection_visible(initial_model(config)),
{
}

/// Whatever the previous state, after a new snapshot the selection lies
/// inside the new list (when it is not empty) and inside the visible rows.
pub proof fn law_snapshot_selection_visible(m: AppModel, pids: Seq<u32>)
    ensures
        selection_visible(snapshot_step(m, pids)),
{
}

/// No key press can move the selection out of the list or out of the
/// visible rows.
pub proof fn law_keys_keep_selection_visible(m: AppModel, key: Key)
    requires
        selection_visible(m),
    ensures
        selection_visible(next_state(m, key)),
{
}

/// While the filter is being typed, a key can only edit the filter, leave
/// typing mode, or bring the list back to its top: it never terminates a
/// process, changes the preferences, the focus or the prompts, nor quits.
pub proof fn law_filter_typing_is_isolated(m: AppModel, key: Key)
    requires
        m.is_filtering,
    ensures
        key_effect(m, key) == KeyEffect::Nothing,
        next_state(m, key).config == m.config,
        next_state(m, key).pids == m.pids,
        next_state(m, key).active_panel == m.active_panel,
        next_state(m, key).pending_kill == m.pending_kill,
        next_state(m, key).show_help == m.show_help,
        next_state(m, key).should_quit == m.should_quit,
        next_state(m, key).pending_update_confirm == m.pending_update_confirm,
        next_state(m, key).update_confirmed == m.update_confirmed,
{
}

/// A process is terminated only after confirmation, and it is the one whose
/// termination was asked for; the prompt is closed afterwards.
pub proof fn law_kill_needs_confirmation(m: AppModel, key: Key, pid: u32)
    ensures
        key_effect(m, key) == KeyEffect::KillProcess(pid) ==> !m.is_filtering,
        key_effect(m, key) == KeyEffect::KillProcess(pid) ==> m.pending_kill == Some(pid),
        key_effect(m, key) == KeyEffect::KillProcess(pid) ==> (key == Key::Char('y') || key
            == Key::Char('Y')),
        key_effect(m, key) == KeyEffect::KillProcess(pid) ==> (next_state(
            m,
            key,
        ).pending_kill is None),
{
}

/// A kill request always names the process under the cursor.
pub proof fn law_kill_request_targets_selection(m: AppModel, key: Key)
    requires
        (m.pending_kill is None),
        (next_state(m, key).pending_kill is Some),
    ensures
        m.selected < m.pids.len(),
        next_state(m, key).pending_kill == Some(m.pids[m.selected as int]),
{
}

/// Tab followed by Shift-Tab gives the focus back, and six Tabs go round all
/// six panels.
pub proof fn law_panel_cycle(p: ActivePanel)
    ensures
        prev_panel(next_panel(p)) == p,
        next_panel(prev_panel(p)) == p,
        next_panel(next_panel(next_panel(next_panel(next_panel(next_panel(p)))))) == p,
{
}

/// In the standard mode, pressing `t` twice restores the theme and pressing
/// `d` twice restores the sort direction, each time asking for the
/// preferences to be saved.
pub proof fn law_toggles_are_involutive(m: AppModel)
    requires
        !m.is_filtering,
        (m.pending_kill is None),
        !m.pending_update_confirm,
        !m.show_help,
    ensures
        next_state(next_state(m, Key::Char('t')), Key::Char('t')) == m,
        next_state(next_state(m, Key::Char('d')), Key::Char('d')) == m,
        key_effect(m, Key::Char('t')) == KeyEffect::SaveConfig,
        key_effect(m, Key::Char('d')) == KeyEffect::SaveConfig,
{
    let t1 = next_state(m, Key::Char('t'));
    assert(t1.config.theme == toggled_theme(m.config.theme));
    assert(next_state(t1, Key::Char('t')) =~= m);
    let d1 = next_state(m, Key::Char('d'));
    assert(next_state(d1, Key::Char('d')) =~= m);
}

/// Only `q`, pressed with no prompt, filter or help window open, quits.
pub proof fn law_only_q_quits(m: AppModel, key: Key)
    requires
        !m.should_quit,
        next_state(m, key).should_quit,
    ensures
        key == Key::Char('q'),
        !m.is_filtering && (m.pending_kill is None) && !m.pending_update_confirm && !m.show_help,
{
}


/// `b` is `a` with at most the selected row and the scroll offset changed.
pub open spec fn only_cursor_moved(a: AppModel, b: AppModel) -> bool {
    AppModel { selected: b.selected, scroll: b.scroll, ..a } == b
}

/// In the standard mode the cursor keys move the selection and nothing
/// else: Up/k one row up and Down/j one row down (staying put at either end
/// of the list), PgUp/PgDn ten rows (stopping at the first or last row),
/// Home to the first row with the list at its top, End to the last row.
/// The list scrolls only when the new selection leaves the visible rows.
pub proof fn law_cursor_keys(m: AppModel, key: Key)
    requires
        !m.is_filtering,
        (m.pending_kill is None),
        !m.pending_update_confirm,
        !m.show_help,
        key == Key::Up || key == Key::Char('k') || key == Key::Down || key == Key::Char('j')
            || key == Key::PageUp || key == Key::PageDown || key == Key::Home || key == Key::End,
    ensures
        ({
            let n = m.pids.len();
            let r = next_state(m, key);
            &&& only_cursor_moved(m, r)
            &&& key_effect(m, key) == KeyEffect::Nothing
            &&& (key == Key::Up || key == Key::Char('k')) ==> r.selected == (if m.selected > 0 {
                m.selected - 1
            } else {
                m.selected as int
            })
            &&& (key == Key::Down || key == Key::Char('j')) ==> r.selected == (if m.selected + 1
                < n {
                m.selected + 1int
            } else {
                m.selected as int
            })
            &&& key == Key::PageUp ==> r.selected == (if m.selected >= 10 {
                m.selected - 10
            } else {
                0
            })
            &&& (key == Key::PageDown && n > 0) ==> r.selected == (if m.selected + 10 < n {
                m.selected + 10int
            } else {
                n - 1
            })
            &&& key == Key::Home ==> r.selected == 0 && r.scroll == 0
            &&& (key == Key::End && n > 0) ==> r.selected == n - 1
            &&& (key != Key::Home && m.scroll <= r.selected < m.scroll + PROC_VISIBLE_ROWS)
                ==> r.scroll == m.scroll
            &&& r.selected != m.selected ==> r.scroll <= r.selected < r.scroll + PROC_VISIBLE_ROWS
            &&& (r.selected != m.selected && r.selected < m.scroll) ==> r.scroll == r.selected
            &&& (r.selected != m.selected && r.selected >= m.scroll + PROC_VISIBLE_ROWS) ==> r.scroll
                + PROC_VISIBLE_ROWS == r.selected + 1
        }),
{
}


/// While the filter is typed: a printable character is appended to it and
/// Backspace removes its last character, each bringing the list back to its
/// first row; Esc and Enter stop typing and keep the filter; other keys
/// change nothing.
pub proof fn law_filter_keys(m: AppModel, key: Key)
    requires
        m.is_filtering,
    ensures
        ({
            let r = next_state(m, key);
            &&& (key matches Key::Char(c) && !is_control_spec(c)) ==> r == AppModel {
                filter: m.filter.push(key->0),
                selected: 0,
                scroll: 0,
                ..m
            }
            &&& (key matches Key::Char(c) && is_control_spec(c)) ==> r == m
            &&& key == Key::Backspace ==> r.filter.len() == (if m.filter.len() > 0 {
                m.filter.len() - 1
            } else {
                0
            }) && r.filter == m.filter.take(r.filter.len() as int) && r.selected == 0 && r.scroll
                == 0 && r.is_filtering
            &&& (key == Key::Esc || key == Key::Enter) ==> r == AppModel {
                is_filtering: false,
                ..m
            }
            &&& !(key is Char || key == Key::Backspace || key == Key::Esc || key == Key::Enter)
                ==> r == m
        }),
{
    if key == Key::Backspace && m.filter.len() > 0 {
        assert(m.filter.drop_last() =~= m.filter.take(m.filter.len() - 1));
    }
    if key == Key::Backspace && m.filter.len() == 0 {
        assert(m.filter =~= m.filter.take(0));
    }
}

/// `m` in the standard mode: no filter typing, prompt or help window.
pub open spec fn standard_mode(m: AppModel) -> bool {
    !m.is_filtering && (m.pending_kill is None) && !m.pending_update_confirm && !m.show_help
}

/// In the standard mode, the sort keys c, m, p and n order the list by CPU
/// usage, memory, pid and name (the first two highest first, the others
/// lowest first), a repeated key reverses the direction, and d reverses it;
/// each asks for the preferences to be saved and changes nothing else.
pub proof fn law_sort_keys(m: AppModel, key: Key)
    requires
        standard_mode(m),
    ensures
        ({
            let r = next_state(m, key);
            let sort_key = key == Key::Char('c') || key == Key::Char('m') || key == Key::Char('p')
                || key == Key::Char('n');
            let column = if key == Key::Char('c') {
                ProcessSortBy::Cpu
            } else if key == Key::Char('m') {
                ProcessSortBy::Memory
            } else if key == Key::Char('p') {
                ProcessSortBy::Pid
            } else {
                ProcessSortBy::Name
            };
            &&& sort_key ==> r.config.proc_sort_by == column
            &&& (sort_key && m.config.proc_sort_by == column) ==> r.config.proc_sort_desc
                == !m.config.proc_sort_desc
            &&& (sort_key && m.config.proc_sort_by != column) ==> r.config.proc_sort_desc == (
            column == ProcessSortBy::Cpu || column == ProcessSortBy::Memory)
            &&& key == Key::Char('d') ==> r.config.proc_sort_by == m.config.proc_sort_by
                && r.config.proc_sort_desc == !m.config.proc_sort_desc
            &&& (sort_key || key == Key::Char('d')) ==> {
                &&& r == AppModel { config: r.config, ..m }
                &&& r.config.theme == m.config.theme
                &&& r.config.sampling_rate_ms == m.config.sampling_rate_ms
                &&& key_effect(m, key) == KeyEffect::SaveConfig
            }
        }),
{
}

/// In the standard mode: `/` starts typing the filter, Esc clears a
/// non-empty filter and goes back to the first row, `t` switches the theme,
/// `+`/`=` and `-`/`_` step the sampling interval, Tab and Shift-Tab move
/// the focus, `?`/`h` open the help, `u` opens the update prompt when an
/// update is available, and `g` opens the profile page.
pub proof fn law_mode_keys(m: AppModel, key: Key)
    requires
        standard_mode(m),
    ensures
        ({
            let r = next_state(m, key);
            &&& key == Key::Char('/') ==> r == AppModel { is_filtering: true, ..m }
            &&& (key == Key::Esc && m.filter.len() > 0) ==> r == AppModel {
                filter: Seq::empty(),
                selected: 0,
                scroll: 0,
                ..m
            }
            &&& (key == Key::Esc && m.filter.len() == 0) ==> r == m
            &&& key == Key::Char('t') ==> r.config.theme != m.config.theme && r == AppModel {
                config: AppConfig { theme: r.config.theme, ..m.config },
                ..m
            }
            &&& (key == Key::Char('+') || key == Key::Char('=')) ==> r == AppModel {
                config: AppConfig { sampling_rate_ms: faster_rate(m.config.sampling_rate_ms), ..m.config },
                ..m
            } && r.config.sampling_rate_ms <= m.config.sampling_rate_ms
            &&& (key == Key::Char('-') || key == Key::Char('_')) ==> r == AppModel {
                config: AppConfig { sampling_rate_ms: slower_rate(m.config.sampling_rate_ms), ..m.config },
                ..m
            } && r.config.sampling_rate_ms >= m.config.sampling_rate_ms
            &&& key == Key::Tab ==> r == AppModel { active_panel: next_panel(m.active_panel), ..m }
            &&& key == Key::BackTab ==> r == AppModel {
                active_panel: prev_panel(m.active_panel),
                ..m
            }
            &&& (key == Key::Char('?') || key == Key::Char('h')) ==> r == AppModel {
                show_help: true,
                ..m
            }
            &&& key == Key::Char('u') ==> r == (if m.update_status is Available {
                AppModel { pending_update_confirm: true, ..m }
            } else {
                m
            })
            &&& key == Key::Char('g') ==> r == m && key_effect(m, key) == KeyEffect::OpenProfile
        }),
{
    crate::config::law_sampling_rate_steps(m.config.sampling_rate_ms);
}

/// With the help window open, Esc, `?`, `h` and `q` close it and every other
/// key is ignored; with the update prompt open, `y`/`Y` confirm the update,
/// `n`/`N`/Esc dismiss it, and every other key is ignored.
pub proof fn law_prompt_keys(m: AppModel, key: Key)
    requires
        !m.is_filtering,
        (m.pending_kill is None),
    ensures
        (m.pending_update_confirm && (key == Key::Char('y') || key == Key::Char('Y')))
            ==> next_state(m, key) == (AppModel {
            pending_update_confirm: false,
            update_confirmed: true,
            ..m
        }),
        (m.pending_update_confirm && (key == Key::Char('n') || key == Key::Char('N') || key
            == Key::Esc)) ==> next_state(m, key) == (AppModel { pending_update_confirm: false, ..m }),
        (m.pending_update_confirm && !(key == Key::Char('y') || key == Key::Char('Y') || key
            == Key::Char('n') || key == Key::Char('N') || key == Key::Esc)) ==> next_state(m, key)
            == m,
        (!m.pending_update_confirm && m.show_help && (key == Key::Esc || key == Key::Char('?')
            || key == Key::Char('h') || key == Key::Char('q'))) ==> next_state(m, key)
            == (AppModel { show_help: false, ..m }),
        (!m.pending_update_confirm && m.show_help && !(key == Key::Esc || key == Key::Char('?')
            || key == Key::Char('h') || key == Key::Char('q'))) ==> next_state(m, key) == m,
        (m.pending_update_confirm || m.show_help) ==> key_effect(m, key) == KeyEffect::Nothing,
{
}


/// With the kill prompt open (and no filter typed): `y`/`Y` terminate the
/// process asked for and close the prompt, `n`/`N`/Esc close it without
/// terminating anything, and every other key is ignored.
pub proof fn law_kill_prompt_keys(m: AppModel, key: Key, pid: u32)
    requires
        !m.is_filtering,
        m.pending_kill == Some(pid),
    ensures
        (key == Key::Char('y') || key == Key::Char('Y')) ==> next_state(m, key) == (AppModel {
            pending_kill: None,
            ..m
        }) && key_effect(m, key) == KeyEffect::KillProcess(pid),
        (key == Key::Char('n') || key == Key::Char('N') || key == Key::Esc) ==> next_state(m, key)
            == (AppModel { pending_kill: None, ..m }) && key_effect(m, key) == KeyEffect::Nothing,
        !(key == Key::Char('y') || key == Key::Char('Y') || key == Key::Char('n') || key
            == Key::Char('N') || key == Key::Esc) ==> next_state(m, key) == m && key_effect(m, key)
            == KeyEffect::Nothing,
{
}

/// In the standard mode, x, K and Delete ask to terminate the selected
/// process (nothing else changes, nothing is terminated yet); with an empty
/// list they do nothing.
pub proof fn law_kill_request(m: AppModel, key: Key)
    requires
        standard_mode(m),
        key == Key::Char('x') || key == Key::Char('K') || key == Key::Delete,
    ensures
        m.selected < m.pids.len() ==> next_state(m, key) == (AppModel {
            pending_kill: Some(m.pids[m.selected as int]),
            ..m
        }),
        m.selected >= m.pids.len() ==> next_state(m, key) == m,
        key_effect(m, key) == KeyEffect::Nothing,
{
}

/// A new snapshot replaces the list; the selection stays on the same row
/// unless the list got shorter than it, in which case it moves to the last
/// row; the list scrolls only when the selection would leave the visible
/// rows; nothing else changes.
pub proof fn law_snapshot_keeps_the_rest(m: AppModel, pids: Seq<u32>)
    ensures
        ({
            let r = snapshot_step(m, pids);
            &&& r.pids == pids
            &&& r.selected == (if pids.len() > 0 && m.selected >= pids.len() {
                pids.len() - 1
            } else {
                m.selected as int
            })
            &&& (m.scroll <= r.selected < m.scroll + PROC_VISIBLE_ROWS) ==> r.scroll == m.scroll
            &&& r == AppModel { pids, selected: r.selected, scroll: r.scroll, ..m }
        }),
{
}


/// In the standard mode the preference keys t, +, =, -, _, c, m, p, n and d
/// ask for the preferences to be saved, g asks for the profile page to be
/// opened, and no other key asks for anything.
pub proof fn law_standard_effects(m: AppModel, key: Key)
    requires
        standard_mode(m),
    ensures
        key_effect(m, key) == (if key == Key::Char('g') {
            KeyEffect::OpenProfile
        } else if key == Key::Char('t') || key == Key::Char('+') || key == Key::Char('=') || key
            == Key::Char('-') || key == Key::Char('_') || key == Key::Char('c') || key == Key::Char(
            'm',
        ) || key == Key::Char('p') || key == Key::Char('n') || key == Key::Char('d') {
            KeyEffect::SaveConfig
        } else {
            KeyEffect::Nothing
        }),
{
}

} // verus!
