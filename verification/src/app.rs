//! The application: its tabs, the prompt that opens a new tab, and what
//! every action does. Work that needs the network, the disk or the
//! clipboard is returned as an `Effect` for the caller to carry out.

use vstd::prelude::*;

use crate::config::{Config, TerminalConfig};
use crate::input::AppAction;
use crate::tab::{scrolled_down, scrolled_up, Tab, TabState};
use crate::text::{
    join_lines, joined_lines, strings_view, breaks_to_cr, byte_len, cr_for_break, decimal, lemma_decimal_injective, pop_char, push_char,
    push_decimal, string_byte_len, trim, trimmed,
};

verus! {

/// Which field of the new-tab prompt is being edited.
#[derive(Debug, Clone, Copy, PartialEq, Eq, Structural)]
pub enum PromptMode {
    Url,
    Token,
    Shell,
}

/// Work that an action leaves to the caller.
#[derive(Debug, Clone, PartialEq, Eq)]
pub enum Effect {
    /// Nothing to do.
    Nothing,
    /// Send `text` to session `session_id` of tab `tab`.
    SendInput { tab: usize, session_id: String, text: String },
    /// End tab `tab`'s session and connect it again.
    Reconnect { tab: usize },
    /// Tab `tab` was just added: load its history and connect it.
    OpenTab { tab: usize },
    /// Tab `tab` was removed.
    CloseTab { tab: usize },
    /// Read the clipboard and hand its text to `App::paste_clipboard`.
    ReadClipboard,
    /// Write `text` to the clipboard.
    WriteClipboard { text: String },
}

/// The name `Tab k`.
pub open spec fn tab_label(k: nat) -> Seq<char> {
    seq!['T', 'a', 'b', ' '] + decimal(k)
}

/// The state of the whole application.
pub struct App {
    pub tabs: Vec<Tab>,
    pub active_tab: usize,
    pub config: Config,
    pub config_path: String,
    pub running: bool,
    pub show_help: bool,
    pub show_status_bar: bool,
    pub connecting: bool,
    pub prompt_mode: Option<PromptMode>,
    pub prompt_url: String,
    pub prompt_token: String,
    pub prompt_shell: String,
    pub prompt_cursor: usize,
}

/// The terminal configuration that the prompt makes for a tab named `name`.
pub open spec fn prompt_config(a: App, name: Seq<char>, tc: TerminalConfig) -> bool {
    &&& tc.name@ == name
    &&& tc.url@ == trimmed(a.prompt_url@)
    &&& tc.token@ == trimmed(a.prompt_token@)
    &&& tc.shell == (if a.prompt_shell@.len() == 0 {
        None
    } else {
        Some(a.prompt_shell)
    })
    &&& tc.cols == Some(a.config.general.default_cols)
    &&& tc.rows == Some(a.config.general.default_rows)
}

/// `t` with its view position set to `c`.
pub open spec fn with_view(t: Tab, c: usize) -> Tab {
    Tab { scrollback: crate::tab::Scrollback { cursor: c, ..t.scrollback }, ..t }
}

/// `e` sends `text` to the session `sid` of tab `i`, or is nothing without a
/// session.
pub open spec fn sends(e: Effect, i: usize, sid: Option<String>, text: Seq<char>) -> bool {
    match sid {
        Some(s) => e matches Effect::SendInput { tab, session_id, text: tx } && tab == i
            && session_id == s && tx@ == text,
        None => e == Effect::Nothing,
    }
}

/// `u` is `t` with at most its history, input line and cursor column
/// changed.
pub open spec fn edits_input(t: Tab, u: Tab) -> bool {
    u == (Tab {
        history: u.history,
        input_buffer: u.input_buffer,
        cursor_x: u.cursor_x,
        ..t
    })
}

/// The input line of `u` is `line` (when there is one) with the cursor
/// column at its byte length; otherwise it is that of `t`.
pub open spec fn shows_line(t: Tab, u: Tab, line: Option<Seq<char>>) -> bool {
    match line {
        Some(c) => u.input_buffer@ == c && u.cursor_x == byte_len(c),
        None => u.input_buffer == t.input_buffer && u.cursor_x == t.cursor_x,
    }
}

/// What an action that works on the active tab `t` (at index `i`) turns
/// it into, and the work it leaves to the caller.
pub open spec fn tab_action(t: Tab, a: AppAction, u: Tab, e: Effect, i: usize) -> bool {
    let len = t.scrollback.lines@.len();
    let c = t.scrollback.cursor;
    let active = t.state == TabState::Active;
    match a {
        AppAction::ScrollUp(k) => u == with_view(t, scrolled_up(c, k, len)) && e == Effect::Nothing,
        AppAction::ScrollDown(k) => u == with_view(t, scrolled_down(c, k)) && e == Effect::Nothing,
        AppAction::ScrollToTop => u == with_view(t, len as usize) && e == Effect::Nothing,
        AppAction::ScrollToBottom => u == with_view(t, 0) && e == Effect::Nothing,
        AppAction::ToggleScrollback => u == with_view(
            t,
            if c == 0 {
                len as usize
            } else {
                0
            },
        ) && e == Effect::Nothing,
        AppAction::SubmitLine => if active {
            &&& edits_input(t, u)
            &&& u.history.wf()
            &&& u.history.entries() == crate::history::pushed(
                t.history.entries(),
                t.history.limit(),
                t.input_buffer@,
            )
            &&& u.history.limit() == t.history.limit()
            &&& u.history.draft() == t.history.draft()
            &&& u.history.position() is None
            &&& u.input_buffer@.len() == 0
            &&& u.cursor_x == 0
            &&& sends(e, i, t.session_id, t.input_buffer@.push('\r'))
        } else {
            u == t && e == Effect::Nothing
        },
        AppAction::Backspace => {
            &&& u == (Tab { input_buffer: u.input_buffer, cursor_x: u.cursor_x, ..t })
            &&& if t.input_buffer@.len() == 0 {
                u.input_buffer@ == t.input_buffer@ && u.cursor_x == t.cursor_x
            } else {
                u.input_buffer@ == t.input_buffer@.drop_last() && u.cursor_x == scrolled_down(
                    t.cursor_x,
                    1,
                )
            }
            &&& e == Effect::Nothing
        },
        AppAction::InsertChar(ch) => {
            &&& u == (Tab { input_buffer: u.input_buffer, cursor_x: u.cursor_x, ..t })
            &&& u.input_buffer@ == t.input_buffer@.push(ch)
            &&& u.cursor_x == t.cursor_x + 1
            &&& e == Effect::Nothing
        },
        AppAction::InsertString(s) => {
            &&& u == (Tab { input_buffer: u.input_buffer, cursor_x: u.cursor_x, ..t })
            &&& u.input_buffer@ == t.input_buffer@ + s@
            &&& u.cursor_x == t.cursor_x + byte_len(s@)
            &&& e == Effect::Nothing
        },
        AppAction::HistoryUp => {
            let step = crate::history::step_up(t.history.entries(), t.history.position());
            &&& edits_input(t, u)
            &&& u.history.wf()
            &&& u.history.entries() == t.history.entries()
            &&& u.history.limit() == t.history.limit()
            &&& u.history.draft() == t.input_buffer@
            &&& u.history.position() == step.1
            &&& shows_line(t, u, step.0)
            &&& e == Effect::Nothing
        },
        AppAction::HistoryDown => {
            let step = crate::history::step_down(
                t.history.entries(),
                t.history.position(),
                t.history.draft(),
            );
            &&& edits_input(t, u)
            &&& u.history.wf()
            &&& u.history.entries() == t.history.entries()
            &&& u.history.limit() == t.history.limit()
            &&& u.history.draft() == t.history.draft()
            &&& u.history.position() == step.1
            &&& shows_line(t, u, step.0)
            &&& e == Effect::Nothing
        },
        AppAction::ReverseSearch => {
            let h = t.history;
            let q = crate::history::search_query(h.position(), h.draft(), t.input_buffer@);
            let found = crate::history::search_back(
                h.entries(),
                crate::history::search_start(h.entries(), h.position()),
                q,
            );
            &&& edits_input(t, u)
            &&& u.history.wf()
            &&& u.history.entries() == h.entries()
            &&& u.history.limit() == h.limit()
            &&& u.history.draft() == q
            &&& u.history.position() == (match found {
                Some(j) => Some(j),
                None => h.position(),
            })
            &&& shows_line(
                t,
                u,
                match found {
                    Some(j) => Some(h.entries()[j as int]),
                    None => None,
                },
            )
            &&& e == Effect::Nothing
        },
        AppAction::AutoComplete => {
            &&& u == (Tab { input_buffer: u.input_buffer, cursor_x: u.cursor_x, ..t })
            &&& shows_line(
                t,
                u,
                crate::history::unique_completion(t.history.entries(), t.input_buffer@),
            )
            &&& e == Effect::Nothing
        },
        AppAction::CtrlC => u == t && if active {
            sends(e, i, t.session_id, seq!['\u{3}'])
        } else {
            e == Effect::Nothing
        },
        AppAction::CtrlZ => u == t && if active {
            sends(e, i, t.session_id, seq!['\u{1a}'])
        } else {
            e == Effect::Nothing
        },
        _ => u == t && e == Effect::Nothing,
    }
}

/// The active tab has room in its cursor column for what `a` inserts.
pub open spec fn cursor_room(t: Tab, a: AppAction) -> bool {
    match a {
        AppAction::InsertChar(_) => t.cursor_x < usize::MAX,
        AppAction::InsertString(s) => t.cursor_x + byte_len(s@) <= usize::MAX,
        _ => true,
    }
}

/// The text of the prompt field being edited.
pub open spec fn prompt_field(o: App) -> Seq<char> {
    match o.prompt_mode {
        Some(PromptMode::Url) => o.prompt_url@,
        Some(PromptMode::Token) => o.prompt_token@,
        Some(PromptMode::Shell) => o.prompt_shell@,
        None => seq![],
    }
}

/// `n` is `o` with the prompt field being edited set to `text` and the
/// prompt cursor at its byte length.
pub open spec fn edits_field(o: App, n: App, text: Seq<char>) -> bool {
    match o.prompt_mode {
        Some(PromptMode::Url) => n == (App {
            prompt_url: n.prompt_url,
            prompt_cursor: n.prompt_cursor,
            ..o
        }) && n.prompt_url@ == text && n.prompt_cursor == byte_len(text),
        Some(PromptMode::Token) => n == (App {
            prompt_token: n.prompt_token,
            prompt_cursor: n.prompt_cursor,
            ..o
        }) && n.prompt_token@ == text && n.prompt_cursor == byte_len(text),
        Some(PromptMode::Shell) => n == (App {
            prompt_shell: n.prompt_shell,
            prompt_cursor: n.prompt_cursor,
            ..o
        }) && n.prompt_shell@ == text && n.prompt_cursor == byte_len(text),
        None => n == o,
    }
}

/// `n` is `o` with the new-tab prompt opened on an empty URL, an empty
/// token and the default shell.
pub open spec fn prompt_started(o: App, n: App) -> bool {
    &&& n == (App {
        prompt_mode: Some(PromptMode::Url),
        prompt_url: n.prompt_url,
        prompt_token: n.prompt_token,
        prompt_shell: n.prompt_shell,
        prompt_cursor: 0,
        ..o
    })
    &&& n.prompt_url@.len() == 0
    &&& n.prompt_token@.len() == 0
    &&& n.prompt_shell@ == o.config.general.default_shell@
}

/// `n` is `o` with a new tab made from the prompt appended and made
/// active, and the prompt closed; `e` asks for the new tab to be opened.
pub open spec fn prompt_finished(o: App, n: App, e: Effect) -> bool {
    let k = o.tabs@.len();
    let t = n.tabs@[k as int];
    &&& n == (App { tabs: n.tabs, active_tab: n.active_tab, prompt_mode: None, ..o })
    &&& n.tabs@.len() == k + 1
    &&& forall|j: int| 0 <= j < k ==> n.tabs@[j] == o.tabs@[j]
    &&& o.is_next_tab_name(t.name@)
    &&& prompt_config(o, t.name@, t.config)
    &&& t.is_fresh(t.config, o.config.general.scrollback_lines)
    &&& n.active_tab == k
    &&& e == Effect::OpenTab { tab: k as usize }
}

/// What an action does while the new-tab prompt is open.
pub open spec fn prompt_step(o: App, a: AppAction, n: App, e: Effect) -> bool {
    match a {
        AppAction::Quit => n == (App { prompt_mode: None, running: false, ..o }) && e
            == Effect::Nothing,
        AppAction::Help => n == (App { prompt_mode: None, ..o }) && e == Effect::Nothing,
        AppAction::SubmitLine => match o.prompt_mode {
            Some(PromptMode::Url) => if o.prompt_url@.len() == 0 {
                n == o && e == Effect::Nothing
            } else {
                n == (App { prompt_mode: Some(PromptMode::Token), prompt_cursor: 0, ..o }) && e
                    == Effect::Nothing
            },
            Some(PromptMode::Token) => n == (App {
                prompt_mode: Some(PromptMode::Shell),
                prompt_cursor: byte_len(o.prompt_shell@),
                ..o
            }) && e == Effect::Nothing,
            Some(PromptMode::Shell) => prompt_finished(o, n, e),
            None => n == o && e == Effect::Nothing,
        },
        AppAction::Backspace => edits_field(
            o,
            n,
            if prompt_field(o).len() == 0 {
                prompt_field(o)
            } else {
                prompt_field(o).drop_last()
            },
        ) && e == Effect::Nothing,
        AppAction::InsertChar(c) => edits_field(o, n, prompt_field(o).push(c)) && e
            == Effect::Nothing,
        _ => n == o && e == Effect::Nothing,
    }
}

/// `n` is `o` with its active tab closed; `e` reports which.
pub open spec fn tab_closed(o: App, n: App, e: Effect) -> bool {
    if o.tabs@.len() == 0 {
        n == o && e == Effect::Nothing
    } else {
        let rest = o.tabs@.remove(o.active_tab as int);
        &&& n == (App { tabs: n.tabs, active_tab: n.active_tab, running: n.running, ..o })
        &&& n.tabs@ == rest
        &&& n.running == (o.running && rest.len() > 0)
        &&& n.active_tab == (if rest.len() > 0 && o.active_tab >= rest.len() {
            (rest.len() - 1) as usize
        } else {
            o.active_tab
        })
        &&& e == Effect::CloseTab { tab: o.active_tab }
    }
}

/// What an action does outside the prompt and the help screen.
pub open spec fn main_step(o: App, a: AppAction, n: App, e: Effect) -> bool {
    let len = o.tabs@.len();
    let i = o.active_tab;
    match a {
        AppAction::Quit => n == (App { running: false, ..o }) && e == Effect::Nothing,
        AppAction::NextTab => n == (App {
            active_tab: if len > 0 {
                ((i + 1) % (len as int)) as usize
            } else {
                i
            },
            ..o
        }) && e == Effect::Nothing,
        AppAction::PrevTab => n == (App {
            active_tab: if len > 0 {
                if i == 0 {
                    (len - 1) as usize
                } else {
                    (i - 1) as usize
                }
            } else {
                i
            },
            ..o
        }) && e == Effect::Nothing,
        AppAction::SwitchTab(k) => n == (App {
            active_tab: if k < len {
                k
            } else {
                i
            },
            ..o
        }) && e == Effect::Nothing,
        AppAction::NewTab => prompt_started(o, n) && e == Effect::Nothing,
        AppAction::CloseTab => tab_closed(o, n, e),
        AppAction::Reconnect => n == o && e == (if o.has_active() && o.active().state
            == TabState::Disconnected && o.active().config.url@.len() > 0 {
            Effect::Reconnect { tab: i }
        } else {
            Effect::Nothing
        }),
        AppAction::ToggleStatusBar => n == (App { show_status_bar: !o.show_status_bar, ..o }) && e
            == Effect::Nothing,
        AppAction::Help => n == (App { show_help: true, ..o }) && e == Effect::Nothing,
        AppAction::PasteClipboard => n == o && e == Effect::ReadClipboard,
        AppAction::CopySelection => n == o && if o.has_active() {
            e matches Effect::WriteClipboard { text } && text@ == joined_lines(
                strings_view(o.active().screen_buffer@),
            )
        } else {
            e == Effect::Nothing
        },
        AppAction::NoAction | AppAction::Cancel => n == o && e == Effect::Nothing,
        _ => only_active_changed(o, n) && if o.has_active() {
            tab_action(o.active(), a, n.active(), e, i)
        } else {
            e == Effect::Nothing
        },
    }
}

/// Only the active tab may differ between `o` and `n`; without an active
/// tab nothing differs.
pub open spec fn only_active_changed(o: App, n: App) -> bool {
    &&& n == (App { tabs: n.tabs, ..o })
    &&& n.tabs@.len() == o.tabs@.len()
    &&& forall|j: int| 0 <= j < o.tabs@.len() && j != o.active_tab ==> n.tabs@[j] == o.tabs@[j]
    &&& !o.has_active() ==> n.tabs@ == o.tabs@
}

/// An effect that sends `text` to the session of tab `index`, if it has
/// one.
fn send_to(tab: &Tab, index: usize, text: String) -> (e: Effect)
    ensures
        sends(e, index, tab.session_id, text@),
{
    match &tab.session_id {
        Some(sid) => Effect::SendInput { tab: index, session_id: sid.clone(), text },
        None => Effect::Nothing,
    }
}

/// Carries out an action that works on one tab (see `tab_action`).
fn apply_to_tab(tab: &mut Tab, action: &AppAction, index: usize) -> (e: Effect)
    requires
        old(tab).wf(),
        cursor_room(*old(tab), *action),
    ensures
        final(tab).wf(),
        tab_action(*old(tab), *action, *final(tab), e, index),
{
    match action {
        AppAction::ScrollUp(k) => {
            tab.scrollback.scroll_up(*k);
            Effect::Nothing
        },
        AppAction::ScrollDown(k) => {
            tab.scrollback.scroll_down(*k);
            Effect::Nothing
        },
        AppAction::ScrollToTop => {
            tab.scrollback.scroll_to_top();
            Effect::Nothing
        },
        AppAction::ScrollToBottom => {
            tab.scrollback.scroll_to_bottom();
            Effect::Nothing
        },
        AppAction::ToggleScrollback => {
            if tab.scrollback.is_at_bottom() {
                tab.scrollback.scroll_to_top();
            } else {
                tab.scrollback.scroll_to_bottom();
            }
            Effect::Nothing
        },
        AppAction::SubmitLine => {
            if tab.state == TabState::Active {
                let line = tab.input_buffer.clone();
                if !line.as_str().is_empty() {
                    tab.history.push(line.clone());
                }
                tab.history.reset_index();
                let mut cmd = line;
                push_char(&mut cmd, '\r');
                let e = send_to(tab, index, cmd);
                tab.input_buffer = String::new();
                tab.cursor_x = 0;
                e
            } else {
                Effect::Nothing
            }
        },
        AppAction::Backspace => {
            if pop_char(&mut tab.input_buffer).is_some() {
                tab.cursor_x = tab.cursor_x.saturating_sub(1);
            }
            Effect::Nothing
        },
        AppAction::InsertChar(c) => {
            push_char(&mut tab.input_buffer, *c);
            tab.cursor_x = tab.cursor_x + 1;
            Effect::Nothing
        },
        AppAction::InsertString(s) => {
            tab.input_buffer.append(s.as_str());
            tab.cursor_x = tab.cursor_x + string_byte_len(s);
            Effect::Nothing
        },
        AppAction::HistoryUp => {
            tab.history.save_current_input(tab.input_buffer.as_str());
            let shown = match tab.history.up() {
                Some(cmd) => Some(cmd.to_owned()),
                None => None,
            };
            if let Some(line) = shown {
                tab.input_buffer = line;
                tab.cursor_x = string_byte_len(&tab.input_buffer);
            }
            Effect::Nothing
        },
        AppAction::ReverseSearch => {
            let shown = match tab.history.reverse_search(tab.input_buffer.as_str()) {
                Some(cmd) => Some(cmd.to_owned()),
                None => None,
            };
            if let Some(line) = shown {
                tab.input_buffer = line;
                tab.cursor_x = string_byte_len(&tab.input_buffer);
            }
            Effect::Nothing
        },
        AppAction::HistoryDown => {
            if let Some(line) = tab.history.down() {
                tab.input_buffer = line;
                tab.cursor_x = string_byte_len(&tab.input_buffer);
            }
            Effect::Nothing
        },
        AppAction::AutoComplete => {
            let prefix = tab.input_buffer.clone();
            if let Some(completed) = tab.history.autocomplete_unique(prefix.as_str()) {
                tab.input_buffer = completed;
                tab.cursor_x = string_byte_len(&tab.input_buffer);
            }
            Effect::Nothing
        },
        AppAction::CtrlC => {
            if tab.state == TabState::Active {
                let mut s = String::new();
                push_char(&mut s, '\u{3}');
                send_to(tab, index, s)
            } else {
                Effect::Nothing
            }
        },
        AppAction::CtrlZ => {
            if tab.state == TabState::Active {
                let mut s = String::new();
                push_char(&mut s, '\u{1a}');
                send_to(tab, index, s)
            } else {
                Effect::Nothing
            }
        },
        _ => Effect::Nothing,
    }
}

impl App {
    /// The application's invariant: the active index is on a tab when
    /// there is one, and every tab is well formed.
    pub open spec fn wf(&self) -> bool {
        &&& (self.tabs@.len() == 0 || self.active_tab < self.tabs@.len())
        &&& forall|i: int| 0 <= i < self.tabs@.len() ==> #[trigger] self.tabs@[i].wf()
    }

    /// There is an active tab.
    pub open spec fn has_active(&self) -> bool {
        self.active_tab < self.tabs@.len()
    }

    /// The active tab.
    pub open spec fn active(&self) -> Tab {
        self.tabs@[self.active_tab as int]
    }

    /// Some tab is named `n`.
    pub open spec fn name_used(&self, n: Seq<char>) -> bool {
        exists|t: int| 0 <= t < self.tabs@.len() && #[trigger] self.tabs@[t].name@ == n
    }

    /// `r` is `Tab k` for the least `k >= 1` that no tab is named after.
    pub open spec fn is_next_tab_name(&self, r: Seq<char>) -> bool {
        exists|k: nat|
            k >= 1 && r == tab_label(k) && !self.name_used(tab_label(k)) && forall|j: nat|
                1 <= j < k ==> self.name_used(#[trigger] tab_label(j))
    }

    /// The application for `config`: one disconnected tab per configured
    /// terminal, the first one active, running, with the status bar shown.
    pub fn new(config: Config, config_path: String) -> (app: Self)
        ensures
            app.wf(),
            app.tabs@.len() == config.terminals@.len(),
            forall|i: int|
                0 <= i < app.tabs@.len() ==> (#[trigger] app.tabs@[i]).is_fresh(
                    config.terminals@[i],
                    config.general.scrollback_lines,
                ),
            app.active_tab == 0,
            app.config == config,
            app.config_path == config_path,
            app.running,
            !app.show_help,
            app.show_status_bar,
            !app.connecting,
            app.prompt_mode is None,
            app.prompt_url@.len() == 0,
            app.prompt_token@.len() == 0,
            app.prompt_shell@.len() == 0,
            app.prompt_cursor == 0,
    {
        let scrollback_max = config.general.scrollback_lines;
        let mut tabs: Vec<Tab> = Vec::new();
        let mut i: usize = 0;
        while i < config.terminals.len()
            invariant
                i <= config.terminals@.len(),
                scrollback_max == config.general.scrollback_lines,
                tabs@.len() == i,
                forall|j: int|
                    0 <= j < i ==> (#[trigger] tabs@[j]).is_fresh(
                        config.terminals@[j],
                        scrollback_max,
                    ),
            decreases config.terminals@.len() - i,
        {
            let tc = config.terminals[i].clone();
            tabs.push(Tab::new(tc, scrollback_max));
            i = i + 1;
        }
        App {
            tabs,
            active_tab: 0,
            config,
            config_path,
            running: true,
            show_help: false,
            show_status_bar: true,
            connecting: false,
            prompt_mode: None,
            prompt_url: String::new(),
            prompt_token: String::new(),
            prompt_shell: String::new(),
            prompt_cursor: 0,
        }
    }

    /// The active tab, if any.
    pub fn active_tab(&self) -> (t: Option<&Tab>)
        ensures
            t == (if self.has_active() {
                Some(&self.active())
            } else {
                None
            }),
    {
        if self.active_tab < self.tabs.len() {
            Some(&self.tabs[self.active_tab])
        } else {
            None
        }
    }

    /// Changing the active tab of a well-formed application into a
    /// well-formed tab keeps the application well formed.
    proof fn lemma_wf_after_active_update(&self, o: App)
        requires
            o.wf(),
            o.has_active(),
            self.tabs@ == o.tabs@.update(o.active_tab as int, self.tabs@[o.active_tab as int]),
            self.active_tab == o.active_tab,
            self.tabs@[o.active_tab as int].wf(),
        ensures
            self.wf(),
    {
        assert forall|j: int| 0 <= j < self.tabs@.len() implies #[trigger] self.tabs@[j].wf() by {
            if j != o.active_tab {
                assert(self.tabs@[j] == o.tabs@[j]);
                assert(o.tabs@[j].wf());
            }
        }
    }

    /// Carries out `action`. With the help screen shown, any action just
    /// closes it; with the new-tab prompt open, see `prompt_step`;
    /// otherwise see `main_step`.
    pub fn handle_action(&mut self, action: AppAction) -> (e: Effect)
        requires
            old(self).wf(),
            !old(self).show_help && old(self).prompt_mode is None && old(self).has_active()
                ==> cursor_room(old(self).active(), action),
        ensures
            final(self).wf(),
            old(self).show_help ==> *final(self) == (App { show_help: false, ..*old(self) }) && e
                == Effect::Nothing,
            !old(self).show_help && old(self).prompt_mode is Some ==> prompt_step(
                *old(self),
                action,
                *final(self),
                e,
            ),
            !old(self).show_help && old(self).prompt_mode is None ==> main_step(
                *old(self),
                action,
                *final(self),
                e,
            ),
    {
        if self.show_help {
            self.show_help = false;
            return Effect::Nothing;
        }
        if self.prompt_mode.is_some() {
            return self.handle_prompt_action(action);
        }
        match action {
            AppAction::Quit => {
                self.running = false;
                Effect::Nothing
            },
            AppAction::NextTab => {
                if self.tabs.len() > 0 {
                    self.active_tab = (self.active_tab + 1) % self.tabs.len();
                }
                Effect::Nothing
            },
            AppAction::PrevTab => {
                if self.tabs.len() > 0 {
                    self.active_tab = if self.active_tab == 0 {
                        self.tabs.len() - 1
                    } else {
                        self.active_tab - 1
                    };
                }
                Effect::Nothing
            },
            AppAction::SwitchTab(n) => {
                if n < self.tabs.len() {
                    self.active_tab = n;
                }
                Effect::Nothing
            },
            AppAction::NewTab => {
                self.start_prompt();
                Effect::Nothing
            },
            AppAction::CloseTab => self.close_active_tab(),
            AppAction::Reconnect => {
                let i = self.active_tab;
                if i < self.tabs.len() && self.tabs[i].state == TabState::Disconnected
                    && !self.tabs[i].config.url.as_str().is_empty() {
                    Effect::Reconnect { tab: i }
                } else {
                    Effect::Nothing
                }
            },
            AppAction::ToggleStatusBar => {
                self.show_status_bar = !self.show_status_bar;
                Effect::Nothing
            },
            AppAction::Help => {
                self.show_help = true;
                Effect::Nothing
            },
            AppAction::PasteClipboard => Effect::ReadClipboard,
            AppAction::CopySelection => {
                let i = self.active_tab;
                if i < self.tabs.len() {
                    Effect::WriteClipboard { text: join_lines(&self.tabs[i].screen_buffer) }
                } else {
                    Effect::Nothing
                }
            },
            AppAction::NoAction | AppAction::Cancel => Effect::Nothing,
            _ => {
                let i = self.active_tab;
                if i < self.tabs.len() {
                    proof {
                        assert(old(self).tabs@[i as int].wf());
                    }
                    let tab = &mut self.tabs[i];
                    let e = apply_to_tab(tab, &action, i);
                    proof {
                        self.lemma_wf_after_active_update(*old(self));
                    }
                    e
                } else {
                    Effect::Nothing
                }
            },
        }
    }

    /// Sends pasted `text` to the active tab's session, with every line
    /// break turned into a carriage return, when that tab is connected.
    pub fn paste_clipboard(&self, text: &str) -> (e: Effect)
        ensures
            self.has_active() && self.active().state == TabState::Active ==> sends(
                e,
                self.active_tab,
                self.active().session_id,
                text@.map_values(|c: char| cr_for_break(c)),
            ),
            !(self.has_active() && self.active().state == TabState::Active) ==> e
                == Effect::Nothing,
    {
        let i = self.active_tab;
        if i < self.tabs.len() && self.tabs[i].state == TabState::Active {
            let cleaned = breaks_to_cr(text);
            send_to(&self.tabs[i], i, cleaned)
        } else {
            Effect::Nothing
        }
    }

    /// Applies an action while the new-tab prompt is open (see `prompt_step`).
    pub fn handle_prompt_action(&mut self, action: AppAction) -> (e: Effect)
        requires
            old(self).wf(),
            old(self).prompt_mode is Some,
        ensures
            final(self).wf(),
            prompt_step(*old(self), action, *final(self), e),
    {
        match action {
            AppAction::Quit => {
                self.prompt_mode = None;
                self.running = false;
                Effect::Nothing
            },
            AppAction::Help => {
                self.prompt_mode = None;
                Effect::Nothing
            },
            AppAction::SubmitLine => self.advance_prompt(),
            AppAction::Backspace => {
                match self.prompt_mode {
                    Some(PromptMode::Url) => {
                        let _ = pop_char(&mut self.prompt_url);
                        self.prompt_cursor = string_byte_len(&self.prompt_url);
                    },
                    Some(PromptMode::Token) => {
                        let _ = pop_char(&mut self.prompt_token);
                        self.prompt_cursor = string_byte_len(&self.prompt_token);
                    },
                    _ => {
                        let _ = pop_char(&mut self.prompt_shell);
                        self.prompt_cursor = string_byte_len(&self.prompt_shell);
                    },
                }
                Effect::Nothing
            },
            AppAction::InsertChar(c) => {
                match self.prompt_mode {
                    Some(PromptMode::Url) => {
                        push_char(&mut self.prompt_url, c);
                        self.prompt_cursor = string_byte_len(&self.prompt_url);
                    },
                    Some(PromptMode::Token) => {
                        push_char(&mut self.prompt_token, c);
                        self.prompt_cursor = string_byte_len(&self.prompt_token);
                    },
                    _ => {
                        push_char(&mut self.prompt_shell, c);
                        self.prompt_cursor = string_byte_len(&self.prompt_shell);
                    },
                }
                Effect::Nothing
            },
            _ => Effect::Nothing,
        }
    }

    fn start_prompt(&mut self)
        ensures
            prompt_started(*old(self), *final(self)),
    {
        self.prompt_mode = Some(PromptMode::Url);
        self.prompt_url = String::new();
        self.prompt_token = String::new();
        self.prompt_shell = self.config.general.default_shell.clone();
        self.prompt_cursor = 0;
    }

    /// Submits the prompt's current field: moves on to the next field, or
    /// opens the tab after the last one (see `prompt_step`).
    pub fn advance_prompt(&mut self) -> (e: Effect)
        requires
            old(self).wf(),
            old(self).prompt_mode is Some,
        ensures
            final(self).wf(),
            prompt_step(*old(self), AppAction::SubmitLine, *final(self), e),
    {
        match self.prompt_mode {
            Some(PromptMode::Url) => {
                if self.prompt_url.as_str().is_empty() {
                    return Effect::Nothing;
                }
                self.prompt_mode = Some(PromptMode::Token);
                self.prompt_cursor = 0;
                Effect::Nothing
            },
            Some(PromptMode::Token) => {
                self.prompt_mode = Some(PromptMode::Shell);
                self.prompt_cursor = string_byte_len(&self.prompt_shell);
                Effect::Nothing
            },
            _ => self.finish_prompt(),
        }
    }

    /// Closes the prompt and opens a tab from its fields (see
    /// `prompt_finished`).
    pub fn finish_prompt(&mut self) -> (e: Effect)
        requires
            old(self).wf(),
        ensures
            final(self).wf(),
            prompt_finished(*old(self), *final(self), e),
    {
        let name = self.find_next_tab_name();
        let shell = if self.prompt_shell.as_str().is_empty() {
            None
        } else {
            Some(self.prompt_shell.clone())
        };
        let tc = TerminalConfig {
            name,
            url: trim(self.prompt_url.as_str()),
            token: trim(self.prompt_token.as_str()),
            shell,
            cols: Some(self.config.general.default_cols),
            rows: Some(self.config.general.default_rows),
        };
        let scrollback_max = self.config.general.scrollback_lines;
        let tab = Tab::new(tc, scrollback_max);
        let k = self.tabs.len();
        self.tabs.push(tab);
        self.active_tab = k;
        self.prompt_mode = None;
        proof {
            assert forall|j: int| 0 <= j < self.tabs@.len() implies #[trigger] self.tabs@[j].wf() by {
                if j < k {
                    assert(old(self).tabs@[j].wf());
                }
            }
        }
        Effect::OpenTab { tab: k }
    }

    /// Closes the active tab, if any (see `tab_closed`).
    pub fn close_active_tab(&mut self) -> (e: Effect)
        requires
            old(self).wf(),
        ensures
            final(self).wf(),
            tab_closed(*old(self), *final(self), e),
    {
        if self.tabs.len() == 0 {
            return Effect::Nothing;
        }
        let i = self.active_tab;
        let _ = self.tabs.remove(i);
        if self.tabs.len() == 0 {
            self.running = false;
        } else if self.active_tab >= self.tabs.len() {
            self.active_tab = self.tabs.len() - 1;
        }
        proof {
            assert forall|j: int| 0 <= j < self.tabs@.len() implies #[trigger] self.tabs@[j].wf() by {
                if j < i {
                    assert(old(self).tabs@[j].wf());
                } else {
                    assert(old(self).tabs@[j + 1].wf());
                }
            }
        }
        Effect::CloseTab { tab: i }
    }

    /// The active tab, for changing it, if any.
    pub fn active_tab_mut(&mut self) -> (t: Option<&mut Tab>)
        ensures
            match t {
                Some(r) => {
                    &&& old(self).has_active()
                    &&& *r == old(self).active()
                    &&& final(self).tabs@ == old(self).tabs@.update(
                        old(self).active_tab as int,
                        *final(r),
                    )
                    &&& *final(self) == (App { tabs: final(self).tabs, ..*old(self) })
                },
                None => !old(self).has_active() && *final(self) == *old(self),
            },
    {
        let i = self.active_tab;
        if i < self.tabs.len() {
            Some(&mut self.tabs[i])
        } else {
            None
        }
    }

    /// The name `Tab k` for the least `k >= 1` that no tab has.
    pub fn find_next_tab_name(&self) -> (r: String)
        ensures
            self.is_next_tab_name(r@),
    {
        let n = self.tabs.len();
        let mut i: u128 = 1;
        loop
            invariant
                n == self.tabs@.len(),
                1 <= i <= n + 1,
                forall|j: nat| 1 <= j < i ==> self.name_used(#[trigger] tab_label(j)),
            decreases n + 1 - i,
        {
            let mut name = String::new();
            push_char(&mut name, 'T');
            push_char(&mut name, 'a');
            push_char(&mut name, 'b');
            push_char(&mut name, ' ');
            push_decimal(&mut name, i);
            assert(name@ =~= tab_label(i as nat));
            let mut t: usize = 0;
            let mut found = false;
            while t < n
                invariant
                    n == self.tabs@.len(),
                    t <= n,
                    found ==> self.name_used(name@),
                    !found ==> forall|u: int| 0 <= u < t ==> self.tabs@[u].name@ != name@,
                decreases n - t,
            {
                if self.tabs[t].name == name {
                    found = true;
                }
                t = t + 1;
            }
            if !found {
                assert(!self.name_used(name@));
                assert(self.is_next_tab_name(name@));
                return name;
            }
            proof {
                self.lemma_used_labels_fit(i as nat);
            }
            i = i + 1;
        }
    }

    /// When the names `Tab 1` to `Tab m` are all in use, there are at
    /// least `m` tabs.
    proof fn lemma_used_labels_fit(&self, m: nat)
        requires
            forall|j: nat| 1 <= j <= m ==> self.name_used(#[trigger] tab_label(j)),
        ensures
            m <= self.tabs@.len(),
    {
        let len = self.tabs@.len();
        let f = |k: int|
            choose|t: int| 0 <= t < len && #[trigger] self.tabs@[t].name@ == tab_label(k as nat);
        let x = vstd::set_lib::set_int_range(1, m + 1 as int);
        vstd::set_lib::lemma_int_range(1, m + 1 as int);
        assert forall|k: int| #[trigger] x.contains(k) implies 0 <= f(k) < len
            && self.tabs@[f(k)].name@ == tab_label(k as nat) by {
            assert(self.name_used(tab_label(k as nat)));
        }
        assert(vstd::relations::injective_on(f, x)) by {
            assert forall|a: int, b: int| x.contains(a) && x.contains(b) && #[trigger] f(a)
                == #[trigger] f(b) implies a == b by {
                assert(tab_label(a as nat) == tab_label(b as nat));
                assert(decimal(a as nat) =~= tab_label(a as nat).skip(4));
                assert(decimal(b as nat) =~= tab_label(b as nat).skip(4));
                lemma_decimal_injective(a as nat, b as nat);
            }
        }
        let y = x.map(f);
        vstd::set_lib::lemma_map_size(x, y, f);
        let z = vstd::set_lib::set_int_range(0, len as int);
        vstd::set_lib::lemma_int_range(0, len as int);
        assert(y.subset_of(z)) by {
            assert forall|v: int| #[trigger] y.contains(v) implies z.contains(v) by {
                let k = choose|k: int| x.contains(k) && f(k) == v;
            }
        }
        vstd::set_lib::lemma_len_subset(y, z);
    }
}

/// Law: typing a character into the new-tab prompt and erasing it again
/// gives back the field as it was, with the cursor at its end; nothing else
/// but the cursor changes.
pub proof fn lemma_prompt_type_then_erase(
    o: App,
    c: char,
    m: App,
    e1: Effect,
    n: App,
    e2: Effect,
)
    requires
        o.prompt_mode is Some,
        prompt_step(o, AppAction::InsertChar(c), m, e1),
        prompt_step(m, AppAction::Backspace, n, e2),
    ensures
        prompt_field(n) == prompt_field(o),
        n.prompt_cursor == byte_len(prompt_field(o)),
        n.prompt_mode == o.prompt_mode,
        n.tabs == o.tabs,
        n.active_tab == o.active_tab,
        n.running == o.running,
        n.prompt_url@ == o.prompt_url@,
        n.prompt_token@ == o.prompt_token@,
        n.prompt_shell@ == o.prompt_shell@,
        e1 == Effect::Nothing && e2 == Effect::Nothing,
{
    assert(prompt_field(o).push(c).drop_last() =~= prompt_field(o));
}

/// Law: moving to the next tab and then to the previous one comes back to
/// the same tab.
pub proof fn lemma_next_then_prev(len: nat, i: nat)
    requires
        i < len,
    ensures
        ({
            let n = ((i + 1) as int) % (len as int);
            (if n == 0 {
                len - 1
            } else {
                n - 1
            }) == i
        }),
{
    if i + 1 < len {
        vstd::arithmetic::div_mod::lemma_small_mod((i + 1) as nat, len);
    } else {
        vstd::arithmetic::div_mod::lemma_mod_self_0(len as int);
    }
}

/// Law: the name given to a new tab is not the name of any existing tab.
pub proof fn lemma_new_tab_name_is_unused(app: App, name: Seq<char>)
    requires
        app.is_next_tab_name(name),
    ensures
        !app.name_used(name),
{
}

/// Law: closing the active tab at index `i` leaves exactly the other tabs,
/// in their order; the tab that followed it (or, when it was the last, the
/// new last tab) becomes active, and the effect names the closed tab.
pub proof fn lemma_close_tab_removes_active(o: App, n: App, e: Effect)
    requires
        main_step(o, AppAction::CloseTab, n, e),
        o.active_tab < o.tabs@.len(),
    ensures
        ({
            let i = o.active_tab as int;
            let len = o.tabs@.len() as int;
            &&& n.tabs@ == o.tabs@.subrange(0, i) + o.tabs@.subrange(i + 1, len)
            &&& n.tabs@.len() == len - 1
            &&& e == Effect::CloseTab { tab: o.active_tab }
            &&& len > 1 ==> n.active_tab == (if i < len - 1 {
                i
            } else {
                len - 2
            })
            &&& n.running == (o.running && len > 1)
        }),
{
    let i = o.active_tab as int;
    let len = o.tabs@.len() as int;
    assert(o.tabs@.remove(i) =~= o.tabs@.subrange(0, i) + o.tabs@.subrange(i + 1, len));
}

/// Law: with tabs open, the previous-tab action moves from tab `i` to tab
/// `(i + len - 1) % len` and changes nothing else.
pub proof fn lemma_prev_tab_moves_back(o: App, n: App, e: Effect)
    requires
        main_step(o, AppAction::PrevTab, n, e),
        o.active_tab < o.tabs@.len(),
    ensures
        n.active_tab as int == (o.active_tab + o.tabs@.len() - 1) % (o.tabs@.len() as int),
        n == (App { active_tab: n.active_tab, ..o }),
        e == Effect::Nothing,
{
    let i = o.active_tab as nat;
    let len = o.tabs@.len();
    assert(len == o.tabs.len());
    if i == 0 {
        vstd::arithmetic::div_mod::lemma_small_mod((len - 1) as nat, len);
        assert(n.active_tab == len - 1);
    } else {
        vstd::arithmetic::div_mod::lemma_mod_add_multiples_vanish((i - 1) as int, len as int);
        vstd::arithmetic::div_mod::lemma_small_mod((i - 1) as nat, len);
        assert((i + len - 1) as int == len + (i - 1) as int);
        assert(n.active_tab == i - 1);
    }
}

/// Law: with tabs open, the next-tab action moves from tab `i` to tab
/// `(i + 1) % len`, and the previous-tab action then comes back: the
/// application is as it was.
pub proof fn lemma_next_then_prev_tab(o: App, m: App, e1: Effect, n: App, e2: Effect)
    requires
        main_step(o, AppAction::NextTab, m, e1),
        main_step(m, AppAction::PrevTab, n, e2),
        o.active_tab < o.tabs@.len(),
    ensures
        m.active_tab as int == (o.active_tab + 1) % (o.tabs@.len() as int),
        n == o,
        e1 == Effect::Nothing && e2 == Effect::Nothing,
{
    let i = o.active_tab as nat;
    let len = o.tabs@.len();
    assert(len == o.tabs.len());
    if i + 1 < len {
        vstd::arithmetic::div_mod::lemma_small_mod(i + 1, len);
        assert(m.active_tab == i + 1);
        assert(n.active_tab == i);
    } else {
        vstd::arithmetic::div_mod::lemma_mod_self_0(len as int);
        assert(m.active_tab == 0);
        assert(n.active_tab == i);
    }
    assert(n == o);
}

/// Law: a tab opened from the new-tab prompt takes its size from the
/// `[general]` section of the configuration, whatever it holds, its URL and
/// token from the trimmed prompt fields, and its shell from the shell field
/// (none when that is empty).
pub proof fn lemma_prompt_tab_settings(o: App, n: App, e: Effect)
    requires
        o.prompt_mode == Some(PromptMode::Shell),
        prompt_step(o, AppAction::SubmitLine, n, e),
    ensures
        ({
            let t = n.tabs@[o.tabs@.len() as int];
            &&& n.tabs@.len() == o.tabs@.len() + 1
            &&& n.active_tab == o.tabs@.len()
            &&& t.config.cols == Some(o.config.general.default_cols)
            &&& t.config.rows == Some(o.config.general.default_rows)
            &&& t.config.url@ == trimmed(o.prompt_url@)
            &&& t.config.token@ == trimmed(o.prompt_token@)
            &&& (o.prompt_shell@.len() == 0 ==> t.config.shell is None)
            &&& (o.prompt_shell@.len() > 0 ==> t.config.shell == Some(o.prompt_shell))
            &&& n.prompt_mode is None
            &&& e == Effect::OpenTab { tab: o.tabs@.len() as usize }
        }),
{
}

/// Law: choosing tab `k` makes it active when it exists and otherwise
/// changes nothing; nothing but the active tab ever changes.
pub proof fn lemma_switch_tab(o: App, k: usize, n: App, e: Effect)
    requires
        main_step(o, AppAction::SwitchTab(k), n, e),
    ensures
        k < o.tabs@.len() ==> n.active_tab == k,
        k >= o.tabs@.len() ==> n == o,
        n == (App { active_tab: n.active_tab, ..o }),
        e == Effect::Nothing,
{
}

} // verus!
