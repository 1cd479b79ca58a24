//! A terminal tab: its scrollback buffer, its connection state, and how a
//! new screen from the server updates both.

use std::collections::VecDeque;
use vstd::prelude::*;

use crate::client::{ScreenMetadata, ScreenOutput};
use crate::config::{TerminalConfig, DEFAULT_COLS, DEFAULT_ROWS};
use crate::history::{CommandHistory, DEFAULT_MAX_HISTORY};
use crate::text::{
    contains_seq, contains_str, lines_of, opt_string_view, split_lines, strings_view, strs_view,
};

verus! {

/// `all` with its oldest lines dropped so that at most `max` remain.
pub open spec fn capped(all: Seq<Seq<char>>, max: nat) -> Seq<Seq<char>> {
    if all.len() > max {
        all.skip(all.len() - max)
    } else {
        all
    }
}

/// The first line shown by a window of `height` lines whose bottom is
/// `cursor` lines above the newest of `len` lines.
pub open spec fn window_start(len: nat, cursor: nat, height: nat) -> nat {
    if cursor + height >= len {
        0
    } else {
        (len - cursor - height) as nat
    }
}

/// One past the last line shown by that window.
pub open spec fn window_end(len: nat, cursor: nat) -> nat {
    if cursor >= len {
        0
    } else {
        (len - cursor) as nat
    }
}

/// The view position after scrolling up `k` lines from `c` over `len` lines.
pub open spec fn scrolled_up(c: usize, k: usize, len: nat) -> usize {
    if c + k <= len {
        (c + k) as usize
    } else {
        len as usize
    }
}

/// The view position after scrolling down `k` lines from `c`.
pub open spec fn scrolled_down(c: usize, k: usize) -> usize {
    if c >= k {
        (c - k) as usize
    } else {
        0
    }
}

/// The lines that scrolled out of a terminal, newest last, with a viewing
/// position counted in lines above the bottom.
pub struct Scrollback {
    pub lines: VecDeque<String>,
    pub max_lines: usize,
    pub cursor: usize,
}

impl Scrollback {
    /// The lines as character sequences.
    pub open spec fn view_lines(&self) -> Seq<Seq<char>> {
        strings_view(self.lines@)
    }

    /// The view is on a line and the bound is respected. Every operation
    /// of the scrollback keeps this.
    pub open spec fn wf(&self) -> bool {
        self.cursor <= self.lines@.len() <= self.max_lines
    }

    /// An empty scrollback that keeps at most `max_lines` lines, viewed at
    /// the bottom.
    pub fn new(max_lines: usize) -> (s: Self)
        ensures
            s.wf(),
            s.view_lines() == Seq::<Seq<char>>::empty(),
            s.max_lines == max_lines,
            s.cursor == 0,
    {
        let cap = if max_lines < 1000 { max_lines } else { 1000 };
        let s = Scrollback { lines: VecDeque::with_capacity(cap), max_lines, cursor: 0 };
        assert(s.view_lines() =~= Seq::<Seq<char>>::empty());
        s
    }

    /// Appends `new_lines`, then drops the oldest lines beyond `max_lines`.
    pub fn append_lines(&mut self, new_lines: Vec<String>)
        ensures
            final(self).view_lines() == capped(
                old(self).view_lines() + strings_view(new_lines@),
                old(self).max_lines as nat,
            ),
            final(self).max_lines == old(self).max_lines,
            final(self).cursor == old(self).cursor,
            old(self).wf() ==> final(self).wf(),
    {
        let ghost start = self.view_lines();
        for line in it: new_lines
            invariant
                it.seq() == new_lines@,
                self.view_lines() == start + strings_view(new_lines@.take(it.index() as int)),
                self.max_lines == old(self).max_lines,
                self.cursor == old(self).cursor,
        {
            let ghost before = self.lines@;
            self.lines.push_back(line);
            proof {
                let k = it.index() as int;
                assert(new_lines@.take(k + 1) =~= new_lines@.take(k).push(line));
                assert(strings_view(self.lines@) =~= strings_view(before).push(line@));
                assert(strings_view(new_lines@.take(k + 1)) =~= strings_view(new_lines@.take(
                    k,
                )).push(line@));
            }
        }
        assert(new_lines@.take(new_lines@.len() as int) =~= new_lines@);
        let ghost all = self.view_lines();
        while self.lines.len() > self.max_lines
            invariant
                all.len() >= self.view_lines().len(),
                self.view_lines() == all.skip(all.len() - self.view_lines().len()),
                all.len() <= self.max_lines ==> self.view_lines().len() == all.len(),
                all.len() > self.max_lines ==> self.view_lines().len() >= self.max_lines,
                self.max_lines == old(self).max_lines,
                self.cursor == old(self).cursor,
            decreases self.lines@.len(),
        {
            let ghost before = self.lines@;
            let _ = self.lines.pop_front();
            assert(strings_view(self.lines@) =~= strings_view(before).drop_first());
            assert(all.skip(all.len() - strings_view(before).len()).drop_first() =~= all.skip(
                all.len() - strings_view(self.lines@).len(),
            ));
        }
        assert(all.skip(0) =~= all);
        assert(self.view_lines() =~= capped(all, self.max_lines as nat));
        assert(self.view_lines().len() == self.lines@.len());
        assert(start.len() == old(self).lines@.len());
    }

    /// Whether the view is at the bottom (the newest lines).
    pub fn is_at_bottom(&self) -> (b: bool)
        ensures
            b == (self.cursor == 0),
    {
        self.cursor == 0
    }

    /// Moves the view `amount` lines up, but not above the oldest line.
    pub fn scroll_up(&mut self, amount: usize)
        ensures
            final(self).cursor == scrolled_up(old(self).cursor, amount, old(self).lines@.len()),
            final(self).lines == old(self).lines,
            final(self).max_lines == old(self).max_lines,
            old(self).wf() ==> final(self).wf(),
    {
        let max_scroll = self.lines.len();
        let raised = self.cursor.saturating_add(amount);
        self.cursor = if raised < max_scroll { raised } else { max_scroll };
    }

    /// Moves the view `amount` lines down, but not below the bottom.
    pub fn scroll_down(&mut self, amount: usize)
        ensures
            final(self).cursor == scrolled_down(old(self).cursor, amount),
            final(self).lines == old(self).lines,
            final(self).max_lines == old(self).max_lines,
            old(self).wf() ==> final(self).wf(),
    {
        self.cursor = self.cursor.saturating_sub(amount);
    }

    /// Moves the view to the oldest line.
    pub fn scroll_to_top(&mut self)
        ensures
            final(self).cursor == old(self).lines@.len(),
            final(self).lines == old(self).lines,
            final(self).max_lines == old(self).max_lines,
            old(self).wf() ==> final(self).wf(),
    {
        self.cursor = self.lines.len();
    }

    /// Moves the view to the bottom.
    pub fn scroll_to_bottom(&mut self)
        ensures
            final(self).cursor == 0,
            final(self).lines == old(self).lines,
            final(self).max_lines == old(self).max_lines,
            old(self).wf() ==> final(self).wf(),
    {
        self.cursor = 0;
    }

    /// The lines in a window of `viewport_height` lines whose bottom is
    /// `cursor` lines above the newest line, oldest first.
    pub fn visible_lines(&self, viewport_height: usize) -> (r: Vec<&str>)
        requires
            self.cursor > 0 ==> self.cursor + viewport_height <= usize::MAX,
        ensures
            strs_view(r@) == self.view_lines().subrange(
                window_start(self.lines@.len(), self.cursor as nat, viewport_height as nat) as int,
                window_end(self.lines@.len(), self.cursor as nat) as int,
            ),
    {
        let len = self.lines.len();
        let (start, end) = if self.cursor == 0 {
            (len.saturating_sub(viewport_height), len)
        } else {
            (len.saturating_sub(self.cursor + viewport_height), len.saturating_sub(self.cursor))
        };
        let mut r: Vec<&str> = Vec::new();
        let mut i = start;
        while i < end
            invariant
                len == self.lines@.len(),
                start <= i <= end <= len,
                strs_view(r@) == self.view_lines().subrange(start as int, i as int),
            decreases end - i,
        {
            let ghost before = r@;
            let s = self.lines[i].as_str();
            r.push(s);
            assert(strs_view(r@) =~= strs_view(before).push(s@));
            assert(self.view_lines().subrange(start as int, i + 1) =~= self.view_lines().subrange(
                start as int,
                i as int,
            ).push(self.view_lines()[i as int]));
            i = i + 1;
        }
        r
    }

    /// The view position and the number of lines.
    pub fn scroll_position(&self) -> (p: (usize, usize))
        ensures
            p.0 == self.cursor,
            p.1 == self.lines@.len(),
    {
        (self.cursor, self.lines.len())
    }
}

/// Law: a scrollback never holds more lines than its bound after lines are
/// appended.
pub proof fn lemma_append_within_bound(all: Seq<Seq<char>>, max: nat)
    ensures
        capped(all, max).len() <= max,
{
}

/// Law: the newest lines survive appending: the last `min(max, len)` lines
/// of old-plus-new are what remains.
pub proof fn lemma_append_keeps_newest(all: Seq<Seq<char>>, max: nat, i: int)
    requires
        0 <= i < capped(all, max).len(),
    ensures
        capped(all, max)[i] == all[all.len() - capped(all, max).len() + i],
{
}

/// Law: scrolling up and then down by the same amount returns the view to
/// where it was, when the scroll up was not stopped by the oldest line.
pub proof fn lemma_scroll_up_down(cursor: usize, amount: usize, len: nat)
    requires
        cursor + amount <= len <= usize::MAX,
    ensures
        scrolled_down(scrolled_up(cursor, amount, len), amount) == cursor,
{
}

/// Law: a window never shows more lines than its height.
pub proof fn lemma_window_height(len: nat, cursor: nat, height: nat)
    ensures
        window_start(len, cursor, height) <= window_end(len, cursor) <= len,
        window_end(len, cursor) - window_start(len, cursor, height) <= height,
{
}

/// The connection state of a tab.
#[derive(Debug, Clone, Copy, PartialEq, Eq, Structural)]
pub enum TabState {
    Disconnected,
    Connecting,
    Starting,
    Active,
    Reconnecting,
}

/// Why connecting a tab failed before any request to its session.
#[derive(Debug, Clone, Copy, PartialEq, Eq, Structural)]
pub enum ConnectError {
    /// The tab's configuration has no URL.
    NoUrl,
    /// The server's health check failed.
    Unreachable,
}

impl ConnectError {
    /// The message shown for this error.
    pub fn message(&self) -> (m: String)
        ensures
            m@ == match *self {
                ConnectError::NoUrl => "No URL configured"@,
                ConnectError::Unreachable => "Server unreachable"@,
            },
    {
        match self {
            ConnectError::NoUrl => String::from_str("No URL configured"),
            ConnectError::Unreachable => String::from_str("Server unreachable"),
        }
    }
}

/// The scrollback after a new screen `out` arrives, given the previous
/// screen `last`: the first screen is appended whole; an unchanged screen
/// adds nothing; a screen with more lines than the previous one appends
/// the extra lines; otherwise the previous screen's lines are taken off the
/// end of the scrollback (as many as it holds) and the new screen appended.
pub open spec fn scrollback_after(
    sb: Seq<Seq<char>>,
    max: nat,
    last: Option<Seq<char>>,
    out: Seq<char>,
) -> Seq<Seq<char>> {
    match last {
        None => capped(sb + lines_of(out), max),
        Some(l) => if l == out {
            sb
        } else {
            let o = lines_of(l);
            let n = lines_of(out);
            if n.len() > o.len() {
                capped(sb + n.skip(o.len() as int), max)
            } else {
                let r = if o.len() < sb.len() { o.len() } else { sb.len() };
                capped(sb.take(sb.len() - r) + n, max)
            }
        },
    }
}

/// The cursor column to take from a screen's metadata.
pub open spec fn metadata_cursor(m: Option<ScreenMetadata>) -> usize {
    match m {
        Some(md) => md.cursor_x,
        None => 0,
    }
}

/// Server error messages that mean the session is gone.
pub open spec fn session_lost(message: Seq<char>) -> bool {
    contains_seq(message, "Session not found"@) || contains_seq(message, "broken pipe"@)
}

/// A terminal tab: what the user sees and types, and the session it is
/// attached to.
pub struct Tab {
    pub name: String,
    pub config: TerminalConfig,
    pub state: TabState,
    pub session_id: Option<String>,
    pub screen_buffer: Vec<String>,
    pub screen_metadata: Option<ScreenMetadata>,
    pub scrollback: Scrollback,
    pub history: CommandHistory,
    pub input_buffer: String,
    pub cursor_x: usize,
    pub last_screen: Option<String>,
}

impl Tab {
    /// The tab's invariant: its history is well formed.
    pub open spec fn wf(&self) -> bool {
        self.history.wf()
    }

    /// What a newly made tab for `config` looks like: disconnected, with an
    /// empty screen, input line and history, and an empty scrollback of
    /// `scrollback_max` lines.
    pub open spec fn is_fresh(&self, config: TerminalConfig, scrollback_max: usize) -> bool {
        &&& self.wf()
        &&& self.name@ == config.name@
        &&& self.config == config
        &&& self.state == TabState::Disconnected
        &&& self.session_id is None
        &&& self.screen_buffer@.len() == 0
        &&& self.screen_metadata is None
        &&& self.scrollback.view_lines().len() == 0
        &&& self.scrollback.max_lines == scrollback_max
        &&& self.scrollback.cursor == 0
        &&& self.history.entries().len() == 0
        &&& self.history.limit() == DEFAULT_MAX_HISTORY
        &&& self.history.position() is None
        &&& self.history.draft().len() == 0
        &&& self.input_buffer@.len() == 0
        &&& self.cursor_x == 0
        &&& self.last_screen is None
    }

    /// A disconnected tab for `config` (see `is_fresh`).
    pub fn new(config: TerminalConfig, scrollback_max: usize) -> (t: Self)
        ensures
            t.is_fresh(config, scrollback_max),
    {
        let name = config.name.clone();
        Tab {
            name,
            config,
            state: TabState::Disconnected,
            session_id: None,
            screen_buffer: Vec::new(),
            screen_metadata: None,
            scrollback: Scrollback::new(scrollback_max),
            history: CommandHistory::new(DEFAULT_MAX_HISTORY),
            input_buffer: String::new(),
            cursor_x: 0,
            last_screen: None,
        }
    }

    /// First step of connecting: a tab without a URL becomes disconnected
    /// and fails with `NoUrl`; otherwise it is connecting.
    pub fn begin_connect(&mut self) -> (r: Result<(), ConnectError>)
        ensures
            old(self).config.url@.len() == 0 ==> r == Err::<(), ConnectError>(ConnectError::NoUrl)
                && final(self).state == TabState::Disconnected,
            old(self).config.url@.len() > 0 ==> r is Ok && final(self).state
                == TabState::Connecting,
            *final(self) == (Tab { state: final(self).state, ..*old(self) }),
    {
        if self.config.url.as_str().is_empty() {
            self.state = TabState::Disconnected;
            return Err(ConnectError::NoUrl);
        }
        self.state = TabState::Connecting;
        Ok(())
    }

    /// Second step: after the health check, an unreachable server leaves
    /// the tab disconnected with `Unreachable`; a healthy one starts a
    /// session.
    pub fn on_health_checked(&mut self, healthy: bool) -> (r: Result<(), ConnectError>)
        ensures
            !healthy ==> r == Err::<(), ConnectError>(ConnectError::Unreachable) && final(self).state
                == TabState::Disconnected,
            healthy ==> r is Ok && final(self).state == TabState::Starting,
            *final(self) == (Tab { state: final(self).state, ..*old(self) }),
    {
        if !healthy {
            self.state = TabState::Disconnected;
            return Err(ConnectError::Unreachable);
        }
        self.state = TabState::Starting;
        Ok(())
    }

    /// The shell, columns and rows to start a session with: the tab's own,
    /// or `bash`, 120 and 40.
    pub fn session_params(&self) -> (p: (String, u16, u16))
        ensures
            p.0@ == match self.config.shell {
                Some(s) => s@,
                None => seq!['b', 'a', 's', 'h'],
            },
            p.1 == self.cols_spec(),
            p.2 == self.rows_spec(),
    {
        let shell = match &self.config.shell {
            Some(s) => s.clone(),
            None => crate::config::default_shell(false),
        };
        (shell, self.cols(), self.rows())
    }

    /// Last step: the session `session_id` is attached and the tab active.
    pub fn on_session_started(&mut self, session_id: String)
        ensures
            final(self).session_id == Some(session_id),
            final(self).state == TabState::Active,
            *final(self) == (Tab {
                state: final(self).state,
                session_id: final(self).session_id,
                ..*old(self)
            }),
    {
        self.session_id = Some(session_id);
        self.state = TabState::Active;
    }

    /// The session to poll: only an active tab with a session is polled.
    pub fn poll_session(&self) -> (r: Option<String>)
        ensures
            r == (if self.state == TabState::Active {
                self.session_id
            } else {
                None
            }),
    {
        if self.state != TabState::Active {
            return None;
        }
        match &self.session_id {
            Some(id) => Some(id.clone()),
            None => None,
        }
    }

    /// Reacts to a failed poll: a message saying that the session is gone
    /// disconnects the tab and forgets the session; other errors change
    /// nothing.
    pub fn on_poll_error(&mut self, message: &str)
        ensures
            session_lost(message@) ==> *final(self) == (Tab {
                state: TabState::Disconnected,
                session_id: None,
                ..*old(self)
            }),
            !session_lost(message@) ==> *final(self) == *old(self),
    {
        let lost = contains_str(message, "Session not found") || contains_str(message, "broken pipe");
        if lost {
            self.state = TabState::Disconnected;
            self.session_id = None;
        }
    }

    /// Takes in a new screen: updates the metadata (and, on the first
    /// screen, the cursor column), moves the lines that changed into the
    /// scrollback (see `scrollback_after`), and shows the new screen.
    pub fn update_screen(&mut self, output: ScreenOutput)
        ensures
            final(self).scrollback.view_lines() == scrollback_after(
                old(self).scrollback.view_lines(),
                old(self).scrollback.max_lines as nat,
                opt_string_view(old(self).last_screen),
                output.output@,
            ),
            final(self).scrollback.max_lines == old(self).scrollback.max_lines,
            final(self).scrollback.cursor == old(self).scrollback.cursor,
            strings_view(final(self).screen_buffer@) == lines_of(output.output@),
            final(self).last_screen == Some(output.output),
            final(self).screen_metadata == output.metadata,
            final(self).cursor_x == if old(self).last_screen is None {
                metadata_cursor(output.metadata)
            } else {
                old(self).cursor_x
            },
            final(self).name == old(self).name,
            final(self).config == old(self).config,
            final(self).state == old(self).state,
            final(self).session_id == old(self).session_id,
            final(self).history == old(self).history,
            final(self).input_buffer == old(self).input_buffer,
    {
        let lines = split_lines(output.output.as_str());
        if self.last_screen.is_none() {
            self.screen_metadata = output.metadata;
            self.cursor_x = match self.screen_metadata {
                Some(m) => m.cursor_x,
                None => 0,
            };
        } else {
            self.screen_metadata = output.metadata;
        }
        let ghost sb = self.scrollback.view_lines();
        let changed = match &self.last_screen {
            Some(last) => !(*last == output.output),
            None => true,
        };
        if changed {
            match &self.last_screen {
                Some(last) => {
                    let old_lines = split_lines(last.as_str());
                    let new_lines = split_lines(output.output.as_str());
                    if new_lines.len() > old_lines.len() {
                        let appended = tail_from(&new_lines, old_lines.len());
                        self.scrollback.append_lines(appended);
                    } else {
                        let held = self.scrollback.lines.len();
                        let replace_count = if old_lines.len() < held {
                            old_lines.len()
                        } else {
                            held
                        };
                        if replace_count > 0 {
                            let ghost q = self.scrollback.lines@;
                            self.scrollback.lines.truncate(held - replace_count);
                            assert(strings_view(self.scrollback.lines@) =~= strings_view(q).take(
                                held - replace_count,
                            ));
                        } else {
                            assert(sb.take(sb.len() as int) =~= sb);
                        }
                        self.scrollback.append_lines(new_lines);
                    }
                },
                None => {
                    let all = tail_from(&lines, 0);
                    assert(strings_view(lines@).skip(0) =~= strings_view(lines@));
                    self.scrollback.append_lines(all);
                },
            }
        }
        self.last_screen = Some(output.output);
        self.screen_buffer = lines;
    }

    /// Ends the tab's session locally: forgets the session (returned, so
    /// that the server side can be ended too), clears the screen and the
    /// input line, and disconnects.
    pub fn end_session(&mut self) -> (sid: Option<String>)
        ensures
            sid == old(self).session_id,
            final(self).session_id is None,
            final(self).state == TabState::Disconnected,
            final(self).screen_buffer@.len() == 0,
            final(self).last_screen is None,
            final(self).input_buffer@.len() == 0,
            final(self).cursor_x == 0,
            final(self).name == old(self).name,
            final(self).config == old(self).config,
            final(self).scrollback == old(self).scrollback,
            final(self).history == old(self).history,
            final(self).screen_metadata == old(self).screen_metadata,
    {
        let sid = self.session_id.take();
        self.state = TabState::Disconnected;
        self.screen_buffer = Vec::new();
        self.last_screen = None;
        self.input_buffer = String::new();
        self.cursor_x = 0;
        sid
    }

    /// Same as `end_session`.
    pub fn disconnect(&mut self) -> (sid: Option<String>)
        ensures
            sid == old(self).session_id,
            final(self).session_id is None,
            final(self).state == TabState::Disconnected,
            final(self).screen_buffer@.len() == 0,
            final(self).last_screen is None,
            final(self).input_buffer@.len() == 0,
            final(self).cursor_x == 0,
            final(self).name == old(self).name,
            final(self).config == old(self).config,
            final(self).scrollback == old(self).scrollback,
            final(self).history == old(self).history,
            final(self).screen_metadata == old(self).screen_metadata,
    {
        self.end_session()
    }

    /// The columns of the tab's terminal.
    pub open spec fn cols_spec(&self) -> u16 {
        match self.config.cols {
            Some(c) => c,
            None => DEFAULT_COLS,
        }
    }

    /// The rows of the tab's terminal.
    pub open spec fn rows_spec(&self) -> u16 {
        match self.config.rows {
            Some(r) => r,
            None => DEFAULT_ROWS,
        }
    }

    /// The columns of the tab's terminal (120 unless configured).
    pub fn cols(&self) -> (c: u16)
        ensures
            c == self.cols_spec(),
    {
        match self.config.cols {
            Some(c) => c,
            None => DEFAULT_COLS,
        }
    }

    /// The rows of the tab's terminal (40 unless configured).
    pub fn rows(&self) -> (r: u16)
        ensures
            r == self.rows_spec(),
    {
        match self.config.rows {
            Some(r) => r,
            None => DEFAULT_ROWS,
        }
    }

    /// Records a new terminal size; the session, if any, is resized by the
    /// caller.
    pub fn resize(&mut self, cols: u16, rows: u16)
        ensures
            final(self).config == (TerminalConfig {
                cols: Some(cols),
                rows: Some(rows),
                ..old(self).config
            }),
            *final(self) == (Tab { config: final(self).config, ..*old(self) }),
    {
        self.config.cols = Some(cols);
        self.config.rows = Some(rows);
    }
}

/// Copies of `v[from..]`.
fn tail_from(v: &Vec<String>, from: usize) -> (r: Vec<String>)
    requires
        from <= v@.len(),
    ensures
        strings_view(r@) == strings_view(v@).skip(from as int),
{
    let mut r: Vec<String> = Vec::new();
    let mut i = from;
    while i < v.len()
        invariant
            from <= i <= v@.len(),
            strings_view(r@) == strings_view(v@).subrange(from as int, i as int),
        decreases v@.len() - i,
    {
        let ghost before = r@;
        r.push(v[i].clone());
        assert(strings_view(r@) =~= strings_view(before).push(v@[i as int]@));
        assert(strings_view(v@).subrange(from as int, i + 1) =~= strings_view(v@).subrange(
            from as int,
            i as int,
        ).push(v@[i as int]@));
        i = i + 1;
    }
    assert(strings_view(v@).subrange(from as int, v@.len() as int) =~= strings_view(v@).skip(
        from as int,
    ));
    r
}

/// Law: polling a screen that has not changed adds nothing to the
/// scrollback.
pub proof fn lemma_unchanged_screen_adds_nothing(sb: Seq<Seq<char>>, max: nat, out: Seq<char>)
    ensures
        scrollback_after(sb, max, Some(out), out) == sb,
{
}

/// Law: when a screen grows by lines, exactly the new lines are appended
/// (as far as the bound allows).
pub proof fn lemma_growing_screen_appends_new_lines(
    sb: Seq<Seq<char>>,
    max: nat,
    last: Seq<char>,
    out: Seq<char>,
)
    requires
        last != out,
        lines_of(out).len() > lines_of(last).len(),
    ensures
        scrollback_after(sb, max, Some(last), out) == capped(
            sb + lines_of(out).skip(lines_of(last).len() as int),
            max,
        ),
{
}

/// Law: after any new screen, a scrollback that was within its bound still
/// is.
pub proof fn lemma_screen_within_bound(
    sb: Seq<Seq<char>>,
    max: nat,
    last: Option<Seq<char>>,
    out: Seq<char>,
)
    requires
        sb.len() <= max,
    ensures
        scrollback_after(sb, max, last, out).len() <= max,
{
}

/// Law: scrolling up moves the view toward the oldest line by exactly the
/// amount asked, and stops at the oldest line: from position `c` over `len`
/// lines the view never goes down, never passes `len`, lands on `c + k`
/// when that is within the lines, and on `len` otherwise.
pub proof fn lemma_scroll_up_moves_toward_oldest(c: usize, k: usize, len: nat)
    requires
        c <= len <= usize::MAX,
    ensures
        c <= scrolled_up(c, k, len) <= len,
        c + k <= len ==> scrolled_up(c, k, len) == c + k,
        c + k >= len ==> scrolled_up(c, k, len) == len,
{
}

/// Law: when the server redraws the screen with no more lines than the
/// previous screen had, the previous screen's lines at the end of the
/// scrollback are replaced by the new screen's lines (as far as the bound
/// allows); what came before them is kept.
pub proof fn lemma_redraw_replaces_previous_screen(
    before: Seq<Seq<char>>,
    max: nat,
    last: Seq<char>,
    out: Seq<char>,
)
    requires
        last != out,
        lines_of(out).len() <= lines_of(last).len(),
    ensures
        scrollback_after(before + lines_of(last), max, Some(last), out) == capped(
            before + lines_of(out),
            max,
        ),
{
    let sb = before + lines_of(last);
    assert(sb.take(sb.len() - lines_of(last).len()) =~= before);
}

/// Law: when the scrollback holds no more lines than the previous screen
/// had, a redraw with no more lines leaves only the new screen's lines (as
/// far as the bound allows): none of the previous screen's lines stay.
pub proof fn lemma_redraw_of_short_scrollback(
    sb: Seq<Seq<char>>,
    max: nat,
    last: Seq<char>,
    out: Seq<char>,
)
    requires
        last != out,
        lines_of(out).len() <= lines_of(last).len(),
        sb.len() <= lines_of(last).len(),
    ensures
        scrollback_after(sb, max, Some(last), out) == capped(lines_of(out), max),
{
    assert(sb.take(0) + lines_of(out) =~= lines_of(out));
}

/// Law: scrolling down moves the view toward the newest line by exactly the
/// amount asked and stops at the bottom: it never goes up, lands on `c - k`
/// when that is not below the bottom, and on the bottom otherwise.
pub proof fn lemma_scroll_down_moves_toward_newest(c: usize, k: usize)
    ensures
        scrolled_down(c, k) <= c,
        k <= c ==> scrolled_down(c, k) == c - k,
        k >= c ==> scrolled_down(c, k) == 0,
{
}

/// Law: the first screen of a session is appended whole to the scrollback
/// (as far as the bound allows).
pub proof fn lemma_first_screen_appended(sb: Seq<Seq<char>>, max: nat, out: Seq<char>)
    ensures
        scrollback_after(sb, max, None, out) == capped(sb + lines_of(out), max),
{
}

} // verus!
