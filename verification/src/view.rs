//! What the screen shows: tab titles, the status bar texts, and the lines
//! and cursor of the terminal area. Drawing them is left to the caller.

use vstd::prelude::*;

use crate::tab::{window_end, window_start, Tab, TabState};
use crate::text::{
    byte_len, decimal, push_char, push_decimal, string_byte_len, strings_view, to_chars,
};

verus! {

/// The shell shown for a tab: its own, or `?`.
pub open spec fn shell_label(t: Tab) -> Seq<char> {
    match t.config.shell {
        Some(s) => s@,
        None => "?"@,
    }
}

/// The mark after a tab's title for its connection state.
pub open spec fn state_icon(s: TabState) -> Seq<char> {
    match s {
        TabState::Active => ""@,
        TabState::Disconnected => " ⚠"@,
        TabState::Connecting | TabState::Starting => " ..."@,
        TabState::Reconnecting => " ↻"@,
    }
}

/// The word for a tab's connection state in the status bar.
pub open spec fn state_text(s: TabState) -> Seq<char> {
    match s {
        TabState::Active => "Connected"@,
        TabState::Disconnected => "Disconnected"@,
        TabState::Connecting => "Connecting..."@,
        TabState::Starting => "Starting..."@,
        TabState::Reconnecting => "Reconnecting..."@,
    }
}

/// The title of a tab in the tab bar: `* ` for the active tab, its name,
/// shell and state, and an arrow when it is scrolled back.
pub open spec fn title_of(t: Tab, is_active: bool) -> Seq<char> {
    (if is_active {
        "* "@
    } else {
        "  "@
    }) + "["@ + t.name@ + ": "@ + shell_label(t) + state_icon(t.state) + (if t.scrollback.cursor
        != 0 {
        " ↑"@
    } else {
        ""@
    }) + "]"@
}

/// The left part of the status bar.
pub open spec fn status_left_of(t: Tab) -> Seq<char> {
    " Tab "@ + t.name@ + " | "@ + shell_label(t) + " | "@ + state_text(t.state) + " "@
}

/// The right part of the status bar: size, history length, and the scroll
/// position when scrolled back.
pub open spec fn status_right_of(t: Tab) -> Seq<char> {
    let pos = t.scrollback.cursor;
    let total = t.scrollback.lines@.len();
    decimal(t.cols_spec() as nat) + "x"@ + decimal(t.rows_spec() as nat) + " | History: "@ + decimal(
        t.history.entries().len(),
    ) + (if pos > 0 {
        " 📜 "@ + decimal((total - pos) as nat) + "/"@ + decimal(total)
    } else {
        ""@
    }) + " "@
}

/// The notice shown in place of the screen of a tab that is not active:
/// `connecting` tells whether a reconnection is under way.
pub open spec fn notice_of(t: Tab, connecting: bool) -> Option<Seq<char>> {
    match t.state {
        TabState::Disconnected => Some(
            if connecting {
                "Connecting to server..."@
            } else {
                "Disconnected. Press F5 to reconnect."@
            },
        ),
        TabState::Connecting | TabState::Starting => Some("Connecting to "@ + t.config.url@ + "..."@),
        TabState::Reconnecting => Some("Reconnecting..."@),
        TabState::Active => None,
    }
}

/// The first `width` characters of `s`.
pub open spec fn clipped(s: Seq<char>, width: nat) -> Seq<char> {
    if s.len() <= width {
        s
    } else {
        s.take(width as int)
    }
}

/// What the terminal area of an active tab shows.
#[derive(Debug, Clone, PartialEq, Eq)]
pub struct ScreenView {
    /// The scrollback lines in view, clipped to the width.
    pub lines: Vec<String>,
    /// The input line (shown after `> `) when at the bottom with input.
    pub input: Option<String>,
    /// How many empty lines follow, to fill the height.
    pub padding: usize,
    /// Where the cursor goes, when the view is at the bottom.
    pub cursor: Option<(u16, u16)>,
}

fn push_str_chars(s: &mut String, t: &str)
    ensures
        final(s)@ == old(s)@ + t@,
{
    s.append(t);
}

fn push_shell(s: &mut String, t: &Tab)
    ensures
        final(s)@ == old(s)@ + shell_label(*t),
{
    match &t.config.shell {
        Some(sh) => push_str_chars(s, sh.as_str()),
        None => push_str_chars(s, "?"),
    }
}

/// The title of `tab` in the tab bar (see `title_of`).
pub fn tab_title(tab: &Tab, is_active: bool) -> (r: String)
    ensures
        r@ == title_of(*tab, is_active),
{
    let mut r = if is_active {
        String::from_str("* ")
    } else {
        String::from_str("  ")
    };
    push_str_chars(&mut r, "[");
    push_str_chars(&mut r, tab.name.as_str());
    push_str_chars(&mut r, ": ");
    push_shell(&mut r, tab);
    match tab.state {
        TabState::Active => push_str_chars(&mut r, ""),
        TabState::Disconnected => push_str_chars(&mut r, " ⚠"),
        TabState::Connecting | TabState::Starting => push_str_chars(&mut r, " ..."),
        TabState::Reconnecting => push_str_chars(&mut r, " ↻"),
    }
    if tab.scrollback.cursor != 0 {
        push_str_chars(&mut r, " ↑");
    } else {
        push_str_chars(&mut r, "");
    }
    push_str_chars(&mut r, "]");
    r
}

/// The notice shown instead of the screen of `tab` (see `notice_of`).
pub fn terminal_notice(tab: &Tab, connecting: bool) -> (r: Option<String>)
    ensures
        match r {
            Some(s) => notice_of(*tab, connecting) == Some(s@),
            None => notice_of(*tab, connecting) is None,
        },
{
    match tab.state {
        TabState::Disconnected => Some(
            if connecting {
                String::from_str("Connecting to server...")
            } else {
                String::from_str("Disconnected. Press F5 to reconnect.")
            },
        ),
        TabState::Connecting | TabState::Starting => {
            let mut s = String::from_str("Connecting to ");
            push_str_chars(&mut s, tab.config.url.as_str());
            push_str_chars(&mut s, "...");
            Some(s)
        },
        TabState::Reconnecting => Some(String::from_str("Reconnecting...")),
        TabState::Active => None,
    }
}

/// The left part of the status bar for `tab` (see `status_left_of`).
pub fn status_left(tab: &Tab) -> (r: String)
    ensures
        r@ == status_left_of(*tab),
{
    let mut r = String::from_str(" Tab ");
    push_str_chars(&mut r, tab.name.as_str());
    push_str_chars(&mut r, " | ");
    push_shell(&mut r, tab);
    push_str_chars(&mut r, " | ");
    match tab.state {
        TabState::Active => push_str_chars(&mut r, "Connected"),
        TabState::Disconnected => push_str_chars(&mut r, "Disconnected"),
        TabState::Connecting => push_str_chars(&mut r, "Connecting..."),
        TabState::Starting => push_str_chars(&mut r, "Starting..."),
        TabState::Reconnecting => push_str_chars(&mut r, "Reconnecting..."),
    }
    push_str_chars(&mut r, " ");
    r
}

/// The right part of the status bar for `tab` (see `status_right_of`).
pub fn status_right(tab: &Tab) -> (r: String)
    requires
        tab.scrollback.cursor <= tab.scrollback.lines@.len(),
    ensures
        r@ == status_right_of(*tab),
{
    let (pos, total) = tab.scrollback.scroll_position();
    let mut r = String::new();
    push_decimal(&mut r, tab.cols() as u128);
    push_str_chars(&mut r, "x");
    push_decimal(&mut r, tab.rows() as u128);
    push_str_chars(&mut r, " | History: ");
    push_decimal(&mut r, tab.history.len() as u128);
    if pos > 0 {
        push_str_chars(&mut r, " 📜 ");
        push_decimal(&mut r, (total - pos) as u128);
        push_str_chars(&mut r, "/");
        push_decimal(&mut r, total as u128);
    } else {
        push_str_chars(&mut r, "");
    }
    push_str_chars(&mut r, " ");
    r
}

/// The blank columns between the two parts of the status bar in an area
/// `width` columns wide (counting bytes, as the texts' lengths do).
pub fn status_padding(width: usize, left: &String, right: &String) -> (n: usize)
    requires
        byte_len(left@) + byte_len(right@) <= width,
    ensures
        n == width - byte_len(left@) - byte_len(right@),
{
    width - string_byte_len(left) - string_byte_len(right)
}

/// The first `width` characters of `s`.
pub fn clip(s: &str, width: usize) -> (r: String)
    ensures
        r@ == clipped(s@, width as nat),
{
    let v = to_chars(s);
    let n = if v.len() <= width {
        v.len()
    } else {
        width
    };
    let mut r = String::new();
    let mut i: usize = 0;
    while i < n
        invariant
            n <= v@.len(),
            i <= n,
            r@ == v@.take(i as int),
        decreases n - i,
    {
        push_char(&mut r, v[i]);
        assert(v@.take(i + 1) =~= v@.take(i as int).push(v@[i as int]));
        i = i + 1;
    }
    assert(v@.take(v@.len() as int) =~= v@);
    r
}

/// The number of lines the screen shows before padding: the scrollback
/// window and, when at the bottom with input, the input line.
pub open spec fn shown_count(t: Tab, height: nat) -> nat {
    let len = t.scrollback.lines@.len();
    let c = t.scrollback.cursor as nat;
    (window_end(len, c) - window_start(len, c, height)) as nat + (if c == 0
        && t.input_buffer@.len() > 0 {
        1nat
    } else {
        0nat
    })
}

/// The terminal area of `tab` for an area of `width` by `height`.
pub fn screen_view(tab: &Tab, width: usize, height: usize) -> (v: ScreenView)
    requires
        width <= u16::MAX,
        height <= u16::MAX,
        tab.scrollback.cursor > 0 ==> tab.scrollback.cursor + height <= usize::MAX,
        tab.scrollback.cursor == 0 ==> tab.cursor_x + 2 <= usize::MAX,
    ensures
        ({
            let len = tab.scrollback.lines@.len();
            let c = tab.scrollback.cursor as nat;
            let shown = tab.scrollback.view_lines().subrange(
                window_start(len, c, height as nat) as int,
                window_end(len, c) as int,
            );
            let at_bottom = c == 0;
            let count = shown_count(*tab, height as nat);
            &&& strings_view(v.lines@) == shown.map_values(|l: Seq<char>| clipped(l, width as nat))
            &&& (if at_bottom && tab.input_buffer@.len() > 0 {
                v.input matches Some(s) && s@ == clipped(tab.input_buffer@, width as nat)
            } else {
                v.input is None
            })
            &&& v.padding == (if count < height {
                height - count
            } else {
                0
            })
            &&& v.cursor == (if at_bottom {
                Some(
                    (
                        (if tab.cursor_x + 2 <= width {
                            tab.cursor_x + 2
                        } else {
                            width as int
                        }) as u16,
                        (if count + v.padding > 0 {
                            count + v.padding - 1
                        } else {
                            0
                        }) as u16,
                    ),
                )
            } else {
                None
            })
        }),
{
    let visible = tab.scrollback.visible_lines(height);
    proof {
        crate::tab::lemma_window_height(
            tab.scrollback.lines@.len(),
            tab.scrollback.cursor as nat,
            height as nat,
        );
    }
    let ghost shown = crate::text::strs_view(visible@);
    let mut lines: Vec<String> = Vec::new();
    let mut i: usize = 0;
    while i < visible.len()
        invariant
            i <= visible@.len(),
            shown == crate::text::strs_view(visible@),
            strings_view(lines@) == shown.take(i as int).map_values(
                |l: Seq<char>| clipped(l, width as nat),
            ),
        decreases visible@.len() - i,
    {
        let ghost before = lines@;
        let l = clip(visible[i], width);
        lines.push(l);
        assert(strings_view(lines@) =~= strings_view(before).push(l@));
        assert(shown.take(i + 1) =~= shown.take(i as int).push(shown[i as int]));
        assert(shown.take(i + 1).map_values(|l: Seq<char>| clipped(l, width as nat))
            =~= shown.take(i as int).map_values(|l: Seq<char>| clipped(l, width as nat)).push(
            clipped(shown[i as int], width as nat),
        ));
        i = i + 1;
    }
    assert(shown.take(visible@.len() as int) =~= shown);
    let at_bottom = tab.scrollback.is_at_bottom();
    let input = if at_bottom && !tab.input_buffer.as_str().is_empty() {
        Some(clip(tab.input_buffer.as_str(), width))
    } else {
        None
    };
    let count = lines.len() + if input.is_some() {
        1usize
    } else {
        0usize
    };
    let padding = if count < height {
        height - count
    } else {
        0
    };
    let cursor = if at_bottom {
        let x = if tab.cursor_x + 2 <= width {
            tab.cursor_x + 2
        } else {
            width
        };
        let total = count + padding;
        let y = if total > 0 {
            total - 1
        } else {
            0
        };
        Some((x as u16, y as u16))
    } else {
        None
    };
    ScreenView { lines, input, padding, cursor }
}

} // verus!
