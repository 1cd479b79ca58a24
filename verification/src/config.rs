//! Configuration: defaults of the `[general]` section, the terminals to
//! connect to, and the file name under which a tab's history is kept.

use vstd::prelude::*;

use crate::text::{opt_string_view, push_char};

verus! {

/// Default number of terminal columns.
pub const DEFAULT_COLS: u16 = 120;

/// Default number of terminal rows.
pub const DEFAULT_ROWS: u16 = 40;

/// Default screen refresh interval, in milliseconds.
pub const DEFAULT_POLL_MS: u64 = 100;

/// Default scrollback size, in lines.
pub const DEFAULT_SCROLLBACK_LINES: usize = 10000;

/// The `[general]` section.
#[derive(Debug, Clone)]
pub struct GeneralConfig {
    pub default_shell: String,
    pub default_cols: u16,
    pub default_rows: u16,
    pub poll_interval_ms: u64,
    pub scrollback_lines: usize,
}

/// One `[[terminals]]` entry: a server to open a tab on.
#[derive(Debug)]
pub struct TerminalConfig {
    pub name: String,
    pub url: String,
    pub token: String,
    pub shell: Option<String>,
    pub cols: Option<u16>,
    pub rows: Option<u16>,
}

impl Clone for TerminalConfig {
    fn clone(&self) -> (c: Self)
        ensures
            c == *self,
    {
        TerminalConfig {
            name: self.name.clone(),
            url: self.url.clone(),
            token: self.token.clone(),
            shell: match &self.shell {
                Some(s) => Some(s.clone()),
                None => None,
            },
            cols: self.cols,
            rows: self.rows,
        }
    }
}

/// The whole configuration file.
#[derive(Debug, Clone)]
pub struct Config {
    pub general: GeneralConfig,
    pub terminals: Vec<TerminalConfig>,
}

/// The default shell: `cmd` on Windows, `bash` elsewhere.
pub open spec fn default_shell_name(on_windows: bool) -> Seq<char> {
    if on_windows {
        seq!['c', 'm', 'd']
    } else {
        seq!['b', 'a', 's', 'h']
    }
}

/// The default shell for the platform (`on_windows` tells which).
pub fn default_shell(on_windows: bool) -> (s: String)
    ensures
        s@ == default_shell_name(on_windows),
{
    let mut s = String::new();
    if on_windows {
        push_char(&mut s, 'c');
        push_char(&mut s, 'm');
        push_char(&mut s, 'd');
    } else {
        push_char(&mut s, 'b');
        push_char(&mut s, 'a');
        push_char(&mut s, 's');
        push_char(&mut s, 'h');
    }
    assert(s@ =~= default_shell_name(on_windows));
    s
}

/// Default number of columns.
pub fn default_cols() -> (c: u16)
    ensures
        c == DEFAULT_COLS,
{
    DEFAULT_COLS
}

/// Default number of rows.
pub fn default_rows() -> (r: u16)
    ensures
        r == DEFAULT_ROWS,
{
    DEFAULT_ROWS
}

/// Default refresh interval in milliseconds.
pub fn default_poll_ms() -> (ms: u64)
    ensures
        ms == DEFAULT_POLL_MS,
{
    DEFAULT_POLL_MS
}

/// Default scrollback size in lines.
pub fn default_scrollback() -> (n: usize)
    ensures
        n == DEFAULT_SCROLLBACK_LINES,
{
    DEFAULT_SCROLLBACK_LINES
}

impl GeneralConfig {
    /// The `[general]` section that a file without one gets.
    pub fn defaults(on_windows: bool) -> (g: Self)
        ensures
            g.default_shell@ == default_shell_name(on_windows),
            g.default_cols == DEFAULT_COLS,
            g.default_rows == DEFAULT_ROWS,
            g.poll_interval_ms == DEFAULT_POLL_MS,
            g.scrollback_lines == DEFAULT_SCROLLBACK_LINES,
    {
        GeneralConfig {
            default_shell: default_shell(on_windows),
            default_cols: default_cols(),
            default_rows: default_rows(),
            poll_interval_ms: default_poll_ms(),
            scrollback_lines: default_scrollback(),
        }
    }
}

impl Config {
    /// The configuration written when no file exists: default `[general]`
    /// and no terminals.
    pub fn defaults(on_windows: bool) -> (c: Self)
        ensures
            c.general.default_shell@ == default_shell_name(on_windows),
            c.general.default_cols == DEFAULT_COLS,
            c.general.default_rows == DEFAULT_ROWS,
            c.general.poll_interval_ms == DEFAULT_POLL_MS,
            c.general.scrollback_lines == DEFAULT_SCROLLBACK_LINES,
            c.terminals@.len() == 0,
    {
        Config { general: GeneralConfig::defaults(on_windows), terminals: Vec::new() }
    }

    /// The directory of the configuration and the histories, from the
    /// platform and the values of `APPDATA`, `HOME` and `XDG_CONFIG_HOME`
    /// (see `config_dir_of`).
    pub fn config_dir(
        on_windows: bool,
        on_macos: bool,
        appdata: Option<String>,
        home: Option<String>,
        xdg_config_home: Option<String>,
    ) -> (d: String)
        ensures
            d@ == config_dir_of(
                on_windows,
                on_macos,
                opt_string_view(appdata),
                opt_string_view(home),
                opt_string_view(xdg_config_home),
            ),
    {
        if on_windows {
            let base = or_dot_string(appdata);
            join_path(base.as_str(), "agent-term-cli", true)
        } else if on_macos {
            let base = or_dot_string(home);
            join_path(base.as_str(), "Library/Application Support/agent-term-cli", false)
        } else {
            let base = match xdg_config_home {
                Some(x) => x,
                None => {
                    let mut b = or_dot_string(home);
                    b.append("/.config");
                    b
                },
            };
            join_path(base.as_str(), "agent-term-cli", false)
        }
    }

    /// The configuration file: `config.toml` in `config_dir`.
    pub fn default_path(
        on_windows: bool,
        on_macos: bool,
        appdata: Option<String>,
        home: Option<String>,
        xdg_config_home: Option<String>,
    ) -> (p: String)
        ensures
            p@ == path_join(
                config_dir_of(
                    on_windows,
                    on_macos,
                    opt_string_view(appdata),
                    opt_string_view(home),
                    opt_string_view(xdg_config_home),
                ),
                "config.toml"@,
                on_windows,
            ),
    {
        let d = Self::config_dir(on_windows, on_macos, appdata, home, xdg_config_home);
        join_path(d.as_str(), "config.toml", on_windows)
    }

    /// The history file of the tab called `name`: the file named by
    /// `history_file_name` in the `history` directory of `config_dir`.
    pub fn history_path(
        name: &str,
        on_windows: bool,
        on_macos: bool,
        appdata: Option<String>,
        home: Option<String>,
        xdg_config_home: Option<String>,
    ) -> (p: String)
        ensures
            p@ == path_join(
                path_join(
                    config_dir_of(
                        on_windows,
                        on_macos,
                        opt_string_view(appdata),
                        opt_string_view(home),
                        opt_string_view(xdg_config_home),
                    ),
                    "history"@,
                    on_windows,
                ),
                file_safe(name@) + seq!['.', 'j', 's', 'o', 'n'],
                on_windows,
            ),
            ascii_chars_kept(name@),
            no_separator(file_safe(name@) + seq!['.', 'j', 's', 'o', 'n']),
    {
        let d = Self::config_dir(on_windows, on_macos, appdata, home, xdg_config_home);
        let h = join_path(d.as_str(), "history", on_windows);
        let f = Self::history_file_name(name);
        join_path(h.as_str(), f.as_str(), on_windows)
    }

    /// The file name (without directory) of the history of the tab called
    /// `name`: letters, digits, `-` and `_` are kept, every other character
    /// becomes `_`, and `.json` is appended.
    pub fn history_file_name(name: &str) -> (f: String)
        ensures
            f@ == file_safe(name@) + seq!['.', 'j', 's', 'o', 'n'],
            ascii_chars_kept(name@),
            no_separator(f@),
    {
        let mut f = String::new();
        for c in it: name.chars()
            invariant
                it.seq() == name@,
                f@ == file_safe(name@.take(it.index() as int)),
                forall|j: int|
                    0 <= j < it.index() && name@[j] <= '\u{7f}' ==> (#[trigger] unicode_alphanumeric(
                        name@[j],
                    ) <==> ascii_alnum(name@[j])),
        {
            let keep = is_alphanumeric(c) || c == '-' || c == '_';
            let ghost before = f@;
            if keep {
                push_char(&mut f, c);
            } else {
                push_char(&mut f, '_');
            }
            proof {
                let k = it.index() as int;
                assert(name@.take(k + 1) =~= name@.take(k).push(c));
                assert(file_safe(name@.take(k + 1)) =~= file_safe(name@.take(k)).push(
                    file_safe_char(c),
                ));
            }
        }
        assert(name@.take(name@.len() as int) =~= name@);
        assert forall|i: int| 0 <= i < name@.len() && name@[i] <= '\u{7f}' implies #[trigger] file_safe(
            name@,
        )[i] == ascii_file_char(name@[i]) by {
            assert(unicode_alphanumeric(name@[i]) <==> ascii_alnum(name@[i]));
        }
        assert forall|i: int| 0 <= i < f@.len() implies #[trigger] f@[i] != '/' && f@[i] != '\\' by {
            assert(f@[i] == file_safe_char(name@[i]));
            if name@[i] <= '\u{7f}' {
                assert(unicode_alphanumeric(name@[i]) <==> ascii_alnum(name@[i]));
            }
        }
        let ghost base = f@;
        push_char(&mut f, '.');
        push_char(&mut f, 'j');
        push_char(&mut f, 's');
        push_char(&mut f, 'o');
        push_char(&mut f, 'n');
        assert(f@ =~= base + seq!['.', 'j', 's', 'o', 'n']);
        assert forall|i: int| 0 <= i < f@.len() implies #[trigger] f@[i] != '/' && f@[i] != '\\' by {
            if i < base.len() {
                assert(f@[i] == base[i]);
            }
        }
        f
    }
}

/// `c` separates path components: `/`, and on Windows also `\\`.
pub open spec fn is_path_sep(c: char, on_windows: bool) -> bool {
    c == '/' || (on_windows && c == '\\')
}

/// `base` is a bare Windows drive such as `C:`.
pub open spec fn is_bare_drive(base: Seq<char>) -> bool {
    base.len() == 2 && base[1] == ':' && (('a' <= base[0] && base[0] <= 'z') || ('A' <= base[0]
        && base[0] <= 'Z'))
}

/// `base` joined with the relative component `comp` as `Path::join` does
/// it: a separator (`\\` on Windows, `/` elsewhere) goes between them
/// unless `base` is empty, already ends with a separator, or is a bare
/// Windows drive.
pub open spec fn path_join(base: Seq<char>, comp: Seq<char>, on_windows: bool) -> Seq<char> {
    if base.len() == 0 || is_path_sep(base.last(), on_windows) || (on_windows && is_bare_drive(
        base,
    )) {
        base + comp
    } else {
        base + seq![if on_windows { '\\' } else { '/' }] + comp
    }
}

/// An optional directory, or `.` when it is missing.
pub open spec fn or_dot(d: Option<Seq<char>>) -> Seq<char> {
    match d {
        Some(s) => s,
        None => seq!['.'],
    }
}

/// The directory that holds the configuration and the histories: under
/// `APPDATA` on Windows, under `HOME`'s `Library/Application Support` on
/// macOS, and elsewhere under `XDG_CONFIG_HOME` (or `HOME`'s `.config`);
/// a missing variable counts as `.`.
pub open spec fn config_dir_of(
    on_windows: bool,
    on_macos: bool,
    appdata: Option<Seq<char>>,
    home: Option<Seq<char>>,
    xdg: Option<Seq<char>>,
) -> Seq<char> {
    if on_windows {
        path_join(or_dot(appdata), "agent-term-cli"@, true)
    } else if on_macos {
        path_join(or_dot(home), "Library/Application Support/agent-term-cli"@, false)
    } else {
        let base = match xdg {
            Some(x) => x,
            None => or_dot(home) + "/.config"@,
        };
        path_join(base, "agent-term-cli"@, false)
    }
}

fn chars_end_with_sep(v: &Vec<char>, on_windows: bool) -> (b: bool)
    ensures
        b == (v@.len() > 0 && is_path_sep(v@.last(), on_windows)),
{
    if v.len() == 0 {
        return false;
    }
    let c = v[v.len() - 1];
    c == '/' || (on_windows && c == '\\')
}

fn chars_bare_drive(v: &Vec<char>) -> (b: bool)
    ensures
        b == is_bare_drive(v@),
{
    v.len() == 2 && v[1] == ':' && (('a' <= v[0] && v[0] <= 'z') || ('A' <= v[0] && v[0] <= 'Z'))
}

/// `base` joined with the relative component `comp` (see `path_join`).
pub fn join_path(base: &str, comp: &str, on_windows: bool) -> (r: String)
    ensures
        r@ == path_join(base@, comp@, on_windows),
{
    let v = crate::text::to_chars(base);
    let mut r = base.to_owned();
    if !(v.len() == 0 || chars_end_with_sep(&v, on_windows) || (on_windows && chars_bare_drive(&v))) {
        push_char(&mut r, if on_windows { '\\' } else { '/' });
    }
    r.append(comp);
    r
}

fn or_dot_string(d: Option<String>) -> (s: String)
    ensures
        s@ == or_dot(opt_string_view(d)),
{
    match d {
        Some(s) => s,
        None => {
            let mut s = String::new();
            push_char(&mut s, '.');
            assert(s@ =~= seq!['.']);
            s
        },
    }
}

/// Whether `c` is alphanumeric in the sense of `char::is_alphanumeric`
/// (Unicode `Alphabetic` or `Numeric`).
pub uninterp spec fn unicode_alphanumeric(c: char) -> bool;

/// An ASCII letter or digit.
pub open spec fn ascii_alnum(c: char) -> bool {
    ('a' <= c <= 'z') || ('A' <= c <= 'Z') || ('0' <= c <= '9')
}

/// Trusted: calls `char::is_alphanumeric`; its result depends on `c` alone
/// and is named. Beyond the name it is stated that on ASCII it holds of
/// exactly the letters and digits (outside ASCII the Unicode tables are not
/// restated here).
#[verifier::external_body]
fn is_alphanumeric(c: char) -> (b: bool)
    ensures
        b == unicode_alphanumeric(c),
        c <= '\u{7f}' ==> (b <==> ascii_alnum(c)),
{
    c.is_alphanumeric()
}

/// The character that stands for `c` in a file name.
pub open spec fn file_safe_char(c: char) -> char {
    if unicode_alphanumeric(c) || c == '-' || c == '_' {
        c
    } else {
        '_'
    }
}

/// `s` with every character made safe for a file name.
pub open spec fn file_safe(s: Seq<char>) -> Seq<char> {
    s.map_values(|c: char| file_safe_char(c))
}

/// What an ASCII character becomes in a file name: letters, digits, `-`
/// and `_` stay, anything else becomes `_`.
pub open spec fn ascii_file_char(c: char) -> char {
    if ascii_alnum(c) || c == '-' || c == '_' {
        c
    } else {
        '_'
    }
}

/// Every ASCII character of `name` becomes in `file_safe(name)` what
/// `ascii_file_char` says.
pub open spec fn ascii_chars_kept(name: Seq<char>) -> bool {
    forall|i: int|
        0 <= i < name.len() && name[i] <= '\u{7f}' ==> #[trigger] file_safe(name)[i]
            == ascii_file_char(name[i])
}

/// `s` holds no path separator (`/` or `\\`).
pub open spec fn no_separator(s: Seq<char>) -> bool {
    forall|i: int| 0 <= i < s.len() ==> #[trigger] s[i] != '/' && s[i] != '\\'
}

} // verus!
