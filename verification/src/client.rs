//! The MCP client's own logic: endpoint normalisation, request numbering,
//! the health URL, the reading of JSON-RPC replies and error messages, and
//! the records that the server's tools return.

use vstd::prelude::*;

use crate::text::{push_char, push_decimal, to_chars, decimal, opt_string_view};

verus! {

/// Cursor and size information that comes with a screen.
#[derive(Debug, Clone, Copy, PartialEq, Eq)]
pub struct ScreenMetadata {
    pub rows: usize,
    pub cols: usize,
    pub cursor_x: usize,
    pub cursor_y: usize,
    pub is_alternate_buffer: bool,
}

/// The screen of a session as `read_shell_output` returns it.
#[derive(Debug, Clone, PartialEq, Eq)]
pub struct ScreenOutput {
    pub output: String,
    pub mode: String,
    pub metadata: Option<ScreenMetadata>,
}

/// What `start_shell_session` returns.
#[derive(Debug, Clone, PartialEq, Eq)]
pub struct StartSessionResult {
    pub session_id: String,
    pub cols: u16,
    pub rows: u16,
}

/// One session as `list_sessions` describes it.
#[derive(Debug, Clone, PartialEq, Eq)]
pub struct SessionInfo {
    pub session_id: String,
    pub shell: String,
    pub cols: u16,
    pub rows: u16,
    pub idle_seconds: u64,
    pub exited: bool,
    pub exit_code: Option<i32>,
}

/// What `list_sessions` returns.
#[derive(Debug, Clone, PartialEq, Eq)]
pub struct ListSessionsResult {
    pub sessions: Vec<SessionInfo>,
    pub count: usize,
}

/// One hit of `search_screen`.
#[derive(Debug, Clone, PartialEq, Eq)]
pub struct SearchMatch {
    pub row: usize,
    pub col: usize,
    pub text: String,
}

/// What `search_screen` returns.
#[derive(Debug, Clone, PartialEq, Eq)]
pub struct SearchResult {
    pub results: Vec<SearchMatch>,
    pub count: usize,
}

/// The `error` member of a JSON-RPC reply.
#[derive(Debug, Clone, PartialEq, Eq)]
pub struct RpcError {
    pub code: i64,
    pub message: String,
}

/// Why a request to the server failed.
#[derive(Debug, Clone, PartialEq, Eq)]
pub enum ClientError {
    /// The server answered with a JSON-RPC error.
    Rpc { code: i64, message: String },
    /// The reply had neither `error` nor `result`.
    MissingResult,
    /// A tool's reply did not hold the expected text; names the tool call.
    InvalidResponse(String),
    /// The request could not be sent or its reply not read.
    Transport(String),
    /// A tool's reply text was not JSON; holds the parser's message.
    Decode(String),
}

/// `suf` ends `s`.
pub open spec fn ends_with(s: Seq<char>, suf: Seq<char>) -> bool {
    suf.len() <= s.len() && s.subrange(s.len() - suf.len(), s.len() as int) == suf
}

/// `s` without all trailing occurrences of `c`.
pub open spec fn trim_end_char(s: Seq<char>, c: char) -> Seq<char>
    decreases s.len(),
{
    if s.len() > 0 && s.last() == c {
        trim_end_char(s.drop_last(), c)
    } else {
        s
    }
}

/// `s` without all trailing repetitions of the non-empty `suf`.
pub open spec fn trim_end_seq(s: Seq<char>, suf: Seq<char>) -> Seq<char>
    decreases s.len(),
{
    if suf.len() > 0 && ends_with(s, suf) {
        trim_end_seq(s.take(s.len() - suf.len()), suf)
    } else {
        s
    }
}

/// The path of the MCP endpoint.
pub open spec fn mcp_path() -> Seq<char> {
    seq!['/', 'm', 'c', 'p']
}

/// The path of the health endpoint.
pub open spec fn health_path() -> Seq<char> {
    seq!['/', 'h', 'e', 'a', 'l', 't', 'h']
}

/// The endpoint that requests go to: trailing slashes removed, and `/mcp`
/// appended unless the URL already ends with it.
pub open spec fn normalized_url(u: Seq<char>) -> Seq<char> {
    let t = trim_end_char(u, '/');
    if ends_with(t, mcp_path()) {
        t
    } else {
        t + mcp_path()
    }
}

/// The health URL derived from the endpoint `u`.
pub open spec fn health_url_of(u: Seq<char>) -> Seq<char> {
    (if ends_with(u, mcp_path()) {
        trim_end_seq(u, mcp_path())
    } else {
        trim_end_char(u, '/')
    }) + health_path()
}

/// `n` in decimal, with a leading `-` when negative.
pub open spec fn signed_decimal(n: int) -> Seq<char> {
    if n < 0 {
        seq!['-'] + decimal((-n) as nat)
    } else {
        decimal(n as nat)
    }
}

fn ends_with_at(v: &Vec<char>, n: usize, suf: &Vec<char>) -> (b: bool)
    requires
        n <= v@.len(),
    ensures
        b == ends_with(v@.take(n as int), suf@),
{
    if suf.len() > n {
        return false;
    }
    let start = n - suf.len();
    let mut i: usize = 0;
    while i < suf.len()
        invariant
            start + suf@.len() == n <= v@.len(),
            i <= suf@.len(),
            forall|k: int| 0 <= k < i ==> v@[start + k] == suf@[k],
        decreases suf@.len() - i,
    {
        if v[start + i] != suf[i] {
            assert(v@.take(n as int).subrange(start as int, n as int)[i as int] != suf@[i as int]);
            return false;
        }
        i = i + 1;
    }
    assert(v@.take(n as int).subrange(start as int, n as int) =~= suf@);
    true
}

fn trim_end_char_len(v: &Vec<char>, c: char) -> (n: usize)
    ensures
        n <= v@.len(),
        v@.take(n as int) == trim_end_char(v@, c),
{
    let mut n = v.len();
    assert(v@.take(n as int) =~= v@);
    while n > 0 && v[n - 1] == c
        invariant
            n <= v@.len(),
            trim_end_char(v@, c) == trim_end_char(v@.take(n as int), c),
        decreases n,
    {
        assert(v@.take(n as int).drop_last() =~= v@.take(n - 1));
        n = n - 1;
    }
    n
}

fn trim_end_seq_len(v: &Vec<char>, suf: &Vec<char>) -> (n: usize)
    requires
        suf@.len() > 0,
    ensures
        n <= v@.len(),
        v@.take(n as int) == trim_end_seq(v@, suf@),
{
    let mut n = v.len();
    assert(v@.take(n as int) =~= v@);
    while ends_with_at(v, n, suf)
        invariant
            suf@.len() > 0,
            n <= v@.len(),
            trim_end_seq(v@, suf@) == trim_end_seq(v@.take(n as int), suf@),
        decreases n,
    {
        assert(v@.take(n as int).take(n - suf@.len()) =~= v@.take(n - suf@.len()));
        n = n - suf.len();
    }
    n
}

fn mcp_chars() -> (v: Vec<char>)
    ensures
        v@ == mcp_path(),
{
    let v = vec!['/', 'm', 'c', 'p'];
    assert(v@ =~= mcp_path());
    v
}

fn push_all(s: &mut String, v: &Vec<char>, n: usize)
    requires
        n <= v@.len(),
    ensures
        final(s)@ == old(s)@ + v@.take(n as int),
{
    let mut i: usize = 0;
    while i < n
        invariant
            n <= v@.len(),
            i <= n,
            s@ == old(s)@ + v@.take(i as int),
        decreases n - i,
    {
        push_char(s, v[i]);
        assert(old(s)@ + v@.take(i + 1) =~= (old(s)@ + v@.take(i as int)).push(v@[i as int]));
        i = i + 1;
    }
}

/// The endpoint that requests for `url` go to (see `normalized_url`).
pub fn normalize_url(url: &str) -> (r: String)
    ensures
        r@ == normalized_url(url@),
{
    let v = to_chars(url);
    let n = trim_end_char_len(&v, '/');
    let m = mcp_chars();
    let mut r = String::new();
    push_all(&mut r, &v, n);
    if !ends_with_at(&v, n, &m) {
        push_all(&mut r, &m, m.len());
        assert(m@.take(m@.len() as int) =~= m@);
    }
    assert(r@ =~= normalized_url(url@));
    r
}

/// The health URL for the endpoint `url` (see `health_url_of`).
pub fn health_url(url: &str) -> (r: String)
    ensures
        r@ == health_url_of(url@),
{
    let v = to_chars(url);
    let m = mcp_chars();
    let n = if ends_with_at(&v, v.len(), &m) {
        assert(v@.take(v@.len() as int) =~= v@);
        trim_end_seq_len(&v, &m)
    } else {
        assert(v@.take(v@.len() as int) =~= v@);
        trim_end_char_len(&v, '/')
    };
    let mut r = String::new();
    push_all(&mut r, &v, n);
    let h = vec!['/', 'h', 'e', 'a', 'l', 't', 'h'];
    push_all(&mut r, &h, h.len());
    assert(h@.take(h@.len() as int) =~= health_path());
    assert(r@ =~= health_url_of(url@));
    r
}

/// Appends `n` in decimal, with a leading `-` when negative.
pub fn push_signed_decimal(s: &mut String, n: i64)
    ensures
        final(s)@ == old(s)@ + signed_decimal(n as int),
{
    if n < 0 {
        push_char(s, '-');
        let m: u64 = (0i128 - n as i128) as u64;
        push_decimal(s, m as u128);
        assert(final(s)@ =~= old(s)@ + signed_decimal(n as int));
    } else {
        push_decimal(s, n as u128);
    }
}

/// The address of an MCP server and the numbering of its requests.
#[derive(Debug)]
pub struct McpEndpoint {
    /// The normalised endpoint URL.
    pub url: String,
    /// The bearer token.
    pub token: String,
    /// The id of the next request.
    pub next_request_id: u64,
}

impl McpEndpoint {
    /// The endpoint for `url` (normalised) with `token`; requests are
    /// numbered from 1.
    pub fn new(url: &str, token: &str) -> (e: Self)
        ensures
            e.url@ == normalized_url(url@),
            e.token@ == token@,
            e.next_request_id == 1,
    {
        McpEndpoint { url: normalize_url(url), token: token.to_owned(), next_request_id: 1 }
    }

    /// Takes the id for the next request.
    pub fn next_id(&mut self) -> (id: u64)
        requires
            old(self).next_request_id < u64::MAX,
        ensures
            id == old(self).next_request_id,
            final(self).next_request_id == old(self).next_request_id + 1,
            final(self).url == old(self).url,
            final(self).token == old(self).token,
    {
        let id = self.next_request_id;
        self.next_request_id = id + 1;
        id
    }

    /// The URL of the server's health check.
    pub fn health_url(&self) -> (r: String)
        ensures
            r@ == health_url_of(self.url@),
    {
        health_url(self.url.as_str())
    }

    /// The value of the `Authorization` header: `Bearer ` and the token.
    pub fn authorization(&self) -> (r: String)
        ensures
            r@ == seq!['B', 'e', 'a', 'r', 'e', 'r', ' '] + self.token@,
    {
        let mut r = String::new();
        let b = vec!['B', 'e', 'a', 'r', 'e', 'r', ' '];
        push_all(&mut r, &b, b.len());
        let t = to_chars(self.token.as_str());
        push_all(&mut r, &t, t.len());
        assert(b@.take(b@.len() as int) =~= seq!['B', 'e', 'a', 'r', 'e', 'r', ' ']);
        assert(t@.take(t@.len() as int) =~= t@);
        r
    }
}

/// What a JSON-RPC reply amounts to: its `error` if it has one, else its
/// `result`, else `MissingResult`.
pub fn rpc_result<T>(error: Option<RpcError>, result: Option<T>) -> (r: Result<T, ClientError>)
    ensures
        match error {
            Some(e) => r == Err::<T, ClientError>(ClientError::Rpc { code: e.code, message: e.message }),
            None => match result {
                Some(v) => r == Ok::<T, ClientError>(v),
                None => r == Err::<T, ClientError>(ClientError::MissingResult),
            },
        },
{
    match error {
        Some(e) => Err(ClientError::Rpc { code: e.code, message: e.message }),
        None => match result {
            Some(v) => Ok(v),
            None => Err(ClientError::MissingResult),
        },
    }
}

/// The text of an error message.
pub open spec fn error_text(e: ClientError) -> Seq<char> {
    match e {
        ClientError::Rpc { code, message } => "MCP error "@ + signed_decimal(code as int) + ": "@
            + message@,
        ClientError::MissingResult => "MCP response missing 'result'"@,
        ClientError::InvalidResponse(what) => "Invalid "@ + what@ + " response"@,
        ClientError::Transport(m) => m@,
        ClientError::Decode(m) => m@,
    }
}

impl ClientError {
    /// The message shown for this error.
    pub fn message(&self) -> (m: String)
        ensures
            m@ == error_text(*self),
    {
        match self {
            ClientError::Rpc { code, message } => {
                let mut m = String::from_str("MCP error ");
                push_signed_decimal(&mut m, *code);
                m.append(": ");
                m.append(message.as_str());
                m
            },
            ClientError::MissingResult => String::from_str("MCP response missing 'result'"),
            ClientError::InvalidResponse(what) => {
                let mut m = String::from_str("Invalid ");
                m.append(what.as_str());
                m.append(" response");
                m
            },
            ClientError::Transport(t) => t.clone(),
            ClientError::Decode(t) => t.clone(),
        }
    }
}

/// The text of a tool's reply (its `content[0].text`), or, where the reply
/// has none, `InvalidResponse` naming the call.
pub fn tool_reply_text(text: Option<String>, what: &str) -> (r: Result<String, ClientError>)
    ensures
        match text {
            Some(t) => r == Ok::<String, ClientError>(t),
            None => r matches Err(ClientError::InvalidResponse(w)) && w@ == what@,
        },
{
    match text {
        Some(t) => Ok(t),
        None => Err(ClientError::InvalidResponse(String::from_str(what))),
    }
}

/// What `serde_json` reads from the text of a `get_screen_cursor` reply:
/// the parser's error message where the text is not JSON, else the members
/// `cursor.x` and `cursor.y` where they are unsigned 64-bit integers and
/// `currentLine` where it is a string.
pub uninterp spec fn cursor_fields(text: Seq<char>) -> Result<
    (Option<u64>, Option<u64>, Option<Seq<char>>),
    Seq<char>,
>;

/// A parsed cursor reply, its string parts taken by their views.
pub open spec fn cursor_reply_view(
    r: Result<(Option<u64>, Option<u64>, Option<String>), String>,
) -> Result<(Option<u64>, Option<u64>, Option<Seq<char>>), Seq<char>> {
    match r {
        Ok((x, y, line)) => Ok((x, y, opt_string_view(line))),
        Err(m) => Err(m@),
    }
}

/// Trusted: parses `text` with `serde_json::from_str` into a
/// `serde_json::Value` and picks `cursor.x`, `cursor.y` (`as_u64`) and
/// `currentLine` (`as_str`); on a parse error it gives the error's message.
/// The result depends on `text` alone and is named by `cursor_fields`.
#[verifier::external_body]
fn parse_cursor_reply(text: &str) -> (r: Result<(Option<u64>, Option<u64>, Option<String>), String>)
    ensures
        cursor_fields(text@) == cursor_reply_view(r),
{
    match serde_json::from_str::<serde_json::Value>(text) {
        Ok(v) => Ok(
            (
                v["cursor"]["x"].as_u64(),
                v["cursor"]["y"].as_u64(),
                v["currentLine"].as_str().map(String::from),
            ),
        ),
        Err(e) => Err(e.to_string()),
    }
}

/// The cursor position and line that a cursor reply's members stand for:
/// a missing coordinate counts as 0 and a missing line as empty.
pub open spec fn cursor_value(f: (Option<u64>, Option<u64>, Option<Seq<char>>)) -> (
    usize,
    usize,
    Seq<char>,
) {
    (
        match f.0 {
            Some(v) => v as usize,
            None => 0usize,
        },
        match f.1 {
            Some(v) => v as usize,
            None => 0usize,
        },
        match f.2 {
            Some(l) => l,
            None => Seq::<char>::empty(),
        },
    )
}

/// The column, row and current line from the members of a cursor reply
/// (see `cursor_value`).
pub fn cursor_of(x: Option<u64>, y: Option<u64>, line: Option<String>) -> (r: (usize, usize, String))
    ensures
        (r.0, r.1, r.2@) == cursor_value((x, y, opt_string_view(line))),
{
    let cx: usize = match x {
        Some(v) => #[verifier::truncate] (v as usize),
        None => 0,
    };
    let cy: usize = match y {
        Some(v) => #[verifier::truncate] (v as usize),
        None => 0,
    };
    let l = match line {
        Some(s) => s,
        None => String::new(),
    };
    (cx, cy, l)
}

/// The cursor of a `get_screen_cursor` reply text: its column, row and
/// current line as `cursor_value` reads them from `cursor_fields`, or
/// `Decode` with the parser's message where the text is not JSON.
pub fn cursor_reply(text: &str) -> (r: Result<(usize, usize, String), ClientError>)
    ensures
        match cursor_fields(text@) {
            Ok(f) => r matches Ok((x, y, l)) && (x, y, l@) == cursor_value(f),
            Err(m) => r matches Err(ClientError::Decode(e)) && e@ == m,
        },
{
    match parse_cursor_reply(text) {
        Ok((x, y, line)) => Ok(cursor_of(x, y, line)),
        Err(m) => Err(ClientError::Decode(m)),
    }
}

/// Law: a normalised endpoint ends with `/mcp`.
pub proof fn lemma_normalized_ends_with_mcp(u: Seq<char>)
    ensures
        ends_with(normalized_url(u), mcp_path()),
{
    let t = trim_end_char(u, '/');
    if !ends_with(t, mcp_path()) {
        let r = t + mcp_path();
        assert(r.subrange(r.len() - 4, r.len() as int) =~= mcp_path());
    }
}

proof fn lemma_trim_end_char_fixed(s: Seq<char>, c: char)
    requires
        s.len() == 0 || s.last() != c,
    ensures
        trim_end_char(s, c) == s,
{
}

/// Law: normalising an endpoint twice gives what normalising once gives.
pub proof fn lemma_normalize_idempotent(u: Seq<char>)
    ensures
        normalized_url(normalized_url(u)) == normalized_url(u),
{
    let n = normalized_url(u);
    lemma_normalized_ends_with_mcp(u);
    assert(n.last() == n.subrange(n.len() - 4, n.len() as int)[3]);
    lemma_trim_end_char_fixed(n, '/');
}

} // verus!
