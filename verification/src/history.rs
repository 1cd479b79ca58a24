//! Per-tab command history: bounded recording, Up/Down navigation with a
//! saved draft, and prefix completion.

use std::collections::VecDeque;
use vstd::prelude::*;

use crate::text::{
    chars_start_with, contains_seq, contains_str, is_prefix, opt_str_view, opt_string_view, strings_view, strs_view, to_chars,
};

verus! {

/// The capacity of a history that could not be loaded.
pub const DEFAULT_MAX_HISTORY: usize = 1000;

/// The history after recording `cmd`: empty commands and repeats of the
/// newest entry are ignored; otherwise `cmd` becomes the newest entry, and
/// the oldest one is dropped when the history grows past `max`.
pub open spec fn pushed(cmds: Seq<Seq<char>>, max: nat, cmd: Seq<char>) -> Seq<Seq<char>> {
    if cmd.len() == 0 || (cmds.len() > 0 && cmds.last() == cmd) {
        cmds
    } else if cmds.len() + 1 > max {
        cmds.push(cmd).drop_first()
    } else {
        cmds.push(cmd)
    }
}

/// Moving one entry back in time: the entry shown and the new position.
pub open spec fn step_up(cmds: Seq<Seq<char>>, pos: Option<nat>) -> (Option<Seq<char>>, Option<nat>) {
    if cmds.len() == 0 {
        (None, pos)
    } else {
        match pos {
            None => (Some(cmds.last()), Some((cmds.len() - 1) as nat)),
            Some(i) => if i == 0 {
                (None, pos)
            } else {
                (Some(cmds[i - 1]), Some((i - 1) as nat))
            },
        }
    }
}

/// Moving one entry forward in time: past the newest entry the saved draft
/// comes back and navigation ends.
pub open spec fn step_down(cmds: Seq<Seq<char>>, pos: Option<nat>, draft: Seq<char>) -> (
    Option<Seq<char>>,
    Option<nat>,
) {
    match pos {
        None => (None, None),
        Some(i) => if i + 1 >= cmds.len() {
            (Some(draft), None)
        } else {
            (Some(cmds[i + 1 as int]), Some((i + 1) as nat))
        },
    }
}

/// The entries of `cmds` that start with `p`, newest first.
pub open spec fn matching_newest_first(cmds: Seq<Seq<char>>, p: Seq<char>) -> Seq<Seq<char>>
    decreases cmds.len(),
{
    if cmds.len() == 0 {
        seq![]
    } else {
        let rest = matching_newest_first(cmds.drop_first(), p);
        if is_prefix(p, cmds[0]) {
            rest.push(cmds[0])
        } else {
            rest
        }
    }
}

/// Completion candidates for `p`: none for an empty prefix.
pub open spec fn completions(cmds: Seq<Seq<char>>, p: Seq<char>) -> Seq<Seq<char>> {
    if p.len() == 0 {
        seq![]
    } else {
        matching_newest_first(cmds, p)
    }
}

/// Length of the longest common prefix of `a` and `b`.
pub open spec fn common_len(a: Seq<char>, b: Seq<char>) -> nat
    decreases a.len(),
{
    if a.len() == 0 || b.len() == 0 || a[0] != b[0] {
        0
    } else {
        1 + common_len(a.drop_first(), b.drop_first())
    }
}

/// The longest common prefix of all of `ms` (empty when `ms` is).
pub open spec fn common_prefix(ms: Seq<Seq<char>>) -> Seq<char>
    decreases ms.len(),
{
    if ms.len() == 0 {
        seq![]
    } else if ms.len() == 1 {
        ms[0]
    } else {
        let c = common_prefix(ms.drop_last());
        c.take(common_len(c, ms.last()) as int)
    }
}

/// What unique completion gives for `p`: nothing without candidates, else
/// the longest prefix that all candidates share.
pub open spec fn unique_completion(cmds: Seq<Seq<char>>, p: Seq<char>) -> Option<Seq<char>> {
    let ms = completions(cmds, p);
    if ms.len() == 0 {
        None
    } else {
        Some(common_prefix(ms))
    }
}

/// The newest entry before index `start` that contains `q`.
pub open spec fn search_back(cmds: Seq<Seq<char>>, start: int, q: Seq<char>) -> Option<nat>
    decreases start,
{
    if start <= 0 {
        None
    } else if contains_seq(cmds[start - 1], q) {
        Some((start - 1) as nat)
    } else {
        search_back(cmds, start - 1, q)
    }
}

/// The text that a reverse search looks for: the input when no search or
/// navigation is under way, else the saved draft.
pub open spec fn search_query(pos: Option<nat>, draft: Seq<char>, input: Seq<char>) -> Seq<char> {
    match pos {
        None => input,
        Some(_) => draft,
    }
}

/// Where a reverse search starts: above the newest entry, or above the
/// entry that navigation is on.
pub open spec fn search_start(cmds: Seq<Seq<char>>, pos: Option<nat>) -> int {
    match pos {
        None => cmds.len() as int,
        Some(i) => i as int,
    }
}

/// A history of the commands entered in one tab.
pub struct CommandHistory {
    commands: VecDeque<String>,
    max_history: usize,
    index: Option<usize>,
    input_buffer: String,
}

impl CommandHistory {
    /// The recorded commands, oldest first.
    pub closed spec fn entries(self) -> Seq<Seq<char>> {
        strings_view(self.commands@)
    }

    /// The bound on the number of entries kept by `push`.
    pub closed spec fn limit(self) -> nat {
        self.max_history as nat
    }

    /// The entry that Up/Down navigation is on, if any.
    pub closed spec fn position(self) -> Option<nat> {
        match self.index {
            Some(i) => Some(i as nat),
            None => None,
        }
    }

    /// The input saved before navigation started.
    pub closed spec fn draft(self) -> Seq<char> {
        self.input_buffer@
    }

    /// The navigation position, when present, is on an entry.
    pub closed spec fn wf(self) -> bool {
        self.index matches Some(i) ==> i < self.commands@.len()
    }

    /// An empty history that keeps at most `max_history` entries.
    pub fn new(max_history: usize) -> (h: Self)
        ensures
            h.wf(),
            h.entries() == Seq::<Seq<char>>::empty(),
            h.limit() == max_history,
            h.position() is None,
            h.draft() == Seq::<char>::empty(),
    {
        let h = CommandHistory {
            commands: VecDeque::new(),
            max_history,
            index: None,
            input_buffer: String::new(),
        };
        assert(h.entries() =~= Seq::<Seq<char>>::empty());
        h
    }

    /// A history holding `commands` (oldest first) as stored on disk, with
    /// no navigation in progress and an empty draft.
    pub fn from_parts(commands: Vec<String>, max_history: usize) -> (h: Self)
        ensures
            h.wf(),
            h.entries() == strings_view(commands@),
            h.limit() == max_history,
            h.position() is None,
            h.draft() == Seq::<char>::empty(),
    {
        let mut q: VecDeque<String> = VecDeque::new();
        let mut i: usize = 0;
        while i < commands.len()
            invariant
                i <= commands@.len(),
                q@ == commands@.take(i as int),
            decreases commands@.len() - i,
        {
            q.push_back(commands[i].clone());
            assert(commands@.take(i as int).push(commands@[i as int]) =~= commands@.take(i + 1));
            i = i + 1;
        }
        assert(commands@.take(commands@.len() as int) =~= commands@);
        CommandHistory { commands: q, max_history, index: None, input_buffer: String::new() }
    }

    /// The bound on the number of entries.
    pub fn max_history(&self) -> (m: usize)
        ensures
            m == self.limit(),
    {
        self.max_history
    }

    /// Records `command` as the newest entry, unless it is empty or repeats
    /// the newest entry; drops the oldest entry when the bound is passed.
    pub fn push(&mut self, command: String)
        requires
            old(self).wf(),
        ensures
            final(self).wf(),
            final(self).entries() == pushed(old(self).entries(), old(self).limit(), command@),
            final(self).limit() == old(self).limit(),
            final(self).position() == old(self).position(),
            final(self).draft() == old(self).draft(),
    {
        let ghost old_q = self.commands@;
        if command.as_str().is_empty() {
            return;
        }
        let n = self.commands.len();
        if n > 0 && self.commands[n - 1] == command {
            assert(strings_view(old_q).last() == old_q.last()@);
            return;
        }
        self.commands.push_back(command);
        assert(strings_view(self.commands@) =~= strings_view(old_q).push(command@));
        if self.commands.len() > self.max_history {
            let ghost q1 = self.commands@;
            let _ = self.commands.pop_front();
            assert(strings_view(self.commands@) =~= strings_view(q1).drop_first());
        }
    }

    /// Moves navigation one entry back (older) and returns that entry; at
    /// the oldest entry, or with no entries, returns `None`.
    pub fn up(&mut self) -> (r: Option<&str>)
        requires
            old(self).wf(),
        ensures
            final(self).wf(),
            final(self).entries() == old(self).entries(),
            final(self).limit() == old(self).limit(),
            final(self).draft() == old(self).draft(),
            opt_str_view(r) == step_up(old(self).entries(), old(self).position()).0,
            final(self).position() == step_up(old(self).entries(), old(self).position()).1,
    {
        let n = self.commands.len();
        if n == 0 {
            return None;
        }
        match self.index {
            None => {
                let last = n - 1;
                self.index = Some(last);
                Some(self.commands[last].as_str())
            },
            Some(i) => {
                if i == 0 {
                    None
                } else {
                    self.index = Some(i - 1);
                    Some(self.commands[i - 1].as_str())
                }
            },
        }
    }

    /// Moves navigation one entry forward (newer) and returns it; past the
    /// newest entry returns the saved draft and ends navigation.
    pub fn down(&mut self) -> (r: Option<String>)
        requires
            old(self).wf(),
        ensures
            final(self).wf(),
            final(self).entries() == old(self).entries(),
            final(self).limit() == old(self).limit(),
            final(self).draft() == old(self).draft(),
            opt_string_view(r) == step_down(
                old(self).entries(),
                old(self).position(),
                old(self).draft(),
            ).0,
            final(self).position() == step_down(
                old(self).entries(),
                old(self).position(),
                old(self).draft(),
            ).1,
    {
        let n = self.commands.len();
        match self.index {
            None => None,
            Some(i) => {
                assert(i < n);
                if i + 1 >= n {
                    self.index = None;
                    Some(self.input_buffer.clone())
                } else {
                    self.index = Some(i + 1);
                    Some(self.commands[i + 1].clone())
                }
            },
        }
    }

    /// Saves the current input line as the draft that `down` returns to.
    pub fn save_current_input(&mut self, input: &str)
        requires
            old(self).wf(),
        ensures
            final(self).wf(),
            final(self).draft() == input@,
            final(self).entries() == old(self).entries(),
            final(self).limit() == old(self).limit(),
            final(self).position() == old(self).position(),
    {
        self.input_buffer = input.to_owned();
    }

    /// Ends navigation.
    pub fn reset_index(&mut self)
        requires
            old(self).wf(),
        ensures
            final(self).wf(),
            final(self).position() is None,
            final(self).entries() == old(self).entries(),
            final(self).limit() == old(self).limit(),
            final(self).draft() == old(self).draft(),
    {
        self.index = None;
    }

    /// The entries that start with `prefix`, newest first; none for an
    /// empty prefix.
    pub fn autocomplete(&self, prefix: &str) -> (r: Vec<&str>)
        ensures
            strs_view(r@) == completions(self.entries(), prefix@),
    {
        let mut res: Vec<&str> = Vec::new();
        if prefix.is_empty() {
            assert(strs_view(res@) =~= Seq::<Seq<char>>::empty());
            return res;
        }
        let p = to_chars(prefix);
        let n = self.commands.len();
        let ghost cmds = self.entries();
        let mut j: usize = n;
        while j > 0
            invariant
                n == self.commands@.len(),
                cmds == strings_view(self.commands@),
                p@ == prefix@,
                j <= n,
                strs_view(res@) == matching_newest_first(cmds.subrange(j as int, n as int), p@),
            decreases j,
        {
            let ghost before = res@;
            let c = self.commands[j - 1].as_str();
            let cc = to_chars(c);
            let ghost sub = cmds.subrange(j - 1, n as int);
            assert(sub.drop_first() =~= cmds.subrange(j as int, n as int));
            assert(sub[0] == cmds[j - 1]);
            if chars_start_with(&cc, &p) {
                res.push(c);
                assert(strs_view(res@) =~= strs_view(before).push(c@));
            }
            j = j - 1;
        }
        assert(cmds.subrange(0, n as int) =~= cmds);
        res
    }

    /// The completion of `prefix`: `None` without candidates, otherwise the
    /// longest common prefix (in characters) of all candidates.
    pub fn autocomplete_unique(&self, prefix: &str) -> (r: Option<String>)
        ensures
            opt_string_view(r) == unique_completion(self.entries(), prefix@),
    {
        let matches = self.autocomplete(prefix);
        let ghost ms = strs_view(matches@);
        if matches.len() == 0 {
            None
        } else if matches.len() == 1 {
            Some(matches[0].to_owned())
        } else {
            let first = to_chars(matches[0]);
            let mut common: usize = first.len();
            assert(first@.take(common as int) =~= common_prefix(ms.take(1)));
            let mut k: usize = 1;
            while k < matches.len()
                invariant
                    ms == strs_view(matches@),
                    1 <= k <= matches@.len(),
                    first@ == ms[0],
                    common <= first@.len(),
                    first@.take(common as int) == common_prefix(ms.take(k as int)),
                decreases matches@.len() - k,
            {
                let other = to_chars(matches[k]);
                let mut i: usize = 0;
                while i < common && i < other.len() && first[i] == other[i]
                    invariant
                        i <= common,
                        common <= first@.len(),
                        first@.take(i as int) == other@.take(i as int),
                        i <= other@.len(),
                    decreases common - i,
                {
                    assert(first@.take(i + 1) =~= first@.take(i as int).push(first@[i as int]));
                    assert(other@.take(i + 1) =~= other@.take(i as int).push(other@[i as int]));
                    i = i + 1;
                }
                proof {
                    let c = first@.take(common as int);
                    assert(c.take(i as int) =~= first@.take(i as int));
                    lemma_common_len_exact(c, other@, i as nat);
                    assert(ms.take(k + 1).drop_last() =~= ms.take(k as int));
                    assert(ms.take(k + 1).last() == other@);
                    assert(c.take(i as int) =~= first@.take(i as int));
                }
                common = i;
                k = k + 1;
            }
            assert(ms.take(matches@.len() as int) =~= ms);
            let s = matches[0].substring_char(0, common);
            Some(s.to_owned())
        }
    }

    /// Searches back in time for an entry that contains the typed text
    /// (`input`, which is saved as the draft when no navigation is under
    /// way; later searches keep looking for that draft, each one above the
    /// entry found before). On a hit, navigation moves to that entry and it
    /// is returned; otherwise the position is unchanged.
    pub fn reverse_search(&mut self, input: &str) -> (r: Option<&str>)
        requires
            old(self).wf(),
        ensures
            final(self).wf(),
            final(self).entries() == old(self).entries(),
            final(self).limit() == old(self).limit(),
            final(self).draft() == search_query(old(self).position(), old(self).draft(), input@),
            ({
                let q = search_query(old(self).position(), old(self).draft(), input@);
                let start = search_start(old(self).entries(), old(self).position());
                match search_back(old(self).entries(), start, q) {
                    Some(j) => opt_str_view(r) == Some(old(self).entries()[j as int])
                        && final(self).position() == Some(j),
                    None => r is None && final(self).position() == old(self).position(),
                }
            }),
    {
        let n = self.commands.len();
        let start = match self.index {
            None => {
                self.input_buffer = input.to_owned();
                n
            },
            Some(i) => i,
        };
        let ghost cmds = self.entries();
        let ghost q = self.input_buffer@;
        let mut j = start;
        while j > 0
            invariant
                n == self.commands@.len(),
                cmds == strings_view(self.commands@),
                q == self.input_buffer@,
                j <= start <= n,
                self.commands == old(self).commands,
                self.max_history == old(self).max_history,
                self.index == old(self).index,
                q == search_query(old(self).position(), old(self).draft(), input@),
                start == search_start(cmds, old(self).position()),
                self.index matches Some(i) ==> i < n,
                search_back(cmds, start as int, q) == search_back(cmds, j as int, q),
            decreases j,
        {
            if contains_str(self.commands[j - 1].as_str(), self.input_buffer.as_str()) {
                self.index = Some(j - 1);
                return Some(self.commands[j - 1].as_str());
            }
            j = j - 1;
        }
        None
    }

    /// All entries, oldest first.
    pub fn all(&self) -> (r: Vec<&str>)
        ensures
            strs_view(r@) == self.entries(),
    {
        let mut res: Vec<&str> = Vec::new();
        let n = self.commands.len();
        let mut i: usize = 0;
        while i < n
            invariant
                n == self.commands@.len(),
                i <= n,
                strs_view(res@) == strings_view(self.commands@).take(i as int),
            decreases n - i,
        {
            let ghost before = res@;
            let c = self.commands[i].as_str();
            res.push(c);
            assert(strs_view(res@) =~= strs_view(before).push(c@));
            assert(strings_view(self.commands@).take(i + 1) =~= strings_view(self.commands@).take(
                i as int,
            ).push(self.commands@[i as int]@));
            i = i + 1;
        }
        assert(strings_view(self.commands@).take(n as int) =~= self.entries());
        res
    }

    /// The number of entries.
    pub fn len(&self) -> (n: usize)
        ensures
            n == self.entries().len(),
    {
        self.commands.len()
    }

    /// Whether there are no entries.
    pub fn is_empty(&self) -> (b: bool)
        ensures
            b == (self.entries().len() == 0),
    {
        self.commands.len() == 0
    }
}

/// When `a` and `b` agree on their first `i` characters and `i` ends one of
/// them or they differ at `i`, their common prefix has length `i`.
proof fn lemma_common_len_exact(a: Seq<char>, b: Seq<char>, i: nat)
    requires
        i <= a.len(),
        i <= b.len(),
        a.take(i as int) == b.take(i as int),
        i == a.len() || i == b.len() || a[i as int] != b[i as int],
    ensures
        common_len(a, b) == i,
    decreases i,
{
    if i > 0 {
        assert(a[0] == a.take(i as int)[0]);
        assert(b[0] == b.take(i as int)[0]);
        assert(a.drop_first().take(i - 1) =~= a.take(i as int).drop_first());
        assert(b.drop_first().take(i - 1) =~= b.take(i as int).drop_first());
        if i < a.len() && i < b.len() {
            assert(a.drop_first()[i - 1] == a[i as int]);
            assert(b.drop_first()[i - 1] == b[i as int]);
        }
        lemma_common_len_exact(a.drop_first(), b.drop_first(), (i - 1) as nat);
    }
}

/// No two neighbouring entries are equal.
pub open spec fn no_adjacent_repeats(cmds: Seq<Seq<char>>) -> bool {
    forall|i: int| 0 < i < cmds.len() ==> #[trigger] cmds[i] != cmds[i - 1]
}

/// Law: a history within its bound stays within it after a push.
pub proof fn lemma_push_within_limit(cmds: Seq<Seq<char>>, max: nat, cmd: Seq<char>)
    requires
        cmds.len() <= max,
    ensures
        pushed(cmds, max, cmd).len() <= max,
{
}

/// Law: a pushed non-empty command is the newest entry afterwards (when the
/// bound allows any entry at all).
pub proof fn lemma_push_then_newest(cmds: Seq<Seq<char>>, max: nat, cmd: Seq<char>)
    requires
        cmd.len() > 0,
        max > 0,
        cmds.len() <= max,
    ensures
        pushed(cmds, max, cmd).len() > 0,
        pushed(cmds, max, cmd).last() == cmd,
{
}

/// Law: the history never holds the same command twice in a row.
pub proof fn lemma_push_no_adjacent_repeats(cmds: Seq<Seq<char>>, max: nat, cmd: Seq<char>)
    requires
        no_adjacent_repeats(cmds),
    ensures
        no_adjacent_repeats(pushed(cmds, max, cmd)),
{
    let r = pushed(cmds, max, cmd);
    if !(cmd.len() == 0 || (cmds.len() > 0 && cmds.last() == cmd)) {
        let a = cmds.push(cmd);
        assert forall|i: int| 0 < i < a.len() implies #[trigger] a[i] != a[i - 1] by {
            if i < cmds.len() {
                assert(cmds[i] != cmds[i - 1]);
            }
        }
        if cmds.len() + 1 > max {
            assert forall|i: int| 0 < i < r.len() implies #[trigger] r[i] != r[i - 1] by {
                assert(r[i] == a[i + 1]);
                assert(r[i - 1] == a[i]);
            }
        }
    }
}

/// Law: going Up and then Down returns to where navigation was: to the
/// same entry, or to the saved draft when navigation had not started.
pub proof fn lemma_up_then_down(cmds: Seq<Seq<char>>, pos: Option<nat>, draft: Seq<char>)
    requires
        pos matches Some(i) ==> i < cmds.len(),
        step_up(cmds, pos).0 is Some,
    ensures
        step_down(cmds, step_up(cmds, pos).1, draft) == (match pos {
            None => (Some(draft), None::<nat>),
            Some(i) => (Some(cmds[i as int]), pos),
        }),
{
}

/// The navigation position after `k` steps Up from `pos`.
pub open spec fn ups(cmds: Seq<Seq<char>>, pos: Option<nat>, k: nat) -> Option<nat>
    decreases k,
{
    if k == 0 {
        pos
    } else {
        step_up(cmds, ups(cmds, pos, (k - 1) as nat)).1
    }
}

/// The navigation position after `k` steps Down from `pos`.
pub open spec fn downs(cmds: Seq<Seq<char>>, pos: Option<nat>, draft: Seq<char>, k: nat) -> Option<
    nat,
>
    decreases k,
{
    if k == 0 {
        pos
    } else {
        step_down(cmds, downs(cmds, pos, draft, (k - 1) as nat), draft).1
    }
}

proof fn lemma_ups_from_none(cmds: Seq<Seq<char>>, k: nat)
    requires
        1 <= k <= cmds.len(),
    ensures
        ups(cmds, None, k) == Some((cmds.len() - k) as nat),
    decreases k,
{
    if k > 1 {
        lemma_ups_from_none(cmds, (k - 1) as nat);
    } else {
        assert(ups(cmds, None, 0) == None::<nat>);
    }
}

proof fn lemma_downs_from(cmds: Seq<Seq<char>>, p: nat, draft: Seq<char>, m: nat)
    requires
        p + m < cmds.len(),
    ensures
        downs(cmds, Some(p), draft, m) == Some(p + m),
    decreases m,
{
    if m > 0 {
        lemma_downs_from(cmds, p, draft, (m - 1) as nat);
    }
}

/// Law: after `k` steps Up from the typed line (1 <= k <= the number of
/// entries) and `k - 1` steps Down, navigation is on the newest entry, and
/// one more step Down gives back the saved draft and ends navigation.
pub proof fn lemma_ups_then_downs_restore_draft(cmds: Seq<Seq<char>>, draft: Seq<char>, k: nat)
    requires
        1 <= k <= cmds.len(),
    ensures
        downs(cmds, ups(cmds, None, k), draft, (k - 1) as nat) == Some((cmds.len() - 1) as nat),
        step_down(cmds, downs(cmds, ups(cmds, None, k), draft, (k - 1) as nat), draft) == (
            Some(draft),
            None::<nat>,
        ),
{
    lemma_ups_from_none(cmds, k);
    lemma_downs_from(cmds, (cmds.len() - k) as nat, draft, (k - 1) as nat);
}

/// Law: the candidates for `p` are exactly the entries that start with `p`
/// (none for an empty `p`).
pub proof fn lemma_completions_members(cmds: Seq<Seq<char>>, p: Seq<char>, c: Seq<char>)
    ensures
        completions(cmds, p).contains(c) <==> (p.len() > 0 && cmds.contains(c) && is_prefix(p, c)),
    decreases cmds.len(),
{
    if p.len() > 0 {
        lemma_matching_members(cmds, p, c);
    }
}

proof fn lemma_matching_members(cmds: Seq<Seq<char>>, p: Seq<char>, c: Seq<char>)
    ensures
        matching_newest_first(cmds, p).contains(c) <==> (cmds.contains(c) && is_prefix(p, c)),
    decreases cmds.len(),
{
    if cmds.len() > 0 {
        let rest = matching_newest_first(cmds.drop_first(), p);
        lemma_matching_members(cmds.drop_first(), p, c);
        assert(cmds.contains(c) <==> (cmds[0] == c || cmds.drop_first().contains(c))) by {
            if cmds.contains(c) {
                let k = choose|k: int| 0 <= k < cmds.len() && cmds[k] == c;
                if k > 0 {
                    assert(cmds.drop_first()[k - 1] == c);
                }
            }
            if cmds.drop_first().contains(c) {
                let k = choose|k: int| 0 <= k < cmds.drop_first().len() && cmds.drop_first()[k] == c;
                assert(cmds[k + 1] == c);
            }
            if cmds[0] == c {
                assert(cmds[0] == c);
            }
        }
        if is_prefix(p, cmds[0]) {
            let r = rest.push(cmds[0]);
            assert(r.contains(c) <==> (rest.contains(c) || cmds[0] == c)) by {
                if r.contains(c) {
                    let k = choose|k: int| 0 <= k < r.len() && r[k] == c;
                    if k < rest.len() {
                        assert(rest[k] == c);
                    }
                }
                if rest.contains(c) {
                    let k = choose|k: int| 0 <= k < rest.len() && rest[k] == c;
                    assert(r[k] == c);
                }
                if cmds[0] == c {
                    assert(r[rest.len() as int] == c);
                }
            }
        }
    }
}

proof fn lemma_common_len_props(a: Seq<char>, b: Seq<char>)
    ensures
        common_len(a, b) <= a.len(),
        common_len(a, b) <= b.len(),
        a.take(common_len(a, b) as int) == b.take(common_len(a, b) as int),
        forall|q: Seq<char>| is_prefix(q, a) && is_prefix(q, b) ==> q.len() <= common_len(a, b),
    decreases a.len(),
{
    let k = common_len(a, b);
    if a.len() == 0 || b.len() == 0 || a[0] != b[0] {
        assert(a.take(0) =~= b.take(0));
        assert forall|q: Seq<char>| is_prefix(q, a) && is_prefix(q, b) implies q.len() <= k by {
            if q.len() > 0 {
                assert(a.subrange(0, q.len() as int)[0] == q[0]);
                assert(b.subrange(0, q.len() as int)[0] == q[0]);
            }
        }
    } else {
        let a1 = a.drop_first();
        let b1 = b.drop_first();
        lemma_common_len_props(a1, b1);
        let k1 = common_len(a1, b1);
        assert(a.take(k as int) =~= seq![a[0]] + a1.take(k1 as int));
        assert(b.take(k as int) =~= seq![b[0]] + b1.take(k1 as int));
        assert forall|q: Seq<char>| is_prefix(q, a) && is_prefix(q, b) implies q.len() <= k by {
            if q.len() > 0 {
                let q1 = q.drop_first();
                assert(a1.subrange(0, q1.len() as int) =~= a.subrange(0, q.len() as int).drop_first());
                assert(b1.subrange(0, q1.len() as int) =~= b.subrange(0, q.len() as int).drop_first());
                assert(is_prefix(q1, a1) && is_prefix(q1, b1));
            }
        }
    }
}

/// Law: the common prefix of the candidates is a prefix of every candidate,
/// and every string that prefixes all candidates prefixes it (it is the
/// longest such).
pub proof fn lemma_common_prefix_is_longest(ms: Seq<Seq<char>>)
    requires
        ms.len() > 0,
    ensures
        forall|i: int| 0 <= i < ms.len() ==> is_prefix(common_prefix(ms), #[trigger] ms[i]),
        forall|q: Seq<char>|
            (forall|i: int| 0 <= i < ms.len() ==> is_prefix(q, #[trigger] ms[i])) ==> is_prefix(
                q,
                common_prefix(ms),
            ),
    decreases ms.len(),
{
    if ms.len() > 1 {
        let d = ms.drop_last();
        lemma_common_prefix_is_longest(d);
        let c = common_prefix(d);
        let l = ms.last();
        lemma_common_len_props(c, l);
        let k = common_len(c, l);
        let r = c.take(k as int);
        assert(r == common_prefix(ms));
        assert forall|i: int| 0 <= i < ms.len() implies is_prefix(r, #[trigger] ms[i]) by {
            if i < d.len() {
                assert(d[i] == ms[i]);
                assert(is_prefix(c, d[i]));
                assert(ms[i].subrange(0, r.len() as int) =~= ms[i].subrange(0, c.len() as int).take(
                    k as int,
                ));
            } else {
                assert(ms[i] == l);
                assert(l.subrange(0, r.len() as int) =~= l.take(k as int));
            }
        }
        assert forall|q: Seq<char>|
            (forall|i: int| 0 <= i < ms.len() ==> is_prefix(q, #[trigger] ms[i])) implies is_prefix(
                q,
                r,
            ) by {
            assert forall|i: int| 0 <= i < d.len() implies is_prefix(q, #[trigger] d[i]) by {
                assert(d[i] == ms[i]);
            }
            assert(is_prefix(q, c));
            assert(is_prefix(q, ms[ms.len() - 1]));
            assert(q.len() <= k);
            assert(r.subrange(0, q.len() as int) =~= c.subrange(0, q.len() as int));
        }
    } else {
        assert(ms[0].subrange(0, ms[0].len() as int) =~= ms[0]);
    }
}

/// Law: a completion extends what was typed: it starts with the prefix,
/// and every candidate starts with it.
pub proof fn lemma_completion_extends_prefix(cmds: Seq<Seq<char>>, p: Seq<char>)
    requires
        unique_completion(cmds, p) is Some,
    ensures
        is_prefix(p, unique_completion(cmds, p)->0),
        forall|i: int|
            0 <= i < completions(cmds, p).len() ==> is_prefix(
                unique_completion(cmds, p)->0,
                #[trigger] completions(cmds, p)[i],
            ),
{
    let ms = completions(cmds, p);
    lemma_common_prefix_is_longest(ms);
    assert forall|i: int| 0 <= i < ms.len() implies is_prefix(p, #[trigger] ms[i]) by {
        lemma_completions_members(cmds, p, ms[i]);
    }
}

} // verus!
