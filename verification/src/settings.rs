//! The user's settings (the access token and the update channel), the
//! updater's records, and the tail of the debug log.
use vstd::prelude::*;
use std::collections::VecDeque;
use crate::bootstrap::{current_user_login_key, pat_key};
use crate::errors::DomainError;
use crate::store::{CacheModel, CacheStore, opt_text};
use crate::text::{join_strings, joined, str_eq, string_of};

verus! {

broadcast use vstd::seq_lib::group_seq_properties, vstd::std_specs::vecdeque::group_vec_dequeue_axioms;

// ============================================================
// The access token
// ============================================================

/// Stores the personal access token.
pub fn set_pat(store: &mut CacheStore, pat: &str) -> (r: Result<(), DomainError>)
    requires
        old(store).wf(),
    ensures
        final(store).wf(),
        r is Ok,
        final(store).changed_to(
            old(store),
            CacheModel { settings: old(store).model().settings.insert(pat_key(), pat@), ..old(store).model() },
        ),
{
    store.set_setting("github_pat", pat)
}

/// Whether a personal access token is stored.
pub fn has_pat(store: &CacheStore) -> (r: Result<bool, DomainError>)
    requires
        store.wf(),
    ensures
        r == Ok::<bool, DomainError>(store.setting(pat_key()) is Some),
{
    let pat = store.get_setting("github_pat")?;
    Ok(pat.is_some())
}

/// Forgets the personal access token and the login it was checked as.
pub fn clear_pat(store: &mut CacheStore) -> (r: Result<(), DomainError>)
    requires
        old(store).wf(),
    ensures
        final(store).wf(),
        r is Ok,
        final(store).changed_to(
            old(store),
            CacheModel {
                settings: old(store).model().settings.remove(pat_key()).remove(current_user_login_key()),
                ..old(store).model()
            },
        ),
{
    store.delete_setting("github_pat")?;
    store.delete_setting("current_user_login")?;
    Ok(())
}

// ============================================================
// The update channel
// ============================================================

/// The setting key of the update channel.
pub open spec fn channel_key() -> Seq<char> {
    "update_channel"@
}

/// The channel in use: the stored one, "stable" when none is stored.
pub open spec fn channel_of(m: CacheModel) -> Seq<char> {
    match m.setting(channel_key()) {
        Some(c) => c,
        None => "stable"@,
    }
}

/// The update channel in use.
pub fn get_update_channel(store: &CacheStore) -> (r: Result<String, DomainError>)
    requires
        store.wf(),
    ensures
        r matches Ok(c) && c@ == channel_of(store.model()),
{
    match store.get_setting("update_channel")? {
        Some(c) => Ok(c),
        None => Ok(string_of("stable")),
    }
}

/// The channels an update can come from.
pub open spec fn known_channel(c: Seq<char>) -> bool {
    c == "stable"@ || c == "nightly"@
}

/// The refusal of an unknown channel.
pub open spec fn invalid_channel_message() -> Seq<char> {
    "Invalid channel. Must be \"stable\" or \"nightly\"."@
}

/// Chooses the update channel; only "stable" and "nightly" are accepted. The
/// error is the text the user is shown.
pub fn set_update_channel(store: &mut CacheStore, channel: &str) -> (r: Result<(), String>)
    requires
        old(store).wf(),
    ensures
        final(store).wf(),
        known_channel(channel@) ==> r is Ok && final(store).changed_to(
            old(store),
            CacheModel { settings: old(store).model().settings.insert(channel_key(), channel@), ..old(store).model() },
        ),
        !known_channel(channel@) ==> (r matches Err(m) && m@ == invalid_channel_message() && *final(store) == *old(store)),
{
    if !str_eq(channel, "stable") && !str_eq(channel, "nightly") {
        return Err(string_of("Invalid channel. Must be \"stable\" or \"nightly\"."));
    }
    match store.set_setting("update_channel", channel) {
        Ok(()) => Ok(()),
        Err(e) => Err(e.to_display_string()),
    }
}

/// The release feed of the stable channel.
pub open spec fn stable_endpoint() -> Seq<char> {
    "https://github.com/Minto312/projects-prism/releases/latest/download/latest.json"@
}

/// The release feed of the nightly channel.
pub open spec fn nightly_endpoint() -> Seq<char> {
    "https://github.com/Minto312/projects-prism/releases/download/nightly/latest.json"@
}

/// The address of the release feed of a channel: the nightly feed for
/// "nightly", the stable feed for anything else.
pub fn endpoint_for_channel(channel: &str) -> (r: &'static str)
    ensures
        r@ == if channel@ == "nightly"@ { nightly_endpoint() } else { stable_endpoint() },
{
    if str_eq(channel, "nightly") {
        "https://github.com/Minto312/projects-prism/releases/download/nightly/latest.json"
    } else {
        "https://github.com/Minto312/projects-prism/releases/latest/download/latest.json"
    }
}

// ============================================================
// The updater's records
// ============================================================

/// An update that is available.
#[derive(Debug, Clone, PartialEq)]
pub struct UpdateInfo {
    pub version: String,
    pub body: Option<String>,
}

/// Progress of an update's download: the size of the chunk just received
/// and the whole size when it is known.
#[derive(Debug, Clone, Copy, PartialEq, Eq, Structural)]
pub struct UpdateProgressPayload {
    pub chunk_length: u64,
    pub content_length: Option<u64>,
}

/// The progress record of a chunk.
pub fn progress_payload(chunk_length: usize, content_length: Option<u64>) -> (r: UpdateProgressPayload)
    ensures
        r.chunk_length == chunk_length,
        r.content_length == content_length,
{
    UpdateProgressPayload { chunk_length: chunk_length as u64, content_length }
}

// ============================================================
// The tail of the debug log
// ============================================================

/// How many lines of the log are shown.
pub const MAX_LINES: usize = 500;

/// The last `n` lines of `lines` (all of them when there are fewer).
pub open spec fn last_lines(lines: Seq<Seq<char>>, n: int) -> Seq<Seq<char>> {
    if lines.len() <= n {
        lines
    } else {
        lines.subrange(lines.len() - n, lines.len() as int)
    }
}

/// The last lines of a log read line by line.
pub struct LogTail {
    lines: VecDeque<String>,
}

impl LogTail {
    /// The lines kept.
    pub closed spec fn kept(&self) -> Seq<Seq<char>> {
        self.lines@.map_values(|s: String| s@)
    }

    /// No line read yet.
    pub fn new() -> (r: LogTail)
        ensures
            r.kept() == Seq::<Seq<char>>::empty(),
    {
        LogTail { lines: VecDeque::new() }
    }

    /// Reads the next line; the oldest kept lines go so that no more than
    /// [`MAX_LINES`] are kept.
    pub fn push(&mut self, line: String)
        ensures
            final(self).kept() == last_lines(old(self).kept().push(line@), MAX_LINES as int),
            final(self).kept().len() <= MAX_LINES,
    {
        let ghost before = self.kept();
        let ghost after = before.push(line@);
        while self.lines.len() >= MAX_LINES
            invariant
                before.len() >= self.kept().len(),
                self.kept().len() >= MAX_LINES - 1 || self.kept().len() == before.len(),
                self.kept() == before.subrange(before.len() - self.kept().len(), before.len() as int),
                after == before.push(line@),
            decreases self.lines@.len(),
        {
            let _ = self.lines.pop_front();
        }
        let ghost mid = self.kept();
        self.lines.push_back(line);
        proof {
            let k = self.kept();
            assert(k =~= mid.push(line@));
            if after.len() <= MAX_LINES {
                assert(k =~= after);
            } else {
                assert(k =~= after.subrange(after.len() - MAX_LINES, after.len() as int));
            }
        }
    }

    /// The kept lines, joined by newlines.
    pub fn text(&self) -> (r: String)
        ensures
            r@ == joined(self.kept(), "\n"@),
    {
        let mut v: Vec<String> = Vec::new();
        let mut i: usize = 0;
        while i < self.lines.len()
            invariant
                i <= self.lines@.len(),
                v@.len() == i,
                v@.map_values(|s: String| s@) == self.kept().take(i as int),
            decreases self.lines@.len() - i,
        {
            let line = string_of(self.lines[i].as_str());
            v.push(line);
            assert(v@.map_values(|s: String| s@) =~= self.kept().take(i + 1));
            i = i + 1;
        }
        assert(self.kept().take(self.lines@.len() as int) =~= self.kept());
        join_strings(&v, "\n")
    }
}

/// Which log file is the newest: the last of those with the latest
/// modification time, as a stable sort by that time would leave it.
pub open spec fn newest_at(modified: Seq<u128>, i: int) -> bool {
    &&& 0 <= i < modified.len()
    &&& forall|j: int| 0 <= j < modified.len() ==> modified[j] <= #[trigger] modified[i]
    &&& forall|j: int| i < j < modified.len() ==> #[trigger] modified[j] < modified[i]
}

/// The index of the newest log file, given each file's modification time;
/// nothing when there is no file.
pub fn newest_log_index(modified: &Vec<u128>) -> (r: Option<usize>)
    ensures
        match r {
            Some(i) => newest_at(modified@, i as int),
            None => modified@.len() == 0,
        },
{
    if modified.len() == 0 {
        return None;
    }
    let mut best: usize = 0;
    let mut i: usize = 1;
    while i < modified.len()
        invariant
            1 <= i <= modified.len(),
            best < i,
            forall|j: int| 0 <= j < i ==> modified@[j] <= #[trigger] modified@[best as int],
            forall|j: int| best < j < i ==> #[trigger] modified@[j] < modified@[best as int],
        decreases modified.len() - i,
    {
        if modified[i] >= modified[best] {
            best = i;
        }
        i = i + 1;
    }
    Some(best)
}

} // verus!
