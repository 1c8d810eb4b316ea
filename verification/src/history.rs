//! Notification history: a bounded in-memory ring buffer of entries, oldest
//! first. Loading the buffer from disk and persisting it again are the
//! embedding program's side effects; this module owns the buffer logic and
//! the queries on it.

use vstd::prelude::*;
use crate::notification::{Urgency, spec_urgency_name};
use crate::pattern::{chars_vec, contains_chars, lower_of, lowercase, spec_contains};

verus! {

/// Default maximum number of notifications to store in history.
pub const DEFAULT_HISTORY_LIMIT: usize = 10000;

/// Timestamps up to the end of year 9999 stay well inside the range the
/// date-time formatter accepts, so their formatted text is pinned down.
pub const DATETIME_TEXT_MAX: u64 = 253402300799;

/// What the date-time formatter returns for a representable timestamp: its
/// `YYYY-MM-DD HH:MM:SS UTC` rendering, a function of the timestamp alone.
pub uninterp spec fn datetime_text(timestamp: u64) -> Seq<char>;

/// Relies on chrono's `DateTime::from_timestamp` and `format`: a timestamp
/// within the representable range formats to a text that depends on the
/// timestamp alone; for an out-of-range timestamp `from_timestamp` returns
/// `None` and the current time is formatted instead, of which nothing is
/// said.
#[verifier::external_body]
fn format_timestamp(timestamp: u64) -> (r: String)
    ensures
        timestamp <= DATETIME_TEXT_MAX ==> r@ == datetime_text(timestamp),
{
    chrono::DateTime::from_timestamp(timestamp as i64, 0)
        .unwrap_or_else(chrono::Utc::now)
        .format("%Y-%m-%d %H:%M:%S UTC")
        .to_string()
}

/// A notification entry as stored in history.
#[derive(Debug)]
pub struct HistoryEntry {
    /// The notification ID.
    pub id: u32,
    /// Name of the application that sent the notification.
    pub app_name: String,
    /// Summary text.
    pub summary: String,
    /// Body text.
    pub body: String,
    /// Urgency level as its lowercase name.
    pub urgency: String,
    /// Unix timestamp when the notification was received.
    pub timestamp: u64,
    /// The timestamp formatted for human readability.
    pub datetime: String,
}

impl Clone for HistoryEntry {
    fn clone(&self) -> (r: Self)
        ensures
            r == *self,
    {
        HistoryEntry {
            id: self.id,
            app_name: self.app_name.clone(),
            summary: self.summary.clone(),
            body: self.body.clone(),
            urgency: self.urgency.clone(),
            timestamp: self.timestamp,
            datetime: self.datetime.clone(),
        }
    }
}

impl HistoryEntry {
    /// Creates a new history entry from notification data.
    pub fn new(
        id: u32,
        app_name: String,
        summary: String,
        body: String,
        urgency: &Urgency,
        timestamp: u64,
    ) -> (r: Self)
        ensures
            r.id == id,
            r.app_name == app_name,
            r.summary == summary,
            r.body == body,
            r.urgency@ == spec_urgency_name(*urgency),
            r.timestamp == timestamp,
            timestamp <= DATETIME_TEXT_MAX ==> r.datetime@ == datetime_text(timestamp),
    {
        let datetime = format_timestamp(timestamp);
        HistoryEntry {
            id,
            app_name,
            summary,
            body,
            urgency: urgency.name().to_owned(),
            timestamp,
            datetime,
        }
    }
}

/// Adding an entry to a bounded history: the entry goes last and the oldest
/// entries beyond the limit leave first.
pub open spec fn spec_history_add(s: Seq<HistoryEntry>, e: HistoryEntry, limit: int) -> Seq<
    HistoryEntry,
> {
    let t = s.push(e);
    if t.len() <= limit {
        t
    } else {
        t.skip(t.len() - limit)
    }
}

/// Whether an entry matches a search query (already lowercased): the query
/// occurs in the lowercased app name, summary or body.
pub open spec fn spec_entry_matches(e: HistoryEntry, q: Seq<char>) -> bool {
    ||| spec_contains(lower_of(e.app_name@), q)
    ||| spec_contains(lower_of(e.summary@), q)
    ||| spec_contains(lower_of(e.body@), q)
}

/// The in-memory notification history.
#[derive(Debug)]
pub struct History {
    /// Path of the file the history is persisted to.
    path: String,
    /// The entries, oldest first.
    entries: Vec<HistoryEntry>,
    /// Maximum number of entries retained.
    limit: usize,
}

impl History {
    /// The entries, oldest first.
    pub closed spec fn entries_view(&self) -> Seq<HistoryEntry> {
        self.entries@
    }

    /// The retention limit.
    pub closed spec fn spec_limit(&self) -> usize {
        self.limit
    }

    /// The persistence path.
    pub closed spec fn path_view(&self) -> Seq<char> {
        self.path@
    }

    /// Creates an empty history with the given retention limit. The loader
    /// outside the core reads the persisted file and rebuilds a loaded
    /// history with `from_parts`.
    pub fn new(limit: usize) -> (r: Self)
        ensures
            r.entries_view() == Seq::<HistoryEntry>::empty(),
            r.spec_limit() == limit,
            r.path_view() == Seq::<char>::empty(),
    {
        History { path: String::new(), entries: Vec::new(), limit }
    }

    /// Rebuilds a history from loaded parts.
    pub fn from_parts(path: String, entries: Vec<HistoryEntry>, limit: usize) -> (r: Self)
        ensures
            r.entries_view() == entries@,
            r.spec_limit() == limit,
            r.path_view() == path@,
    {
        History { path, entries, limit }
    }

    /// Adds a notification entry, evicting the oldest entries beyond the
    /// retention limit. Persisting the new state is the caller's side
    /// effect.
    pub fn add(&mut self, entry: HistoryEntry)
        ensures
            final(self).entries_view() == spec_history_add(
                old(self).entries_view(),
                entry,
                old(self).spec_limit() as int,
            ),
            final(self).spec_limit() == old(self).spec_limit(),
            final(self).path_view() == old(self).path_view(),
    {
        self.entries.push(entry);
        let ghost t = self.entries@;
        proof {
            assert(t.skip(0) =~= t);
        }
        #[verifier::loop_isolation(false)]
        while self.entries.len() > self.limit
            invariant
                self.limit == old(self).spec_limit(),
                self.path == old(self).path,
                self.entries@.len() <= t.len(),
                self.entries@ == t.skip(t.len() - self.entries@.len()),
                self.entries@.len() >= self.limit || self.entries@.len() == t.len(),
            decreases self.entries@.len(),
        {
            let ghost prev = self.entries@;
            self.entries.remove(0);
            proof {
                assert(prev.remove(0) =~= t.skip(t.len() - prev.len() + 1));
            }
        }
        proof {
            assert(self.entries@ =~= spec_history_add(
                old(self).entries_view(),
                entry,
                old(self).spec_limit() as int,
            ));
        }
    }

    /// Returns the number of entries in history.
    pub fn len(&self) -> (r: usize)
        ensures
            r == self.entries_view().len(),
    {
        self.entries.len()
    }

    /// Returns true if history is empty.
    pub fn is_empty(&self) -> (r: bool)
        ensures
            r == (self.entries_view().len() == 0),
    {
        self.entries.is_empty()
    }

    /// Returns the most recent `count` entries, newest first.
    pub fn recent(&self, count: usize) -> (r: Vec<HistoryEntry>)
        ensures
            r@.len() == if count as int <= self.entries_view().len() {
                count as int
            } else {
                self.entries_view().len() as int
            },
            forall|i: int|
                0 <= i < r@.len() ==> r@[i] == self.entries_view()[self.entries_view().len() - 1
                    - i],
    {
        let n = self.entries.len();
        let take = if count <= n {
            count
        } else {
            n
        };
        let mut r: Vec<HistoryEntry> = Vec::new();
        let mut i: usize = 0;
        #[verifier::loop_isolation(false)]
        while i < take
            invariant
                take <= n,
                n == self.entries_view().len(),
                i <= take,
                r@.len() == i,
                forall|k: int| 0 <= k < i ==> r@[k] == self.entries_view()[n - 1 - k],
            decreases take - i,
        {
            let e = self.entries[n - 1 - i].clone();
            r.push(e);
            i = i + 1;
        }
        r
    }

    /// Returns all entries, oldest first.
    pub fn all(&self) -> (r: Vec<HistoryEntry>)
        ensures
            r@ == self.entries_view(),
    {
        let n = self.entries.len();
        let mut r: Vec<HistoryEntry> = Vec::new();
        let mut i: usize = 0;
        #[verifier::loop_isolation(false)]
        while i < n
            invariant
                n == self.entries_view().len(),
                i <= n,
                r@ == self.entries_view().take(i as int),
            decreases n - i,
        {
            let e = self.entries[i].clone();
            r.push(e);
            proof {
                assert(self.entries_view().take(i + 1 as int) =~= self.entries_view().take(
                    i as int,
                ).push(self.entries_view()[i as int]));
            }
            i = i + 1;
        }
        proof {
            assert(self.entries_view().take(n as int) =~= self.entries_view());
        }
        r
    }

    /// Searches history entries by app name, summary or body,
    /// case-insensitively; the matching entries come back oldest first.
    pub fn search(&self, query: &str) -> (r: Vec<HistoryEntry>)
        ensures
            r@ == self.entries_view().filter(
                |e: HistoryEntry| spec_entry_matches(e, lower_of(query@)),
            ),
    {
        let ghost pred = |e: HistoryEntry| spec_entry_matches(e, lower_of(query@));
        let ql = lowercase(query);
        let qv = chars_vec(ql.as_str());
        let n = self.entries.len();
        let mut r: Vec<HistoryEntry> = Vec::new();
        let mut i: usize = 0;
        #[verifier::loop_isolation(false)]
        while i < n
            invariant
                n == self.entries_view().len(),
                i <= n,
                qv@ == lower_of(query@),
                r@ == self.entries_view().take(i as int).filter(pred),
            decreases n - i,
        {
            let e = &self.entries[i];
            let matched = {
                let app = chars_vec(lowercase(e.app_name.as_str()).as_str());
                if contains_chars(&app, &qv) {
                    true
                } else {
                    let summary = chars_vec(lowercase(e.summary.as_str()).as_str());
                    if contains_chars(&summary, &qv) {
                        true
                    } else {
                        let body = chars_vec(lowercase(e.body.as_str()).as_str());
                        contains_chars(&body, &qv)
                    }
                }
            };
            proof {
                assert(matched == pred(self.entries_view()[i as int]));
            }
            if matched {
                let c = e.clone();
                r.push(c);
            }
            proof {
                reveal(Seq::filter);
                let head = self.entries_view().take(i as int);
                let next = self.entries_view().take(i + 1 as int);
                assert(next.drop_last() =~= head);
                assert(next.last() == self.entries_view()[i as int]);
            }
            i = i + 1;
        }
        proof {
            assert(self.entries_view().take(n as int) =~= self.entries_view());
        }
        r
    }

    /// The compute side of a history query: a search query wins, otherwise
    /// either everything or the most recent `count` entries.
    pub fn select(&self, query: &Option<String>, all: bool, count: usize) -> (r: Vec<HistoryEntry>)
        ensures
            match query {
                Some(q) => r@ == self.entries_view().filter(
                    |e: HistoryEntry| spec_entry_matches(e, lower_of(q@)),
                ),
                None => {
                    if all {
                        r@ == self.entries_view()
                    } else {
                        r@.len() == if count as int <= self.entries_view().len() {
                            count as int
                        } else {
                            self.entries_view().len() as int
                        } && forall|i: int|
                            0 <= i < r@.len() ==> r@[i] == self.entries_view()[
                                self.entries_view().len() - 1 - i
                            ]
                    }
                },
            },
    {
        match query {
            Some(q) => self.search(q.as_str()),
            None => {
                if all {
                    self.all()
                } else {
                    self.recent(count)
                }
            },
        }
    }

    /// Clears all history entries. Persisting the cleared state is the
    /// caller's side effect.
    pub fn clear(&mut self)
        ensures
            final(self).entries_view() == Seq::<HistoryEntry>::empty(),
            final(self).spec_limit() == old(self).spec_limit(),
            final(self).path_view() == old(self).path_view(),
    {
        self.entries.clear();
    }

    /// Returns the path of the file the history is persisted to.
    pub fn path(&self) -> (r: &String)
        ensures
            r@ == self.path_view(),
    {
        &self.path
    }
}

} // verus!
