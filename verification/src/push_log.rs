//! The log of pushes, kept in memory up to a number of entries.

use crate::clock::{is_timestamp, now_str};
use crate::json::{entry_trees, lemma_object_tree, Json, JsonTree};
use crate::text::{chars_of, text_of};
use std::collections::VecDeque;
use vstd::prelude::*;

verus! {

broadcast use vstd::string::group_string_axioms;

/// How many characters of a title are kept.
pub const TITLE_CHARS: usize = 60;

/// One push in the log.
pub struct LogEntry {
    pub time: String,
    pub key: String,
    pub title: String,
    pub result: String,
}

/// What a `LogEntry` holds.
#[verifier::ext_equal]
pub struct LogView {
    pub time: Seq<char>,
    pub key: Seq<char>,
    pub title: Seq<char>,
    pub result: Seq<char>,
}

impl View for LogEntry {
    type V = LogView;

    open spec fn view(&self) -> LogView {
        LogView {
            time: self.time@,
            key: self.key@,
            title: self.title@,
            result: self.result@,
        }
    }
}

/// What a list of entries holds.
pub open spec fn log_views(entries: Seq<LogEntry>) -> Seq<LogView> {
    Seq::new(entries.len(), |i: int| entries[i]@)
}

/// The beginning of a text, up to `n` characters.
pub open spec fn first_chars(s: Seq<char>, n: nat) -> Seq<char> {
    if s.len() <= n {
        s
    } else {
        s.take(n as int)
    }
}

/// The last `n` of a list, or all of a shorter one.
pub open spec fn last_n<T>(list: Seq<T>, n: nat) -> Seq<T> {
    if list.len() <= n {
        list
    } else {
        list.skip(list.len() - n)
    }
}

/// The entry that a push makes.
pub open spec fn log_entry(
    time: Seq<char>,
    key: Seq<char>,
    title: Seq<char>,
    result: Seq<char>,
) -> LogView {
    LogView { time, key, title: first_chars(title, TITLE_CHARS as nat), result }
}

/// An entry as JSON.
pub open spec fn log_tree(e: LogView) -> JsonTree {
    JsonTree::Object(
        seq![
            ("key"@, JsonTree::Text(e.key)),
            ("result"@, JsonTree::Text(e.result)),
            ("time"@, JsonTree::Text(e.time)),
            ("title"@, JsonTree::Text(e.title)),
        ],
    )
}

impl LogEntry {
    /// The same entry again.
    pub fn copy(&self) -> (r: LogEntry)
        ensures
            r@ == self@,
    {
        LogEntry {
            time: self.time.clone(),
            key: self.key.clone(),
            title: self.title.clone(),
            result: self.result.clone(),
        }
    }

    /// This entry as JSON.
    pub fn to_json(&self) -> (r: Json)
        ensures
            r@ == log_tree(self@),
    {
        let mut entries: Vec<(String, Json)> = Vec::new();
        entries.push(("key".to_string(), Json::Text(self.key.clone())));
        entries.push(("result".to_string(), Json::Text(self.result.clone())));
        entries.push(("time".to_string(), Json::Text(self.time.clone())));
        entries.push(("title".to_string(), Json::Text(self.title.clone())));
        proof {
            lemma_object_tree(entries);
            assert(entry_trees(entries@) =~= log_tree(self@)->Object_0);
        }
        Json::Object(entries)
    }
}

/// The log: a full one forgets its oldest entry for a new one.
pub struct PushLog {
    inner: VecDeque<LogEntry>,
    capacity: usize,
}

impl PushLog {
    /// The entries, oldest first.
    pub closed spec fn entries(&self) -> Seq<LogView> {
        log_views(self.inner@)
    }

    /// How many entries are kept; the newest always is.
    pub closed spec fn room(&self) -> nat {
        if self.capacity == 0 {
            1
        } else {
            self.capacity as nat
        }
    }

    /// The log holds no more than it has room for.
    pub closed spec fn wf(&self) -> bool {
        self.inner@.len() <= self.room()
    }

    /// A well-formed log holds no more than it has room for.
    pub proof fn law_log_is_bounded(&self)
        requires
            self.wf(),
        ensures
            self.entries().len() <= self.room(),
    {
    }

    /// An empty log.
    pub fn new(capacity: usize) -> (r: PushLog)
        ensures
            r.wf(),
            r.entries() == Seq::<LogView>::empty(),
            r.room() == if capacity == 0 {
                1
            } else {
                capacity as nat
            },
    {
        let r = PushLog { inner: VecDeque::new(), capacity };
        assert(r.entries() =~= Seq::<LogView>::empty());
        r
    }

    /// Adds an entry made at the given time.
    pub fn push_at(&mut self, time: String, key: &str, title: &str, result: &str)
        requires
            old(self).wf(),
        ensures
            final(self).wf(),
            final(self).room() == old(self).room(),
            final(self).entries() == last_n(
                old(self).entries().push(log_entry(time@, key@, title@, result@)),
                old(self).room(),
            ),
    {
        let cs = chars_of(title);
        let kept: usize = if cs.len() <= TITLE_CHARS {
            cs.len()
        } else {
            TITLE_CHARS
        };
        let short = text_of(cs.as_slice(), 0, kept);
        assert(short@ =~= first_chars(title@, TITLE_CHARS as nat));
        let entry = LogEntry { time, key: key.to_string(), title: short, result: result.to_string() };
        let ghost e = entry@;
        let ghost before = self.inner@;
        if self.inner.len() >= self.capacity {
            let _ = self.inner.pop_front();
        }
        self.inner.push_back(entry);
        assert(self.entries() =~= last_n(log_views(before).push(e), old(self).room()));
    }

    /// Adds an entry made now.
    pub fn push(&mut self, key: &str, title: &str, result: &str)
        requires
            old(self).wf(),
        ensures
            final(self).wf(),
            final(self).room() == old(self).room(),
            exists|time: Seq<char>| #[trigger]
                is_timestamp(time) && final(self).entries() == last_n(
                    old(self).entries().push(log_entry(time, key@, title@, result@)),
                    old(self).room(),
                ),
    {
        let time = now_str();
        let ghost t = time@;
        self.push_at(time, key, title, result);
        assert(is_timestamp(t));
    }

    /// All entries, newest first.
    pub fn recent(&self) -> (r: Vec<LogEntry>)
        ensures
            log_views(r@) == self.entries().reverse(),
    {
        let mut out: Vec<LogEntry> = Vec::new();
        let mut i: usize = self.inner.len();
        while i > 0
            invariant
                i <= self.inner@.len(),
                out@.len() == self.inner@.len() - i,
                forall|k: int|
                    0 <= k < out@.len() ==> (#[trigger] out@[k])@ == self.inner@[self.inner@.len() - 1
                        - k]@,
            decreases i,
        {
            i = i - 1;
            out.push(self.inner[i].copy());
        }
        assert(log_views(out@) =~= self.entries().reverse());
        out
    }

    /// The last `n` entries, in the order in which they were made.
    pub fn recent_n(&self, n: usize) -> (r: Vec<LogEntry>)
        ensures
            log_views(r@) == last_n(self.entries(), n as nat),
    {
        let mut out: Vec<LogEntry> = Vec::new();
        let from: usize = if self.inner.len() <= n {
            0
        } else {
            self.inner.len() - n
        };
        let mut i: usize = from;
        while i < self.inner.len()
            invariant
                from <= i <= self.inner@.len(),
                out@.len() == i - from,
                forall|k: int| 0 <= k < out@.len() ==> (#[trigger] out@[k])@ == self.inner@[from + k]@,
            decreases self.inner@.len() - i,
        {
            out.push(self.inner[i].copy());
            i = i + 1;
        }
        assert(log_views(out@) =~= last_n(self.entries(), n as nat));
        out
    }

    /// Forgets all entries.
    pub fn clear(&mut self)
        ensures
            final(self).wf(),
            final(self).room() == old(self).room(),
            final(self).entries() == Seq::<LogView>::empty(),
    {
        self.inner.clear();
        assert(self.entries() =~= Seq::<LogView>::empty());
    }
}

} // verus!
