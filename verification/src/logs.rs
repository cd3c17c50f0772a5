//! The log that the application keeps in memory: a bounded list of entries
//! in which a new entry pushes out the oldest once the list is full.

use std::collections::VecDeque;
use vstd::prelude::*;
use crate::text::{chars_of, same_chars, string_of, text_of, to_upper, uppercased};

verus! {

/// How grave an entry is.
#[derive(Clone, Copy, Debug)]
pub enum LogLevel {
    INFO,
    WARN,
    ERROR,
    DEBUG,
}

/// One line of the log.
#[derive(Debug)]
pub struct LogEntry {
    /// A name for the entry that no other entry has.
    pub id: String,
    /// When the entry was made, as `YYYY-MM-DD HH:MM:SS UTC`.
    pub timestamp: String,
    pub level: LogLevel,
    pub message: String,
    /// The part of the application that made the entry.
    pub source: Option<String>,
}

/// `LogEntry` with every text as text.
pub struct Entry {
    pub id: Seq<char>,
    pub timestamp: Seq<char>,
    pub level: LogLevel,
    pub message: Seq<char>,
    pub source: Option<Seq<char>>,
}

impl View for LogEntry {
    type V = Entry;

    open spec fn view(&self) -> Entry {
        Entry {
            id: self.id@,
            timestamp: self.timestamp@,
            level: self.level,
            message: self.message@,
            source: text_of(self.source),
        }
    }
}

/// The most entries that the log holds.
pub const MAX_LOGS: usize = 1000;

/// The log: its entries, oldest first. It never holds more than
/// `MAX_LOGS` of them.
#[derive(Debug)]
pub struct LogStore {
    entries: VecDeque<LogEntry>,
}

impl View for LogStore {
    type V = Seq<Entry>;

    closed spec fn view(&self) -> Seq<Entry> {
        self.entries@.map_values(|e: LogEntry| e@)
    }
}

impl LogStore {
    #[verifier::type_invariant]
    spec fn within_bound(&self) -> bool {
        self.entries@.len() <= MAX_LOGS
    }

    /// Whether the log is within its bound. Every log is.
    pub open spec fn bounded(&self) -> bool {
        self@.len() <= MAX_LOGS
    }

    /// The number of entries in the log, which is at most `MAX_LOGS`.
    pub fn len(&self) -> (n: usize)
        ensures
            n == self@.len(),
            n <= MAX_LOGS,
            self.bounded(),
    {
        proof {
            use_type_invariant(self);
        }
        self.entries.len()
    }
}

/// The name of a level, in capitals.
pub open spec fn level_name(level: LogLevel) -> Seq<char> {
    match level {
        LogLevel::INFO => "INFO"@,
        LogLevel::WARN => "WARN"@,
        LogLevel::ERROR => "ERROR"@,
        LogLevel::DEBUG => "DEBUG"@,
    }
}

/// The level with the given name in capitals; a name that is none of the
/// four stands for `INFO`.
pub open spec fn level_named(upper: Seq<char>) -> LogLevel {
    if upper == "WARN"@ {
        LogLevel::WARN
    } else if upper == "ERROR"@ {
        LogLevel::ERROR
    } else if upper == "DEBUG"@ {
        LogLevel::DEBUG
    } else {
        LogLevel::INFO
    }
}

impl LogLevel {
    /// The name of the level, in capitals.
    pub fn name(&self) -> (out: String)
        ensures
            out@ == level_name(*self),
    {
        match self {
            LogLevel::INFO => string_of(&chars_of("INFO")),
            LogLevel::WARN => string_of(&chars_of("WARN")),
            LogLevel::ERROR => string_of(&chars_of("ERROR")),
            LogLevel::DEBUG => string_of(&chars_of("DEBUG")),
        }
    }

    /// The level with the given name in capitals: see `level_named`.
    pub fn from_upper(upper: &str) -> (level: LogLevel)
        ensures
            level == level_named(upper@),
    {
        let chars = chars_of(upper);
        if same_chars(&chars, &chars_of("WARN")) {
            LogLevel::WARN
        } else if same_chars(&chars, &chars_of("ERROR")) {
            LogLevel::ERROR
        } else if same_chars(&chars, &chars_of("DEBUG")) {
            LogLevel::DEBUG
        } else {
            LogLevel::INFO
        }
    }
}

/// A fresh random identifier from `uuid::Uuid::new_v4`, written out as
/// text. Nothing is claimed of it: each call gives another one.
#[verifier::external_body]
fn new_entry_id() -> (id: String) {
    uuid::Uuid::new_v4().to_string()
}

/// The moment of the call as `chrono::Utc::now` gives it, written after a
/// pattern with chrono's `DateTime::format` and `DelayedFormat::write_to`;
/// nothing where chrono cannot read the pattern. Nothing is claimed of the
/// text: it depends on the clock.
#[verifier::external_body]
fn time_stamp_now(pattern: &str) -> (stamp: Option<String>) {
    let mut out = String::new();
    match chrono::Utc::now().format(pattern).write_to(&mut out) {
        Ok(()) => Some(out),
        Err(_) => None,
    }
}

/// The log after one more entry: the entry comes last, and where the log
/// was full, its oldest entry is gone.
pub open spec fn with_entry(log: Seq<Entry>, entry: Entry) -> Seq<Entry> {
    if log.len() >= MAX_LOGS {
        log.drop_first().push(entry)
    } else {
        log.push(entry)
    }
}

/// An empty log.
pub fn create_log_store() -> (store: LogStore)
    ensures
        store@.len() == 0,
        store.bounded(),
{
    LogStore { entries: VecDeque::new() }
}

/// Puts a finished entry into the log: see `with_entry`.
pub fn push_entry(store: &mut LogStore, entry: LogEntry)
    ensures
        final(store)@ == with_entry(old(store)@, entry@),
        final(store).bounded(),
{
    proof {
        use_type_invariant(&*store);
    }
    let mut held = LogStore { entries: VecDeque::new() };
    std::mem::swap(store, &mut held);
    let mut entries = held.entries;
    let ghost before = entries@;
    if entries.len() >= MAX_LOGS {
        entries.pop_front();
        proof {
            assert(entries@ == before.drop_first());
        }
    }
    let ghost middle = entries@;
    entries.push_back(entry);
    proof {
        assert(entries@ == middle.push(entry));
        assert(entries@.map_values(|e: LogEntry| e@) == middle.map_values(|e: LogEntry| e@).push(
            entry@,
        ));
        if before.len() >= MAX_LOGS {
            assert(middle.map_values(|e: LogEntry| e@) == before.map_values(
                |e: LogEntry| e@,
            ).drop_first());
        }
    }
    *store = LogStore { entries };
}

/// Makes an entry of the given level, message and source, with a fresh
/// identifier and the time of the call, and puts it into the log. What is
/// fixed of the new entry is its level, message and source; its identifier
/// and time stamp are whatever the generator and the clock give.
pub fn add_log_entry(store: &mut LogStore, level: LogLevel, message: String, source: Option<String>)
    ensures
        final(store)@ == with_entry(old(store)@, final(store)@.last()),
        final(store)@.last().level == level,
        final(store)@.last().message == message@,
        final(store)@.last().source == text_of(source),
        final(store).bounded(),
{
    let timestamp = match time_stamp_now("%Y-%m-%d %H:%M:%S UTC") {
        Some(stamp) => stamp,
        None => String::new(),
    };
    let entry = LogEntry {
        id: new_entry_id(),
        timestamp,
        level,
        message,
        source,
    };
    push_entry(store, entry);
}

/// Makes an entry as `add_log_entry` does, with the level given by name in
/// any mix of cases; a name that is none of the four levels counts as
/// `INFO`.
pub fn add_log(store: &mut LogStore, level: &str, message: String, source: Option<String>)
    ensures
        final(store)@ == with_entry(old(store)@, final(store)@.last()),
        final(store)@.last().level == level_named(uppercased(level@)),
        final(store)@.last().message == message@,
        final(store)@.last().source == text_of(source),
        final(store).bounded(),
{
    let upper = to_upper(level);
    let log_level = LogLevel::from_upper(upper.as_str());
    add_log_entry(store, log_level, message, source);
}

fn copy_entry(entry: &LogEntry) -> (copy: LogEntry)
    ensures
        copy@ == entry@,
{
    LogEntry {
        id: entry.id.clone(),
        timestamp: entry.timestamp.clone(),
        level: entry.level,
        message: entry.message.clone(),
        source: match &entry.source {
            Some(s) => Some(s.clone()),
            None => None,
        },
    }
}

/// The views of a list of entries.
pub open spec fn entry_views(entries: Seq<LogEntry>) -> Seq<Entry> {
    entries.map_values(|e: LogEntry| e@)
}

/// The entries of the log, oldest first.
pub fn get_logs(store: &LogStore) -> (entries: Vec<LogEntry>)
    ensures
        entry_views(entries@) == store@,
        entries.len() <= MAX_LOGS,
{
    proof {
        use_type_invariant(store);
    }
    let mut entries: Vec<LogEntry> = Vec::new();
    let mut i: usize = 0;
    while i < store.entries.len()
        invariant
            i <= store.entries.len(),
            entry_views(entries@) == store@.take(i as int),
        decreases store.entries.len() - i,
    {
        let ghost before = entry_views(entries@);
        entries.push(copy_entry(&store.entries[i]));
        proof {
            assert(entry_views(entries@) == before.push(store.entries@[i as int]@));
            assert(store@.take(i + 1) == store@.take(i as int).push(store@[i as int]));
        }
        i = i + 1;
    }
    proof {
        assert(store@.take(store.entries.len() as int) == store@);
    }
    entries
}

/// Empties the log.
pub fn clear_logs(store: &mut LogStore)
    ensures
        final(store)@.len() == 0,
{
    *store = LogStore { entries: VecDeque::new() };
}

/// After any number of entries a log that started empty holds at most
/// `MAX_LOGS` of them: adding an entry to a log within its bound gives a
/// log within its bound, with the new entry last and, of the old entries,
/// all but the oldest where the log was full and all otherwise, in their
/// order.
pub proof fn lemma_log_stays_bounded(log: Seq<Entry>, entry: Entry)
    requires
        log.len() <= MAX_LOGS,
    ensures
        with_entry(log, entry).len() <= MAX_LOGS,
        with_entry(log, entry).last() == entry,
        log.len() < MAX_LOGS ==> with_entry(log, entry).drop_last() == log,
        log.len() == MAX_LOGS ==> with_entry(log, entry).drop_last() == log.drop_first(),
{
    if log.len() >= MAX_LOGS {
        assert(log.drop_first().push(entry).drop_last() == log.drop_first());
    } else {
        assert(log.push(entry).drop_last() == log);
    }
}

} // verus!
