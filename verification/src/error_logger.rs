//! Error log: a bounded in-memory buffer of entries filtered by severity,
//! and the text lines the log file and the export hold.
//!
//! Choosing the log directory, appending to the file and exporting are done
//! by the application; this module decides what is recorded and what the
//! lines say.
use chrono::{Local, TimeZone, Utc};
use std::collections::VecDeque;
use vstd::prelude::*;
use vstd::string::StringExecFns;

verus! {

/// A moment as whole seconds and nanoseconds since 1970-01-01 00:00:00 UTC.
#[derive(Debug, Clone, Copy, PartialEq, Eq, Structural)]
pub struct LogTime {
    pub secs: i64,
    pub nanos: u32,
}

/// `t` lies between -262143-01-01 00:00:00 and 262142-12-31 23:59:59 UTC,
/// the range chrono's `DateTime` covers, with under a second of nanoseconds.
pub open spec fn representable(t: LogTime) -> bool {
    &&& -8334601228800 <= t.secs <= 8210266876799
    &&& t.nanos < 1000000000
}

/// `t` lies between 0001-01-02 00:00:00 and 9999-12-30 23:59:59 UTC, so its
/// local date, under any offset of less than a day, has a four-digit year.
pub open spec fn four_digit_year(t: LogTime) -> bool {
    -62135510400 <= t.secs <= 253402214399
}

/// `c` is one of the digits 0 to 9.
pub open spec fn is_digit(c: char) -> bool {
    '0' <= c <= '9'
}

/// `s` has the shape `YYYY-MM-DD HH:MM:SS.mmm`: digits, with `-` at 4 and 7,
/// a space at 10, `:` at 13 and 16 and `.` at 19.
pub open spec fn stamp_shape(s: Seq<char>) -> bool {
    &&& s.len() == 23
    &&& forall|i: int|
        0 <= i < 23 ==> if i == 4 || i == 7 {
            s[i] == '-'
        } else if i == 10 {
            s[i] == ' '
        } else if i == 13 || i == 16 {
            s[i] == ':'
        } else if i == 19 {
            s[i] == '.'
        } else {
            is_digit(#[trigger] s[i])
        }
}

/// Calls `chrono::Utc::now()` and reads the result's `timestamp()` and
/// `timestamp_subsec_nanos()`.
///
/// Claimed: the moment is representable and not before the epoch. `Utc::now`
/// takes the system clock's duration since the epoch (panicking on a clock
/// set before it) and builds the `DateTime` with `from_timestamp(..)
/// .unwrap()`, which only yields times in chrono's range; the nanoseconds
/// are the duration's `subsec_nanos`, below one second. Which moment comes
/// back is not claimed: it is the clock's.
#[verifier::external_body]
fn utc_now() -> (t: LogTime)
    ensures
        representable(t),
        t.secs >= 0,
{
    let now = Utc::now();
    LogTime { secs: now.timestamp(), nanos: now.timestamp_subsec_nanos() }
}

/// Calls chrono's `TimeZone::timestamp_opt` on `Local` with the seconds and
/// nanoseconds of `t`, takes its single result with `unwrap`, formats it
/// with `format(pattern)` and renders that with `to_string`.
///
/// `timestamp_opt` gives a single result exactly when
/// `DateTime::from_timestamp` accepts the time, as it does for every
/// representable time, so `unwrap` does not panic under `requires`; the
/// pattern is a valid strftime pattern, so rendering does not fail.
/// Claimed: when the local date has a four-digit year the text has the
/// shape `YYYY-MM-DD HH:MM:SS.mmm` (chrono's strftime table: `%Y` is
/// zero-padded to four digits for years 1 to 9999, `%m`, `%d`, `%H`, `%M`,
/// `%S` are two digits, `%.3f` is a dot and three digits). Which digits is
/// not claimed: they depend on the local time zone. Looking the zone's
/// offset up panics in chrono on unusable zone data; that depends on the
/// machine, not on the arguments, and is left unsaid.
#[verifier::external_body]
pub(crate) fn format_time(t: LogTime, pattern: &str) -> (s: String)
    requires
        pattern@ == "%Y-%m-%d %H:%M:%S%.3f"@,
        representable(t),
    ensures
        four_digit_year(t) ==> stamp_shape(s@),
{
    Local.timestamp_opt(t.secs, t.nanos).unwrap().format(pattern).to_string()
}

/// Error severity levels, from least to most severe.
#[derive(Debug, Clone, Copy, PartialEq, Eq, Structural)]
pub enum ErrorLevel {
    Debug,
    Info,
    Warning,
    Error,
    Critical,
}

/// The rank of a level in the severity order.
pub open spec fn rank(l: ErrorLevel) -> nat {
    match l {
        ErrorLevel::Debug => 0,
        ErrorLevel::Info => 1,
        ErrorLevel::Warning => 2,
        ErrorLevel::Error => 3,
        ErrorLevel::Critical => 4,
    }
}

/// The levels from least to most severe.
pub open spec fn severity_order() -> Seq<ErrorLevel> {
    seq![ErrorLevel::Debug, ErrorLevel::Info, ErrorLevel::Warning, ErrorLevel::Error, ErrorLevel::Critical]
}

/// The rank rises strictly along the severity order.
pub proof fn lemma_rank_follows_severity(i: int, j: int)
    requires
        0 <= i < j < 5,
    ensures
        rank(severity_order()[i]) < rank(severity_order()[j]),
{
}

fn rank_of(l: ErrorLevel) -> (r: u8)
    ensures
        r == rank(l),
{
    match l {
        ErrorLevel::Debug => 0,
        ErrorLevel::Info => 1,
        ErrorLevel::Warning => 2,
        ErrorLevel::Error => 3,
        ErrorLevel::Critical => 4,
    }
}

/// The name of a level in the log file.
pub open spec fn level_name(l: ErrorLevel) -> Seq<char> {
    match l {
        ErrorLevel::Debug => "DEBUG"@,
        ErrorLevel::Info => "INFO"@,
        ErrorLevel::Warning => "WARN"@,
        ErrorLevel::Error => "ERROR"@,
        ErrorLevel::Critical => "CRITICAL"@,
    }
}

/// The icon of a level on the console and in the viewer.
pub open spec fn level_symbol(l: ErrorLevel) -> Seq<char> {
    match l {
        ErrorLevel::Debug => "🔍"@,
        ErrorLevel::Info => "ℹ️"@,
        ErrorLevel::Warning => "⚠️"@,
        ErrorLevel::Error => "❌"@,
        ErrorLevel::Critical => "🚨"@,
    }
}

/// Error log entry.
pub struct LogEntry {
    pub timestamp: LogTime,
    pub level: ErrorLevel,
    pub component: String,
    pub message: String,
    pub context: Option<String>,
    pub stack_trace: Option<String>,
}

/// The text of an optional string.
pub open spec fn opt_text(o: Option<String>) -> Option<Seq<char>> {
    match o {
        Some(s) => Some(s@),
        None => None,
    }
}

/// What the log keeps of an entry besides its time.
pub struct EntryView {
    pub level: ErrorLevel,
    pub component: Seq<char>,
    pub message: Seq<char>,
    pub context: Option<Seq<char>>,
    pub stack_trace: Option<Seq<char>>,
}

impl View for LogEntry {
    type V = EntryView;

    open spec fn view(&self) -> EntryView {
        EntryView {
            level: self.level,
            component: self.component@,
            message: self.message@,
            context: opt_text(self.context),
            stack_trace: opt_text(self.stack_trace),
        }
    }
}

/// The lines of a stack trace, each indented by six spaces, joined by line
/// feeds.
pub open spec fn indented_trace(lines: Seq<Seq<char>>) -> Seq<char>
    decreases lines.len(),
{
    if lines.len() == 0 {
        Seq::empty()
    } else if lines.len() == 1 {
        "      "@ + lines[0]
    } else {
        indented_trace(lines.drop_last()) + "\n"@ + "      "@ + lines.last()
    }
}

/// The file line of an entry stamped `time`:
/// `[time] LEVEL [component] message`, then the context and the indented
/// stack trace on lines of their own.
pub open spec fn entry_line(time: Seq<char>, e: EntryView) -> Seq<char> {
    let head = "["@ + time + "] "@ + level_name(e.level) + " ["@ + e.component + "] "@ + e.message;
    let with_ctx = match e.context {
        Some(c) => head + "\n    Context: "@ + c,
        None => head,
    };
    match e.stack_trace {
        Some(t) => with_ctx + "\n    Stack trace:\n"@ + indented_trace(crate::chars::lines(t)),
        None => with_ctx,
    }
}

/// `l` is the file line of `e` stamped with a time text for `t`; for a time
/// whose local date has a four-digit year, the text has the shape
/// `YYYY-MM-DD HH:MM:SS.mmm`.
pub open spec fn stamped_line(l: Seq<char>, e: EntryView, t: LogTime) -> bool {
    exists|text: Seq<char>|
        l == #[trigger] entry_line(text, e) && (four_digit_year(t) ==> stamp_shape(text))
}

/// The newest `n` entries first.
pub open spec fn newest_first(entries: Seq<EntryView>, n: nat) -> Seq<EntryView> {
    entries.reverse().take(if n < entries.len() { n as int } else { entries.len() as int })
}

/// The newest `n` entries of level `l`, newest first.
pub open spec fn newest_of_level(entries: Seq<EntryView>, l: ErrorLevel, n: nat) -> Seq<EntryView> {
    let f = entries.reverse().filter(|e: EntryView| e.level == l);
    f.take(if n < f.len() { n as int } else { f.len() as int })
}

/// Error logger with a bounded memory buffer.
pub struct ErrorLogger {
    entries: VecDeque<LogEntry>,
    max_entries: usize,
    log_file: String,
    file_logging_enabled: bool,
    min_level: ErrorLevel,
}

/// Abstract state of the logger.
pub struct LoggerView {
    pub entries: Seq<EntryView>,
    pub max_entries: nat,
    pub log_file: Seq<char>,
    pub file_logging_enabled: bool,
    pub min_level: ErrorLevel,
}

impl View for ErrorLogger {
    type V = LoggerView;

    closed spec fn view(&self) -> LoggerView {
        LoggerView {
            entries: self.entries@.map_values(|e: LogEntry| e@),
            max_entries: self.max_entries as nat,
            log_file: self.log_file@,
            file_logging_enabled: self.file_logging_enabled,
            min_level: self.min_level,
        }
    }
}

/// The buffer after recording `e`: the oldest entry leaves when the buffer
/// is full.
pub open spec fn record(entries: Seq<EntryView>, max: nat, e: EntryView) -> Seq<EntryView> {
    if entries.len() >= max {
        entries.drop_first().push(e)
    } else {
        entries.push(e)
    }
}

impl ErrorLogger {
    /// The buffer holds at most `max_entries` entries, and at least one fits.
    pub closed spec fn wf(&self) -> bool {
        &&& self.max_entries > 0
        &&& self.entries@.len() <= self.max_entries
        &&& forall|i: int|
            0 <= i < self.entries@.len() ==> representable(#[trigger] self.entries@[i].timestamp)
    }

    /// The time the `i`-th entry, oldest first, was stamped with.
    pub closed spec fn entry_time(&self, i: int) -> LogTime {
        self.entries@[i].timestamp
    }

    /// A logger writing to `log_file`, keeping 1000 entries, recording Info
    /// and above.
    pub fn new(log_file: String) -> (l: Self)
        ensures
            l.wf(),
            l@.entries == Seq::<EntryView>::empty(),
            l@.max_entries == 1000,
            l@.log_file == log_file@,
            l@.file_logging_enabled,
            l@.min_level == ErrorLevel::Info,
    {
        let l = ErrorLogger {
            entries: VecDeque::new(),
            max_entries: 1000,
            log_file,
            file_logging_enabled: true,
            min_level: ErrorLevel::Info,
        };
        assert(l@.entries =~= Seq::<EntryView>::empty());
        l
    }

    /// Log a message without context.
    pub fn log(&mut self, level: ErrorLevel, component: &str, message: &str) -> (line: Option<
        String,
    >)
        requires
            old(self).wf(),
        ensures
            final(self).wf(),
            log_outcome(old(self)@, final(self)@, line, level, component@, message@, None, None),
    {
        self.log_with_context(level, component, message, None, None)
    }

    /// Log an entry with optional context and stack trace.
    ///
    /// Entries below the minimum level are dropped. Otherwise the entry is
    /// stamped with the current time and kept, the oldest entry leaving a
    /// full buffer; when file logging is on, the line to append to the log
    /// file is returned.
    pub fn log_with_context(
        &mut self,
        level: ErrorLevel,
        component: &str,
        message: &str,
        context: Option<String>,
        stack_trace: Option<String>,
    ) -> (line: Option<String>)
        requires
            old(self).wf(),
        ensures
            final(self).wf(),
            log_outcome(
                old(self)@,
                final(self)@,
                line,
                level,
                component@,
                message@,
                opt_text(context),
                opt_text(stack_trace),
            ),
    {
        if rank_of(level) < rank_of(self.min_level) {
            return None;
        }
        let entry = LogEntry {
            timestamp: utc_now(),
            level,
            component: String::from_str(component),
            message: String::from_str(message),
            context,
            stack_trace,
        };
        let line = if self.file_logging_enabled {
            Some(Self::format_entry(&entry))
        } else {
            None
        };
        let ghost before = self.entries@;
        let ghost stamp = entry.timestamp;
        if self.entries.len() >= self.max_entries {
            self.entries.pop_front();
        }
        self.entries.push_back(entry);
        proof {
            let ev = entry@;
            if line is Some {
                assert(stamped_line(line.unwrap()@, ev, stamp));
            }
            assert forall|i: int| 0 <= i < self.entries@.len() implies representable(
                #[trigger] self.entries@[i].timestamp,
            ) by {
                if i == self.entries@.len() - 1 {
                    assert(self.entries@[i].timestamp == stamp);
                } else if before.len() >= self.max_entries {
                    assert(self.entries@[i] == before[i + 1]);
                } else {
                    assert(self.entries@[i] == before[i]);
                }
            }
            if before.len() >= self.max_entries {
                assert(self.entries@.map_values(|e: LogEntry| e@) =~= before.map_values(
                    |e: LogEntry| e@,
                ).drop_first().push(ev));
            } else {
                assert(self.entries@.map_values(|e: LogEntry| e@) =~= before.map_values(
                    |e: LogEntry| e@,
                ).push(ev));
            }
        }
        line
    }

    /// The file line of `entry`, stamped with its time.
    pub fn format_entry(entry: &LogEntry) -> (s: String)
        requires
            representable(entry.timestamp),
        ensures
            stamped_line(s@, entry@, entry.timestamp),
    {
        let time = format_time(entry.timestamp, "%Y-%m-%d %H:%M:%S%.3f");
        let s = format_entry_at(time.as_str(), entry);
        assert(s@ == entry_line(time@, entry@));
        assert(four_digit_year(entry.timestamp) ==> stamp_shape(time@));
        s
    }

    /// The `max_count` newest entries, newest first.
    pub fn get_entries(&self, max_count: usize) -> (r: Vec<&LogEntry>)
        ensures
            r@.map_values(|e: &LogEntry| e@) == newest_first(self@.entries, max_count as nat),
    {
        let ghost all = self@.entries;
        let n = self.entries.len();
        let mut r: Vec<&LogEntry> = Vec::new();
        let mut i: usize = 0;
        while i < n && i < max_count
            invariant
                n == self.entries@.len(),
                all == self@.entries,
                all.len() == n,
                0 <= i <= n,
                i <= max_count,
                r@.map_values(|e: &LogEntry| e@) == all.reverse().take(i as int),
            decreases n - i,
        {
            let e = &self.entries[n - 1 - i];
            let ghost before = r@.map_values(|e: &LogEntry| e@);
            r.push(e);
            proof {
                assert(all[n - 1 - i] == self.entries@[n - 1 - i]@);
                assert(all.reverse()[i as int] == all[n - 1 - i]);
                assert(r@.map_values(|e: &LogEntry| e@) =~= before.push(e@));
                assert(all.reverse().take(i + 1) =~= all.reverse().take(i as int).push(all.reverse()[i as int]));
            }
            i += 1;
        }
        proof {
            assert(all.reverse().take(i as int) =~= newest_first(all, max_count as nat));
        }
        r
    }

    /// The `max_count` newest entries of `level`, newest first.
    pub fn get_entries_by_level(&self, level: ErrorLevel, max_count: usize) -> (r: Vec<&LogEntry>)
        ensures
            r@.map_values(|e: &LogEntry| e@) == newest_of_level(self@.entries, level, max_count as nat),
    {
        let ghost all = self@.entries;
        let ghost rev = all.reverse();
        let ghost pred = |e: EntryView| e.level == level;
        let n = self.entries.len();
        let mut r: Vec<&LogEntry> = Vec::new();
        let mut i: usize = 0;
        while i < n && r.len() < max_count
            invariant
                n == self.entries@.len(),
                all == self@.entries,
                rev == all.reverse(),
                pred == (|e: EntryView| e.level == level),
                all.len() == n,
                0 <= i <= n,
                r@.len() <= max_count,
                r@.map_values(|e: &LogEntry| e@) == rev.take(i as int).filter(pred),
            decreases n - i,
        {
            let e = &self.entries[n - 1 - i];
            proof {
                assert(rev[i as int] == e@);
                assert(rev.take(i + 1).drop_last() =~= rev.take(i as int));
                reveal_with_fuel(Seq::filter, 1);
            }
            if e.level == level {
                r.push(e);
            }
            proof {
                assert(r@.map_values(|e: &LogEntry| e@) =~= rev.take(i + 1).filter(pred));
            }
            i += 1;
        }
        proof {
            lemma_filter_prefix(rev, pred, i as int);
            let f = rev.filter(pred);
            let k = rev.take(i as int).filter(pred).len();
            if i < n {
                // stopped because `max_count` entries were found
                assert(k == max_count);
            } else {
                assert(rev.take(i as int) =~= rev);
            }
            assert(rev.take(i as int).filter(pred) =~= f.take(k as int));
        }
        r
    }

    /// Forget all entries.
    pub fn clear(&mut self)
        requires
            old(self).wf(),
        ensures
            final(self).wf(),
            final(self)@ == (LoggerView { entries: Seq::empty(), ..old(self)@ }),
    {
        self.entries.clear();
        assert(self@.entries =~= Seq::<EntryView>::empty());
    }

    /// The lines of the export file, oldest entry first.
    pub fn export_lines(&self) -> (r: Vec<String>)
        requires
            self.wf(),
        ensures
            r@.len() == self@.entries.len(),
            forall|i: int|
                0 <= i < r@.len() ==> stamped_line(
                    #[trigger] r@[i]@,
                    self@.entries[i],
                    self.entry_time(i),
                ),
    {
        let mut r: Vec<String> = Vec::new();
        let n = self.entries.len();
        let mut i: usize = 0;
        while i < n
            invariant
                n == self.entries@.len(),
                n == self@.entries.len(),
                0 <= i <= n,
                r@.len() == i,
                self.wf(),
                forall|j: int|
                    0 <= j < i ==> stamped_line(#[trigger] r@[j]@, self@.entries[j], self.entry_time(j)),
            decreases n - i,
        {
            let line = Self::format_entry(&self.entries[i]);
            let ghost before = r@;
            r.push(line);
            proof {
                assert(self@.entries[i as int] == self.entries@[i as int]@);
                assert forall|j: int| 0 <= j < i + 1 implies stamped_line(
                    #[trigger] r@[j]@,
                    self@.entries[j],
                    self.entry_time(j),
                ) by {
                    if j < i {
                        assert(r@[j] == before[j]);
                    }
                }
            }
            i += 1;
        }
        r
    }

    /// Set the minimum level recorded.
    pub fn set_min_level(&mut self, level: ErrorLevel)
        requires
            old(self).wf(),
        ensures
            final(self).wf(),
            final(self)@ == (LoggerView { min_level: level, ..old(self)@ }),
    {
        self.min_level = level;
    }

    /// Turn writing to the log file on or off.
    pub fn set_file_logging(&mut self, enabled: bool)
        requires
            old(self).wf(),
        ensures
            final(self).wf(),
            final(self)@ == (LoggerView { file_logging_enabled: enabled, ..old(self)@ }),
    {
        self.file_logging_enabled = enabled;
    }

    /// The path of the log file.
    pub fn log_file(&self) -> (r: &str)
        ensures
            r@ == self@.log_file,
    {
        self.log_file.as_str()
    }

    /// The name of a level in the log file.
    pub fn level_string(&self, level: ErrorLevel) -> (s: &'static str)
        ensures
            s@ == level_name(level),
    {
        level_str(level)
    }

    /// The icon of a level.
    pub fn level_icon(&self, level: ErrorLevel) -> (s: &'static str)
        ensures
            s@ == level_symbol(level),
    {
        match level {
            ErrorLevel::Debug => "🔍",
            ErrorLevel::Info => "ℹ️",
            ErrorLevel::Warning => "⚠️",
            ErrorLevel::Error => "❌",
            ErrorLevel::Critical => "🚨",
        }
    }
}

fn level_str(level: ErrorLevel) -> (s: &'static str)
    ensures
        s@ == level_name(level),
{
    match level {
        ErrorLevel::Debug => "DEBUG",
        ErrorLevel::Info => "INFO",
        ErrorLevel::Warning => "WARN",
        ErrorLevel::Error => "ERROR",
        ErrorLevel::Critical => "CRITICAL",
    }
}

/// What logging does: below the minimum level nothing changes and no line
/// comes back; otherwise the entry is recorded, and a line stamped with some
/// time comes back exactly when file logging is on.
pub open spec fn log_outcome(
    before: LoggerView,
    after: LoggerView,
    line: Option<String>,
    level: ErrorLevel,
    component: Seq<char>,
    message: Seq<char>,
    context: Option<Seq<char>>,
    stack_trace: Option<Seq<char>>,
) -> bool {
    let e = EntryView { level, component, message, context, stack_trace };
    if rank(level) < rank(before.min_level) {
        after == before && line is None
    } else {
        &&& after == LoggerView {
            entries: record(before.entries, before.max_entries, e),
            ..before
        }
        &&& line is Some <==> before.file_logging_enabled
        &&& line matches Some(l) ==> exists|t: LogTime|
            t.secs >= 0 && representable(t) && #[trigger] stamped_line(l@, e, t)
    }
}

/// Logging keeps an entry exactly when its level is at or above the
/// minimum level in the severity order: the `j`-th level logged with the
/// `i`-th as minimum is recorded (the oldest entry leaving a full buffer)
/// when `i <= j`, and dropped without a line when `i > j`.
pub proof fn lemma_log_keeps_levels_at_or_above_minimum(
    before: LoggerView,
    after: LoggerView,
    line: Option<String>,
    i: int,
    j: int,
    component: Seq<char>,
    message: Seq<char>,
    context: Option<Seq<char>>,
    stack_trace: Option<Seq<char>>,
)
    requires
        0 <= i < 5,
        0 <= j < 5,
        before.min_level == severity_order()[i],
        log_outcome(before, after, line, severity_order()[j], component, message, context, stack_trace),
    ensures
        i <= j ==> after.entries == record(
            before.entries,
            before.max_entries,
            EntryView { level: severity_order()[j], component, message, context, stack_trace },
        ),
        i <= j ==> (line is Some <==> before.file_logging_enabled),
        i > j ==> after == before && line is None,
{
    if i > j {
        lemma_rank_follows_severity(j, i);
    } else if i < j {
        lemma_rank_follows_severity(i, j);
    }
}

/// The file line of `entry` stamped with the time text `time`.
pub fn format_entry_at(time: &str, entry: &LogEntry) -> (s: String)
    ensures
        s@ == entry_line(time@, entry@),
{
    let mut s = String::from_str("[");
    s.append(time);
    s.append("] ");
    s.append(level_str(entry.level));
    s.append(" [");
    s.append(entry.component.as_str());
    s.append("] ");
    s.append(entry.message.as_str());
    proof {
        reveal_strlit("[");
        reveal_strlit("] ");
        reveal_strlit(" [");
    }
    if let Some(ctx) = &entry.context {
        s.append("\n    Context: ");
        s.append(ctx.as_str());
        proof {
            reveal_strlit("\n    Context: ");
        }
    }
    if let Some(trace) = &entry.stack_trace {
        s.append("\n    Stack trace:\n");
        proof {
            reveal_strlit("\n    Stack trace:\n");
        }
        let t = indent_trace(trace.as_str());
        s.append(t.as_str());
    }
    s
}

/// The lines of `trace`, each indented by six spaces, joined by line feeds.
fn indent_trace(trace: &str) -> (s: String)
    ensures
        s@ == indented_trace(crate::chars::lines(trace@)),
{
    let ls = crate::chars::split_lines(trace);
    let mut s = String::new();
    let mut i: usize = 0;
    proof {
        reveal_strlit("      ");
        reveal_strlit("\n");
    }
    while i < ls.len()
        invariant
            0 <= i <= ls@.len(),
            ls@.map_values(|l: String| l@) == crate::chars::lines(trace@),
            s@ == indented_trace(ls@.map_values(|l: String| l@).take(i as int)),
        decreases ls@.len() - i,
    {
        let ghost all = ls@.map_values(|l: String| l@);
        if i > 0 {
            s.append("\n");
        }
        s.append("      ");
        s.append(ls[i].as_str());
        proof {
            assert(all.take(i + 1).drop_last() =~= all.take(i as int));
            assert(all.take(i + 1).last() == ls@[i as int]@);
            if i == 0 {
                assert(all.take(1).len() == 1);
            }
        }
        i += 1;
    }
    proof {
        assert(ls@.map_values(|l: String| l@).take(i as int) =~= ls@.map_values(|l: String| l@));
    }
    s
}

/// The buffer never holds more than `max_entries` entries.
pub proof fn lemma_buffer_bounded(l: &ErrorLogger)
    requires
        l.wf(),
    ensures
        l@.entries.len() <= l@.max_entries,
{
}

/// Recording keeps a full buffer full, puts the new entry last and
/// keeps the newest of the earlier entries in order.
pub proof fn lemma_record_keeps_newest(entries: Seq<EntryView>, max: nat, e: EntryView)
    requires
        0 < max,
        entries.len() <= max,
    ensures
        record(entries, max, e).len() <= max,
        record(entries, max, e).last() == e,
        forall|i: int|
            0 <= i < record(entries, max, e).len() - 1 ==> #[trigger] record(entries, max, e)[i]
                == entries[entries.len() - (record(entries, max, e).len() - 1) + i],
{
}

/// The lower-case form of a text, as `str::to_lowercase` computes it.
pub uninterp spec fn lowercase(s: Seq<char>) -> Seq<char>;

/// Calls `str::to_lowercase`.
///
/// Claimed: the result is the lower-case form of `s`, a function of the
/// characters of `s` alone (Unicode case mapping, named `lowercase` here).
#[verifier::external_body]
fn to_lowercase(s: &str) -> (r: String)
    ensures
        r@ == lowercase(s@),
{
    s.to_lowercase()
}

/// An entry matches a search when its message or component contains the
/// query, ignoring case.
pub open spec fn matches_query(e: EntryView, q: Seq<char>) -> bool {
    crate::chars::contains(lowercase(e.message), lowercase(q)) || crate::chars::contains(
        lowercase(e.component),
        lowercase(q),
    )
}

/// The entries the viewer lists: the 100 newest (of the selected level, if
/// any), newest first, then those matching a non-empty search.
pub open spec fn viewer_entries(
    entries: Seq<EntryView>,
    filter: Option<ErrorLevel>,
    query: Seq<char>,
) -> Seq<EntryView> {
    let base = match filter {
        Some(l) => newest_of_level(entries, l, 100),
        None => newest_first(entries, 100),
    };
    if query.len() == 0 {
        base
    } else {
        base.filter(|e: EntryView| matches_query(e, query))
    }
}

/// Viewer state for the error log.
pub struct ErrorLogViewer {
    filter_level: Option<ErrorLevel>,
    search_query: String,
    show_stack_traces: bool,
}

impl ErrorLogViewer {
    /// All levels, no search, stack traces hidden.
    pub fn new() -> (v: Self)
        ensures
            v.filter_level() is None,
            v.search_query()@ == Seq::<char>::empty(),
            !v.show_stack_traces(),
    {
        ErrorLogViewer { filter_level: None, search_query: String::new(), show_stack_traces: false }
    }

    pub closed spec fn filter_level(&self) -> Option<ErrorLevel> {
        self.filter_level
    }

    pub closed spec fn search_query(&self) -> String {
        self.search_query
    }

    pub closed spec fn show_stack_traces(&self) -> bool {
        self.show_stack_traces
    }

    /// Show only entries of `level`, or all.
    pub fn set_filter_level(&mut self, level: Option<ErrorLevel>)
        ensures
            final(self).filter_level() == level,
            final(self).search_query() == old(self).search_query(),
            final(self).show_stack_traces() == old(self).show_stack_traces(),
    {
        self.filter_level = level;
    }

    /// Search for `query`.
    pub fn set_search_query(&mut self, query: String)
        ensures
            final(self).filter_level() == old(self).filter_level(),
            final(self).search_query() == query,
            final(self).show_stack_traces() == old(self).show_stack_traces(),
    {
        self.search_query = query;
    }

    /// Show or hide stack traces.
    pub fn set_show_stack_traces(&mut self, show: bool)
        ensures
            final(self).filter_level() == old(self).filter_level(),
            final(self).search_query() == old(self).search_query(),
            final(self).show_stack_traces() == show,
    {
        self.show_stack_traces = show;
    }

    /// Whether stack traces are shown.
    pub fn shows_stack_traces(&self) -> (r: bool)
        ensures
            r == self.show_stack_traces(),
    {
        self.show_stack_traces
    }

    /// The entries listed for `logger`.
    pub fn visible_entries<'a>(&self, logger: &'a ErrorLogger) -> (r: Vec<&'a LogEntry>)
        ensures
            r@.map_values(|e: &LogEntry| e@) == viewer_entries(
                logger@.entries,
                self.filter_level(),
                self.search_query()@,
            ),
    {
        let base = match self.filter_level {
            Some(level) => logger.get_entries_by_level(level, 100),
            None => logger.get_entries(100),
        };
        if self.search_query.as_str().is_empty() {
            return base;
        }
        let q = to_lowercase(self.search_query.as_str());
        let qv = crate::chars::chars_of(q.as_str());
        let ghost bs = base@.map_values(|e: &LogEntry| e@);
        let ghost query = self.search_query@;
        let ghost pred = |e: EntryView| matches_query(e, query);
        let mut r: Vec<&'a LogEntry> = Vec::new();
        let mut i: usize = 0;
        while i < base.len()
            invariant
                0 <= i <= base@.len(),
                bs == base@.map_values(|e: &LogEntry| e@),
                qv@ == lowercase(query),
                pred == (|e: EntryView| matches_query(e, query)),
                r@.map_values(|e: &LogEntry| e@) == bs.take(i as int).filter(pred),
            decreases base@.len() - i,
        {
            let e = base[i];
            let m = to_lowercase(e.message.as_str());
            let c = to_lowercase(e.component.as_str());
            let mv = crate::chars::chars_of(m.as_str());
            let cv = crate::chars::chars_of(c.as_str());
            let hit = crate::chars::find_from_exec(&mv, &qv, 0).is_some()
                || crate::chars::find_from_exec(&cv, &qv, 0).is_some();
            proof {
                assert(bs[i as int] == e@);
                assert(bs.take(i + 1).drop_last() =~= bs.take(i as int));
                reveal_with_fuel(Seq::filter, 1);
                assert(hit == pred(e@));
            }
            let ghost before = r@.map_values(|e: &LogEntry| e@);
            if hit {
                r.push(e);
                assert(r@.map_values(|e: &LogEntry| e@) =~= before.push(e@));
            }
            i += 1;
        }
        assert(bs.take(i as int) =~= bs);
        r
    }
}

/// A prefix of a sequence filters to a prefix of the filtered sequence.
proof fn lemma_filter_prefix(s: Seq<EntryView>, p: spec_fn(EntryView) -> bool, i: int)
    requires
        0 <= i <= s.len(),
    ensures
        s.take(i).filter(p) == s.filter(p).take(s.take(i).filter(p).len() as int),
        s.take(i).filter(p).len() <= s.filter(p).len(),
    decreases s.len() - i,
{
    if i == s.len() {
        assert(s.take(i) =~= s);
        assert(s.filter(p).take(s.filter(p).len() as int) =~= s.filter(p));
    } else {
        lemma_filter_prefix(s, p, i + 1);
        reveal_with_fuel(Seq::filter, 1);
        assert(s.take(i + 1).drop_last() =~= s.take(i));
        let a = s.take(i).filter(p);
        let b = s.take(i + 1).filter(p);
        let f = s.filter(p);
        assert(b == if p(s[i]) { a.push(s[i]) } else { a });
        assert(a =~= f.take(a.len() as int));
    }
}

} // verus!
