//! The snapshot query layer: what the engine's state looks like to a caller
//! that wants text.

use vstd::prelude::*;
use crate::afk::AfkStatus;
use crate::text::{clock_text, decimal, decimal_text, format_duration};
use crate::usage::{after_poll, keys_of, total_for, RecordView, UsageTracker};

verus! {

/// The text that chrono's `Debug` gives a `TimeDelta` of that many
/// milliseconds.
pub uninterp spec fn span_debug_text(millis: i64) -> Seq<char>;

/// The text of the date and time, as `%Y-%m-%d %H:%M:%S`, that the clock in
/// Kolkata shows at that many seconds after the Unix epoch, where chrono can
/// hold that instant.
pub uninterp spec fn kolkata_clock_text(seconds: i64) -> Option<Seq<char>>;

/// `TimeDelta::try_milliseconds` of chrono, then the `Debug` text of what it
/// made. The constructor gives nothing for the one value under `-i64::MAX`,
/// and a duration for every other.
#[verifier::external_body]
fn span_text(millis: i64) -> (text: Option<String>)
    ensures
        text.is_none() <==> millis == i64::MIN,
        text.is_some() ==> text.unwrap()@ == span_debug_text(millis),
{
    match chrono::TimeDelta::try_milliseconds(millis) {
        Some(span) => Some(format!("{:?}", span)),
        None => None,
    }
}

/// `TimeZone::timestamp_opt` of chrono on chrono-tz's `Asia::Kolkata`, then
/// `DateTime::format` with `%Y-%m-%d %H:%M:%S`. The text depends on the
/// instant alone; an instant that chrono cannot hold gives nothing.
#[verifier::external_body]
fn kolkata_text(seconds: i64) -> (text: Option<String>)
    ensures
        text.is_some() <==> kolkata_clock_text(seconds).is_some(),
        text.is_some() ==> text.unwrap()@ == kolkata_clock_text(seconds).unwrap(),
{
    match chrono::TimeZone::timestamp_opt(&chrono_tz::Asia::Kolkata, seconds, 0) {
        chrono::MappedLocalTime::Single(at) => Some(at.format("%Y-%m-%d %H:%M:%S").to_string()),
        _ => None,
    }
}

/// The away status as text.
pub struct AfkData {
    /// Whole seconds since input was last seen, in decimal digits.
    pub last_active: String,
    /// When the away interval began, in the caller's rendering.
    pub afk_start: Option<String>,
    /// When the away interval ended, in the caller's rendering.
    pub afk_end: Option<String>,
    /// How long the interval lasted.
    pub afk_duration: Option<String>,
    pub is_afk: bool,
}

/// Whether an optional string holds exactly the characters `want`, or
/// nothing where `want` is nothing.
pub open spec fn text_is(have: Option<String>, want: Option<Seq<char>>) -> bool {
    match want {
        Some(w) => have.is_some() && have.unwrap()@ == w,
        None => have.is_none(),
    }
}

/// The text of an interval's length: none where there is no length, or where
/// the length is the one value no duration can hold.
pub open spec fn duration_text_of(status: AfkStatus) -> Option<Seq<char>> {
    match status.afk_duration_ms {
        Some(d) => if d == i64::MIN {
            None
        } else {
            Some(span_debug_text(d))
        },
        None => None,
    }
}

impl AfkData {
    /// Puts a status into text. The caller renders the two instants in its
    /// local time and hands the texts in; a text for an instant that the
    /// status does not have is dropped.
    pub fn compose(status: &AfkStatus, start_text: Option<String>, end_text: Option<String>) -> (data:
        AfkData)
        ensures
            data.last_active@ == decimal(status.last_active_seconds as nat),
            data.afk_start == (if status.afk_start.is_some() {
                start_text
            } else {
                None
            }),
            data.afk_end == (if status.afk_end.is_some() {
                end_text
            } else {
                None
            }),
            text_is(data.afk_duration, duration_text_of(*status)),
            data.is_afk == status.is_afk,
    {
        let afk_duration: Option<String> = match status.afk_duration_ms {
            Some(d) => span_text(d),
            None => None,
        };
        AfkData {
            last_active: decimal_text(status.last_active_seconds),
            afk_start: if status.afk_start.is_some() {
                start_text
            } else {
                None
            },
            afk_end: if status.afk_end.is_some() {
                end_text
            } else {
                None
            },
            afk_duration,
            is_afk: status.is_afk,
        }
    }
}

/// The start time to show for a process: its own, unless that is unknown
/// (zero) or more than a minute before the agent's launch, in which case the
/// launch time stands in.
pub open spec fn adjusted_start(process_start: i64, launch: i64) -> i64 {
    if process_start == 0 || process_start < launch - 60 {
        launch
    } else {
        process_start
    }
}

/// Computes `adjusted_start`.
pub fn adjusted_start_time(process_start: i64, launch: i64) -> (start: i64)
    ensures
        start == adjusted_start(process_start, launch),
{
    if process_start == 0 || (process_start as i128) < (launch as i128) - 60 {
        launch
    } else {
        process_start
    }
}

/// A process found by one enumeration.
pub struct ProcessSeen {
    /// The process name: its key in the accumulator.
    pub name: String,
    pub pid: u32,
    /// Start of the process in seconds after the Unix epoch; zero if unknown.
    pub start_time: i64,
}

/// The times of one running process.
pub struct RunningTimes {
    pub name: String,
    pub pid: u32,
    /// Start of the process on the clock in Kolkata; none where the instant
    /// is beyond what a date can hold.
    pub start_time: Option<String>,
    /// Time the process name has been running in all, as `HH:MM:SS`.
    pub running_time: String,
}

/// The names of the processes, in order.
pub open spec fn names_of(ps: Seq<ProcessSeen>) -> Seq<Seq<char>> {
    Seq::new(ps.len(), |i: int| ps[i].name@)
}

/// Whether `line` is the line of process `p` under the records `rs`.
pub open spec fn is_line_of(line: RunningTimes, p: ProcessSeen, launch: i64, rs: Seq<RecordView>)
    -> bool {
    &&& line.name@ == p.name@
    &&& line.pid == p.pid
    &&& text_is(line.start_time, kolkata_clock_text(adjusted_start(p.start_time, launch)))
    &&& line.running_time@ == clock_text(total_for(rs, p.name@))
}

/// One enumeration of the processes: polls the accumulator with their names
/// and lists, for each process, when it started and how long its name has
/// been running.
pub fn get_running_apps(
    tracker: &mut UsageTracker,
    processes: &Vec<ProcessSeen>,
    launch: i64,
    now: i64,
) -> (lines: Vec<RunningTimes>)
    requires
        old(tracker).wf(),
    ensures
        final(tracker)@ == after_poll(
            old(tracker)@,
            names_of(processes@),
            now as int,
            old(tracker).cap(),
        ),
        final(tracker).cap() == old(tracker).cap(),
        final(tracker).wf(),
        lines@.len() == processes@.len(),
        forall|i: int|
            0 <= i < lines@.len() ==> is_line_of(
                #[trigger] lines@[i],
                processes@[i],
                launch,
                final(tracker)@,
            ),
{
    let n: usize = processes.len();
    let mut names: Vec<String> = Vec::new();
    let mut i: usize = 0;
    while i < n
        invariant
            i <= n,
            n == processes@.len(),
            names@.len() == i,
            forall|k: int| 0 <= k < i ==> (#[trigger] names@[k])@ == processes@[k].name@,
        decreases n - i,
    {
        names.push(processes[i].name.clone());
        i = i + 1;
    }
    assert(keys_of(names@) =~= names_of(processes@));
    tracker.poll(&names, now);

    let mut lines: Vec<RunningTimes> = Vec::new();
    let mut j: usize = 0;
    while j < n
        invariant
            j <= n,
            n == processes@.len(),
            tracker.wf(),
            lines@.len() == j,
            forall|k: int|
                0 <= k < j ==> is_line_of(#[trigger] lines@[k], processes@[k], launch, tracker@),
        decreases n - j,
    {
        let p = &processes[j];
        let line = RunningTimes {
            name: p.name.clone(),
            pid: p.pid,
            start_time: kolkata_text(adjusted_start_time(p.start_time, launch)),
            running_time: format_duration(tracker.total_of(&p.name)),
        };
        lines.push(line);
        j = j + 1;
    }
    lines
}

} // verus!
