//! The away-from-keyboard state machine.
//!
//! Each tick the caller hands in whether raw input was seen, how long the
//! operating system reports the user idle, and the two clocks. The machine
//! decides; it reads no clock and no device itself.
//!
//! Wall-clock values are milliseconds since the Unix epoch; monotonic values
//! are milliseconds since an origin of the caller's choosing.

use vstd::prelude::*;

verus! {

/// Idle time at which an active user counts as away: ten seconds.
pub const IDLE_THRESHOLD_MS: u64 = 10_000;

/// Largest magnitude of a wall-clock value the machine accepts. The
/// difference of any two accepted values fits in an `i64`.
pub const WALL_CLOCK_LIMIT_MS: i64 = 4_000_000_000_000_000_000;

/// Whether `t` is a wall-clock value the machine accepts.
pub open spec fn wall_clock_ok(t: i64) -> bool {
    -WALL_CLOCK_LIMIT_MS <= t <= WALL_CLOCK_LIMIT_MS
}

/// Runtime form of `wall_clock_ok`.
pub fn is_wall_clock_ok(t: i64) -> (ok: bool)
    ensures
        ok == wall_clock_ok(t),
{
    -WALL_CLOCK_LIMIT_MS <= t && t <= WALL_CLOCK_LIMIT_MS
}

/// Idle time from the operating system's two counters, in milliseconds: the
/// uptime minus the tick of the last input. A failed probe, or a last-input
/// tick ahead of the uptime, reads as no idle time at all.
pub open spec fn idle_from_probe(probe_ok: bool, uptime_ms: u64, last_input_ms: u32) -> u64 {
    if probe_ok && uptime_ms >= last_input_ms {
        (uptime_ms - last_input_ms) as u64
    } else {
        0
    }
}

/// Computes `idle_from_probe`.
pub fn get_idle_time(probe_ok: bool, uptime_ms: u64, last_input_ms: u32) -> (idle_ms: u64)
    ensures
        idle_ms == idle_from_probe(probe_ok, uptime_ms, last_input_ms),
{
    let last: u64 = last_input_ms as u64;
    if probe_ok && uptime_ms >= last {
        uptime_ms - last
    } else {
        0
    }
}

/// Whether raw input was seen this tick: any key held, or any mouse button
/// down.
pub fn input_observed(keys_held: usize, buttons_down: &Vec<bool>) -> (seen: bool)
    ensures
        seen == (keys_held > 0 || buttons_down@.contains(true)),
{
    if keys_held > 0 {
        return true;
    }
    let mut i: usize = 0;
    while i < buttons_down.len()
        invariant
            i <= buttons_down@.len(),
            forall|k: int| 0 <= k < i ==> !buttons_down@[k],
        decreases buttons_down@.len() - i,
    {
        if buttons_down[i] {
            return true;
        }
        i = i + 1;
    }
    false
}

/// What one tick did.
#[derive(Clone, Copy, Debug, PartialEq, Eq, Structural)]
pub enum AfkEvent {
    /// Nothing changed state.
    Steady,
    /// The user went away at wall-clock `at`.
    Entered { at: i64 },
    /// Input was seen while away: the user came back at `at`, after
    /// `duration_ms` away.
    Returned { at: i64, duration_ms: i64 },
    /// The idle time fell under the threshold while away, with no input seen:
    /// the away state is dropped and no interval is reported.
    Resumed,
}

/// The machine's state.
#[derive(Clone, Copy, Debug, PartialEq, Eq, Structural)]
pub struct AfkState {
    /// Monotonic time of the last tick on which input was seen.
    pub last_activity: u64,
    /// Wall-clock time at which the current or last away interval began.
    pub afk_start: Option<i64>,
    /// Wall-clock time at which the last away interval ended, until reported.
    pub afk_end: Option<i64>,
    /// Whether the user is away now.
    pub is_afk: bool,
}

/// A snapshot of the machine for the query surface.
#[derive(Clone, Copy, Debug, PartialEq, Eq, Structural)]
pub struct AfkStatus {
    /// Whole seconds since input was last seen.
    pub last_active_seconds: u64,
    pub afk_start: Option<i64>,
    pub afk_end: Option<i64>,
    /// `afk_end - afk_start` in milliseconds, when both are set.
    pub afk_duration_ms: Option<i64>,
    pub is_afk: bool,
}

impl AfkState {
    /// The start is set exactly while the user is away or an ended interval
    /// waits to be reported; the end is never set while away; every stored
    /// wall-clock value is an accepted one.
    pub open spec fn wf(&self) -> bool {
        &&& self.afk_start.is_some() <==> (self.is_afk || self.afk_end.is_some())
        &&& self.is_afk ==> self.afk_end.is_none()
        &&& self.afk_start.is_some() ==> wall_clock_ok(self.afk_start.unwrap())
        &&& self.afk_end.is_some() ==> wall_clock_ok(self.afk_end.unwrap())
    }

    /// The state at launch: active, input last seen at `now_mono`.
    pub open spec fn initial(now_mono: u64) -> AfkState {
        AfkState { last_activity: now_mono, afk_start: None, afk_end: None, is_afk: false }
    }

    /// The state after one tick.
    ///
    /// Input wins over everything: it ends an away interval (keeping its
    /// start and end for the next report) and stamps the activity time. With
    /// no input, idle time at or over the threshold starts an interval, and
    /// idle time under it silently drops one.
    pub open spec fn after_tick(self, input: bool, idle_ms: u64, now_wall: i64, now_mono: u64)
        -> AfkState {
        if input {
            if self.is_afk {
                AfkState {
                    last_activity: now_mono,
                    afk_start: self.afk_start,
                    afk_end: Some(now_wall),
                    is_afk: false,
                }
            } else {
                AfkState { last_activity: now_mono, ..self }
            }
        } else if idle_ms >= IDLE_THRESHOLD_MS {
            if self.is_afk {
                self
            } else {
                AfkState {
                    last_activity: self.last_activity,
                    afk_start: Some(now_wall),
                    afk_end: None,
                    is_afk: true,
                }
            }
        } else if self.is_afk {
            AfkState {
                last_activity: self.last_activity,
                afk_start: None,
                afk_end: None,
                is_afk: false,
            }
        } else {
            self
        }
    }

    /// What one tick reports.
    pub open spec fn event_of(self, input: bool, idle_ms: u64, now_wall: i64) -> AfkEvent {
        if input {
            if self.is_afk {
                AfkEvent::Returned {
                    at: now_wall,
                    duration_ms: (now_wall - self.afk_start.unwrap()) as i64,
                }
            } else {
                AfkEvent::Steady
            }
        } else if idle_ms >= IDLE_THRESHOLD_MS {
            if self.is_afk {
                AfkEvent::Steady
            } else {
                AfkEvent::Entered { at: now_wall }
            }
        } else if self.is_afk {
            AfkEvent::Resumed
        } else {
            AfkEvent::Steady
        }
    }

    /// Whole seconds between the last activity and `now_mono`; zero when the
    /// clock reads earlier than the last activity.
    pub open spec fn idle_seconds(self, now_mono: u64) -> u64 {
        if now_mono >= self.last_activity {
            ((now_mono - self.last_activity) / 1000) as u64
        } else {
            0
        }
    }

    /// What a query sees.
    pub open spec fn status(self, now_mono: u64) -> AfkStatus {
        AfkStatus {
            last_active_seconds: self.idle_seconds(now_mono),
            afk_start: self.afk_start,
            afk_end: self.afk_end,
            afk_duration_ms: if self.afk_start.is_some() && self.afk_end.is_some() {
                Some((self.afk_end.unwrap() - self.afk_start.unwrap()) as i64)
            } else {
                None
            },
            is_afk: self.is_afk,
        }
    }

    /// The state a query leaves behind: an ended interval is reported once,
    /// then its start and end are cleared.
    pub open spec fn after_report(self) -> AfkState {
        if self.afk_end.is_some() {
            AfkState { afk_start: None, afk_end: None, ..self }
        } else {
            self
        }
    }

    /// Makes the state at launch.
    pub fn new(now_mono: u64) -> (s: AfkState)
        ensures
            s == AfkState::initial(now_mono),
            s.wf(),
    {
        AfkState { last_activity: now_mono, afk_start: None, afk_end: None, is_afk: false }
    }

    /// Runtime form of `wf`.
    pub fn is_wf(&self) -> (ok: bool)
        ensures
            ok == self.wf(),
    {
        let start_ok = match self.afk_start {
            Some(t) => is_wall_clock_ok(t),
            None => true,
        };
        let end_ok = match self.afk_end {
            Some(t) => is_wall_clock_ok(t),
            None => true,
        };
        let pending = self.is_afk || self.afk_end.is_some();
        self.afk_start.is_some() == pending && !(self.is_afk && self.afk_end.is_some()) && start_ok
            && end_ok
    }

    /// Advances the machine by one tick and says what happened.
    pub fn tick(&mut self, input: bool, idle_ms: u64, now_wall: i64, now_mono: u64) -> (event:
        AfkEvent)
        requires
            old(self).wf(),
            wall_clock_ok(now_wall),
        ensures
            *final(self) == old(self).after_tick(input, idle_ms, now_wall, now_mono),
            event == old(self).event_of(input, idle_ms, now_wall),
            final(self).wf(),
    {
        if input {
            self.last_activity = now_mono;
            if self.is_afk {
                let started: i64 = match self.afk_start {
                    Some(t) => t,
                    None => now_wall,
                };
                self.afk_end = Some(now_wall);
                self.is_afk = false;
                AfkEvent::Returned { at: now_wall, duration_ms: now_wall - started }
            } else {
                AfkEvent::Steady
            }
        } else if idle_ms >= IDLE_THRESHOLD_MS {
            if self.is_afk {
                AfkEvent::Steady
            } else {
                self.afk_start = Some(now_wall);
                self.afk_end = None;
                self.is_afk = true;
                AfkEvent::Entered { at: now_wall }
            }
        } else if self.is_afk {
            self.is_afk = false;
            self.afk_start = None;
            self.afk_end = None;
            AfkEvent::Resumed
        } else {
            AfkEvent::Steady
        }
    }

    /// Answers a query: the snapshot as of `now_mono`. An ended interval is
    /// in the snapshot with its duration, and is cleared from the state.
    pub fn report(&mut self, now_mono: u64) -> (status: AfkStatus)
        requires
            old(self).wf(),
        ensures
            status == old(self).status(now_mono),
            *final(self) == old(self).after_report(),
            final(self).wf(),
    {
        let last_active_seconds: u64 = if now_mono >= self.last_activity {
            (now_mono - self.last_activity) / 1000
        } else {
            0
        };
        let afk_duration_ms: Option<i64> = match (self.afk_start, self.afk_end) {
            (Some(start), Some(end)) => Some(end - start),
            _ => None,
        };
        let status = AfkStatus {
            last_active_seconds,
            afk_start: self.afk_start,
            afk_end: self.afk_end,
            afk_duration_ms,
            is_afk: self.is_afk,
        };
        if self.afk_end.is_some() {
            self.afk_start = None;
            self.afk_end = None;
        }
        status
    }
}

/// The readings of one tick.
pub struct TickInput {
    pub input: bool,
    pub idle_ms: u64,
    pub now_wall: i64,
    pub now_mono: u64,
}

/// The state after a run of ticks, oldest first.
pub open spec fn after_ticks(s: AfkState, ticks: Seq<TickInput>) -> AfkState
    decreases ticks.len(),
{
    if ticks.len() == 0 {
        s
    } else {
        let t = ticks.last();
        after_ticks(s, ticks.drop_last()).after_tick(t.input, t.idle_ms, t.now_wall, t.now_mono)
    }
}

/// What tick number `j` of a run reports.
pub open spec fn event_at(s: AfkState, ticks: Seq<TickInput>, j: int) -> AfkEvent {
    let t = ticks[j];
    after_ticks(s, ticks.take(j)).event_of(t.input, t.idle_ms, t.now_wall)
}

/// A tick keeps a well-formed state well formed.
pub proof fn lemma_tick_keeps_wf(
    s: AfkState,
    input: bool,
    idle_ms: u64,
    now_wall: i64,
    now_mono: u64,
)
    requires
        s.wf(),
        wall_clock_ok(now_wall),
    ensures
        s.after_tick(input, idle_ms, now_wall, now_mono).wf(),
        s.after_report().wf(),
{
}

/// Going away: over a run of ticks without input, in which the idle time
/// grows strictly and first reaches the threshold at tick `first`, the
/// machine is active up to that tick and away from it on, the one tick that
/// reports `Entered` is `first`, and the interval's start is that tick's
/// wall-clock time for the rest of the run.
pub proof fn lemma_enters_afk_exactly_once(s: AfkState, ticks: Seq<TickInput>, first: int)
    requires
        !s.is_afk,
        forall|i: int| 0 <= i < ticks.len() ==> !(#[trigger] ticks[i]).input,
        forall|i: int, j: int|
            0 <= i < j < ticks.len() ==> (#[trigger] ticks[i]).idle_ms < (#[trigger] ticks[j]).idle_ms,
        0 <= first < ticks.len(),
        ticks[first].idle_ms >= IDLE_THRESHOLD_MS,
        forall|i: int| 0 <= i < first ==> (#[trigger] ticks[i]).idle_ms < IDLE_THRESHOLD_MS,
    ensures
        forall|j: int|
            0 <= j <= ticks.len() ==> (#[trigger] after_ticks(s, ticks.take(j))).is_afk == (j
                > first),
        forall|j: int|
            first < j <= ticks.len() ==> (#[trigger] after_ticks(s, ticks.take(j))).afk_start
                == Some(ticks[first].now_wall),
        event_at(s, ticks, first) == (AfkEvent::Entered { at: ticks[first].now_wall }),
        forall|j: int|
            0 <= j < ticks.len() && j != first ==> #[trigger] event_at(s, ticks, j)
                == AfkEvent::Steady,
{
    assert forall|j: int| 0 <= j <= ticks.len() implies ({
        let at_j = #[trigger] after_ticks(s, ticks.take(j));
        &&& at_j.is_afk == (j > first)
        &&& j > first ==> at_j.afk_start == Some(ticks[first].now_wall)
    }) by {
        lemma_run_without_input(s, ticks, first, j);
    }
    assert forall|j: int| 0 <= j < ticks.len() && j != first implies #[trigger] event_at(
        s,
        ticks,
        j,
    ) == AfkEvent::Steady by {
        lemma_run_without_input(s, ticks, first, j);
        if j > first {
            assert(ticks[first].idle_ms < ticks[j].idle_ms);
        }
    }
    lemma_run_without_input(s, ticks, first, first);
}

/// The state after the first `j` ticks of such a run.
proof fn lemma_run_without_input(s: AfkState, ticks: Seq<TickInput>, first: int, j: int)
    requires
        !s.is_afk,
        forall|i: int| 0 <= i < ticks.len() ==> !(#[trigger] ticks[i]).input,
        forall|i: int, k: int|
            0 <= i < k < ticks.len() ==> (#[trigger] ticks[i]).idle_ms < (#[trigger] ticks[k]).idle_ms,
        0 <= first < ticks.len(),
        ticks[first].idle_ms >= IDLE_THRESHOLD_MS,
        forall|i: int| 0 <= i < first ==> (#[trigger] ticks[i]).idle_ms < IDLE_THRESHOLD_MS,
        0 <= j <= ticks.len(),
    ensures
        after_ticks(s, ticks.take(j)).is_afk == (j > first),
        j > first ==> after_ticks(s, ticks.take(j)).afk_start == Some(ticks[first].now_wall),
    decreases j,
{
    if j > 0 {
        lemma_run_without_input(s, ticks, first, j - 1);
        assert(ticks.take(j).drop_last() =~= ticks.take(j - 1));
        assert(ticks.take(j).last() == ticks[j - 1]);
        if j - 1 > first {
            assert(ticks[first].idle_ms < ticks[j - 1].idle_ms);
        }
    }
}

/// Coming back: input seen while away ends the interval at that tick's
/// wall-clock time and reports its length; the next query shows start, end
/// and their difference; the query after that shows none of the three.
pub proof fn lemma_return_is_reported_once(
    s: AfkState,
    idle_ms: u64,
    now_wall: i64,
    now_mono: u64,
    first_query: u64,
    second_query: u64,
)
    requires
        s.wf(),
        s.is_afk,
        wall_clock_ok(now_wall),
    ensures
        ({
            let back = s.after_tick(true, idle_ms, now_wall, now_mono);
            let shown = back.status(first_query);
            let later = back.after_report().status(second_query);
            &&& s.event_of(true, idle_ms, now_wall) == (AfkEvent::Returned {
                at: now_wall,
                duration_ms: (now_wall - s.afk_start.unwrap()) as i64,
            })
            &&& !back.is_afk
            &&& shown.afk_start == s.afk_start
            &&& shown.afk_end == Some(now_wall)
            &&& shown.afk_duration_ms == Some((now_wall - s.afk_start.unwrap()) as i64)
            &&& shown.afk_duration_ms.unwrap() == now_wall - s.afk_start.unwrap()
            &&& later.afk_start.is_none()
            &&& later.afk_end.is_none()
            &&& later.afk_duration_ms.is_none()
            &&& !later.is_afk
        }),
{
}

} // verus!
