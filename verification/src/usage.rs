//! The usage accumulator: for each key that has ever been observed, the time
//! it has spent under observation.
//!
//! A poll hands in the keys observed now and the wall-clock time in seconds.
//! A key that stays observed gains the time since the previous poll, capped
//! at the tracker's largest per-poll gain so that a suspended machine does not
//! invent hours of usage. A key that drops out freezes; when it comes back it
//! starts again from that moment, and the gap counts for nothing.
//!
//! Records are kept in the order in which their keys were first observed, one
//! record per key, and are never removed.

use vstd::prelude::*;

verus! {

/// Largest total a record can hold, in seconds. A total that would pass it
/// stays at it.
pub const TOTAL_LIMIT: i64 = 9_223_372_036_854_775;

/// What is known of one key.
pub struct UsageRecord {
    /// The key: a process name or a window title.
    pub key: String,
    /// Seconds accrued so far.
    pub total_seconds: i64,
    /// Wall-clock second of the last poll that observed the key.
    pub last_update: i64,
    /// Whether the latest poll observed the key.
    pub is_running: bool,
    /// Seconds that the latest poll added to the total.
    pub last_gain: i64,
}

/// The mathematical content of a `UsageRecord`.
pub struct RecordView {
    pub key: Seq<char>,
    pub total_seconds: int,
    pub last_update: int,
    pub is_running: bool,
    pub last_gain: int,
}

impl View for UsageRecord {
    type V = RecordView;

    open spec fn view(&self) -> RecordView {
        RecordView {
            key: self.key@,
            total_seconds: self.total_seconds as int,
            last_update: self.last_update as int,
            is_running: self.is_running,
            last_gain: self.last_gain as int,
        }
    }
}

/// The views of a sequence of records.
pub open spec fn views(rs: Seq<UsageRecord>) -> Seq<RecordView> {
    Seq::new(rs.len(), |i: int| rs[i]@)
}

/// The views of a sequence of keys.
pub open spec fn keys_of(keys: Seq<String>) -> Seq<Seq<char>> {
    Seq::new(keys.len(), |i: int| keys[i]@)
}

/// Seconds a running key gains between `last_update` and `now`: the time
/// elapsed, never negative and never more than `cap`.
pub open spec fn gain(last_update: int, now: int, cap: int) -> int {
    let elapsed = now - last_update;
    if elapsed <= 0 {
        0
    } else if elapsed > cap {
        cap
    } else {
        elapsed
    }
}

/// A total after a gain, held at `TOTAL_LIMIT`.
pub open spec fn grown(total: int, gained: int) -> int {
    if total + gained > TOTAL_LIMIT {
        TOTAL_LIMIT as int
    } else {
        total + gained
    }
}

/// One record after a poll at `now` that did (`seen`) or did not observe its
/// key.
///
/// Observed and running: the record gains. Observed after an absence: it
/// restarts at `now` with its total untouched. Not observed: it freezes.
pub open spec fn advance(r: RecordView, seen: bool, now: int, cap: int) -> RecordView {
    if seen {
        if r.is_running {
            RecordView {
                key: r.key,
                total_seconds: grown(r.total_seconds, gain(r.last_update, now, cap)),
                last_update: now,
                is_running: true,
                last_gain: grown(r.total_seconds, gain(r.last_update, now, cap)) - r.total_seconds,
            }
        } else {
            RecordView {
                key: r.key,
                total_seconds: r.total_seconds,
                last_update: now,
                is_running: true,
                last_gain: 0,
            }
        }
    } else {
        RecordView {
            key: r.key,
            total_seconds: r.total_seconds,
            last_update: r.last_update,
            is_running: false,
            last_gain: 0,
        }
    }
}

/// The record of a key observed for the first time at `now`.
pub open spec fn fresh(key: Seq<char>, now: int) -> RecordView {
    RecordView { key, total_seconds: 0, last_update: now, is_running: true, last_gain: 0 }
}

/// Whether some record of `rs` has the key `key`.
pub open spec fn knows(rs: Seq<RecordView>, key: Seq<char>) -> bool {
    exists|i: int| 0 <= i < rs.len() && (#[trigger] rs[i]).key == key
}

/// The place of the record of `key`, where there is one.
pub open spec fn place_of(rs: Seq<RecordView>, key: Seq<char>) -> int {
    choose|i: int| 0 <= i < rs.len() && (#[trigger] rs[i]).key == key
}

/// The total of `key`: zero where no record has it.
pub open spec fn total_for(rs: Seq<RecordView>, key: Seq<char>) -> int {
    if knows(rs, key) {
        rs[place_of(rs, key)].total_seconds
    } else {
        0
    }
}

/// The latest gain of `key`: zero where no record has it.
pub open spec fn last_gain_for(rs: Seq<RecordView>, key: Seq<char>) -> int {
    if knows(rs, key) {
        rs[place_of(rs, key)].last_gain
    } else {
        0
    }
}

/// No two records share a key.
pub open spec fn distinct_keys(rs: Seq<RecordView>) -> bool {
    forall|i: int, j: int|
        0 <= i < j < rs.len() ==> (#[trigger] rs[i]).key != (#[trigger] rs[j]).key
}

/// Every total and every gain lies in its range.
pub open spec fn totals_in_range(rs: Seq<RecordView>) -> bool {
    forall|i: int|
        0 <= i < rs.len() ==> 0 <= (#[trigger] rs[i]).total_seconds <= TOTAL_LIMIT && 0
            <= rs[i].last_gain <= TOTAL_LIMIT
}

/// Well-formedness of a tracker's records.
pub open spec fn records_wf(rs: Seq<RecordView>) -> bool {
    distinct_keys(rs) && totals_in_range(rs)
}

/// Every record advanced by one poll.
pub open spec fn advance_all(rs: Seq<RecordView>, seen: Seq<Seq<char>>, now: int, cap: int) -> Seq<
    RecordView,
> {
    Seq::new(rs.len(), |i: int| advance(rs[i], seen.contains(rs[i].key), now, cap))
}

/// The records with a fresh one added at the back for each observed key that
/// has none yet, in the order in which the keys are listed.
pub open spec fn enroll(rs: Seq<RecordView>, seen: Seq<Seq<char>>, now: int) -> Seq<RecordView>
    decreases seen.len(),
{
    if seen.len() == 0 {
        rs
    } else {
        let before = enroll(rs, seen.drop_last(), now);
        if knows(before, seen.last()) {
            before
        } else {
            before.push(fresh(seen.last(), now))
        }
    }
}

/// The records after one poll.
pub open spec fn after_poll(rs: Seq<RecordView>, seen: Seq<Seq<char>>, now: int, cap: int) -> Seq<
    RecordView,
> {
    enroll(advance_all(rs, seen, now, cap), seen, now)
}

/// One line of a snapshot.
pub struct UsageEntry {
    pub key: String,
    pub total_seconds: i64,
    pub is_running: bool,
}

/// The snapshot line of a record: its key, its total, whether it runs.
pub open spec fn entry_matches(e: UsageEntry, r: RecordView) -> bool {
    e.key@ == r.key && e.total_seconds == r.total_seconds && e.is_running == r.is_running
}

/// The snapshot of a sequence of records: one line per record, in order.
pub open spec fn snapshot_matches(es: Seq<UsageEntry>, rs: Seq<RecordView>) -> bool {
    es.len() == rs.len() && forall|i: int|
        0 <= i < es.len() ==> entry_matches(#[trigger] es[i], rs[i])
}

/// Enrolling keys keeps every record there was, at its place.
pub proof fn lemma_enroll_keeps_prefix(rs: Seq<RecordView>, seen: Seq<Seq<char>>, now: int)
    ensures
        enroll(rs, seen, now).len() >= rs.len(),
        forall|i: int| 0 <= i < rs.len() ==> #[trigger] enroll(rs, seen, now)[i] == rs[i],
        forall|i: int|
            rs.len() <= i < enroll(rs, seen, now).len() ==> {
                &&& seen.contains((#[trigger] enroll(rs, seen, now)[i]).key)
                &&& enroll(rs, seen, now)[i] == fresh(enroll(rs, seen, now)[i].key, now)
            },
    decreases seen.len(),
{
    if seen.len() > 0 {
        lemma_enroll_keeps_prefix(rs, seen.drop_last(), now);
        let before = enroll(rs, seen.drop_last(), now);
        let all = enroll(rs, seen, now);
        assert forall|i: int| rs.len() <= i < all.len() implies seen.contains(
            (#[trigger] all[i]).key,
        ) by {
            if i < before.len() {
                let k = choose|k: int|
                    0 <= k < seen.drop_last().len() && seen.drop_last()[k] == before[i].key;
                assert(seen[k] == before[i].key);
            } else {
                assert(seen[seen.len() - 1] == all[i].key);
            }
        }
    }
}

/// Enrolling keys keeps well-formed records well formed, and leaves every
/// listed key with a record.
pub proof fn lemma_enroll_wf(rs: Seq<RecordView>, seen: Seq<Seq<char>>, now: int)
    requires
        records_wf(rs),
    ensures
        records_wf(enroll(rs, seen, now)),
        forall|k: int| 0 <= k < seen.len() ==> knows(enroll(rs, seen, now), #[trigger] seen[k]),
    decreases seen.len(),
{
    if seen.len() > 0 {
        let shorter = seen.drop_last();
        lemma_enroll_wf(rs, shorter, now);
        let before = enroll(rs, shorter, now);
        let all = enroll(rs, seen, now);
        if !knows(before, seen.last()) {
            assert forall|i: int, j: int| 0 <= i < j < all.len() implies (#[trigger] all[i]).key
                != (#[trigger] all[j]).key by {
                if j == before.len() {
                    assert(before[i].key != seen.last());
                }
            }
        }
        assert forall|k: int| 0 <= k < seen.len() implies knows(all, #[trigger] seen[k]) by {
            if k < seen.len() - 1 {
                assert(knows(before, shorter[k]));
                let i = choose|i: int| 0 <= i < before.len() && before[i].key == shorter[k];
                assert(all[i].key == seen[k]);
            } else if knows(before, seen.last()) {
            } else {
                assert(all[all.len() - 1].key == seen[k]);
            }
        }
    }
}

/// Advancing keeps well-formed records well formed, for any cap that is not
/// negative.
pub proof fn lemma_advance_wf(rs: Seq<RecordView>, seen: Seq<Seq<char>>, now: int, cap: int)
    requires
        records_wf(rs),
        0 <= cap,
    ensures
        records_wf(advance_all(rs, seen, now, cap)),
{
    let moved = advance_all(rs, seen, now, cap);
    assert forall|i: int, j: int| 0 <= i < j < moved.len() implies (#[trigger] moved[i]).key
        != (#[trigger] moved[j]).key by {
        assert(rs[i].key != rs[j].key);
    }
    assert forall|i: int| 0 <= i < moved.len() implies 0 <= (#[trigger] moved[i]).total_seconds
        <= TOTAL_LIMIT && 0 <= moved[i].last_gain <= TOTAL_LIMIT by {
        assert(0 <= rs[i].total_seconds <= TOTAL_LIMIT);
    }
}

/// A poll keeps well-formed records well formed, for any cap that is not
/// negative.
pub proof fn lemma_poll_wf(rs: Seq<RecordView>, seen: Seq<Seq<char>>, now: int, cap: int)
    requires
        records_wf(rs),
        0 <= cap,
    ensures
        records_wf(after_poll(rs, seen, now, cap)),
{
    lemma_advance_wf(rs, seen, now, cap);
    lemma_enroll_wf(advance_all(rs, seen, now, cap), seen, now);
}

/// The accumulator.
pub struct UsageTracker {
    records: Vec<UsageRecord>,
    max_gain: i64,
}

impl View for UsageTracker {
    type V = Seq<RecordView>;

    closed spec fn view(&self) -> Seq<RecordView> {
        views(self.records@)
    }
}

/// Whether `key` is among `seen`.
pub fn listed(seen: &Vec<String>, key: &String) -> (hit: bool)
    ensures
        hit == keys_of(seen@).contains(key@),
{
    let mut i: usize = 0;
    while i < seen.len()
        invariant
            i <= seen@.len(),
            forall|k: int| 0 <= k < i ==> keys_of(seen@)[k] != key@,
        decreases seen@.len() - i,
    {
        if seen[i] == *key {
            assert(keys_of(seen@)[i as int] == key@);
            return true;
        }
        i = i + 1;
    }
    false
}

/// Where the record of `key` stands, if there is one.
fn position(records: &Vec<UsageRecord>, key: &String) -> (at: Option<usize>)
    ensures
        at.is_some() <==> knows(views(records@), key@),
        at.is_some() ==> at.unwrap() < records@.len() && records@[at.unwrap() as int].key@ == key@,
{
    let mut i: usize = 0;
    while i < records.len()
        invariant
            i <= records@.len(),
            forall|k: int| 0 <= k < i ==> (#[trigger] views(records@)[k]).key != key@,
        decreases records@.len() - i,
    {
        if records[i].key == *key {
            assert(views(records@)[i as int].key == key@);
            return Some(i);
        }
        i = i + 1;
    }
    None
}

/// Computes `gain`.
fn measured_gain(last_update: i64, now: i64, cap: i64) -> (g: i64)
    requires
        0 <= cap,
    ensures
        g == gain(last_update as int, now as int, cap as int),
{
    let elapsed: i128 = (now as i128) - (last_update as i128);
    if elapsed <= 0 {
        0
    } else if elapsed > cap as i128 {
        cap
    } else {
        elapsed as i64
    }
}

/// Computes `grown`.
fn grown_total(total: i64, gained: i64) -> (t: i64)
    requires
        0 <= total <= TOTAL_LIMIT,
        0 <= gained,
    ensures
        t == grown(total as int, gained as int),
{
    if gained > TOTAL_LIMIT - total {
        TOTAL_LIMIT
    } else {
        total + gained
    }
}

impl UsageTracker {
    /// The largest number of seconds one poll can add to a record.
    pub closed spec fn cap(&self) -> int {
        self.max_gain as int
    }

    /// The records are well formed and the cap is not negative.
    pub open spec fn wf(&self) -> bool {
        records_wf(self@) && 0 <= self.cap()
    }

    /// A tracker that knows no key. `max_gain_seconds` is the most that one
    /// poll may add to a record: the nominal poll interval, or a little more.
    pub fn new(max_gain_seconds: u32) -> (t: UsageTracker)
        ensures
            t@ == Seq::<RecordView>::empty(),
            t.cap() == max_gain_seconds,
            t.wf(),
    {
        let t = UsageTracker { records: Vec::new(), max_gain: max_gain_seconds as i64 };
        assert(t@ =~= Seq::<RecordView>::empty());
        t
    }

    /// Number of keys ever observed.
    pub fn len(&self) -> (n: usize)
        ensures
            n == self@.len(),
    {
        self.records.len()
    }

    /// The largest number of seconds one poll can add to a record.
    pub fn max_gain(&self) -> (cap: i64)
        ensures
            cap == self.cap(),
    {
        self.max_gain
    }

    /// One poll: every known record advances, then every observed key that
    /// has no record yet gets a fresh one.
    pub fn poll(&mut self, seen: &Vec<String>, now: i64)
        requires
            old(self).wf(),
        ensures
            final(self)@ == after_poll(old(self)@, keys_of(seen@), now as int, old(self).cap()),
            final(self).cap() == old(self).cap(),
            final(self).wf(),
    {
        let ghost before = self@;
        let ghost keys = keys_of(seen@);
        let cap: i64 = self.max_gain;
        let n: usize = self.records.len();
        let mut i: usize = 0;
        while i < n
            invariant
                i <= n,
                n == self.records@.len(),
                n == before.len(),
                self.max_gain == cap,
                0 <= cap,
                keys == keys_of(seen@),
                totals_in_range(before),
                forall|k: int|
                    0 <= k < i ==> #[trigger] views(self.records@)[k] == advance(
                        before[k],
                        keys.contains(before[k].key),
                        now as int,
                        cap as int,
                    ),
                forall|k: int| i <= k < n ==> #[trigger] views(self.records@)[k] == before[k],
            decreases n - i,
        {
            let hit: bool = listed(seen, &self.records[i].key);
            let ghost prior = self.records@;
            assert(views(prior)[i as int] == before[i as int]);
            assert(0 <= before[i as int].total_seconds <= TOTAL_LIMIT);
            let r = &mut self.records[i];
            if hit {
                if r.is_running {
                    let g: i64 = measured_gain(r.last_update, now, cap);
                    let total: i64 = grown_total(r.total_seconds, g);
                    r.last_gain = total - r.total_seconds;
                    r.total_seconds = total;
                } else {
                    r.last_gain = 0;
                }
                r.last_update = now;
                r.is_running = true;
            } else {
                r.is_running = false;
                r.last_gain = 0;
            }
            proof {
                assert forall|k: int| 0 <= k < n && k != i implies #[trigger] views(
                    self.records@,
                )[k] == views(prior)[k] by {}
            }
            i = i + 1;
        }
        proof {
            assert(views(self.records@) =~= advance_all(before, keys, now as int, cap as int));
            lemma_poll_wf(before, keys, now as int, cap as int);
        }
        let ghost moved = views(self.records@);
        let m: usize = seen.len();
        let mut j: usize = 0;
        while j < m
            invariant
                j <= m,
                m == seen@.len(),
                self.max_gain == cap,
                keys == keys_of(seen@),
                views(self.records@) == enroll(moved, keys.take(j as int), now as int),
            decreases m - j,
        {
            proof {
                assert(keys.take(j + 1).drop_last() =~= keys.take(j as int));
                assert(keys.take(j + 1).last() == seen@[j as int]@);
            }
            let at = position(&self.records, &seen[j]);
            if at.is_none() {
                let ghost prior = self.records@;
                let key: String = seen[j].clone();
                self.records.push(
                    UsageRecord {
                        key,
                        total_seconds: 0,
                        last_update: now,
                        is_running: true,
                        last_gain: 0,
                    },
                );
                assert(views(self.records@) =~= views(prior).push(
                    fresh(seen@[j as int]@, now as int),
                ));
            }
            j = j + 1;
        }
        proof {
            assert(keys.take(m as int) =~= keys);
        }
    }

    /// The record at place `i`, in first-observed order.
    pub fn record_at(&self, i: usize) -> (r: &UsageRecord)
        requires
            i < self@.len(),
        ensures
            r@ == self@[i as int],
    {
        &self.records[i]
    }

    /// The total of `key` in seconds: zero for a key never observed.
    pub fn total_of(&self, key: &String) -> (total: i64)
        requires
            self.wf(),
        ensures
            total == total_for(self@, key@),
            0 <= total <= TOTAL_LIMIT,
    {
        match position(&self.records, key) {
            Some(i) => {
                assert(self@[i as int].key == key@);
                self.records[i].total_seconds
            },
            None => 0,
        }
    }

    /// The seconds that the latest poll added to `key`: zero for a key never
    /// observed.
    pub fn last_gain_of(&self, key: &String) -> (gained: i64)
        requires
            self.wf(),
        ensures
            gained == last_gain_for(self@, key@),
            0 <= gained <= TOTAL_LIMIT,
    {
        match position(&self.records, key) {
            Some(i) => {
                assert(self@[i as int].key == key@);
                self.records[i].last_gain
            },
            None => 0,
        }
    }

    /// The current records as snapshot lines, in first-observed order. The
    /// tracker is left as it was, so two snapshots with no poll between them
    /// are equal.
    pub fn snapshot(&self) -> (lines: Vec<UsageEntry>)
        ensures
            snapshot_matches(lines@, self@),
    {
        let mut lines: Vec<UsageEntry> = Vec::new();
        let n: usize = self.records.len();
        let mut i: usize = 0;
        while i < n
            invariant
                i <= n,
                n == self.records@.len(),
                lines@.len() == i,
                forall|k: int| 0 <= k < i ==> entry_matches(#[trigger] lines@[k], self@[k]),
            decreases n - i,
        {
            let r = &self.records[i];
            lines.push(
                UsageEntry {
                    key: r.key.clone(),
                    total_seconds: r.total_seconds,
                    is_running: r.is_running,
                },
            );
            i = i + 1;
        }
        lines
    }

    /// The record of `key`, if the key was ever observed.
    pub fn lookup(&self, key: &String) -> (found: Option<UsageEntry>)
        ensures
            found.is_some() <==> knows(self@, key@),
            found.is_some() ==> exists|i: int|
                0 <= i < self@.len() && entry_matches(found.unwrap(), #[trigger] self@[i])
                    && self@[i].key == key@,
    {
        match position(&self.records, key) {
            Some(i) => {
                let r = &self.records[i];
                assert(self@[i as int].key == key@);
                Some(
                    UsageEntry {
                        key: r.key.clone(),
                        total_seconds: r.total_seconds,
                        is_running: r.is_running,
                    },
                )
            },
            None => None,
        }
    }
}

/// What one poll hands in: the keys observed and the wall-clock second.
pub struct Poll {
    pub seen: Seq<Seq<char>>,
    pub now: int,
}

/// The records after a run of polls, oldest first.
pub open spec fn after_polls(rs: Seq<RecordView>, polls: Seq<Poll>, cap: int) -> Seq<RecordView>
    decreases polls.len(),
{
    if polls.len() == 0 {
        rs
    } else {
        after_poll(after_polls(rs, polls.drop_last(), cap), polls.last().seen, polls.last().now, cap)
    }
}

/// The time of the latest of a run of polls, or `start` if the run is empty.
pub open spec fn latest(start: int, polls: Seq<Poll>) -> int {
    if polls.len() == 0 {
        start
    } else {
        polls.last().now
    }
}

/// The sum of the gains that a key last updated at `start` makes over a run
/// of polls that all observe it.
pub open spec fn gains(start: int, polls: Seq<Poll>, cap: int) -> int
    decreases polls.len(),
{
    if polls.len() == 0 {
        0
    } else {
        gains(start, polls.drop_last(), cap) + gain(
            latest(start, polls.drop_last()),
            polls.last().now,
            cap,
        )
    }
}

/// One poll moves the record at place `i` by `advance` and leaves it at its
/// place; its key stays and its total does not shrink.
pub proof fn lemma_poll_never_loses(
    rs: Seq<RecordView>,
    seen: Seq<Seq<char>>,
    now: int,
    cap: int,
    i: int,
)
    requires
        records_wf(rs),
        0 <= cap,
        0 <= i < rs.len(),
    ensures
        after_poll(rs, seen, now, cap).len() >= rs.len(),
        after_poll(rs, seen, now, cap)[i] == advance(rs[i], seen.contains(rs[i].key), now, cap),
        after_poll(rs, seen, now, cap)[i].key == rs[i].key,
        after_poll(rs, seen, now, cap)[i].total_seconds >= rs[i].total_seconds,
{
    lemma_enroll_keeps_prefix(advance_all(rs, seen, now, cap), seen, now);
    assert(0 <= rs[i].total_seconds <= TOTAL_LIMIT);
}

/// A run of polls keeps well-formed records well formed and every record at
/// its place under its key, with a total that did not shrink.
pub proof fn lemma_polls_keep_records(rs: Seq<RecordView>, polls: Seq<Poll>, cap: int, i: int)
    requires
        records_wf(rs),
        0 <= cap,
        0 <= i < rs.len(),
    ensures
        records_wf(after_polls(rs, polls, cap)),
        after_polls(rs, polls, cap).len() >= rs.len(),
        after_polls(rs, polls, cap)[i].key == rs[i].key,
        after_polls(rs, polls, cap)[i].total_seconds >= rs[i].total_seconds,
    decreases polls.len(),
{
    if polls.len() > 0 {
        lemma_polls_keep_records(rs, polls.drop_last(), cap, i);
        let mid = after_polls(rs, polls.drop_last(), cap);
        lemma_poll_wf(mid, polls.last().seen, polls.last().now, cap);
        lemma_poll_never_loses(mid, polls.last().seen, polls.last().now, cap, i);
    }
}

/// Totals never shrink from one poll of a run to the next.
pub proof fn lemma_totals_never_shrink(
    rs: Seq<RecordView>,
    polls: Seq<Poll>,
    cap: int,
    i: int,
    j: int,
)
    requires
        records_wf(rs),
        0 <= cap,
        0 <= i < rs.len(),
        0 <= j < polls.len(),
    ensures
        after_polls(rs, polls.take(j), cap).len() > i,
        after_polls(rs, polls.take(j + 1), cap).len() > i,
        after_polls(rs, polls.take(j), cap)[i].total_seconds <= after_polls(
            rs,
            polls.take(j + 1),
            cap,
        )[i].total_seconds,
{
    assert(polls.take(j + 1).drop_last() =~= polls.take(j));
    lemma_polls_keep_records(rs, polls.take(j), cap, i);
    let mid = after_polls(rs, polls.take(j), cap);
    lemma_poll_never_loses(mid, polls[j].seen, polls[j].now, cap, i);
}

/// Gains are never negative.
pub proof fn lemma_gains_not_negative(start: int, polls: Seq<Poll>, cap: int)
    requires
        0 <= cap,
    ensures
        0 <= gains(start, polls, cap),
    decreases polls.len(),
{
    if polls.len() > 0 {
        lemma_gains_not_negative(start, polls.drop_last(), cap);
    }
}

/// Continuous observation: a running key that every poll of a run observes
/// ends with its total grown by the sum of the per-poll gains, held at
/// `TOTAL_LIMIT`; it is still running, last updated at the latest poll.
pub proof fn lemma_continuous_accrual(rs: Seq<RecordView>, polls: Seq<Poll>, cap: int, i: int)
    requires
        records_wf(rs),
        0 <= cap,
        0 <= i < rs.len(),
        rs[i].is_running,
        forall|p: int| 0 <= p < polls.len() ==> (#[trigger] polls[p]).seen.contains(rs[i].key),
    ensures
        after_polls(rs, polls, cap).len() > i,
        after_polls(rs, polls, cap)[i].key == rs[i].key,
        after_polls(rs, polls, cap)[i].is_running,
        after_polls(rs, polls, cap)[i].last_update == latest(rs[i].last_update, polls),
        after_polls(rs, polls, cap)[i].total_seconds == grown(
            rs[i].total_seconds,
            gains(rs[i].last_update, polls, cap),
        ),
        rs[i].total_seconds + gains(rs[i].last_update, polls, cap) <= TOTAL_LIMIT ==> after_polls(
            rs,
            polls,
            cap,
        )[i].total_seconds == rs[i].total_seconds + gains(rs[i].last_update, polls, cap),
    decreases polls.len(),
{
    if polls.len() > 0 {
        let shorter = polls.drop_last();
        assert forall|p: int| 0 <= p < shorter.len() implies (#[trigger] shorter[p]).seen.contains(
            rs[i].key,
        ) by {
            assert(shorter[p] == polls[p]);
        }
        lemma_continuous_accrual(rs, shorter, cap, i);
        lemma_polls_keep_records(rs, shorter, cap, i);
        lemma_gains_not_negative(rs[i].last_update, shorter, cap);
        let mid = after_polls(rs, shorter, cap);
        assert(polls.last() == polls[polls.len() - 1]);
        lemma_poll_never_loses(mid, polls.last().seen, polls.last().now, cap, i);
    }
}

/// With a clock that never runs backwards and polls no further apart than
/// the cap, the gains of a run add up to the time between its start and its
/// latest poll: the sum of the measured deltas.
pub proof fn lemma_gains_of_steady_polls(start: int, polls: Seq<Poll>, cap: int)
    requires
        0 <= cap,
        forall|p: int|
            0 <= p < polls.len() ==> 0 <= (#[trigger] polls[p]).now - latest(start, polls.take(p))
                <= cap,
    ensures
        gains(start, polls, cap) == latest(start, polls) - start,
    decreases polls.len(),
{
    if polls.len() > 0 {
        let shorter = polls.drop_last();
        assert forall|p: int| 0 <= p < shorter.len() implies 0 <= (#[trigger] shorter[p]).now
            - latest(start, shorter.take(p)) <= cap by {
            assert(shorter[p] == polls[p]);
            assert(shorter.take(p) =~= polls.take(p));
        }
        lemma_gains_of_steady_polls(start, shorter, cap);
        let last = polls.len() - 1;
        assert(polls.take(last) =~= shorter);
        assert(0 <= polls[last].now - latest(start, polls.take(last)) <= cap);
    }
}

/// Absence freezes: over a run of polls none of which observes a key, its
/// total stays as it was, and after the first such poll it no longer runs.
pub proof fn lemma_absence_freezes(rs: Seq<RecordView>, gap: Seq<Poll>, cap: int, i: int)
    requires
        records_wf(rs),
        0 <= cap,
        0 <= i < rs.len(),
        forall|p: int| 0 <= p < gap.len() ==> !(#[trigger] gap[p]).seen.contains(rs[i].key),
    ensures
        after_polls(rs, gap, cap).len() > i,
        after_polls(rs, gap, cap)[i].key == rs[i].key,
        after_polls(rs, gap, cap)[i].total_seconds == rs[i].total_seconds,
        after_polls(rs, gap, cap)[i].last_update == rs[i].last_update,
        gap.len() > 0 ==> !after_polls(rs, gap, cap)[i].is_running,
        gap.len() == 0 ==> after_polls(rs, gap, cap)[i] == rs[i],
    decreases gap.len(),
{
    if gap.len() > 0 {
        let shorter = gap.drop_last();
        assert forall|p: int| 0 <= p < shorter.len() implies !(#[trigger] shorter[p]).seen.contains(
            rs[i].key,
        ) by {
            assert(shorter[p] == gap[p]);
        }
        lemma_absence_freezes(rs, shorter, cap, i);
        lemma_polls_keep_records(rs, shorter, cap, i);
        let mid = after_polls(rs, shorter, cap);
        assert(gap.last() == gap[gap.len() - 1]);
        lemma_poll_never_loses(mid, gap.last().seen, gap.last().now, cap, i);
    }
}

/// The gap counts for nothing: a key that is absent for a run of polls (at
/// least one), then observed again at `back`, then observed by every poll of
/// `later`, ends with the total it had when it dropped out plus the gains made
/// after `back` alone. The poll at `back` itself adds nothing.
pub proof fn lemma_gap_counts_for_nothing(
    rs: Seq<RecordView>,
    gap: Seq<Poll>,
    back: Poll,
    later: Seq<Poll>,
    cap: int,
    i: int,
)
    requires
        records_wf(rs),
        0 <= cap,
        0 <= i < rs.len(),
        gap.len() > 0,
        forall|p: int| 0 <= p < gap.len() ==> !(#[trigger] gap[p]).seen.contains(rs[i].key),
        back.seen.contains(rs[i].key),
        forall|p: int| 0 <= p < later.len() ==> (#[trigger] later[p]).seen.contains(rs[i].key),
    ensures
        ({
            let returned = after_poll(after_polls(rs, gap, cap), back.seen, back.now, cap);
            let end = after_polls(returned, later, cap);
            &&& returned.len() > i
            &&& returned[i].total_seconds == rs[i].total_seconds
            &&& returned[i].is_running
            &&& returned[i].last_update == back.now
            &&& returned[i].last_gain == 0
            &&& end.len() > i
            &&& end[i].key == rs[i].key
            &&& end[i].total_seconds == grown(rs[i].total_seconds, gains(back.now, later, cap))
        }),
{
    lemma_absence_freezes(rs, gap, cap, i);
    lemma_polls_keep_records(rs, gap, cap, i);
    let frozen = after_polls(rs, gap, cap);
    lemma_poll_never_loses(frozen, back.seen, back.now, cap, i);
    lemma_poll_wf(frozen, back.seen, back.now, cap);
    let returned = after_poll(frozen, back.seen, back.now, cap);
    lemma_continuous_accrual(returned, later, cap, i);
}

/// A first observation starts at nothing: a key with no record gets one,
/// behind the records there were, with a zero total, running, last updated
/// at the poll's time.
pub proof fn lemma_first_observation(
    rs: Seq<RecordView>,
    seen: Seq<Seq<char>>,
    now: int,
    cap: int,
    k: int,
) -> (at: int)
    requires
        records_wf(rs),
        0 <= cap,
        0 <= k < seen.len(),
        !knows(rs, seen[k]),
    ensures
        rs.len() <= at < after_poll(rs, seen, now, cap).len(),
        after_poll(rs, seen, now, cap)[at] == fresh(seen[k], now),
{
    let moved = advance_all(rs, seen, now, cap);
    lemma_advance_wf(rs, seen, now, cap);
    lemma_enroll_wf(moved, seen, now);
    lemma_enroll_keeps_prefix(moved, seen, now);
    let all = after_poll(rs, seen, now, cap);
    let at = choose|i: int| 0 <= i < all.len() && (#[trigger] all[i]).key == seen[k];
    if at < rs.len() {
        assert(all[at] == moved[at]);
        assert(rs[at].key == seen[k]);
    }
    at
}

/// A run of polls is its first poll followed by the rest.
pub proof fn lemma_polls_first_then_rest(rs: Seq<RecordView>, polls: Seq<Poll>, cap: int)
    requires
        polls.len() > 0,
    ensures
        after_polls(rs, polls, cap) == after_polls(
            after_poll(rs, polls[0].seen, polls[0].now, cap),
            polls.drop_first(),
            cap,
        ),
    decreases polls.len(),
{
    let started = after_poll(rs, polls[0].seen, polls[0].now, cap);
    if polls.len() == 1 {
        assert(polls.drop_last() =~= Seq::<Poll>::empty());
        assert(polls.drop_first() =~= Seq::<Poll>::empty());
        assert(polls.last() == polls[0]);
        assert(after_polls(rs, polls.drop_last(), cap) == rs);
        assert(after_polls(started, polls.drop_first(), cap) == started);
    } else {
        let shorter = polls.drop_last();
        let rest = polls.drop_first();
        lemma_polls_first_then_rest(rs, shorter, cap);
        assert(shorter[0] == polls[0]);
        assert(shorter.drop_first() =~= rest.drop_last());
        assert(rest.last() == polls.last());
        assert(after_polls(rs, shorter, cap) == after_polls(started, rest.drop_last(), cap));
        assert(after_polls(started, rest, cap) == after_poll(
            after_polls(started, rest.drop_last(), cap),
            rest.last().seen,
            rest.last().now,
            cap,
        ));
    }
}

/// Continuous observation from the first sight: a key with no record that
/// every poll of a run observes ends with the gains made after the first of
/// these polls, which itself adds nothing.
pub proof fn lemma_accrual_from_first_sight(
    rs: Seq<RecordView>,
    polls: Seq<Poll>,
    cap: int,
    key: Seq<char>,
) -> (at: int)
    requires
        records_wf(rs),
        0 <= cap,
        !knows(rs, key),
        polls.len() > 0,
        forall|p: int| 0 <= p < polls.len() ==> (#[trigger] polls[p]).seen.contains(key),
    ensures
        rs.len() <= at < after_polls(rs, polls, cap).len(),
        after_polls(rs, polls, cap)[at].key == key,
        after_polls(rs, polls, cap)[at].is_running,
        after_polls(rs, polls, cap)[at].total_seconds == grown(
            0,
            gains(polls[0].now, polls.drop_first(), cap),
        ),
{
    let first = polls[0];
    let k = choose|k: int| 0 <= k < first.seen.len() && first.seen[k] == key;
    let at = lemma_first_observation(rs, first.seen, first.now, cap, k);
    let started = after_poll(rs, first.seen, first.now, cap);
    lemma_poll_wf(rs, first.seen, first.now, cap);
    lemma_polls_first_then_rest(rs, polls, cap);
    let rest = polls.drop_first();
    assert forall|p: int| 0 <= p < rest.len() implies (#[trigger] rest[p]).seen.contains(key) by {
        assert(rest[p] == polls[p + 1]);
    }
    lemma_continuous_accrual(started, rest, cap, at);
    at
}

/// Two snapshots of the same records show the same thing, line by line.
pub proof fn lemma_snapshot_repeatable(a: Seq<UsageEntry>, b: Seq<UsageEntry>, rs: Seq<RecordView>)
    requires
        snapshot_matches(a, rs),
        snapshot_matches(b, rs),
    ensures
        a.len() == b.len(),
        forall|i: int|
            0 <= i < a.len() ==> (#[trigger] a[i]).key@ == b[i].key@ && a[i].total_seconds
                == b[i].total_seconds && a[i].is_running == b[i].is_running,
{
    assert forall|i: int| 0 <= i < a.len() implies (#[trigger] a[i]).key@ == b[i].key@
        && a[i].total_seconds == b[i].total_seconds && a[i].is_running == b[i].is_running by {
        assert(entry_matches(a[i], rs[i]));
        assert(entry_matches(b[i], rs[i]));
    }
}

} // verus!
