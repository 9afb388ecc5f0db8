//! The visible-windows report: dwell time of every window title seen on
//! screen, and of the title in the foreground.
//!
//! Two accumulators run side by side. One is polled with the titles of all
//! visible windows, the other with the title of the topmost window alone.

use vstd::prelude::*;
use crate::text::{clock_text, format_duration};
use crate::usage::{
    after_poll, keys_of, last_gain_for, listed, total_for, RecordView, UsageTracker, TOTAL_LIMIT,
};

verus! {

/// A window found on screen by one enumeration.
pub struct WindowSeen {
    /// The window's title: its key in both accumulators.
    pub title: String,
    /// The process that owns the window.
    pub pid: u32,
    /// Whether the window is the foreground window.
    pub is_topmost: bool,
}

/// One line of the report.
pub struct VisibleApp {
    pub name: String,
    pub pid: u32,
    pub window_title: String,
    /// Time the latest poll added, as `HH:MM:SS`.
    pub curr_session: String,
    /// Time on screen in all, as `HH:MM:SS`.
    pub total_usage: String,
    /// Time in the foreground in all, as `HH:MM:SS`.
    pub top_usage: String,
}

/// The mathematical content of a `VisibleApp`.
pub struct VisibleAppView {
    pub name: Seq<char>,
    pub pid: u32,
    pub window_title: Seq<char>,
    pub curr_session: Seq<char>,
    pub total_usage: Seq<char>,
    pub top_usage: Seq<char>,
}

impl View for VisibleApp {
    type V = VisibleAppView;

    open spec fn view(&self) -> VisibleAppView {
        VisibleAppView {
            name: self.name@,
            pid: self.pid,
            window_title: self.window_title@,
            curr_session: self.curr_session@,
            total_usage: self.total_usage@,
            top_usage: self.top_usage@,
        }
    }
}

/// The views of a sequence of report lines.
pub open spec fn lines_of(apps: Seq<VisibleApp>) -> Seq<VisibleAppView> {
    Seq::new(apps.len(), |i: int| apps[i]@)
}

/// The titles of the windows, in order.
pub open spec fn titles_of(ws: Seq<WindowSeen>) -> Seq<Seq<char>> {
    Seq::new(ws.len(), |i: int| ws[i].title@)
}

/// The titles of the topmost windows among `ws`, in order.
pub open spec fn top_titles_of(ws: Seq<WindowSeen>) -> Seq<Seq<char>>
    decreases ws.len(),
{
    if ws.len() == 0 {
        Seq::empty()
    } else if ws.last().is_topmost {
        top_titles_of(ws.drop_last()).push(ws.last().title@)
    } else {
        top_titles_of(ws.drop_last())
    }
}

/// What title stands for a window that is no longer on screen.
pub open spec fn no_title() -> Seq<char> {
    seq!['N', '/', 'A']
}

/// The line of a window that is on screen.
pub open spec fn active_line(w: WindowSeen, visible: Seq<RecordView>, top: Seq<RecordView>)
    -> VisibleAppView {
    VisibleAppView {
        name: w.title@,
        pid: w.pid,
        window_title: w.title@,
        curr_session: clock_text(last_gain_for(visible, w.title@)),
        total_usage: clock_text(total_for(visible, w.title@)),
        top_usage: clock_text(total_for(top, w.title@)),
    }
}

/// The line of a title that was on screen once and is not now.
pub open spec fn inactive_line(r: RecordView, top: Seq<RecordView>) -> VisibleAppView {
    VisibleAppView {
        name: r.key,
        pid: 0,
        window_title: no_title(),
        curr_session: clock_text(0),
        total_usage: clock_text(r.total_seconds),
        top_usage: clock_text(total_for(top, r.key)),
    }
}

/// One line per window on screen, in the order of the enumeration.
pub open spec fn active_lines(ws: Seq<WindowSeen>, visible: Seq<RecordView>, top: Seq<RecordView>)
    -> Seq<VisibleAppView> {
    Seq::new(ws.len(), |i: int| active_line(ws[i], visible, top))
}

/// One line per record whose title is not among `titles`, in the order of
/// the records.
pub open spec fn inactive_lines(rs: Seq<RecordView>, titles: Seq<Seq<char>>, top: Seq<RecordView>)
    -> Seq<VisibleAppView>
    decreases rs.len(),
{
    if rs.len() == 0 {
        Seq::empty()
    } else if titles.contains(rs.last().key) {
        inactive_lines(rs.drop_last(), titles, top)
    } else {
        inactive_lines(rs.drop_last(), titles, top).push(inactive_line(rs.last(), top))
    }
}

/// The whole report: the windows on screen first, then every title known
/// from before.
pub open spec fn report_of(ws: Seq<WindowSeen>, visible: Seq<RecordView>, top: Seq<RecordView>)
    -> Seq<VisibleAppView> {
    active_lines(ws, visible, top) + inactive_lines(visible, titles_of(ws), top)
}

/// The titles of all windows, and those of the topmost ones.
fn collect_titles(windows: &Vec<WindowSeen>) -> (both: (Vec<String>, Vec<String>))
    ensures
        keys_of(both.0@) == titles_of(windows@),
        keys_of(both.1@) == top_titles_of(windows@),
{
    let mut titles: Vec<String> = Vec::new();
    let mut top_titles: Vec<String> = Vec::new();
    let n: usize = windows.len();
    let mut i: usize = 0;
    assert(keys_of(titles@) =~= titles_of(windows@.take(0)));
    assert(keys_of(top_titles@) =~= top_titles_of(windows@.take(0)));
    while i < n
        invariant
            i <= n,
            n == windows@.len(),
            keys_of(titles@) == titles_of(windows@.take(i as int)),
            keys_of(top_titles@) == top_titles_of(windows@.take(i as int)),
        decreases n - i,
    {
        let w = &windows[i];
        proof {
            assert(windows@.take(i + 1).drop_last() =~= windows@.take(i as int));
            assert(windows@.take(i + 1).last() == windows@[i as int]);
        }
        let ghost titles_before = titles@;
        let ghost tops_before = top_titles@;
        titles.push(w.title.clone());
        assert(keys_of(titles@) =~= keys_of(titles_before).push(w.title@));
        assert(keys_of(titles@) =~= titles_of(windows@.take(i + 1)));
        if w.is_topmost {
            top_titles.push(w.title.clone());
            assert(keys_of(top_titles@) =~= keys_of(tops_before).push(w.title@));
        }
        i = i + 1;
    }
    assert(windows@.take(n as int) =~= windows@);
    (titles, top_titles)
}

/// One enumeration of the screen: polls both accumulators and renders the
/// report.
///
/// The record of every title on screen advances in `visible`, that of the
/// foreground title in `top`. The report lists each window on screen with
/// the time this poll added, its time on screen and its time in the
/// foreground, then each title seen before and absent now.
pub fn get_visible_apps(
    visible: &mut UsageTracker,
    top: &mut UsageTracker,
    windows: &Vec<WindowSeen>,
    now: i64,
) -> (apps: Vec<VisibleApp>)
    requires
        old(visible).wf(),
        old(top).wf(),
    ensures
        final(visible)@ == after_poll(
            old(visible)@,
            titles_of(windows@),
            now as int,
            old(visible).cap(),
        ),
        final(top)@ == after_poll(old(top)@, top_titles_of(windows@), now as int, old(top).cap()),
        final(visible).cap() == old(visible).cap(),
        final(top).cap() == old(top).cap(),
        final(visible).wf(),
        final(top).wf(),
        lines_of(apps@) == report_of(windows@, final(visible)@, final(top)@),
{
    let (titles, top_titles) = collect_titles(windows);
    visible.poll(&titles, now);
    top.poll(&top_titles, now);

    let mut apps: Vec<VisibleApp> = Vec::new();
    let n: usize = windows.len();
    let mut i: usize = 0;
    while i < n
        invariant
            i <= n,
            n == windows@.len(),
            visible.wf(),
            top.wf(),
            apps@.len() == i,
            forall|k: int|
                0 <= k < i ==> (#[trigger] apps@[k])@ == active_line(windows@[k], visible@, top@),
        decreases n - i,
    {
        let w = &windows[i];
        let line = VisibleApp {
            name: w.title.clone(),
            pid: w.pid,
            window_title: w.title.clone(),
            curr_session: format_duration(visible.last_gain_of(&w.title)),
            total_usage: format_duration(visible.total_of(&w.title)),
            top_usage: format_duration(top.total_of(&w.title)),
        };
        apps.push(line);
        i = i + 1;
    }
    assert(lines_of(apps@) =~= active_lines(windows@, visible@, top@));

    let m: usize = visible.len();
    let mut j: usize = 0;
    assert(visible@.take(0) =~= Seq::<RecordView>::empty());
    assert(lines_of(apps@) =~= active_lines(windows@, visible@, top@) + inactive_lines(
        visible@.take(0),
        titles_of(windows@),
        top@,
    ));
    while j < m
        invariant
            j <= m,
            m == visible@.len(),
            visible.wf(),
            top.wf(),
            keys_of(titles@) == titles_of(windows@),
            lines_of(apps@) == active_lines(windows@, visible@, top@) + inactive_lines(
                visible@.take(j as int),
                titles_of(windows@),
                top@,
            ),
        decreases m - j,
    {
        let r = visible.record_at(j);
        proof {
            assert(visible@.take(j + 1).drop_last() =~= visible@.take(j as int));
            assert(visible@.take(j + 1).last() == visible@[j as int]);
            assert(0 <= visible@[j as int].total_seconds <= TOTAL_LIMIT);
        }
        if !listed(&titles, &r.key) {
            let ghost before = apps@;
            let absent: String = "N/A".to_owned();
            proof {
                reveal_strlit("N/A");
                assert(absent@ =~= no_title());
            }
            let line = VisibleApp {
                name: r.key.clone(),
                pid: 0,
                window_title: absent,
                curr_session: format_duration(0),
                total_usage: format_duration(r.total_seconds),
                top_usage: format_duration(top.total_of(&r.key)),
            };
            apps.push(line);
            assert(lines_of(apps@) =~= lines_of(before).push(inactive_line(r@, top@)));
        }
        j = j + 1;
    }
    assert(visible@.take(m as int) =~= visible@);
    apps
}

} // verus!
