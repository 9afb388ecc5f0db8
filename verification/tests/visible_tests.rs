use ems_telemetry::usage::UsageTracker;
use ems_telemetry::visible::{get_visible_apps, VisibleApp, WindowSeen};

fn window(title: &str, pid: u32, is_topmost: bool) -> WindowSeen {
    WindowSeen { title: title.to_string(), pid, is_topmost }
}

fn row(a: &VisibleApp) -> (String, u32, String, String, String, String) {
    (
        a.name.clone(),
        a.pid,
        a.window_title.clone(),
        a.curr_session.clone(),
        a.total_usage.clone(),
        a.top_usage.clone(),
    )
}

fn want(name: &str, pid: u32, title: &str, curr: &str, total: &str, top: &str) -> (String, u32, String, String, String, String) {
    (name.to_string(), pid, title.to_string(), curr.to_string(), total.to_string(), top.to_string())
}

#[test]
fn windows_on_screen_accrue_and_the_foreground_one_accrues_top_time() {
    let mut visible = UsageTracker::new(5);
    let mut top = UsageTracker::new(5);
    let first = get_visible_apps(
        &mut visible,
        &mut top,
        &vec![window("Editor", 10, true), window("Mail", 20, false)],
        1_000,
    );
    assert_eq!(
        first.iter().map(row).collect::<Vec<_>>(),
        vec![
            want("Editor", 10, "Editor", "00:00:00", "00:00:00", "00:00:00"),
            want("Mail", 20, "Mail", "00:00:00", "00:00:00", "00:00:00"),
        ]
    );
    let second = get_visible_apps(
        &mut visible,
        &mut top,
        &vec![window("Editor", 10, true), window("Mail", 20, false)],
        1_003,
    );
    assert_eq!(
        second.iter().map(row).collect::<Vec<_>>(),
        vec![
            want("Editor", 10, "Editor", "00:00:03", "00:00:03", "00:00:03"),
            want("Mail", 20, "Mail", "00:00:03", "00:00:03", "00:00:00"),
        ]
    );
}

#[test]
fn a_window_that_left_the_screen_is_listed_after_the_others() {
    let mut visible = UsageTracker::new(5);
    let mut top = UsageTracker::new(5);
    get_visible_apps(&mut visible, &mut top, &vec![window("Editor", 10, true), window("Mail", 20, false)], 0);
    get_visible_apps(&mut visible, &mut top, &vec![window("Editor", 10, true), window("Mail", 20, false)], 4);
    let report = get_visible_apps(&mut visible, &mut top, &vec![window("Mail", 21, true)], 6);
    assert_eq!(
        report.iter().map(row).collect::<Vec<_>>(),
        vec![
            want("Mail", 21, "Mail", "00:00:02", "00:00:06", "00:00:00"),
            want("Editor", 0, "N/A", "00:00:00", "00:00:04", "00:00:04"),
        ]
    );
    let later = get_visible_apps(&mut visible, &mut top, &vec![window("Mail", 21, true)], 9);
    assert_eq!(
        later.iter().map(row).collect::<Vec<_>>(),
        vec![
            want("Mail", 21, "Mail", "00:00:03", "00:00:09", "00:00:03"),
            want("Editor", 0, "N/A", "00:00:00", "00:00:04", "00:00:04"),
        ]
    );
}

#[test]
fn losing_the_foreground_freezes_top_time_only() {
    let mut visible = UsageTracker::new(5);
    let mut top = UsageTracker::new(5);
    get_visible_apps(&mut visible, &mut top, &vec![window("Editor", 1, true)], 0);
    get_visible_apps(&mut visible, &mut top, &vec![window("Editor", 1, true)], 5);
    get_visible_apps(&mut visible, &mut top, &vec![window("Editor", 1, false)], 10);
    let report = get_visible_apps(&mut visible, &mut top, &vec![window("Editor", 1, true)], 15);
    assert_eq!(
        report.iter().map(row).collect::<Vec<_>>(),
        vec![want("Editor", 1, "Editor", "00:00:05", "00:00:15", "00:00:05")]
    );
}

#[test]
fn an_empty_screen_lists_only_what_was_seen_before() {
    let mut visible = UsageTracker::new(5);
    let mut top = UsageTracker::new(5);
    assert!(get_visible_apps(&mut visible, &mut top, &Vec::new(), 0).is_empty());
    get_visible_apps(&mut visible, &mut top, &vec![window("A", 1, false)], 1);
    let report = get_visible_apps(&mut visible, &mut top, &Vec::new(), 2);
    assert_eq!(
        report.iter().map(row).collect::<Vec<_>>(),
        vec![want("A", 0, "N/A", "00:00:00", "00:00:00", "00:00:00")]
    );
}

#[test]
fn two_windows_with_one_title_give_two_lines_and_one_record() {
    let mut visible = UsageTracker::new(5);
    let mut top = UsageTracker::new(5);
    get_visible_apps(&mut visible, &mut top, &vec![window("Term", 1, false), window("Term", 2, true)], 0);
    let report = get_visible_apps(&mut visible, &mut top, &vec![window("Term", 1, false), window("Term", 2, true)], 2);
    assert_eq!(visible.len(), 1);
    assert_eq!(
        report.iter().map(row).collect::<Vec<_>>(),
        vec![
            want("Term", 1, "Term", "00:00:02", "00:00:02", "00:00:02"),
            want("Term", 2, "Term", "00:00:02", "00:00:02", "00:00:02"),
        ]
    );
}
