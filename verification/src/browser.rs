//! Browser history: how one row of a browser's history database becomes an
//! entry.

use vstd::prelude::*;
use crate::text::quotient;

verus! {

/// Seconds from 1601-01-01, where Chromium's clock starts, to the Unix
/// epoch.
pub const CHROMIUM_EPOCH_OFFSET: i64 = 11_644_473_600;

/// One visited page.
pub struct BrowserHistory {
    pub profile: String,
    pub browser: String,
    pub profile_display_name: String,
    pub gmail: String,
    pub title: String,
    pub url: String,
    pub visit_time: String,
}

/// The name `Firefox`.
pub open spec fn firefox() -> Seq<char> {
    seq!['F', 'i', 'r', 'e', 'f', 'o', 'x']
}

/// A visit time as seconds after the Unix epoch. Firefox's value is taken as
/// it is; Chromium's is in microseconds from 1601.
pub open spec fn visit_seconds(raw: i64, from_firefox: bool) -> int {
    if from_firefox {
        raw as int
    } else {
        quotient(raw as int, 1_000_000) - CHROMIUM_EPOCH_OFFSET
    }
}

/// Whether the browser of that name is Firefox.
pub fn is_firefox(browser: &String) -> (yes: bool)
    ensures
        yes == (browser@ == firefox()),
{
    let name = "Firefox".to_owned();
    proof {
        reveal_strlit("Firefox");
        assert(name@ =~= firefox());
    }
    *browser == name
}

/// Computes `visit_seconds`.
pub fn visit_unix_seconds(raw: i64, from_firefox: bool) -> (seconds: i64)
    ensures
        seconds == visit_seconds(raw, from_firefox),
{
    if from_firefox {
        raw
    } else if raw >= 0 {
        raw / 1_000_000 - CHROMIUM_EPOCH_OFFSET
    } else if raw == i64::MIN {
        -9_223_372_036_854 - CHROMIUM_EPOCH_OFFSET
    } else {
        let m: i64 = -raw;
        -(m / 1_000_000) - CHROMIUM_EPOCH_OFFSET
    }
}

/// The file in a profile's directory that holds its history.
pub fn history_file_name(browser: &String) -> (name: String)
    ensures
        name@ == (if browser@ == firefox() {
            "places.sqlite"@
        } else {
            "History"@
        }),
{
    if is_firefox(browser) {
        "places.sqlite".to_owned()
    } else {
        "History".to_owned()
    }
}

/// The first address among the accounts of a profile, or `Unknown` where no
/// account has one.
pub fn first_email(accounts: &Vec<Option<String>>) -> (email: String)
    ensures
        (exists|i: int|
            0 <= i < accounts@.len() && (#[trigger] accounts@[i]).is_some() && email
                == accounts@[i].unwrap() && forall|k: int|
                0 <= k < i ==> (#[trigger] accounts@[k]).is_none()) || (email@ == "Unknown"@
            && forall|k: int| 0 <= k < accounts@.len() ==> (#[trigger] accounts@[k]).is_none()),
{
    let mut i: usize = 0;
    while i < accounts.len()
        invariant
            i <= accounts@.len(),
            forall|k: int| 0 <= k < i ==> (#[trigger] accounts@[k]).is_none(),
        decreases accounts@.len() - i,
    {
        match &accounts[i] {
            Some(address) => {
                return address.clone();
            },
            None => {},
        }
        i = i + 1;
    }
    "Unknown".to_owned()
}

/// Makes the entry of one visit. The profile goes by its display name; a
/// visit whose time could not be rendered reads `Unknown Time`.
pub fn history_entry(
    profile_display_name: &String,
    browser: &String,
    gmail: &String,
    title: String,
    url: String,
    visit_time: Option<String>,
) -> (entry: BrowserHistory)
    ensures
        entry.profile@ == profile_display_name@,
        entry.profile_display_name@ == profile_display_name@,
        entry.browser@ == browser@,
        entry.gmail@ == gmail@,
        entry.title == title,
        entry.url == url,
        entry.visit_time@ == (match visit_time {
            Some(t) => t@,
            None => "Unknown Time"@,
        }),
{
    let shown: String = match visit_time {
        Some(t) => t,
        None => "Unknown Time".to_owned(),
    };
    BrowserHistory {
        profile: profile_display_name.clone(),
        browser: browser.clone(),
        profile_display_name: profile_display_name.clone(),
        gmail: gmail.clone(),
        title,
        url,
        visit_time: shown,
    }
}

} // verus!
