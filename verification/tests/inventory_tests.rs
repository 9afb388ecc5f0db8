use ems_telemetry::browser::{
    first_email, history_entry, history_file_name, is_firefox, visit_unix_seconds,
};
use ems_telemetry::devices::{
    choose_mount, describe_device, drive_path, entry_rank, file_entry, is_usb_storage_device,
    parse_drive_paths, FileEntry, Rank,
};
use ems_telemetry::installed::{
    describe_app, format_date, identifying_number, msi_product, parse_msi_products,
};

fn s(t: &str) -> String {
    t.to_string()
}

#[test]
fn date_of_eight_characters_is_turned_round() {
    assert_eq!(format_date("20240131"), "31-01-2024");
    assert_eq!(format_date("abcdefgh"), "gh-ef-abcd");
}

#[test]
fn date_of_another_length_is_not_available() {
    assert_eq!(format_date(""), "N/A");
    assert_eq!(format_date("2024013"), "N/A");
    assert_eq!(format_date("202401311"), "N/A");
    assert_eq!(format_date("é"), "N/A");
}

#[test]
fn identifying_number_is_that_of_the_first_match() {
    let known = vec![(s("A"), s("{1}")), (s("B"), s("{2}")), (s("A"), s("{3}"))];
    assert_eq!(identifying_number(&s("A"), &known), "{1}");
    assert_eq!(identifying_number(&s("B"), &known), "{2}");
    assert_eq!(identifying_number(&s("C"), &known), "N/A");
    assert_eq!(identifying_number(&s("A"), &Vec::new()), "N/A");
}

#[test]
fn app_without_a_name_is_no_app() {
    assert!(describe_app(s(""), None, None, None, None, &Vec::new()).is_none());
}

#[test]
fn app_with_missing_values_gets_the_defaults() {
    let app = describe_app(s("Tool"), None, None, None, None, &Vec::new()).unwrap();
    assert_eq!(app.name, "Tool");
    assert_eq!(app.identifying_number, "N/A");
    assert_eq!(app.install_date, "N/A");
    assert_eq!(app.install_location, "N/A");
    assert_eq!(app.vendor, "Unknown");
    assert_eq!(app.version, "Unknown");
}

#[test]
fn app_with_all_values() {
    let known = vec![(s("Tool"), s("{42}"))];
    let app = describe_app(
        s("Tool"),
        Some(s("20230704")),
        Some(s("C:\\Tool")),
        Some(s("Maker")),
        Some(s("1.2")),
        &known,
    )
    .unwrap();
    assert_eq!(app.identifying_number, "{42}");
    assert_eq!(app.install_date, "04-07-2023");
    assert_eq!(app.install_location, "C:\\Tool");
    assert_eq!(app.vendor, "Maker");
    assert_eq!(app.version, "1.2");
}

#[test]
fn chromium_time_is_microseconds_from_1601() {
    assert_eq!(visit_unix_seconds(13_350_000_000_000_000, false), 1_705_526_400);
    assert_eq!(visit_unix_seconds(0, false), -11_644_473_600);
    assert_eq!(visit_unix_seconds(-1_999_999, false), -11_644_473_601);
    assert_eq!(visit_unix_seconds(i64::MIN, false), i64::MIN / 1_000_000 - 11_644_473_600);
    assert_eq!(visit_unix_seconds(i64::MAX, false), i64::MAX / 1_000_000 - 11_644_473_600);
}

#[test]
fn firefox_time_is_taken_as_it_is() {
    assert_eq!(visit_unix_seconds(1_705_526_400, true), 1_705_526_400);
    assert_eq!(visit_unix_seconds(i64::MIN, true), i64::MIN);
}

#[test]
fn firefox_keeps_its_history_elsewhere() {
    assert!(is_firefox(&s("Firefox")));
    assert!(!is_firefox(&s("firefox")));
    assert!(!is_firefox(&s("Chrome")));
    assert_eq!(history_file_name(&s("Firefox")), "places.sqlite");
    assert_eq!(history_file_name(&s("Edge")), "History");
}

#[test]
fn first_email_of_the_accounts() {
    assert_eq!(first_email(&vec![None, Some(s("a@x")), Some(s("b@x"))]), "a@x");
    assert_eq!(first_email(&vec![None, None]), "Unknown");
    assert_eq!(first_email(&Vec::new()), "Unknown");
}

#[test]
fn history_entry_goes_by_the_display_name() {
    let e = history_entry(&s("Work"), &s("Chrome"), &s("a@x"), s("Title"), s("http://u"), Some(s("2024-01-01 10:00:00")));
    assert_eq!(e.profile, "Work");
    assert_eq!(e.profile_display_name, "Work");
    assert_eq!(e.browser, "Chrome");
    assert_eq!(e.gmail, "a@x");
    assert_eq!(e.title, "Title");
    assert_eq!(e.url, "http://u");
    assert_eq!(e.visit_time, "2024-01-01 10:00:00");
    let e = history_entry(&s("Work"), &s("Chrome"), &s("a@x"), s("Title"), s("http://u"), None);
    assert_eq!(e.visit_time, "Unknown Time");
}

#[test]
fn storage_class_among_the_interfaces() {
    assert!(is_usb_storage_device(&vec![0x03, 0x08]));
    assert!(is_usb_storage_device(&vec![0x08]));
    assert!(!is_usb_storage_device(&vec![0x03, 0x09, 0xff]));
    assert!(!is_usb_storage_device(&Vec::new()));
}

#[test]
fn listed_mount_wins_over_one_that_appeared() {
    assert_eq!(choose_mount(Some(s("E:\\")), Some(s("F:/"))), Some(s("E:\\")));
    assert_eq!(choose_mount(None, Some(s("F:/"))), Some(s("F:/")));
    assert_eq!(choose_mount(None, None), None);
}

#[test]
fn only_a_mounted_storage_device_has_files() {
    let files = || Some(vec![FileEntry { name: s("a.txt"), is_dir: false, files: None }]);
    let stick = describe_device(1, 2, Some(s("M")), None, &vec![0x08], Some(s("E:\\")), files());
    assert!(stick.is_storage);
    assert_eq!(stick.vendor_id, 1);
    assert_eq!(stick.product_id, 2);
    assert_eq!(stick.manufacturer, Some(s("M")));
    assert_eq!(stick.product, None);
    assert_eq!(stick.mount_path, Some(s("E:\\")));
    assert_eq!(stick.files.unwrap().len(), 1);

    let unmounted = describe_device(1, 2, None, None, &vec![0x08], None, files());
    assert!(unmounted.is_storage);
    assert_eq!(unmounted.mount_path, None);
    assert!(unmounted.files.is_none());

    let mouse = describe_device(1, 2, None, Some(s("Mouse")), &vec![0x03], Some(s("E:\\")), files());
    assert!(!mouse.is_storage);
    assert_eq!(mouse.mount_path, None);
    assert!(mouse.files.is_none());
}

#[test]
fn product_line_is_number_then_name() {
    let words = |line: &str| line.split_whitespace().map(str::to_string).collect::<Vec<_>>();
    assert_eq!(msi_product(&words("{1-2} My  Tool   Pro")), Some((s("My Tool Pro"), s("{1-2}"))));
    assert_eq!(msi_product(&words("{1-2} Tool")), Some((s("Tool"), s("{1-2}"))));
    assert_eq!(msi_product(&words("{1-2}")), None);
    assert_eq!(msi_product(&words("")), None);
}

#[test]
fn product_listing_skips_the_heading_and_short_lines() {
    let listing = "IdentifyingNumber  Name\r\n{A}  First App  \r\n\r\n{B}\r\n{C}  Second\r\n";
    assert_eq!(
        parse_msi_products(listing),
        vec![(s("First App"), s("{A}")), (s("Second"), s("{C}"))]
    );
    assert_eq!(parse_msi_products("{A} Heading only"), Vec::new());
    assert_eq!(parse_msi_products(""), Vec::new());
}

#[test]
fn drive_line_gets_a_backslash() {
    assert_eq!(drive_path("E:"), Some(s("E:\\")));
    assert_eq!(drive_path(""), None);
}

#[test]
fn drive_listing_skips_the_heading_and_blank_lines() {
    let listing = "DeviceID  \r\nE:        \r\n\r\n  F:\r\n   \r\n";
    assert_eq!(parse_drive_paths(listing), vec![s("E:\\"), s("F:\\")]);
    assert_eq!(parse_drive_paths("E:"), Vec::<String>::new());
    assert_eq!(parse_drive_paths(""), Vec::<String>::new());
}

#[test]
fn folders_come_before_files() {
    assert_eq!(entry_rank(true, false, Rank::After), Rank::Before);
    assert_eq!(entry_rank(false, true, Rank::Before), Rank::After);
    assert_eq!(entry_rank(true, true, Rank::After), Rank::After);
    assert_eq!(entry_rank(false, false, Rank::Same), Rank::Same);
    assert_eq!(entry_rank(false, false, Rank::Before), Rank::Before);

    let inner = vec![file_entry(s("a"), false, None)];
    let folder = file_entry(s("d"), true, Some(inner));
    assert!(folder.is_dir);
    assert_eq!(folder.files.as_ref().unwrap().len(), 1);
    let file = file_entry(s("f"), false, Some(vec![file_entry(s("x"), false, None)]));
    assert!(file.files.is_none());
}
