use launch_notifier::images::{image_extension, image_file_name, DownloadedImages};
use launch_notifier::notifications::{LaunchNotifications, SentNotifications};
use launch_notifier::planner::{
    check_launch, countdown_text, launch_has_happened, more_url, notification_text, LaunchAction,
    Reminder,
};
use launch_notifier::status::UpcomingLaunchStatusId;
use launch_notifier::text::{decimal_string, split_chars, str_eq};
use launch_notifier::time::{
    format_launch_time, parse_time, try_parse_time, LaunchTime, ParseTimeError, TimeParse,
};
use launch_notifier::upcoming_launch::{Result as Launch, Status};

fn launch(id: Option<&str>, net: Option<&str>, status: Option<i64>) -> Launch {
    Launch {
        id: id.map(|s| s.to_string()),
        url: None,
        slug: Some("falcon-9-starlink".to_string()),
        name: Some("Falcon 9 | Starlink".to_string()),
        status: Some(Status { id: status, name: None, abbrev: None, description: None }),
        last_updated: None,
        net: net.map(|s| s.to_string()),
        window_end: None,
        window_start: None,
        probability: None,
        holdreason: None,
        failreason: None,
        hashtag: None,
        launch_service_provider: None,
        rocket: None,
        mission: None,
        pad: None,
        webcast_live: None,
        image: Some("https://example.org/rocket.png".to_string()),
        infographic: None,
        program: None,
        orbital_launch_attempt_count: None,
        location_launch_attempt_count: None,
        pad_launch_attempt_count: None,
        agency_launch_attempt_count: None,
        orbital_launch_attempt_count_year: None,
        location_launch_attempt_count_year: None,
        pad_launch_attempt_count_year: None,
        agency_launch_attempt_count_year: None,
    }
}

fn at(y: i32, mo: u32, d: u32, h: u32, mi: u32, s: u32) -> LaunchTime {
    LaunchTime::new(y, mo, d, h, mi, s).unwrap()
}

fn fields(t: &LaunchTime) -> (i32, u32, u32, u32, u32, u32) {
    (t.year(), t.month(), t.day(), t.hour(), t.minute(), t.second())
}

// ---- status ids

#[test]
fn status_from_id_table() {
    assert_eq!(UpcomingLaunchStatusId::from_id(1), Some(UpcomingLaunchStatusId::GoForLaunch));
    assert_eq!(UpcomingLaunchStatusId::from_id(2), Some(UpcomingLaunchStatusId::ToBeDetermined));
    assert_eq!(UpcomingLaunchStatusId::from_id(3), Some(UpcomingLaunchStatusId::LaunchSuccessful));
    assert_eq!(UpcomingLaunchStatusId::from_id(4), Some(UpcomingLaunchStatusId::LaunchFailure));
    assert_eq!(UpcomingLaunchStatusId::from_id(5), Some(UpcomingLaunchStatusId::OnHold));
    assert_eq!(UpcomingLaunchStatusId::from_id(6), Some(UpcomingLaunchStatusId::LaunchInFlight));
    assert_eq!(
        UpcomingLaunchStatusId::from_id(7),
        Some(UpcomingLaunchStatusId::LaunchWasAPartialFailure)
    );
    assert_eq!(UpcomingLaunchStatusId::from_id(8), Some(UpcomingLaunchStatusId::ToBeConfirmed));
    assert_eq!(UpcomingLaunchStatusId::from_id(0), None);
    assert_eq!(UpcomingLaunchStatusId::from_id(9), None);
    assert_eq!(UpcomingLaunchStatusId::from_id(-3), None);
}

#[test]
fn status_launched_ids() {
    let launched: Vec<i32> =
        (0..10).filter(|i| UpcomingLaunchStatusId::from_id(*i).map_or(false, |s| s.is_launched())).collect();
    assert_eq!(launched, vec![3, 4, 6, 7]);
}

#[test]
fn launch_has_happened_falls_back_to_time() {
    assert!(launch_has_happened(3, 5000));
    assert!(!launch_has_happened(1, -5000));
    assert!(launch_has_happened(99, -1));
    assert!(!launch_has_happened(99, 0));
    // the id is taken as an i32: 2^32 + 3 wraps to 3
    assert!(launch_has_happened((1i64 << 32) + 3, 100));
}

// ---- timestamps

#[test]
fn parse_feed_timestamp() {
    let t = parse_time("2023-05-04T18:30:07Z").unwrap();
    assert_eq!(fields(&t), (2023, 5, 4, 18, 30, 7));
}

#[test]
fn parse_accepts_plus_and_drops_any_last_char() {
    let t = parse_time("+2023-5-4T8:3:10X").unwrap();
    assert_eq!(fields(&t), (2023, 5, 4, 8, 3, 10));
    // without the trailing `Z` the last digit is dropped
    let t = parse_time("2023-05-04T18:30:07").unwrap();
    assert_eq!(fields(&t), (2023, 5, 4, 18, 30, 0));
}

#[test]
fn parse_wrong_part_count() {
    match parse_time("2023-05-04 18:30:00Z") {
        Err(ParseTimeError::InvalidSplit(label, n)) => {
            assert_eq!(label, "Parts");
            assert_eq!(n, 1);
        }
        other => panic!("unexpected {:?}", other.map(|t| fields(&t))),
    }
    match parse_time("2023T05T04") {
        Err(ParseTimeError::InvalidSplit(label, n)) => {
            assert_eq!(label, "Parts");
            assert_eq!(n, 3);
        }
        other => panic!("unexpected {:?}", other.map(|t| fields(&t))),
    }
}

#[test]
fn parse_wrong_date_and_time_counts() {
    match parse_time("2023-05T18:30:00Z") {
        Err(ParseTimeError::InvalidSplit(label, n)) => {
            assert_eq!(label, "Date");
            assert_eq!(n, 2);
        }
        other => panic!("unexpected {:?}", other.map(|t| fields(&t))),
    }
    match parse_time("2023-05-04T18:30Z") {
        Err(ParseTimeError::InvalidSplit(label, n)) => {
            assert_eq!(label, "Time");
            assert_eq!(n, 2);
        }
        other => panic!("unexpected {:?}", other.map(|t| fields(&t))),
    }
}

#[test]
fn parse_bad_numbers() {
    assert!(matches!(parse_time("2023-0x-04T18:30:00Z"), Err(ParseTimeError::ParseIntError(_))));
    assert!(matches!(parse_time("2023-05-04T18: 30:00Z"), Err(ParseTimeError::ParseIntError(_))));
    assert!(matches!(parse_time("2023--04T18:30:00Z"), Err(ParseTimeError::ParseIntError(_))));
    assert!(matches!(parse_time("99999999999-05-04T18:30:00Z"), Err(ParseTimeError::ParseIntError(_))));
    assert!(matches!(parse_time("-2023-05-04T18:30:00Z"), Err(ParseTimeError::ParseIntError(_))));
    // a bad number in the date is reported before a wrong clock
    assert!(matches!(parse_time("x-1-1T1:1Z"), Err(ParseTimeError::ParseIntError(_))));
}

#[test]
fn parse_aborting_inputs_are_told_apart() {
    assert!(matches!(try_parse_time("2023-05-04T"), TimeParse::Aborts));
    assert!(matches!(try_parse_time("2023-05-04T18:30:00é"), TimeParse::Aborts));
    assert!(matches!(try_parse_time("2023-02-29T00:00:00Z"), TimeParse::Aborts));
    assert!(matches!(try_parse_time("2023-01-01T24:00:00Z"), TimeParse::Aborts));
    assert!(matches!(try_parse_time("2024-02-29T23:59:59Z"), TimeParse::Parsed(_)));
    assert!(matches!(try_parse_time("2023-01-01"), TimeParse::Failed(_)));
}

#[test]
fn launch_time_validity_follows_chrono() {
    assert!(LaunchTime::new(2024, 2, 29, 0, 0, 0).is_some());
    assert!(LaunchTime::new(2023, 2, 29, 0, 0, 0).is_none());
    assert!(LaunchTime::new(1900, 2, 29, 0, 0, 0).is_none());
    assert!(LaunchTime::new(2000, 2, 29, 0, 0, 0).is_some());
    assert!(LaunchTime::new(2023, 4, 31, 0, 0, 0).is_none());
    assert!(LaunchTime::new(2023, 13, 1, 0, 0, 0).is_none());
    assert!(LaunchTime::new(2023, 0, 1, 0, 0, 0).is_none());
    assert!(LaunchTime::new(2023, 1, 0, 0, 0, 0).is_none());
    assert!(LaunchTime::new(2023, 1, 1, 23, 59, 59).is_some());
    assert!(LaunchTime::new(2023, 1, 1, 0, 60, 0).is_none());
    assert!(LaunchTime::new(2023, 1, 1, 0, 0, 60).is_none());
    assert!(LaunchTime::new(262142, 12, 31, 0, 0, 0).is_some());
    assert!(LaunchTime::new(262143, 1, 1, 0, 0, 0).is_none());
    assert!(LaunchTime::new(-262143, 1, 1, 0, 0, 0).is_some());
    assert!(LaunchTime::new(-262144, 1, 1, 0, 0, 0).is_none());
}

#[test]
fn seconds_between_times() {
    let a = at(2023, 5, 4, 18, 30, 0);
    let b = at(2023, 5, 4, 17, 30, 0);
    assert_eq!(a.seconds_since(&b), 3600);
    assert_eq!(b.seconds_since(&a), -3600);
    assert_eq!(a.seconds_since(&a), 0);
    assert_eq!(at(2024, 3, 1, 0, 0, 0).seconds_since(&at(2024, 2, 28, 0, 0, 0)), 2 * 86400);
    assert_eq!(at(2023, 3, 1, 0, 0, 0).seconds_since(&at(2023, 2, 28, 0, 0, 0)), 86400);
    assert_eq!(at(1970, 1, 1, 0, 0, 0).seconds_since(&at(1, 1, 1, 0, 0, 0)), 62135596800);
}

/// The days from 0001-01-01, written out as the contract of `seconds_since` states them.
fn day_number(y: i64, m: i64, d: i64) -> i64 {
    let leap = y.rem_euclid(4) == 0 && (y.rem_euclid(100) != 0 || y.rem_euclid(400) == 0);
    let before = [0, 31, 59, 90, 120, 151, 181, 212, 243, 273, 304, 334][(m - 1) as usize]
        + if m > 2 && leap { 1 } else { 0 };
    let p = y - 1;
    365 * p + p.div_euclid(4) - p.div_euclid(100) + p.div_euclid(400) + before + d - 1
}

#[test]
fn seconds_between_agree_with_calendar_formula() {
    let dates = [
        (2023, 5, 4, 18, 30, 0),
        (2024, 2, 29, 23, 59, 59),
        (1, 1, 1, 0, 0, 0),
        (0, 2, 29, 12, 0, 0),
        (-1, 12, 31, 23, 59, 59),
        (-4, 3, 1, 0, 0, 1),
        (-262143, 1, 1, 0, 0, 0),
        (262142, 12, 31, 23, 59, 59),
        (1900, 3, 1, 6, 7, 8),
        (2000, 12, 31, 1, 2, 3),
    ];
    for a in dates.iter() {
        for b in dates.iter() {
            let ta = at(a.0, a.1, a.2, a.3, a.4, a.5);
            let tb = at(b.0, b.1, b.2, b.3, b.4, b.5);
            let secs = |t: &(i32, u32, u32, u32, u32, u32)| {
                day_number(t.0 as i64, t.1 as i64, t.2 as i64) * 86400
                    + t.3 as i64 * 3600
                    + t.4 as i64 * 60
                    + t.5 as i64
            };
            assert_eq!(ta.seconds_since(&tb), secs(a) - secs(b));
        }
    }
}

// ---- text

#[test]
fn split_keeps_empty_pieces() {
    let pieces = split_chars("a..b.", '.');
    assert_eq!(pieces, vec!["a".to_string(), "".to_string(), "b".to_string(), "".to_string()]);
    assert_eq!(split_chars("", ':'), vec!["".to_string()]);
}

#[test]
fn decimal_and_equality() {
    assert_eq!(decimal_string(0), "0");
    assert_eq!(decimal_string(7), "7");
    assert_eq!(decimal_string(1234567890), "1234567890");
    assert_eq!(decimal_string(u32::MAX), "4294967295");
    assert!(str_eq("héllo", "héllo"));
    assert!(!str_eq("hello", "hell"));
    assert!(!str_eq("hello", "hellO"));
}

#[test]
fn countdown_texts() {
    assert_eq!(countdown_text(0), "0 minutes");
    assert_eq!(countdown_text(59), "0 minutes");
    assert_eq!(countdown_text(30 * 60 + 20), "30 minutes");
    assert_eq!(countdown_text(55 * 60), "55 minutes");
    assert_eq!(countdown_text(56 * 60), "1 hour");
    assert_eq!(countdown_text(60 * 60), "1 hour");
    assert_eq!(countdown_text(119 * 60), "1 hour");
    assert_eq!(countdown_text(2 * 60 * 60), "2 hours");
    assert_eq!(countdown_text(23 * 3600 + 30 * 60), "23 hours");
    assert_eq!(countdown_text(23 * 3600 + 31 * 60), "1 day");
    // a time in the past wraps around as an unsigned number of minutes
    assert_eq!(countdown_text(-120), "71582788 hours");
    assert_eq!(countdown_text(-59), "0 minutes");
}

#[test]
fn notification_texts_and_url() {
    assert_eq!(notification_text(Reminder::Launched, 100), "launched");
    assert_eq!(notification_text(Reminder::WithinHour, 600), "launches in 10 minutes");
    assert_eq!(notification_text(Reminder::WithinDay, 5 * 3600), "launches in 5 hours");
    assert_eq!(more_url("abc-123"), "https://spacelaunchnow.me/launch/abc-123");
}

// ---- images

#[test]
fn image_extension_by_content_type_then_url() {
    assert_eq!(image_extension(Some("image/jpeg"), "x.png"), Some("jpg"));
    assert_eq!(image_extension(Some("image/jpg"), "x"), Some("jpg"));
    assert_eq!(image_extension(Some("image/png"), "x.jpg"), Some("png"));
    assert_eq!(image_extension(Some("text/html"), "https://a.b/c.JPEG"), Some("jpg"));
    assert_eq!(image_extension(None, "https://a.b/c.png"), Some("png"));
    assert_eq!(image_extension(None, "https://a.b/c.JPG"), Some("jpg"));
    assert_eq!(image_extension(None, "https://a.b/c.gif"), None);
    assert_eq!(image_extension(None, "png"), Some("png"));
    assert_eq!(image_extension(Some("image/gif"), "https://a.b/c.webp"), None);
}

#[test]
fn image_file_names() {
    assert_eq!(image_file_name("V1StGXR8_Z5jdHi6B-myT", "png"), "V1StGXR8_Z5jdHi6B-myT.png");
}

#[test]
fn downloaded_images_add_and_remove() {
    let mut images = DownloadedImages::new();
    images.add("a".to_string(), "/tmp/a.png".to_string());
    images.add("b".to_string(), "/tmp/b.jpg".to_string());
    images.add("a".to_string(), "/tmp/a2.png".to_string());
    images.remove("b");
    images.remove("missing");
    let entries = images.into_entries();
    assert_eq!(entries, vec![("a".to_string(), "/tmp/a2.png".to_string())]);
}

#[test]
fn downloaded_images_from_entries_later_wins() {
    let images = DownloadedImages::from_entries(vec![
        ("a".to_string(), "1".to_string()),
        ("b".to_string(), "2".to_string()),
        ("a".to_string(), "3".to_string()),
    ]);
    let mut entries = images.into_entries();
    entries.sort();
    assert_eq!(
        entries,
        vec![("a".to_string(), "3".to_string()), ("b".to_string(), "2".to_string())]
    );
}

// ---- sent records

fn flags(r: &LaunchNotifications) -> (String, bool, bool, bool) {
    (r.timestamp.clone(), r.one_day, r.one_hour, r.now)
}

fn sent_with(id: &str, timestamp: &str, one_day: bool, one_hour: bool, now: bool) -> SentNotifications {
    let mut sent = SentNotifications::new();
    let mut record = LaunchNotifications::new(timestamp.to_string());
    record.one_day = one_day;
    record.one_hour = one_hour;
    record.now = now;
    sent.record(id.to_string(), record);
    sent
}

#[test]
fn new_record_is_fresh() {
    let r = LaunchNotifications::new("2023-05-04T18:30:00Z".to_string());
    assert_eq!(flags(&r), ("2023-05-04T18:30:00Z".to_string(), false, false, false));
}

#[test]
fn get_sent_creates_a_fresh_record() {
    let mut sent = SentNotifications::new();
    let r = sent.get_sent("id1", "2023-05-04T18:30:00Z");
    assert_eq!(flags(r), ("2023-05-04T18:30:00Z".to_string(), false, false, false));
    r.one_day = true;
    assert!(sent.get("id1").unwrap().one_day);
}

#[test]
fn get_sent_resets_when_moved_earlier_by_five_minutes() {
    let mut sent = sent_with("id1", "2023-05-04T18:30:00Z", true, true, false);
    let r = sent.get_sent("id1", "2023-05-04T18:25:00Z");
    assert_eq!(flags(r), ("2023-05-04T18:25:00Z".to_string(), false, false, false));
}

#[test]
fn get_sent_keeps_marks_on_small_or_later_moves() {
    let mut sent = sent_with("id1", "2023-05-04T18:30:00Z", true, true, false);
    let r = sent.get_sent("id1", "2023-05-04T18:25:01Z");
    assert_eq!(flags(r), ("2023-05-04T18:25:01Z".to_string(), true, true, false));
    let mut sent = sent_with("id1", "2023-05-04T18:30:00Z", true, false, false);
    let r = sent.get_sent("id1", "2023-05-05T18:30:00Z");
    assert_eq!(flags(r), ("2023-05-05T18:30:00Z".to_string(), true, false, false));
}

#[test]
fn get_sent_leaves_launched_and_unparsable_records() {
    let mut sent = sent_with("id1", "2023-05-04T18:30:00Z", true, true, true);
    let r = sent.get_sent("id1", "2023-05-01T18:30:00Z");
    assert_eq!(flags(r), ("2023-05-04T18:30:00Z".to_string(), true, true, true));
    let mut sent = sent_with("id1", "soon", true, false, false);
    let r = sent.get_sent("id1", "2023-05-01T18:30:00Z");
    assert_eq!(flags(r), ("soon".to_string(), true, false, false));
}

#[test]
fn claim_reminder_marks_once() {
    let mut r = LaunchNotifications::new("t".to_string());
    assert_eq!(r.claim_reminder(false, 5 * 3600), Some(Reminder::WithinDay));
    assert_eq!(r.claim_reminder(false, 4 * 3600), None);
    assert_eq!(r.claim_reminder(false, 1800), Some(Reminder::WithinHour));
    assert_eq!(r.claim_reminder(false, 600), None);
    assert_eq!(r.claim_reminder(true, -60), Some(Reminder::Launched));
    assert_eq!(r.claim_reminder(true, -600), None);
    assert!(r.one_day && r.one_hour && r.now);
}

#[test]
fn sent_records_from_entries_and_back() {
    let sent = SentNotifications::from_entries(vec![
        ("a".to_string(), LaunchNotifications::new("1".to_string())),
        ("a".to_string(), LaunchNotifications::new("2".to_string())),
    ]);
    let entries = sent.into_entries();
    assert_eq!(entries.len(), 1);
    assert_eq!(entries[0].0, "a");
    assert_eq!(entries[0].1.timestamp, "2");
}

// ---- the per-launch check

fn notify(action: LaunchAction) -> launch_notifier::planner::PendingNotification {
    match action {
        LaunchAction::Notify(p) => p,
        LaunchAction::Skip => panic!("skipped"),
        LaunchAction::Abort => panic!("aborted"),
    }
}

#[test]
fn check_sends_hour_reminder_once() {
    let mut sent = SentNotifications::new();
    let now = at(2023, 5, 4, 18, 0, 0);
    let l = launch(Some("id1"), Some("2023-05-04T18:30:00Z"), Some(1));
    let p = notify(check_launch(&mut sent, &l, &now));
    assert_eq!(p.reminder, Reminder::WithinHour);
    assert_eq!(p.id, "id1");
    assert_eq!(p.notification_text, "launches in 30 minutes");
    assert_eq!(p.url, "https://spacelaunchnow.me/launch/falcon-9-starlink");
    assert_eq!(p.name, "Falcon 9 | Starlink");
    assert_eq!(p.image_path, "https://example.org/rocket.png");
    assert_eq!(fields(&p.time), (2023, 5, 4, 18, 30, 0));
    assert_eq!(flags(&p.record), ("2023-05-04T18:30:00Z".to_string(), false, true, false));
    // checking again at the same moment sends nothing
    assert!(matches!(check_launch(&mut sent, &l, &now), LaunchAction::Skip));
    assert_eq!(flags(sent.get("id1").unwrap()), ("2023-05-04T18:30:00Z".to_string(), false, true, false));
}

#[test]
fn check_sends_day_reminder() {
    let mut sent = SentNotifications::new();
    let now = at(2023, 5, 4, 0, 0, 0);
    let l = launch(Some("id1"), Some("2023-05-04T18:30:00Z"), Some(1));
    let p = notify(check_launch(&mut sent, &l, &now));
    assert_eq!(p.reminder, Reminder::WithinDay);
    assert_eq!(p.notification_text, "launches in 18 hours");
    assert!(matches!(check_launch(&mut sent, &l, &now), LaunchAction::Skip));
}

#[test]
fn check_sends_launch_reminder_once() {
    let mut sent = sent_with("id1", "2023-05-04T18:30:00Z", true, true, false);
    let now = at(2023, 5, 4, 18, 31, 0);
    let l = launch(Some("id1"), Some("2023-05-04T18:30:00Z"), Some(6));
    let p = notify(check_launch(&mut sent, &l, &now));
    assert_eq!(p.reminder, Reminder::Launched);
    assert_eq!(p.notification_text, "launched");
    assert!(p.record.now);
    assert!(matches!(check_launch(&mut sent, &l, &now), LaunchAction::Skip));
    // a later reschedule does not bring the launch reminder back
    let l2 = launch(Some("id1"), Some("2023-05-04T10:00:00Z"), Some(3));
    assert!(matches!(check_launch(&mut sent, &l2, &now), LaunchAction::Skip));
}

#[test]
fn check_leaves_far_launches_alone() {
    let mut sent = SentNotifications::new();
    let now = at(2023, 5, 1, 0, 0, 0);
    let l = launch(Some("id1"), Some("2023-05-04T18:30:00Z"), Some(1));
    assert!(matches!(check_launch(&mut sent, &l, &now), LaunchAction::Skip));
    assert!(sent.get("id1").is_none());
}

#[test]
fn check_unknown_status_in_the_past_counts_as_launched() {
    let mut sent = SentNotifications::new();
    let now = at(2023, 5, 4, 19, 0, 0);
    let l = launch(Some("id1"), Some("2023-05-04T18:30:00Z"), Some(42));
    let p = notify(check_launch(&mut sent, &l, &now));
    assert_eq!(p.reminder, Reminder::Launched);
}

#[test]
fn check_skips_unparsable_times() {
    let mut sent = SentNotifications::new();
    let now = at(2023, 5, 4, 19, 0, 0);
    let l = launch(Some("id1"), Some("tomorrow"), Some(1));
    assert!(matches!(check_launch(&mut sent, &l, &now), LaunchAction::Skip));
    assert!(sent.get("id1").is_none());
}

#[test]
fn check_aborts_on_missing_fields() {
    let now = at(2023, 5, 4, 18, 0, 0);
    let mut sent = SentNotifications::new();
    let l = launch(Some("id1"), None, Some(1));
    assert!(matches!(check_launch(&mut sent, &l, &now), LaunchAction::Abort));
    let l = launch(None, Some("2023-05-04T18:30:00Z"), Some(1));
    assert!(matches!(check_launch(&mut sent, &l, &now), LaunchAction::Abort));
    let l = launch(Some("id1"), Some("2023-05-04T18:30:00Z"), None);
    assert!(matches!(check_launch(&mut sent, &l, &now), LaunchAction::Abort));
    let mut l = launch(Some("id1"), Some("2023-05-04T18:30:00Z"), Some(1));
    l.slug = None;
    assert!(matches!(check_launch(&mut sent, &l, &now), LaunchAction::Abort));
    let l = launch(Some("id1"), Some("2023-02-30T18:30:00Z"), Some(1));
    assert!(matches!(check_launch(&mut sent, &l, &now), LaunchAction::Abort));
    // without an id, a launch long past is not looked at unless it counts as launched
    let l = launch(None, Some("2023-05-01T18:30:00Z"), Some(1));
    assert!(matches!(check_launch(&mut SentNotifications::new(), &l, &now), LaunchAction::Abort));
}

#[test]
fn check_resets_reminders_when_launch_moves_earlier() {
    let mut sent = sent_with("id1", "2023-05-05T18:30:00Z", true, false, false);
    let now = at(2023, 5, 4, 12, 0, 0);
    let l = launch(Some("id1"), Some("2023-05-04T18:30:00Z"), Some(1));
    let p = notify(check_launch(&mut sent, &l, &now));
    assert_eq!(p.reminder, Reminder::WithinDay);
    assert_eq!(flags(&p.record), ("2023-05-04T18:30:00Z".to_string(), true, false, false));
}

#[test]
fn saved_records_load_back() {
    let mut sent = sent_with("a", "2023-05-04T18:30:00Z", true, false, false);
    sent.record("b".to_string(), LaunchNotifications::new("2023-06-01T00:00:00Z".to_string()));
    let entries = sent.into_entries();
    let reloaded = SentNotifications::from_entries(entries);
    assert_eq!(
        flags(reloaded.get("a").unwrap()),
        ("2023-05-04T18:30:00Z".to_string(), true, false, false)
    );
    assert_eq!(
        flags(reloaded.get("b").unwrap()),
        ("2023-06-01T00:00:00Z".to_string(), false, false, false)
    );
    assert!(reloaded.get("c").is_none());
    assert_eq!(reloaded.into_entries().len(), 2);
}

#[test]
fn status_ids_are_one_to_one() {
    let mut seen = Vec::new();
    for id in 1..=8 {
        let s = UpcomingLaunchStatusId::from_id(id).unwrap();
        assert!(!seen.contains(&s));
        seen.push(s);
    }
}

// ---- fractions of a second and display

fn at_nanos(y: i32, mo: u32, d: u32, h: u32, mi: u32, s: u32, n: u32) -> LaunchTime {
    LaunchTime::new_with_nanosecond(y, mo, d, h, mi, s, n).unwrap()
}

#[test]
fn seconds_since_drops_the_fraction_toward_zero() {
    let launch = at(2023, 5, 4, 18, 30, 0);
    let now = at_nanos(2023, 5, 4, 17, 30, 0, 500_000_000);
    assert_eq!(launch.seconds_since(&now), 3599);
    assert_eq!(now.seconds_since(&launch), -3599);
    let just_before = at_nanos(2023, 5, 4, 18, 29, 59, 999_999_999);
    assert_eq!(launch.seconds_since(&just_before), 0);
    assert_eq!(just_before.seconds_since(&launch), 0);
    assert!(LaunchTime::new_with_nanosecond(2023, 1, 1, 0, 0, 0, 1_000_000_000).is_none());
    assert_eq!(now.nanosecond(), 500_000_000);
}

#[test]
fn seconds_since_agrees_with_chrono_on_fractions() {
    let times = [
        (2023, 5, 4, 18, 30, 0, 0),
        (2023, 5, 4, 17, 30, 0, 500_000_000),
        (2023, 5, 4, 18, 29, 59, 999_999_999),
        (-5, 1, 1, 0, 0, 0, 1),
        (2024, 2, 29, 23, 59, 59, 999_999_999),
    ];
    for a in times.iter() {
        for b in times.iter() {
            let ta = at_nanos(a.0, a.1, a.2, a.3, a.4, a.5, a.6);
            let tb = at_nanos(b.0, b.1, b.2, b.3, b.4, b.5, b.6);
            let ca = chrono::NaiveDate::from_ymd_opt(a.0, a.1, a.2)
                .unwrap()
                .and_hms_nano_opt(a.3, a.4, a.5, a.6)
                .unwrap();
            let cb = chrono::NaiveDate::from_ymd_opt(b.0, b.1, b.2)
                .unwrap()
                .and_hms_nano_opt(b.3, b.4, b.5, b.6)
                .unwrap();
            assert_eq!(ta.seconds_since(&tb), ca.signed_duration_since(cb).num_seconds());
        }
    }
}

#[test]
fn check_counts_from_a_fractional_now() {
    // one hour and half a second ahead: 3599 whole seconds, the hour reminder
    let mut sent = SentNotifications::new();
    let now = at_nanos(2023, 5, 4, 17, 30, 0, 500_000_000);
    let l = launch(Some("id1"), Some("2023-05-04T18:30:00Z"), Some(1));
    let p = notify(check_launch(&mut sent, &l, &now));
    assert_eq!(p.reminder, Reminder::WithinHour);
    assert_eq!(p.notification_text, "launches in 1 hour");
    // a day ahead to the second, minus a fraction: the day reminder
    let mut sent = SentNotifications::new();
    let now = at_nanos(2023, 5, 3, 18, 30, 0, 1);
    let p = notify(check_launch(&mut sent, &l, &now));
    assert_eq!(p.reminder, Reminder::WithinDay);
    assert_eq!(p.notification_text, "launches in 1 day");
}

#[test]
fn launch_time_display_matches_chrono() {
    let times = [
        (2023, 5, 4, 18, 30, 7),
        (1, 1, 1, 0, 0, 0),
        (999, 12, 31, 23, 59, 0),
        (0, 2, 29, 1, 2, 3),
        (-1, 3, 4, 5, 6, 7),
        (-12345, 1, 2, 3, 4, 5),
        (10000, 10, 10, 10, 10, 10),
        (262142, 12, 31, 23, 59, 59),
        (-262143, 1, 1, 0, 0, 0),
    ];
    for t in times.iter() {
        let ours = format_launch_time(&at(t.0, t.1, t.2, t.3, t.4, t.5));
        let chrono_text = chrono::NaiveDate::from_ymd_opt(t.0, t.1, t.2)
            .unwrap()
            .and_hms_opt(t.3, t.4, t.5)
            .unwrap()
            .format("%d/%m/%Y %H:%M")
            .to_string();
        assert_eq!(ours, chrono_text);
    }
    assert_eq!(format_launch_time(&at(2023, 5, 4, 8, 3, 0)), "04/05/2023 08:03");
}

#[test]
fn chrono_timestamps_parse_back() {
    let times = [(2023, 5, 4, 18, 30, 7), (7, 1, 2, 3, 4, 5), (10000, 6, 7, 8, 9, 10), (0, 1, 1, 0, 0, 0)];
    for t in times.iter() {
        let text = format!(
            "{}Z",
            chrono::NaiveDate::from_ymd_opt(t.0, t.1, t.2)
                .unwrap()
                .and_hms_opt(t.3, t.4, t.5)
                .unwrap()
                .format("%Y-%m-%dT%H:%M:%S")
        );
        let parsed = parse_time(&text).unwrap();
        assert_eq!(fields(&parsed), (t.0, t.1, t.2, t.3, t.4, t.5));
    }
}

#[test]
fn last_character_is_not_read() {
    let a = parse_time("2023-05-04T18:30:07Z").unwrap();
    let b = parse_time("2023-05-04T18:30:07!").unwrap();
    assert_eq!(fields(&a), fields(&b));
}

#[test]
fn number_errors_are_those_of_the_failing_piece() {
    let failing = "0x".parse::<u32>().unwrap_err();
    match parse_time("2023-0x-04T18:30:00Z") {
        Err(ParseTimeError::ParseIntError(e)) => assert_eq!(e, failing),
        _ => panic!("expected a number error"),
    }
    let empty = "".parse::<u32>().unwrap_err();
    match parse_time("2023--04T18:30:00Z") {
        Err(ParseTimeError::ParseIntError(e)) => assert_eq!(e, empty),
        _ => panic!("expected a number error"),
    }
    let overflow = "99999999999".parse::<u32>().unwrap_err();
    match parse_time("2023-05-04T18:99999999999:00Z") {
        Err(ParseTimeError::ParseIntError(e)) => assert_eq!(e, overflow),
        _ => panic!("expected a number error"),
    }
    // the same error whatever the (ASCII, non-`T`) last character
    match (parse_time("x-1-1T1:1:1Z"), parse_time("x-1-1T1:1:1!")) {
        (Err(ParseTimeError::ParseIntError(a)), Err(ParseTimeError::ParseIntError(b))) => {
            assert_eq!(a, b)
        }
        _ => panic!("expected number errors"),
    }
}
