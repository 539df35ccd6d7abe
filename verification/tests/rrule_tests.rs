use chrono::{DateTime, Duration, TimeZone, Utc};
use mcp_caldav::ics::rrule::expand_rrule;
use mcp_caldav::ics::timezone::resolve_timezone;

fn day_of(ts: i64) -> String {
    DateTime::from_timestamp(ts, 0).unwrap().format("%Y-%m-%d").to_string()
}

#[test]
fn expands_long_running_daily_into_recent_window() {
    // Daily event since 2018: far more occurrences before 2026 than the
    // occurrence limit. A one-day window in 2026 still yields its instance.
    let dtstart = Utc.with_ymd_and_hms(2018, 1, 1, 9, 0, 0).unwrap().timestamp();
    let range_start = Utc.with_ymd_and_hms(2026, 5, 3, 0, 0, 0).unwrap().timestamp();
    let range_end = Utc.with_ymd_and_hms(2026, 5, 3, 23, 59, 59).unwrap().timestamp();

    let instances = expand_rrule(
        "FREQ=DAILY",
        dtstart,
        None,
        &[],
        Duration::hours(1).num_seconds(),
        range_start,
        range_end,
        "Standup",
        "uid-1",
        None,
        None,
        None,
    )
    .unwrap();

    assert_eq!(instances.len(), 1, "expected today's instance to be expanded");
    assert_eq!(
        instances[0].instance_start,
        Utc.with_ymd_and_hms(2026, 5, 3, 9, 0, 0).unwrap().timestamp()
    );
}

#[test]
fn returns_empty_when_window_is_before_dtstart() {
    let dtstart = Utc.with_ymd_and_hms(2026, 6, 1, 9, 0, 0).unwrap().timestamp();
    let range_start = Utc.with_ymd_and_hms(2026, 5, 1, 0, 0, 0).unwrap().timestamp();
    let range_end = Utc.with_ymd_and_hms(2026, 5, 31, 23, 59, 59).unwrap().timestamp();

    let instances = expand_rrule(
        "FREQ=DAILY",
        dtstart,
        None,
        &[],
        Duration::hours(1).num_seconds(),
        range_start,
        range_end,
        "Future",
        "uid-2",
        None,
        None,
        None,
    )
    .unwrap();

    assert!(instances.is_empty());
}

#[test]
fn weekly_on_today_is_included() {
    // Weekly Sunday event since 2020. 2026-05-03 is a Sunday.
    let dtstart = Utc.with_ymd_and_hms(2020, 1, 5, 14, 0, 0).unwrap().timestamp();
    let range_start = Utc.with_ymd_and_hms(2026, 5, 3, 0, 0, 0).unwrap().timestamp();
    let range_end = Utc.with_ymd_and_hms(2026, 5, 3, 23, 59, 59).unwrap().timestamp();

    let instances = expand_rrule(
        "FREQ=WEEKLY;BYDAY=SU",
        dtstart,
        None,
        &[],
        Duration::hours(1).num_seconds(),
        range_start,
        range_end,
        "Sunday Sync",
        "uid-3",
        None,
        None,
        None,
    )
    .unwrap();

    assert_eq!(instances.len(), 1);
}

#[test]
fn weekly_event_at_local_time_holds_steady_across_dst() {
    // Weekly Monday meeting at 09:00 America/New_York, started before the
    // 2026 spring-forward (2026-03-08): 14:00 UTC before, 13:00 UTC after.
    let ny_zone: chrono_tz::Tz = "America/New_York".parse().unwrap();
    let ny = resolve_timezone("America/New_York").unwrap();
    let dtstart = ny_zone
        .with_ymd_and_hms(2026, 1, 5, 9, 0, 0)
        .unwrap()
        .with_timezone(&Utc)
        .timestamp();

    let range_start = Utc.with_ymd_and_hms(2026, 3, 1, 0, 0, 0).unwrap().timestamp();
    let range_end = Utc.with_ymd_and_hms(2026, 3, 31, 23, 59, 59).unwrap().timestamp();

    let instances = expand_rrule(
        "FREQ=WEEKLY;BYDAY=MO",
        dtstart,
        Some(&ny),
        &[],
        Duration::hours(1).num_seconds(),
        range_start,
        range_end,
        "NY Monday Sync",
        "uid-dst",
        None,
        None,
        Some(&ny),
    )
    .unwrap();

    // Mondays of March 2026: 2, 9, 16, 23, 30
    assert_eq!(instances.len(), 5, "expected 5 Mondays in March 2026");

    let pre_dst = instances
        .iter()
        .find(|i| day_of(i.instance_start) == "2026-03-02")
        .expect("missing 2026-03-02 instance");
    assert_eq!(
        pre_dst.instance_start,
        Utc.with_ymd_and_hms(2026, 3, 2, 14, 0, 0).unwrap().timestamp(),
        "pre-DST instance should be 14:00 UTC (09:00 EST)"
    );

    let post_dst = instances
        .iter()
        .find(|i| day_of(i.instance_start) == "2026-03-09")
        .expect("missing 2026-03-09 instance");
    assert_eq!(
        post_dst.instance_start,
        Utc.with_ymd_and_hms(2026, 3, 9, 13, 0, 0).unwrap().timestamp(),
        "post-DST instance should be 13:00 UTC (09:00 EDT)"
    );

    assert!(
        pre_dst.local_start.contains("09:00"),
        "pre-DST local_start should show 09:00, got {:?}",
        pre_dst.local_start
    );
    assert!(
        post_dst.local_start.contains("09:00"),
        "post-DST local_start should show 09:00, got {:?}",
        post_dst.local_start
    );
}

#[test]
fn utc_dtstart_without_tz_keeps_old_behavior() {
    // Without a zone the expansion is anchored in UTC: occurrences keep
    // their UTC time across DST.
    let dtstart = Utc.with_ymd_and_hms(2026, 1, 5, 14, 0, 0).unwrap().timestamp();
    let range_start = Utc.with_ymd_and_hms(2026, 3, 1, 0, 0, 0).unwrap().timestamp();
    let range_end = Utc.with_ymd_and_hms(2026, 3, 31, 23, 59, 59).unwrap().timestamp();

    let instances = expand_rrule(
        "FREQ=WEEKLY;BYDAY=MO",
        dtstart,
        None,
        &[],
        Duration::hours(1).num_seconds(),
        range_start,
        range_end,
        "Floating",
        "uid-float",
        None,
        None,
        None,
    )
    .unwrap();

    for inst in &instances {
        assert_eq!(
            DateTime::from_timestamp(inst.instance_start, 0).unwrap().format("%H:%M").to_string(),
            "14:00",
            "UTC-anchored instances must stay at 14:00 UTC"
        );
    }
}

#[test]
fn exdate_excludes_a_specific_instance() {
    // Daily event since 2026-04-01 at 14:00 UTC; EXDATE on 2026-05-03.
    let dtstart = Utc.with_ymd_and_hms(2026, 4, 1, 14, 0, 0).unwrap().timestamp();
    let range_start = Utc.with_ymd_and_hms(2026, 5, 1, 0, 0, 0).unwrap().timestamp();
    let range_end = Utc.with_ymd_and_hms(2026, 5, 7, 23, 59, 59).unwrap().timestamp();

    let extra = vec!["EXDATE:20260503T140000Z".to_string()];
    let instances = expand_rrule(
        "FREQ=DAILY",
        dtstart,
        None,
        &extra,
        Duration::hours(1).num_seconds(),
        range_start,
        range_end,
        "Daily",
        "uid-exdate",
        None,
        None,
        None,
    )
    .unwrap();

    // May 1..=7 = 7 days, minus the EXDATE on May 3 = 6 instances.
    assert_eq!(instances.len(), 6, "EXDATE on 2026-05-03 must drop that day");
    assert!(
        !instances.iter().any(|i| day_of(i.instance_start) == "2026-05-03"),
        "expansion must not contain the excluded date"
    );
}

#[test]
fn rdate_adds_a_date_outside_the_master_pattern() {
    // Weekly on Monday; 2026-05-03 is a Sunday, added by an RDATE.
    let dtstart = Utc.with_ymd_and_hms(2026, 1, 5, 14, 0, 0).unwrap().timestamp();
    let range_start = Utc.with_ymd_and_hms(2026, 5, 3, 0, 0, 0).unwrap().timestamp();
    let range_end = Utc.with_ymd_and_hms(2026, 5, 3, 23, 59, 59).unwrap().timestamp();

    let baseline = expand_rrule(
        "FREQ=WEEKLY;BYDAY=MO",
        dtstart,
        None,
        &[],
        Duration::hours(1).num_seconds(),
        range_start,
        range_end,
        "Weekly Mon",
        "uid-rdate-base",
        None,
        None,
        None,
    )
    .unwrap();
    assert!(baseline.is_empty(), "Sunday is not in BYDAY=MO");

    let extra = vec!["RDATE:20260503T140000Z".to_string()];
    let instances = expand_rrule(
        "FREQ=WEEKLY;BYDAY=MO",
        dtstart,
        None,
        &extra,
        Duration::hours(1).num_seconds(),
        range_start,
        range_end,
        "Weekly Mon",
        "uid-rdate",
        None,
        None,
        None,
    )
    .unwrap();
    assert_eq!(instances.len(), 1, "RDATE must inject today's instance");
    assert_eq!(
        instances[0].instance_start,
        Utc.with_ymd_and_hms(2026, 5, 3, 14, 0, 0).unwrap().timestamp()
    );
}

#[test]
fn weekly_toronto_event_from_2024_expands_into_2026_window() {
    // Weekly at 22:00 Toronto since 2024-06-02 (a Sunday): the 2026-05-03
    // occurrence is at 02:00 UTC on 2026-05-04.
    let toronto_zone: chrono_tz::Tz = "America/Toronto".parse().unwrap();
    let toronto = resolve_timezone("America/Toronto").unwrap();
    let dtstart = toronto_zone
        .with_ymd_and_hms(2024, 6, 2, 22, 0, 0)
        .unwrap()
        .with_timezone(&Utc)
        .timestamp();

    let range_start = Utc.with_ymd_and_hms(2026, 5, 3, 0, 0, 0).unwrap().timestamp();
    let range_end = Utc.with_ymd_and_hms(2026, 5, 5, 23, 59, 59).unwrap().timestamp();

    let instances = expand_rrule(
        "FREQ=WEEKLY",
        dtstart,
        Some(&toronto),
        &[],
        Duration::minutes(15).num_seconds(),
        range_start,
        range_end,
        "Ozempic",
        "uid-ozempic",
        None,
        None,
        Some(&toronto),
    )
    .unwrap();

    let target = Utc.with_ymd_and_hms(2026, 5, 4, 2, 0, 0).unwrap().timestamp();
    assert!(
        instances.iter().any(|i| i.instance_start == target),
        "expected Sunday 2026-05-03 22:00 Toronto (= 2026-05-04 02:00 UTC); got {:?}",
        instances.iter().map(|i| i.instance_start).collect::<Vec<_>>()
    );
}

#[test]
fn synthetic_exdate_from_recurrence_id_dedups_overrides() {
    // A RECURRENCE-ID turned into an EXDATE removes the overridden occurrence.
    let dtstart = Utc.with_ymd_and_hms(2026, 5, 4, 14, 0, 0).unwrap().timestamp(); // Mon
    let range_start = Utc.with_ymd_and_hms(2026, 5, 4, 0, 0, 0).unwrap().timestamp();
    let range_end = Utc.with_ymd_and_hms(2026, 5, 11, 23, 59, 59).unwrap().timestamp();

    let extra = vec!["EXDATE:20260504T140000Z".to_string()];
    let instances = expand_rrule(
        "FREQ=WEEKLY;BYDAY=MO",
        dtstart,
        None,
        &extra,
        Duration::hours(1).num_seconds(),
        range_start,
        range_end,
        "Weekly Mon",
        "uid-override",
        None,
        None,
        None,
    )
    .unwrap();

    assert_eq!(instances.len(), 1);
    assert_eq!(day_of(instances[0].instance_start), "2026-05-11");
}
