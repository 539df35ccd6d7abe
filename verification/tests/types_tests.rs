use mcp_caldav::ics::types::EventSummary;

fn ev(summary: &str, description: Option<&str>, location: Option<&str>) -> EventSummary {
    EventSummary {
        uid: "u".into(),
        summary: summary.into(),
        dtstart: chrono::Utc::now().timestamp(),
        dtend: None,
        location: location.map(String::from),
        description: description.map(String::from),
        is_recurring: false,
        url: String::new(),
        dtstart_tz: None,
    }
}

#[test]
fn matches_summary() {
    assert!(ev("Standup with team", None, None).matches_query("standup"));
}

#[test]
fn matches_description_only() {
    // Query word lives in description; not present in summary or location.
    let e = ev("Weekly sync", Some("Discuss roadmap and dragonfruit plans"), None);
    assert!(!e.summary.to_lowercase().contains("dragonfruit"));
    assert!(e.matches_query("dragonfruit"));
}

#[test]
fn matches_location_only() {
    let e = ev("Lunch", None, Some("Cafe Aurelius, Berlin"));
    assert!(!e.summary.to_lowercase().contains("aurelius"));
    assert!(e.matches_query("aurelius"));
}

#[test]
fn case_insensitive() {
    let e = ev("Quarterly Review", None, None);
    assert!(e.matches_query("QUARTERLY"));
    assert!(e.matches_query("quarterly"));
    assert!(e.matches_query("ReVieW"));
}

#[test]
fn no_match_returns_false() {
    let e = ev("Standup", Some("notes"), Some("room 3"));
    assert!(!e.matches_query("xyzzy"));
}

#[test]
fn empty_query_matches_everything() {
    let e = ev("anything", None, None);
    assert!(e.matches_query(""));
}

#[test]
fn does_not_match_uid_or_other_fields() {
    // A query that only occurs in the UID must not match: only summary,
    // description and location are searched.
    let e = EventSummary {
        uid: "dragonfruit-uid-123".into(),
        summary: "Standup".into(),
        dtstart: chrono::Utc::now().timestamp(),
        dtend: None,
        location: None,
        description: None,
        is_recurring: false,
        url: String::new(),
        dtstart_tz: None,
    };
    assert!(!e.matches_query("dragonfruit"));
}
