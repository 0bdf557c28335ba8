use robo_radio::codec::{build_listeners_event, build_timestamp, build_track_event};
use robo_radio::media_player::CurrentTrack;

fn sample_track() -> CurrentTrack {
    CurrentTrack {
        started_at: 1700000000000,
        id: 206,
        permalink_url: "https://example.com/t/206".to_string(),
        duration: 185000,
        title: "Night Drive".to_string(),
        artist: "Neon".to_string(),
        artist_permalink: "https://example.com/neon".to_string(),
        url: "https://cdn.example.com/stream/206".to_string(),
        token: "tok-206".to_string(),
    }
}

#[test]
fn listeners_event_zero() {
    assert_eq!(build_listeners_event(0), "{\"event\":\"listeners\",\"data\":0}");
}

#[test]
fn listeners_event_small() {
    assert_eq!(build_listeners_event(3), "{\"event\":\"listeners\",\"data\":3}");
}

#[test]
fn listeners_event_multi_digit() {
    assert_eq!(build_listeners_event(1042), "{\"event\":\"listeners\",\"data\":1042}");
}

#[test]
fn track_event_exact() {
    let t = sample_track();
    let expected = "{\"event\":\"track\",\"data\":{\
\"started_at\":\"2023-11-14T22:13:20Z\",\
\"id\":206,\
\"permalink_url\":\"https://example.com/t/206\",\
\"duration\":185000,\
\"title\":\"Night Drive\",\
\"artist\":\"Neon\",\
\"artist_permalink\":\"https://example.com/neon\",\
\"url\":\"https://cdn.example.com/stream/206\",\
\"token\":\"tok-206\"}}";
    assert_eq!(build_track_event(&t), expected);
}

#[test]
fn track_event_escapes_quote_and_backslash() {
    let mut t = sample_track();
    t.title = "say \"hi\" \\ bye".to_string();
    let m = build_track_event(&t);
    assert!(m.contains("\"title\":\"say \\\"hi\\\" \\\\ bye\""));
}

#[test]
fn track_event_escapes_control_chars() {
    let mut t = sample_track();
    t.title = "line1\nline2\ttab".to_string();
    let m = build_track_event(&t);
    assert!(m.contains("\"title\":\"line1\\u000aline2\\u0009tab\""));
}

#[test]
fn timestamp_epoch() {
    assert_eq!(build_timestamp(0), "1970-01-01T00:00:00Z");
}

#[test]
fn timestamp_whole_second_has_no_fraction() {
    assert_eq!(build_timestamp(1700000000000), "2023-11-14T22:13:20Z");
}

#[test]
fn timestamp_fraction_is_three_digits() {
    assert_eq!(build_timestamp(1700000000123), "2023-11-14T22:13:20.123Z");
    assert_eq!(build_timestamp(7), "1970-01-01T00:00:00.007Z");
}

#[test]
fn timestamp_leap_day() {
    // 2000 is a leap year (divisible by 400), 1900-style century rules
    // notwithstanding.
    assert_eq!(build_timestamp(951782400000), "2000-02-29T00:00:00Z");
}

#[test]
fn timestamp_matches_upstream_serialization() {
    // The frames must carry the same text a chrono `DateTime<Utc>` would
    // serialize to; chrono's serialization is its RFC 3339 form with
    // automatic subsecond digits and a `Z` suffix.
    let samples: Vec<u64> = vec![
        0,
        1,
        999,
        1000,
        86399999,
        86400000,
        951782399999,
        951782400000,
        1700000000000,
        1700000000123,
        4102444800000,
        253402300799999,
        253402300800000,
    ];
    for ms in samples {
        let dt = chrono::DateTime::from_timestamp_millis(ms as i64).unwrap();
        let upstream = dt.to_rfc3339_opts(chrono::SecondsFormat::AutoSi, true);
        assert_eq!(build_timestamp(ms), upstream, "at {} ms", ms);
    }
}

#[test]
fn track_event_keeps_unicode() {
    let mut t = sample_track();
    t.artist = "Sigur Rós — ✨".to_string();
    let m = build_track_event(&t);
    assert!(m.contains("\"artist\":\"Sigur Rós — ✨\""));
}
