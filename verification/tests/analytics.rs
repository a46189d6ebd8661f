use chrono::{Datelike, NaiveDate};
use gulfstream::application::analytics::{
    apply_playback_event, bool_to_i64, bytes_to_record, fill_missing_points, hash_viewer,
    playback_event_recorded,
    reporting_range, time_series_points, PlaybackEventKind, ReportingRange, SessionProgress,
};
use gulfstream::config::{AnalyticsConfig, CookieSameSite};
use gulfstream::domain::AnalyticsPoint;
use gulfstream::error::AppError;

fn day(year: i32, month: u32, date: u32) -> i64 {
    i64::from(
        NaiveDate::from_ymd_opt(year, month, date)
            .expect("valid date")
            .num_days_from_ce(),
    )
}

fn analytics(enabled: bool) -> AnalyticsConfig {
    AnalyticsConfig {
        enabled,
        viewer_hash_key: "Jefe".to_owned(),
        visitor_cookie_name: "visitor".to_owned(),
        visitor_cookie_path: "/".to_owned(),
        playback_cookie_name: "playback".to_owned(),
        playback_session_cookie_name: "playback_session".to_owned(),
        playback_session_cookie_path: "/".to_owned(),
        cookie_secure: true,
        cookie_same_site: CookieSameSite::Lax,
        visitor_cookie_max_age_seconds: 3600,
        heartbeat_interval_seconds: 15,
        maximum_heartbeat_delta_ms: 30_000,
        default_reporting_days: 30,
        maximum_reporting_days: 366,
        raw_event_retention_days: 30,
        playback_session_retention_days: 30,
        maintenance_interval_seconds: 3600,
        record_byte_events: true,
    }
}

#[test]
fn time_series_fills_days_without_activity() {
    let range = ReportingRange {
        from: day(2026, 8, 4),
        to: day(2026, 8, 6),
        media_id: None,
    };
    let points = fill_missing_points(
        &range,
        vec![AnalyticsPoint {
            day: "2026-08-05".to_owned(),
            views: 2,
            unique_viewers: 1,
            play_starts: 2,
            completed_views: 1,
            watch_time_ms: 1000,
            bytes_served: 2000,
        }],
    );

    assert_eq!(points.len(), 3);
    assert_eq!(points[0].day, "2026-08-04");
    assert_eq!(points[0].views, 0);
    assert_eq!(points[1].day, "2026-08-05");
    assert_eq!(points[1].views, 2);
    assert_eq!(points[2].day, "2026-08-06");
    assert_eq!(points[2].views, 0);
}

#[test]
fn time_series_keeps_the_last_point_of_a_day() {
    let range = ReportingRange { from: day(2026, 12, 31), to: day(2027, 1, 1), media_id: None };
    let point = |views| AnalyticsPoint {
        day: "2027-01-01".to_owned(),
        views,
        unique_viewers: 0,
        play_starts: 0,
        completed_views: 0,
        watch_time_ms: 0,
        bytes_served: 0,
    };
    let points = time_series_points(&range, vec![point(1), point(5)]).expect("dates");
    assert_eq!(points[0].day, "2026-12-31");
    assert_eq!(points[1].day, "2027-01-01");
    assert_eq!(points[1].views, 5);
    let outside = ReportingRange { from: i64::from(i32::MAX), to: i64::from(i32::MAX), media_id: None };
    assert!(time_series_points(&outside, vec![]).is_none());
}

#[test]
fn reporting_ranges_are_bounded() {
    let config = analytics(true);
    let today = day(2026, 8, 6);
    let range = reporting_range(&config, today, None, None, None).expect("default range");
    assert_eq!((range.from, range.to), (today - 29, today));
    assert!(matches!(
        reporting_range(&config, today, Some(today + 1), None, None),
        Err(AppError::BadRequest(m)) if m == "from must not be after to"
    ));
    assert!(matches!(
        reporting_range(&config, today, Some(today - 366), None, None),
        Err(AppError::BadRequest(m)) if m == "reporting range cannot exceed 366 days"
    ));
    assert!(reporting_range(&config, today, Some(today - 365), None, Some("m".to_owned())).is_ok());
}

#[test]
fn first_play_and_completion_are_counted_once() {
    let config = analytics(true);
    let mut progress = SessionProgress { play_started: false, completed: false, last_position_ms: 0 };
    let mut plays = 0;
    let mut completions = 0;
    let events = [
        PlaybackEventKind::Ended,
        PlaybackEventKind::Play,
        PlaybackEventKind::Play,
        PlaybackEventKind::Heartbeat,
        PlaybackEventKind::Ended,
        PlaybackEventKind::Play,
        PlaybackEventKind::Ended,
    ];
    let mut position = 0;
    for kind in events {
        position += 1000;
        let (next, effect) = apply_playback_event(&config, &progress, kind, position, 1000, 5000)
            .expect("valid event")
            .expect("analytics enabled");
        plays += bool_to_i64(effect.first_play);
        completions += bool_to_i64(effect.first_completion);
        progress = next;
    }
    assert_eq!((plays, completions), (1, 1));
}

#[test]
fn events_are_recorded_only_when_enabled_and_valid() {
    assert_eq!(playback_event_recorded(&analytics(false), -1, -1).expect("ignored"), false);
    assert_eq!(playback_event_recorded(&analytics(true), 0, 0).expect("recorded"), true);
    assert!(matches!(
        playback_event_recorded(&analytics(true), -1, 0),
        Err(AppError::BadRequest(m)) if m == "playback positions and deltas cannot be negative"
    ));
    assert!(playback_event_recorded(&analytics(true), 0, -5).is_err());
}

#[test]
fn watch_time_is_capped() {
    let config = analytics(true);
    let start = SessionProgress { play_started: true, completed: false, last_position_ms: 10_000 };
    let credited = |kind, position, watched, elapsed| {
        apply_playback_event(&config, &start, kind, position, watched, elapsed)
            .expect("valid")
            .expect("enabled")
            .1
            .watched_delta_ms
    };
    assert_eq!(credited(PlaybackEventKind::Heartbeat, 20_000, 8_000, 9_000), 8_000);
    assert_eq!(credited(PlaybackEventKind::Heartbeat, 20_000, 60_000, 90_000), 10_000);
    assert_eq!(credited(PlaybackEventKind::Pause, 40_000, 60_000, 90_000), 30_000);
    assert_eq!(credited(PlaybackEventKind::Ended, 40_000, 60_000, 2_000), 2_000);
    assert_eq!(credited(PlaybackEventKind::Heartbeat, 5_000, 1_000, 1_000), 0);
    assert_eq!(credited(PlaybackEventKind::Seek, 40_000, 1_000, 1_000), 0);
    assert_eq!(credited(PlaybackEventKind::Heartbeat, 20_000, 1_000, -5), 0);
    assert!(matches!(
        apply_playback_event(&config, &start, PlaybackEventKind::Play, -1, 0, 0),
        Err(AppError::BadRequest(_))
    ));
    assert!(apply_playback_event(&analytics(false), &start, PlaybackEventKind::Play, -1, 0, 0)
        .expect("disabled")
        .is_none());
}

#[test]
fn viewer_hashes_and_byte_counts() {
    assert_eq!(
        hash_viewer(&analytics(true), "what do ya want for nothing?"),
        "5bdcc146bf60754e6a042426089575c75a003f089d2739839dec58b964ec3843"
    );
    assert_eq!(bytes_to_record(&analytics(true), 0).expect("ok"), None);
    assert_eq!(bytes_to_record(&analytics(false), 10).expect("ok"), None);
    assert_eq!(bytes_to_record(&analytics(true), 10).expect("ok"), Some(10));
    assert!(matches!(bytes_to_record(&analytics(true), u64::MAX), Err(AppError::Internal(_))));
    assert_eq!(PlaybackEventKind::Heartbeat.as_str(), "heartbeat");
}
