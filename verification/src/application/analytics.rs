//! Playback analytics: what each player event adds to the statistics, the
//! reporting period of a query, and the daily series of a period.
use vstd::prelude::*;

use crate::auth::utf8;
use crate::config::AnalyticsConfig;
use crate::crypto::{hmac_sha256, mac_tag};
use crate::domain::AnalyticsPoint;
use crate::encoding::{hex_encode, hex_text};
use crate::error::AppError;
use crate::text::{chars_equal, chars_of, decimal, push_str, str_equal};

verus! {

/// The kinds of player events.
#[derive(Clone, Copy, Debug, PartialEq, Eq, Structural)]
pub enum PlaybackEventKind {
    Play,
    Pause,
    Seek,
    Heartbeat,
    Ended,
}

impl PlaybackEventKind {
    pub open spec fn text(self) -> Seq<char> {
        match self {
            PlaybackEventKind::Play => "play"@,
            PlaybackEventKind::Pause => "pause"@,
            PlaybackEventKind::Seek => "seek"@,
            PlaybackEventKind::Heartbeat => "heartbeat"@,
            PlaybackEventKind::Ended => "ended"@,
        }
    }

    /// The name of the kind, as stored with the event.
    pub fn as_str(self) -> (s: &'static str)
        ensures
            s@ == self.text(),
    {
        match self {
            PlaybackEventKind::Play => "play",
            PlaybackEventKind::Pause => "pause",
            PlaybackEventKind::Seek => "seek",
            PlaybackEventKind::Heartbeat => "heartbeat",
            PlaybackEventKind::Ended => "ended",
        }
    }
}

/// 1 for `true`, 0 for `false`.
pub fn bool_to_i64(value: bool) -> (r: i64)
    ensures
        r == if value {
            1int
        } else {
            0int
        },
{
    if value {
        1
    } else {
        0
    }
}

// ---------------------------------------------------------------------------
// Player events.
// ---------------------------------------------------------------------------

/// What is known of a playback session before an event.
#[derive(Clone, Copy, Debug)]
pub struct SessionProgress {
    /// Whether playback has started in this session.
    pub play_started: bool,
    /// Whether the session has reached the end after starting.
    pub completed: bool,
    /// The position of the last event, in milliseconds.
    pub last_position_ms: i64,
}

/// What an event adds to the statistics.
#[derive(Clone, Copy, Debug)]
pub struct EventEffect {
    /// The session's first `play`: one view and one play start.
    pub first_play: bool,
    /// The session's first `ended` after a start: one completed view.
    pub first_completion: bool,
    /// The watch time credited, in milliseconds.
    pub watched_delta_ms: i64,
}

/// Whether an event of this kind is the session's first play.
pub open spec fn is_first_play(p: SessionProgress, kind: PlaybackEventKind) -> bool {
    kind == PlaybackEventKind::Play && !p.play_started
}

/// Whether an event of this kind is the session's first completion.
pub open spec fn is_first_completion(p: SessionProgress, kind: PlaybackEventKind) -> bool {
    kind == PlaybackEventKind::Ended && p.play_started && !p.completed
}

/// Whether events of this kind credit watch time.
pub open spec fn credits_watch_time(kind: PlaybackEventKind) -> bool {
    kind == PlaybackEventKind::Heartbeat || kind == PlaybackEventKind::Pause || kind
        == PlaybackEventKind::Ended
}

pub open spec fn min(a: int, b: int) -> int {
    if a <= b {
        a
    } else {
        b
    }
}

pub open spec fn clamp_i64(a: int) -> int {
    if a < i64::MIN {
        i64::MIN as int
    } else if a > i64::MAX {
        i64::MAX as int
    } else {
        a
    }
}

/// The watch time an event credits: for heartbeats, pauses and ends, the
/// reported delta capped by the configured maximum, by the time elapsed
/// since the previous event and by the progress of the position (neither
/// counted below zero); nothing for plays and seeks.
pub open spec fn credited_delta(
    kind: PlaybackEventKind,
    position_ms: int,
    watched_delta_ms: int,
    elapsed_ms: int,
    previous_position_ms: int,
    maximum_delta_ms: int,
) -> int {
    if credits_watch_time(kind) {
        let elapsed = if elapsed_ms < 0 {
            0
        } else {
            elapsed_ms
        };
        let progressed = clamp_i64(position_ms - previous_position_ms);
        let progressed = if progressed < 0 {
            0
        } else {
            progressed
        };
        min(min(min(watched_delta_ms, maximum_delta_ms), elapsed), progressed)
    } else {
        0
    }
}

/// The session after an event of this kind (the position aside).
pub open spec fn progress_after(p: SessionProgress, kind: PlaybackEventKind) -> (bool, bool) {
    (p.play_started || is_first_play(p, kind), p.completed || is_first_completion(p, kind))
}

/// Whether a player event is recorded at all, checked before its session is
/// looked up: nothing is recorded when analytics are disabled, and negative
/// positions and deltas are refused.
pub fn playback_event_recorded(analytics: &AnalyticsConfig, position_ms: i64, watched_delta_ms: i64) -> (r: Result<
    bool,
    AppError,
>)
    ensures
        !analytics.enabled ==> r == Ok::<bool, AppError>(false),
        analytics.enabled && (position_ms < 0 || watched_delta_ms < 0) ==> (r matches Err(AppError::BadRequest(m))
            && m@ == "playback positions and deltas cannot be negative"@),
        analytics.enabled && position_ms >= 0 && watched_delta_ms >= 0 ==> r == Ok::<bool, AppError>(true),
{
    if !analytics.enabled {
        return Ok(false);
    }
    if position_ms < 0 || watched_delta_ms < 0 {
        return Err(AppError::BadRequest("playback positions and deltas cannot be negative".to_owned()));
    }
    Ok(true)
}

/// What a player event does to its session and the statistics, given the
/// milliseconds elapsed since the session's previous event. When analytics
/// are disabled nothing is recorded; negative positions and deltas are
/// refused.
pub fn apply_playback_event(
    analytics: &AnalyticsConfig,
    progress: &SessionProgress,
    kind: PlaybackEventKind,
    position_ms: i64,
    watched_delta_ms: i64,
    elapsed_ms: i64,
) -> (r: Result<Option<(SessionProgress, EventEffect)>, AppError>)
    ensures
        !analytics.enabled ==> r == Ok::<Option<(SessionProgress, EventEffect)>, AppError>(None),
        analytics.enabled && (position_ms < 0 || watched_delta_ms < 0) ==> (r matches Err(AppError::BadRequest(m))
            && m@ == "playback positions and deltas cannot be negative"@),
        analytics.enabled && position_ms >= 0 && watched_delta_ms >= 0 ==> (r matches Ok(Some((next, effect)))
            && effect.first_play == is_first_play(*progress, kind) && effect.first_completion
            == is_first_completion(*progress, kind) && effect.watched_delta_ms == credited_delta(
            kind,
            position_ms as int,
            watched_delta_ms as int,
            elapsed_ms as int,
            progress.last_position_ms as int,
            analytics.maximum_heartbeat_delta_ms as int,
        ) && (next.play_started, next.completed) == progress_after(*progress, kind)
            && next.last_position_ms == position_ms),
{
    if !analytics.enabled {
        return Ok(None);
    }
    if position_ms < 0 || watched_delta_ms < 0 {
        return Err(AppError::BadRequest("playback positions and deltas cannot be negative".to_owned()));
    }
    let first_play = kind == PlaybackEventKind::Play && !progress.play_started;
    let first_completion = kind == PlaybackEventKind::Ended && progress.play_started && !progress.completed;
    let elapsed = if elapsed_ms < 0 {
        0
    } else {
        elapsed_ms
    };
    let difference: i128 = (position_ms as i128) - (progress.last_position_ms as i128);
    let progressed: i64 = if difference < 0 {
        0
    } else if difference > i64::MAX as i128 {
        i64::MAX
    } else {
        difference as i64
    };
    let delta = if kind == PlaybackEventKind::Heartbeat || kind == PlaybackEventKind::Pause || kind
        == PlaybackEventKind::Ended {
        let mut d = watched_delta_ms;
        if analytics.maximum_heartbeat_delta_ms < d {
            d = analytics.maximum_heartbeat_delta_ms;
        }
        if elapsed < d {
            d = elapsed;
        }
        if progressed < d {
            d = progressed;
        }
        d
    } else {
        0
    };
    let next = SessionProgress {
        play_started: progress.play_started || first_play,
        completed: progress.completed || first_completion,
        last_position_ms: position_ms,
    };
    Ok(Some((next, EventEffect { first_play, first_completion, watched_delta_ms: delta })))
}

/// The credited watch time is never negative and never more than reported.
pub proof fn lemma_credited_delta_bounds(
    kind: PlaybackEventKind,
    position_ms: int,
    watched_delta_ms: int,
    elapsed_ms: int,
    previous_position_ms: int,
    maximum_delta_ms: int,
)
    requires
        position_ms >= 0,
        watched_delta_ms >= 0,
        maximum_delta_ms >= 0,
    ensures
        0 <= credited_delta(kind, position_ms, watched_delta_ms, elapsed_ms, previous_position_ms, maximum_delta_ms)
            <= watched_delta_ms,
        credited_delta(kind, position_ms, watched_delta_ms, elapsed_ms, previous_position_ms, maximum_delta_ms)
            <= maximum_delta_ms,
        !credits_watch_time(kind) ==> credited_delta(
            kind,
            position_ms,
            watched_delta_ms,
            elapsed_ms,
            previous_position_ms,
            maximum_delta_ms,
        ) == 0,
{
}

/// Watch time is credited in full when it fits every cap (the configured
/// maximum, the time elapsed since the previous event and the progress of
/// the position), and never more than any of them allows; plays and seeks
/// credit nothing.
pub proof fn lemma_credited_delta_caps(
    kind: PlaybackEventKind,
    position_ms: int,
    watched_delta_ms: int,
    elapsed_ms: int,
    previous_position_ms: int,
    maximum_delta_ms: int,
)
    requires
        position_ms >= 0,
        previous_position_ms >= 0,
        0 <= watched_delta_ms <= i64::MAX,
        maximum_delta_ms >= 0,
    ensures
        ({
            let credited = credited_delta(
                kind,
                position_ms,
                watched_delta_ms,
                elapsed_ms,
                previous_position_ms,
                maximum_delta_ms,
            );
            &&& (kind == PlaybackEventKind::Play || kind == PlaybackEventKind::Seek) ==> credited == 0
            &&& credited <= if elapsed_ms < 0 { 0 } else { elapsed_ms }
            &&& credited <= if position_ms < previous_position_ms { 0 } else { position_ms - previous_position_ms }
            &&& (kind == PlaybackEventKind::Heartbeat || kind == PlaybackEventKind::Pause || kind
                == PlaybackEventKind::Ended) && watched_delta_ms <= maximum_delta_ms && watched_delta_ms
                <= elapsed_ms && previous_position_ms + watched_delta_ms <= position_ms ==> credited
                == watched_delta_ms
        }),
{
}

/// The session after a sequence of events, from `p`.
pub open spec fn after_events(p: SessionProgress, kinds: Seq<PlaybackEventKind>) -> SessionProgress
    decreases kinds.len(),
{
    if kinds.len() == 0 {
        p
    } else {
        let before = after_events(p, kinds.drop_last());
        let (play_started, completed) = progress_after(before, kinds.last());
        SessionProgress { play_started, completed, last_position_ms: before.last_position_ms }
    }
}

/// How many events of a sequence counted as the session's first play.
pub open spec fn plays_counted(p: SessionProgress, kinds: Seq<PlaybackEventKind>) -> nat
    decreases kinds.len(),
{
    if kinds.len() == 0 {
        0
    } else {
        plays_counted(p, kinds.drop_last()) + if is_first_play(
            after_events(p, kinds.drop_last()),
            kinds.last(),
        ) {
            1nat
        } else {
            0nat
        }
    }
}

/// How many events of a sequence counted as the session's first completion.
pub open spec fn completions_counted(p: SessionProgress, kinds: Seq<PlaybackEventKind>) -> nat
    decreases kinds.len(),
{
    if kinds.len() == 0 {
        0
    } else {
        completions_counted(p, kinds.drop_last()) + if is_first_completion(
            after_events(p, kinds.drop_last()),
            kinds.last(),
        ) {
            1nat
        } else {
            0nat
        }
    }
}

/// A session counts at most one view (first play) and at most one completed
/// view, whatever events it receives, and a completion only once playback
/// has started.
pub proof fn lemma_session_counted_once(p: SessionProgress, kinds: Seq<PlaybackEventKind>)
    requires
        !p.play_started,
        !p.completed,
    ensures
        plays_counted(p, kinds) == if after_events(p, kinds).play_started {
            1nat
        } else {
            0nat
        },
        completions_counted(p, kinds) == if after_events(p, kinds).completed {
            1nat
        } else {
            0nat
        },
        plays_counted(p, kinds) <= 1,
        completions_counted(p, kinds) <= 1,
        after_events(p, kinds).completed ==> after_events(p, kinds).play_started,
    decreases kinds.len(),
{
    if kinds.len() > 0 {
        lemma_session_counted_once(p, kinds.drop_last());
    }
}

// ---------------------------------------------------------------------------
// Served bytes and viewers.
// ---------------------------------------------------------------------------

/// The byte count to record for a finished stream: nothing when analytics
/// are disabled or nothing was sent; a count beyond the database range is an
/// internal error.
pub fn bytes_to_record(analytics: &AnalyticsConfig, bytes: u64) -> (r: Result<Option<i64>, AppError>)
    ensures
        !analytics.enabled || bytes == 0 ==> r == Ok::<Option<i64>, AppError>(None),
        analytics.enabled && bytes > 0 && bytes <= i64::MAX ==> r == Ok::<Option<i64>, AppError>(Some(bytes as i64)),
        analytics.enabled && bytes > i64::MAX ==> (r matches Err(AppError::Internal(m)) && m@
            == "served byte count overflow"@),
{
    if !analytics.enabled || bytes == 0 {
        return Ok(None);
    }
    if bytes > i64::MAX as u64 {
        return Err(AppError::Internal("served byte count overflow".to_owned()));
    }
    Ok(Some(bytes as i64))
}

/// The pseudonym of a viewer: the hexadecimal HMAC-SHA256 of the visitor
/// identifier under the viewer hash key.
pub fn hash_viewer(analytics: &AnalyticsConfig, identifier: &str) -> (r: String)
    ensures
        r@ == hex_text(hmac_sha256(utf8(analytics.viewer_hash_key@), utf8(identifier@))),
{
    let key = analytics.viewer_hash_key.as_str().as_bytes();
    let message = identifier.as_bytes();
    let tag = mac_tag(key, message);
    hex_encode(tag.as_slice())
}

// ---------------------------------------------------------------------------
// Reporting periods.
// ---------------------------------------------------------------------------

/// A reporting period, as day numbers (days since the first day of the
/// common era, as `chrono` counts them), inclusive.
#[derive(Clone, Debug)]
pub struct ReportingRange {
    pub from: i64,
    pub to: i64,
    pub media_id: Option<String>,
}

/// The reporting period of a query: it ends on `to` (default: today) and
/// starts on `from` (default: the configured number of days before its
/// end); it must not start after it ends nor span more than the configured
/// maximum of days.
pub fn reporting_range(
    analytics: &AnalyticsConfig,
    today: i64,
    from: Option<i64>,
    to: Option<i64>,
    media_id: Option<String>,
) -> (r: Result<ReportingRange, AppError>)
    requires
        from is None ==> i64::MIN <= (match to {
            Some(t) => t,
            None => today,
        }) - (analytics.default_reporting_days - 1) <= i64::MAX,
        analytics.default_reporting_days > i64::MIN,
    ensures
        ({
            let end: int = match to {
                Some(t) => t as int,
                None => today as int,
            };
            let start: int = match from {
                Some(f) => f as int,
                None => end - (analytics.default_reporting_days - 1),
            };
            if start > end {
                r matches Err(AppError::BadRequest(m)) && m@ == "from must not be after to"@
            } else if end - start + 1 > analytics.maximum_reporting_days {
                r matches Err(AppError::BadRequest(m)) && m@ == "reporting range cannot exceed "@
                    + crate::text::signed_decimal(analytics.maximum_reporting_days as int) + " days"@
            } else {
                r matches Ok(range) && range.from == start && range.to == end && crate::text::opt_text(
                    range.media_id,
                ) == crate::text::opt_text(media_id)
            }
        }),
{
    let end = match to {
        Some(t) => t,
        None => today,
    };
    let start = match from {
        Some(f) => f,
        None => end - (analytics.default_reporting_days - 1),
    };
    if start > end {
        return Err(AppError::BadRequest("from must not be after to".to_owned()));
    }
    let days: i128 = (end as i128) - (start as i128) + 1;
    if days > analytics.maximum_reporting_days as i128 {
        let mut m = "reporting range cannot exceed ".to_owned();
        crate::text::push_signed_decimal(&mut m, analytics.maximum_reporting_days);
        push_str(&mut m, " days");
        return Err(AppError::BadRequest(m));
    }
    Ok(ReportingRange { from: start, to: end, media_id })
}

// ---------------------------------------------------------------------------
// Daily series.
// ---------------------------------------------------------------------------

/// The calendar date of a day number as `chrono` writes it (`YYYY-MM-DD`),
/// or `None` for a day number outside `chrono`'s dates.
pub uninterp spec fn calendar_day(day: i64) -> Option<Seq<char>>;

/// The label of a day with `chrono::NaiveDate::from_num_days_from_ce_opt`
/// and its `Display`; the contract claims only that the result is the one
/// named by `calendar_day`.
#[verifier::external_body]
pub(crate) fn day_label(day: i64) -> (r: Option<String>)
    ensures
        crate::text::opt_text(r) == calendar_day(day),
{
    let number = match i32::try_from(day) {
        Ok(number) => number,
        Err(_) => return None,
    };
    match chrono::NaiveDate::from_num_days_from_ce_opt(number) {
        Some(date) => Some(date.to_string()),
        None => None,
    }
}

/// The figures of a point, with its day.
pub open spec fn point_view(p: AnalyticsPoint) -> (Seq<char>, i64, i64, i64, i64, i64, i64) {
    (p.day@, p.views, p.unique_viewers, p.play_starts, p.completed_views, p.watch_time_ms, p.bytes_served)
}

/// The point of a day without activity.
pub open spec fn empty_point(day: Seq<char>) -> (Seq<char>, i64, i64, i64, i64, i64, i64) {
    (day, 0, 0, 0, 0, 0, 0)
}

/// The index of the last point of `day` among the first `n` points.
pub open spec fn last_point_of(points: Seq<AnalyticsPoint>, day: Seq<char>, n: int) -> Option<int>
    decreases n,
{
    if n <= 0 {
        None
    } else if points[n - 1].day@ == day {
        Some(n - 1)
    } else {
        last_point_of(points, day, n - 1)
    }
}

/// Whether every day of the period has a calendar date.
pub open spec fn period_has_dates(from: i64, to: i64) -> bool {
    forall|k: int| 0 <= k <= to - from ==> #[trigger] calendar_day((from + k) as i64) is Some
}

/// The label of the `k`th day of a period.
pub open spec fn period_label(from: i64, k: int) -> Seq<char> {
    calendar_day((from + k) as i64).unwrap()
}

/// The point of the `k`th day of a period: the last point reported for that
/// day, unless an earlier day of the period had the same label (its point
/// was taken then), else an empty point.
pub open spec fn filled_point(from: i64, k: int, points: Seq<AnalyticsPoint>) -> (Seq<char>, i64, i64, i64, i64, i64, i64) {
    let day = period_label(from, k);
    if exists|j: int| 0 <= j < k && #[trigger] period_label(from, j) == day {
        empty_point(day)
    } else {
        match last_point_of(points, day, points.len() as int) {
            Some(i) => point_view(points[i]),
            None => empty_point(day),
        }
    }
}

fn empty_point_of(day: String) -> (r: AnalyticsPoint)
    ensures
        point_view(r) == empty_point(day@),
{
    AnalyticsPoint {
        day,
        views: 0,
        unique_viewers: 0,
        play_starts: 0,
        completed_views: 0,
        watch_time_ms: 0,
        bytes_served: 0,
    }
}

fn copy_point(p: &AnalyticsPoint) -> (r: AnalyticsPoint)
    ensures
        point_view(r) == point_view(*p),
{
    AnalyticsPoint {
        day: p.day.as_str().to_owned(),
        views: p.views,
        unique_viewers: p.unique_viewers,
        play_starts: p.play_starts,
        completed_views: p.completed_views,
        watch_time_ms: p.watch_time_ms,
        bytes_served: p.bytes_served,
    }
}

fn find_last_point(points: &Vec<AnalyticsPoint>, day: &str) -> (r: Option<usize>)
    ensures
        match last_point_of(points@, day@, points@.len() as int) {
            Some(i) => r matches Some(k) && k == i,
            None => r is None,
        },
{
    let mut n = points.len();
    while n > 0
        invariant
            n <= points@.len(),
            last_point_of(points@, day@, points@.len() as int) == last_point_of(points@, day@, n as int),
        decreases n,
    {
        if str_equal(points[n - 1].day.as_str(), day) {
            return Some(n - 1);
        }
        n = n - 1;
    }
    None
}

proof fn lemma_last_point_bounds(points: Seq<AnalyticsPoint>, day: Seq<char>, n: int)
    requires
        0 <= n <= points.len(),
    ensures
        last_point_of(points, day, n) is Some ==> 0 <= last_point_of(points, day, n).unwrap() < n,
    decreases n,
{
    if n > 0 {
        lemma_last_point_bounds(points, day, n - 1);
    }
}

/// The daily series of a period: one point per day, in order, with the
/// reported points in place and empty points for days without activity.
pub fn fill_missing_points(range: &ReportingRange, points: Vec<AnalyticsPoint>) -> (r: Vec<AnalyticsPoint>)
    requires
        range.from <= range.to,
        period_has_dates(range.from, range.to),
    ensures
        r@.len() == range.to - range.from + 1,
        forall|k: int| 0 <= k < r@.len() ==> point_view(#[trigger] r@[k]) == filled_point(range.from, k, points@),
{
    let count: i128 = (range.to as i128) - (range.from as i128) + 1;
    let mut out: Vec<AnalyticsPoint> = Vec::new();
    let mut labels: Vec<String> = Vec::new();
    let mut offset: i128 = 0;
    proof {
        lemma_last_point_bounds(points@, Seq::empty(), 0);
    }
    while offset < count
        invariant
            range.from <= range.to,
            period_has_dates(range.from, range.to),
            count == range.to - range.from + 1,
            0 <= offset <= count,
            out@.len() == offset,
            labels@.len() == offset,
            forall|j: int| 0 <= j < offset ==> #[trigger] labels@[j]@ == period_label(range.from, j),
            forall|j: int| 0 <= j < offset ==> point_view(#[trigger] out@[j]) == filled_point(range.from, j, points@),
        decreases count - offset,
    {
        let day: i64 = ((range.from as i128) + offset) as i64;
        assert(calendar_day((range.from + offset) as i64) is Some);
        let label = match day_label(day) {
            Some(l) => l,
            None => {
                assert(false);
                String::new()
            },
        };
        assert(label@ == period_label(range.from, offset as int));
        let mut seen = false;
        let mut j: usize = 0;
        while j < labels.len()
            invariant
                j <= labels@.len(),
                seen <==> exists|m: int| 0 <= m < j && #[trigger] labels@[m]@ == label@,
            decreases labels@.len() - j,
        {
            if str_equal(labels[j].as_str(), label.as_str()) {
                seen = true;
            }
            j = j + 1;
        }
        proof {
            assert(seen <==> exists|m: int| 0 <= m < offset && #[trigger] period_label(range.from, m) == label@) by {
                if seen {
                    let m = choose|m: int| 0 <= m < labels@.len() && #[trigger] labels@[m]@ == label@;
                    assert(period_label(range.from, m) == label@);
                }
                if exists|m: int| 0 <= m < offset && #[trigger] period_label(range.from, m) == label@ {
                    let m = choose|m: int| 0 <= m < offset && #[trigger] period_label(range.from, m) == label@;
                    assert(labels@[m]@ == label@);
                }
            }
            lemma_last_point_bounds(points@, label@, points@.len() as int);
        }
        let point = if seen {
            empty_point_of(label.as_str().to_owned())
        } else {
            match find_last_point(&points, label.as_str()) {
                Some(i) => copy_point(&points[i]),
                None => empty_point_of(label.as_str().to_owned()),
            }
        };
        out.push(point);
        labels.push(label);
        offset = offset + 1;
    }
    out
}

/// The daily series of a period whose days all have calendar dates; `None`
/// for a period reaching outside `chrono`'s dates.
pub fn time_series_points(range: &ReportingRange, points: Vec<AnalyticsPoint>) -> (r: Option<Vec<AnalyticsPoint>>)
    requires
        range.from <= range.to,
    ensures
        period_has_dates(range.from, range.to) ==> (r matches Some(v) && v@.len() == range.to - range.from + 1
            && forall|k: int| 0 <= k < v@.len() ==> point_view(#[trigger] v@[k]) == filled_point(
            range.from,
            k,
            points@,
        )),
        !period_has_dates(range.from, range.to) ==> r is None,
{
    let count: i128 = (range.to as i128) - (range.from as i128) + 1;
    let mut offset: i128 = 0;
    while offset < count
        invariant
            range.from <= range.to,
            count == range.to - range.from + 1,
            0 <= offset <= count,
            forall|k: int| 0 <= k < offset ==> #[trigger] calendar_day((range.from + k) as i64) is Some,
        decreases count - offset,
    {
        let day: i64 = ((range.from as i128) + offset) as i64;
        if day_label(day).is_none() {
            assert(!period_has_dates(range.from, range.to)) by {
                assert(calendar_day((range.from + offset) as i64) is None);
            }
            return None;
        }
        offset = offset + 1;
    }
    Some(fill_missing_points(range, points))
}

} // verus!
