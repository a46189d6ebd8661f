//! Domain vocabulary: media visibility and lifecycle states, job states and
//! kinds, and the records the service hands to clients.
use vstd::prelude::*;

use crate::text::str_equal;

verus! {

/// Who may watch a media item.
#[derive(Clone, Copy, Debug, PartialEq, Eq, Structural)]
pub enum Visibility {
    Private,
    Unlisted,
    Public,
}

impl Visibility {
    /// The stored and serialized name of the visibility.
    pub open spec fn text(self) -> Seq<char> {
        match self {
            Visibility::Private => "private"@,
            Visibility::Unlisted => "unlisted"@,
            Visibility::Public => "public"@,
        }
    }

    /// The visibility whose name is `s`, if any.
    pub open spec fn from_text(s: Seq<char>) -> Option<Visibility> {
        if s == "private"@ {
            Some(Visibility::Private)
        } else if s == "unlisted"@ {
            Some(Visibility::Unlisted)
        } else if s == "public"@ {
            Some(Visibility::Public)
        } else {
            None
        }
    }

    pub fn as_str(self) -> (s: &'static str)
        ensures
            s@ == self.text(),
    {
        match self {
            Visibility::Private => "private",
            Visibility::Unlisted => "unlisted",
            Visibility::Public => "public",
        }
    }

    /// Parses a visibility name exactly (`FromStr`).
    pub fn parse(value: &str) -> (r: Option<Visibility>)
        ensures
            r == Visibility::from_text(value@),
    {
        if str_equal(value, "private") {
            Some(Visibility::Private)
        } else if str_equal(value, "unlisted") {
            Some(Visibility::Unlisted)
        } else if str_equal(value, "public") {
            Some(Visibility::Public)
        } else {
            None
        }
    }

    /// Every visibility, in declaration order.
    pub fn all() -> (r: Vec<Visibility>)
        ensures
            r@ == seq![Visibility::Private, Visibility::Unlisted, Visibility::Public],
    {
        let mut r = Vec::new();
        r.push(Visibility::Private);
        r.push(Visibility::Unlisted);
        r.push(Visibility::Public);
        r
    }
}

/// Where a media item is in its lifecycle.
#[derive(Clone, Copy, Debug, PartialEq, Eq, Structural)]
pub enum MediaStatus {
    Importing,
    Queued,
    Processing,
    Ready,
    Failed,
    Deleting,
}

impl MediaStatus {
    pub open spec fn text(self) -> Seq<char> {
        match self {
            MediaStatus::Importing => "importing"@,
            MediaStatus::Queued => "queued"@,
            MediaStatus::Processing => "processing"@,
            MediaStatus::Ready => "ready"@,
            MediaStatus::Failed => "failed"@,
            MediaStatus::Deleting => "deleting"@,
        }
    }

    pub open spec fn from_text(s: Seq<char>) -> Option<MediaStatus> {
        if s == "importing"@ {
            Some(MediaStatus::Importing)
        } else if s == "queued"@ {
            Some(MediaStatus::Queued)
        } else if s == "processing"@ {
            Some(MediaStatus::Processing)
        } else if s == "ready"@ {
            Some(MediaStatus::Ready)
        } else if s == "failed"@ {
            Some(MediaStatus::Failed)
        } else if s == "deleting"@ {
            Some(MediaStatus::Deleting)
        } else {
            None
        }
    }

    pub fn as_str(self) -> (s: &'static str)
        ensures
            s@ == self.text(),
    {
        match self {
            MediaStatus::Importing => "importing",
            MediaStatus::Queued => "queued",
            MediaStatus::Processing => "processing",
            MediaStatus::Ready => "ready",
            MediaStatus::Failed => "failed",
            MediaStatus::Deleting => "deleting",
        }
    }

    pub fn parse(value: &str) -> (r: Option<MediaStatus>)
        ensures
            r == MediaStatus::from_text(value@),
    {
        if str_equal(value, "importing") {
            Some(MediaStatus::Importing)
        } else if str_equal(value, "queued") {
            Some(MediaStatus::Queued)
        } else if str_equal(value, "processing") {
            Some(MediaStatus::Processing)
        } else if str_equal(value, "ready") {
            Some(MediaStatus::Ready)
        } else if str_equal(value, "failed") {
            Some(MediaStatus::Failed)
        } else if str_equal(value, "deleting") {
            Some(MediaStatus::Deleting)
        } else {
            None
        }
    }

    pub fn all() -> (r: Vec<MediaStatus>)
        ensures
            r@ == seq![
                MediaStatus::Importing,
                MediaStatus::Queued,
                MediaStatus::Processing,
                MediaStatus::Ready,
                MediaStatus::Failed,
                MediaStatus::Deleting,
            ],
    {
        let mut r = Vec::new();
        r.push(MediaStatus::Importing);
        r.push(MediaStatus::Queued);
        r.push(MediaStatus::Processing);
        r.push(MediaStatus::Ready);
        r.push(MediaStatus::Failed);
        r.push(MediaStatus::Deleting);
        r
    }
}

/// Where a background job is in its lifecycle.
#[derive(Clone, Copy, Debug, PartialEq, Eq, Structural)]
pub enum JobStatus {
    Queued,
    Running,
    Succeeded,
    Failed,
    Cancelled,
}

impl JobStatus {
    pub open spec fn text(self) -> Seq<char> {
        match self {
            JobStatus::Queued => "queued"@,
            JobStatus::Running => "running"@,
            JobStatus::Succeeded => "succeeded"@,
            JobStatus::Failed => "failed"@,
            JobStatus::Cancelled => "cancelled"@,
        }
    }

    pub open spec fn from_text(s: Seq<char>) -> Option<JobStatus> {
        if s == "queued"@ {
            Some(JobStatus::Queued)
        } else if s == "running"@ {
            Some(JobStatus::Running)
        } else if s == "succeeded"@ {
            Some(JobStatus::Succeeded)
        } else if s == "failed"@ {
            Some(JobStatus::Failed)
        } else if s == "cancelled"@ {
            Some(JobStatus::Cancelled)
        } else {
            None
        }
    }

    pub fn as_str(self) -> (s: &'static str)
        ensures
            s@ == self.text(),
    {
        match self {
            JobStatus::Queued => "queued",
            JobStatus::Running => "running",
            JobStatus::Succeeded => "succeeded",
            JobStatus::Failed => "failed",
            JobStatus::Cancelled => "cancelled",
        }
    }

    pub fn parse(value: &str) -> (r: Option<JobStatus>)
        ensures
            r == JobStatus::from_text(value@),
    {
        if str_equal(value, "queued") {
            Some(JobStatus::Queued)
        } else if str_equal(value, "running") {
            Some(JobStatus::Running)
        } else if str_equal(value, "succeeded") {
            Some(JobStatus::Succeeded)
        } else if str_equal(value, "failed") {
            Some(JobStatus::Failed)
        } else if str_equal(value, "cancelled") {
            Some(JobStatus::Cancelled)
        } else {
            None
        }
    }

    pub fn all() -> (r: Vec<JobStatus>)
        ensures
            r@ == seq![
                JobStatus::Queued,
                JobStatus::Running,
                JobStatus::Succeeded,
                JobStatus::Failed,
                JobStatus::Cancelled,
            ],
    {
        let mut r = Vec::new();
        r.push(JobStatus::Queued);
        r.push(JobStatus::Running);
        r.push(JobStatus::Succeeded);
        r.push(JobStatus::Failed);
        r.push(JobStatus::Cancelled);
        r
    }
}

/// The work a background job performs.
#[derive(Clone, Copy, Debug, PartialEq, Eq, Structural)]
pub enum JobKind {
    RemoteImport,
    Transcode,
    Delete,
}

impl JobKind {
    pub open spec fn text(self) -> Seq<char> {
        match self {
            JobKind::RemoteImport => "remote_import"@,
            JobKind::Transcode => "transcode"@,
            JobKind::Delete => "delete"@,
        }
    }

    pub open spec fn from_text(s: Seq<char>) -> Option<JobKind> {
        if s == "remote_import"@ {
            Some(JobKind::RemoteImport)
        } else if s == "transcode"@ {
            Some(JobKind::Transcode)
        } else if s == "delete"@ {
            Some(JobKind::Delete)
        } else {
            None
        }
    }

    pub fn as_str(self) -> (s: &'static str)
        ensures
            s@ == self.text(),
    {
        match self {
            JobKind::RemoteImport => "remote_import",
            JobKind::Transcode => "transcode",
            JobKind::Delete => "delete",
        }
    }

    pub fn parse(value: &str) -> (r: Option<JobKind>)
        ensures
            r == JobKind::from_text(value@),
    {
        if str_equal(value, "remote_import") {
            Some(JobKind::RemoteImport)
        } else if str_equal(value, "transcode") {
            Some(JobKind::Transcode)
        } else if str_equal(value, "delete") {
            Some(JobKind::Delete)
        } else {
            None
        }
    }

    pub fn all() -> (r: Vec<JobKind>)
        ensures
            r@ == seq![JobKind::RemoteImport, JobKind::Transcode, JobKind::Delete],
    {
        let mut r = Vec::new();
        r.push(JobKind::RemoteImport);
        r.push(JobKind::Transcode);
        r.push(JobKind::Delete);
        r
    }
}

/// An account as clients see it.
#[derive(Clone, Debug)]
pub struct Account {
    pub id: String,
    pub email: String,
    pub display_name: String,
    pub status: String,
    pub storage_quota_bytes: i64,
    pub storage_used_bytes: i64,
    pub created_at: String,
    pub updated_at: String,
}

/// A freshly issued API key; the only time its secret is shown.
#[derive(Clone, Debug)]
pub struct IssuedApiKey {
    pub id: String,
    pub name: String,
    pub api_key: String,
    pub created_at: String,
}

/// An API key without its secret.
#[derive(Clone, Debug)]
pub struct ApiKeySummary {
    pub id: String,
    pub name: String,
    pub created_at: String,
    pub last_used_at: Option<String>,
    pub revoked_at: Option<String>,
}

/// How a request proved who it acts for.
#[derive(Clone, Debug)]
pub enum AuthenticationMethod {
    ApiKey,
    BrowserSession { session_id: String },
}

/// The account a request acts for.
#[derive(Clone, Debug)]
pub struct AuthenticatedAccount {
    pub account_id: String,
    pub method: AuthenticationMethod,
}

/// Aggregated playback statistics.
#[derive(Clone, Debug)]
pub struct AnalyticsTotals {
    pub views: i64,
    pub unique_viewers: i64,
    pub play_starts: i64,
    pub completed_views: i64,
    pub watch_time_ms: i64,
    pub bytes_served: i64,
}

/// Playback statistics of one day (`YYYY-MM-DD`).
#[derive(Clone, Debug)]
pub struct AnalyticsPoint {
    pub day: String,
    pub views: i64,
    pub unique_viewers: i64,
    pub play_starts: i64,
    pub completed_views: i64,
    pub watch_time_ms: i64,
    pub bytes_served: i64,
}

/// One rendition of a transcoded media item.
#[derive(Clone, Debug)]
pub struct MediaVariant {
    pub name: String,
    pub width: i64,
    pub height: i64,
    pub bandwidth_bps: i64,
    pub codecs: String,
}

/// A media item as clients see it.
#[derive(Clone, Debug)]
pub struct Media {
    pub id: String,
    pub source_filename: String,
    pub source_mime_type: Option<String>,
    pub source_size_bytes: i64,
    pub storage_bytes: i64,
    pub sha256: Option<String>,
    pub title: String,
    pub description: String,
    pub visibility: String,
    pub status: String,
    pub duration_ms: Option<i64>,
    pub width: Option<i64>,
    pub height: Option<i64>,
    pub video_codec: Option<String>,
    pub audio_codec: Option<String>,
    pub error_message: Option<String>,
    pub created_at: String,
    pub updated_at: String,
    pub published_at: Option<String>,
    pub variants: Vec<MediaVariant>,
}

/// A background job of a media item as clients see it.
#[derive(Clone, Debug)]
pub struct MediaJob {
    pub id: String,
    pub kind: String,
    pub status: String,
    pub attempts: i64,
    pub maximum_attempts: i64,
    pub run_after: String,
    pub error_message: Option<String>,
    pub created_at: String,
    pub updated_at: String,
}

/// Every name is read back as what it names, and only names are read: a
/// stored visibility, media status, job status or job kind survives being
/// written and parsed again, and two different values never share a name.
pub proof fn lemma_names_round_trip(v: Visibility, m: MediaStatus, j: JobStatus, k: JobKind)
    ensures
        Visibility::from_text(v.text()) == Some(v),
        MediaStatus::from_text(m.text()) == Some(m),
        JobStatus::from_text(j.text()) == Some(j),
        JobKind::from_text(k.text()) == Some(k),
{
    reveal_strlit("private");
    reveal_strlit("unlisted");
    reveal_strlit("public");
    reveal_strlit("importing");
    reveal_strlit("queued");
    reveal_strlit("processing");
    reveal_strlit("ready");
    reveal_strlit("failed");
    reveal_strlit("deleting");
    reveal_strlit("running");
    reveal_strlit("succeeded");
    reveal_strlit("cancelled");
    reveal_strlit("remote_import");
    reveal_strlit("transcode");
    reveal_strlit("delete");
    assert("private"@[1] != "unlisted"@[1] && "private"@[1] != "public"@[1] && "unlisted"@[1] != "public"@[1]);
    assert("importing"@.len() != "queued"@.len() && "importing"@.len() != "processing"@.len() && "importing"@.len()
        != "ready"@.len() && "importing"@.len() != "failed"@.len() && "importing"@.len() != "deleting"@.len());
    assert("queued"@[0] != "processing"@[0] && "queued"@[0] != "ready"@[0] && "queued"@[0] != "failed"@[0]
        && "queued"@[0] != "deleting"@[0]);
    assert("processing"@.len() != "ready"@.len() && "processing"@.len() != "failed"@.len() && "processing"@.len()
        != "deleting"@.len());
    assert("ready"@.len() != "failed"@.len() && "ready"@.len() != "deleting"@.len() && "failed"@.len()
        != "deleting"@.len());
    assert("queued"@[0] != "running"@[0] && "queued"@[0] != "succeeded"@[0] && "queued"@[0] != "cancelled"@[0]);
    assert("running"@[0] != "succeeded"@[0] && "running"@[0] != "failed"@[0] && "running"@[0] != "cancelled"@[0]);
    assert("succeeded"@[0] != "failed"@[0] && "succeeded"@[0] != "cancelled"@[0] && "failed"@[0] != "cancelled"@[0]);
    assert("remote_import"@[0] != "transcode"@[0] && "remote_import"@[0] != "delete"@[0] && "transcode"@[0]
        != "delete"@[0]);
}

} // verus!
