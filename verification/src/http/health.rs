//! Health reports.
use vstd::prelude::*;

use crate::config::Config;
use crate::text::texts;

verus! {

/// A health report.
#[derive(Clone, Debug)]
pub struct Health {
    pub status: &'static str,
}

/// The files and directories that must exist for the service to be ready:
/// the storage root and the temporary root, and the FFmpeg and ffprobe
/// programs when transcoding is enabled.
pub fn readiness_paths(config: &Config) -> (r: Vec<String>)
    ensures
        texts(r@) == seq![config.storage.root@, config.storage.temporary_root@] + (if config.transcoding.enabled {
            seq![config.transcoding.ffmpeg_path@, config.transcoding.ffprobe_path@]
        } else {
            seq![]
        }),
{
    let mut paths: Vec<String> = Vec::new();
    crate::text::push_text(&mut paths, config.storage.root.as_str());
    crate::text::push_text(&mut paths, config.storage.temporary_root.as_str());
    if config.transcoding.enabled {
        crate::text::push_text(&mut paths, config.transcoding.ffmpeg_path.as_str());
        crate::text::push_text(&mut paths, config.transcoding.ffprobe_path.as_str());
    }
    assert(texts(paths@) =~= seq![config.storage.root@, config.storage.temporary_root@] + (if config.transcoding.enabled {
        seq![config.transcoding.ffmpeg_path@, config.transcoding.ffprobe_path@]
    } else {
        seq![]
    }));
    paths
}

} // verus!
