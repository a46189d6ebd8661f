//! What is asked of FFmpeg: which renditions of a source are made, at which
//! size and bit rate, with which command-line arguments, and the master
//! playlist that lists them. Running the tools is left to the caller.
use vstd::prelude::*;

use crate::config::{SegmentFormat, TranscodingConfig, TranscodingProfile};
use crate::path::{join, join_path};
use crate::text::{
    decimal, decimal_string, join_texts, joined, push_str, push_text, push_texts, str_equal, texts,
};

verus! {

// ---------------------------------------------------------------------------
// Probing.
// ---------------------------------------------------------------------------

/// What `ffprobe` reported of a source.
#[derive(Clone, Debug)]
pub struct MediaProbe {
    pub duration_ms: Option<i64>,
    pub width: Option<u32>,
    pub height: Option<u32>,
    pub video_codec: Option<String>,
    pub audio_codec: Option<String>,
}

/// One stream of an `ffprobe` report.
#[derive(Clone, Debug)]
pub struct ProbeStream {
    pub codec_type: Option<String>,
    pub codec_name: Option<String>,
    pub width: Option<u32>,
    pub height: Option<u32>,
}

/// Whether a stream has the codec type `kind`.
pub open spec fn stream_is(s: ProbeStream, kind: Seq<char>) -> bool {
    s.codec_type matches Some(t) && t@ == kind
}

/// The index of the first stream of type `kind`, if any.
pub open spec fn first_stream(streams: Seq<ProbeStream>, kind: Seq<char>) -> Option<int>
    decreases streams.len(),
{
    if streams.len() == 0 {
        None
    } else {
        match first_stream(streams.drop_last(), kind) {
            Some(i) => Some(i),
            None => if stream_is(streams.last(), kind) {
                Some(streams.len() - 1)
            } else {
                None
            },
        }
    }
}

fn find_stream(streams: &Vec<ProbeStream>, kind: &str) -> (r: Option<usize>)
    ensures
        match first_stream(streams@, kind@) {
            Some(i) => r matches Some(k) && k == i,
            None => r is None,
        },
{
    let mut i: usize = 0;
    while i < streams.len()
        invariant
            i <= streams@.len(),
            first_stream(streams@.take(i as int), kind@) is None,
        decreases streams@.len() - i,
    {
        let found = match &streams[i].codec_type {
            Some(t) => str_equal(t.as_str(), kind),
            None => false,
        };
        assert(streams@.take(i + 1).drop_last() == streams@.take(i as int));
        if found {
            proof {
                lemma_first_stream_prefix(streams@, kind@, i + 1);
            }
            return Some(i);
        }
        i = i + 1;
    }
    assert(streams@.take(streams@.len() as int) == streams@);
    None
}

/// A stream found in a prefix is the first one of the whole list.
proof fn lemma_first_stream_prefix(streams: Seq<ProbeStream>, kind: Seq<char>, n: int)
    requires
        0 <= n <= streams.len(),
        first_stream(streams.take(n), kind) is Some,
    ensures
        first_stream(streams, kind) == first_stream(streams.take(n), kind),
    decreases streams.len() - n,
{
    if n < streams.len() {
        assert(streams.take(n + 1).drop_last() == streams.take(n));
        lemma_first_stream_prefix(streams, kind, n + 1);
    } else {
        assert(streams.take(n) == streams);
    }
}

/// The probe of a source: width, height and codec of its first video
/// stream, codec of its first audio stream, and the duration read from the
/// report's format section.
pub fn probe_from_streams(streams: &Vec<ProbeStream>, duration_ms: Option<i64>) -> (r: MediaProbe)
    ensures
        r.duration_ms == duration_ms,
        match first_stream(streams@, "video"@) {
            Some(i) => r.width == streams@[i].width && r.height == streams@[i].height
                && crate::text::opt_text(r.video_codec) == crate::text::opt_text(
                streams@[i].codec_name,
            ),
            None => r.width is None && r.height is None && r.video_codec is None,
        },
        match first_stream(streams@, "audio"@) {
            Some(i) => crate::text::opt_text(r.audio_codec) == crate::text::opt_text(
                streams@[i].codec_name,
            ),
            None => r.audio_codec is None,
        },
{
    let video = find_stream(streams, "video");
    let audio = find_stream(streams, "audio");
    proof {
        lemma_first_stream_bounds(streams@, "video"@);
        lemma_first_stream_bounds(streams@, "audio"@);
    }
    let mut width: Option<u32> = None;
    let mut height: Option<u32> = None;
    let mut video_codec: Option<String> = None;
    if let Some(i) = video {
        width = streams[i].width;
        height = streams[i].height;
        video_codec = copy_text(&streams[i].codec_name);
    }
    let mut audio_codec: Option<String> = None;
    if let Some(i) = audio {
        audio_codec = copy_text(&streams[i].codec_name);
    }
    MediaProbe { duration_ms, width, height, video_codec, audio_codec }
}

proof fn lemma_first_stream_bounds(streams: Seq<ProbeStream>, kind: Seq<char>)
    ensures
        first_stream(streams, kind) is Some ==> 0 <= first_stream(streams, kind).unwrap()
            < streams.len(),
    decreases streams.len(),
{
    if streams.len() > 0 {
        lemma_first_stream_bounds(streams.drop_last(), kind);
    }
}

fn copy_text(s: &Option<String>) -> (r: Option<String>)
    ensures
        crate::text::opt_text(r) == crate::text::opt_text(*s),
{
    match s {
        Some(t) => Some(t.as_str().to_owned()),
        None => None,
    }
}

// ---------------------------------------------------------------------------
// Choosing renditions.
// ---------------------------------------------------------------------------

/// The maximum heights of the profiles, in configuration order.
pub open spec fn profile_heights(profiles: Seq<TranscodingProfile>) -> Seq<u32> {
    profiles.map_values(|p: TranscodingProfile| p.maximum_height)
}

/// Profile `a` comes before profile `b`: a lower maximum height, or the same
/// height and an earlier place in the configuration (a stable sort by height).
pub open spec fn ranks_before(h: Seq<u32>, a: int, b: int) -> bool {
    h[a] < h[b] || (h[a] == h[b] && a < b)
}

/// The profile indices `r` are in height order.
pub open spec fn in_height_order(h: Seq<u32>, r: Seq<usize>) -> bool {
    forall|i: int, j: int| 0 <= i < j < r.len() ==> ranks_before(h, #[trigger] r[i] as int, #[trigger] r[j] as int)
}

/// Whether profile `i` is made for a source of height `source_height`.
pub open spec fn is_kept(h: Seq<u32>, i: int, source_height: u32, allow_upscale: bool) -> bool {
    allow_upscale || h[i] <= source_height
}

/// `r` lists exactly the kept profiles.
pub open spec fn lists_kept(h: Seq<u32>, r: Seq<usize>, source_height: u32, allow_upscale: bool) -> bool {
    &&& forall|k: int| 0 <= k < r.len() ==> #[trigger] r[k] < h.len() && is_kept(h, r[k] as int, source_height, allow_upscale)
    &&& forall|i: int| 0 <= i < h.len() && is_kept(h, i, source_height, allow_upscale) ==> #[trigger] r.contains(i as usize)
}

/// Whether some profile is no taller than the source.
pub open spec fn some_fits(h: Seq<u32>, source_height: u32) -> bool {
    exists|i: int| 0 <= i < h.len() && #[trigger] h[i] <= source_height
}

/// The renditions made of a source, as profile indices: all profiles when
/// upscaling is allowed, else those no taller than the source, in height
/// order; when none fits, the lowest profile alone.
pub open spec fn is_selection(h: Seq<u32>, source_height: u32, allow_upscale: bool, r: Seq<usize>) -> bool {
    if allow_upscale || some_fits(h, source_height) {
        in_height_order(h, r) && lists_kept(h, r, source_height, allow_upscale)
    } else if h.len() == 0 {
        r.len() == 0
    } else {
        &&& r.len() == 1
        &&& r[0] < h.len()
        &&& forall|i: int| 0 <= i < h.len() && i != r[0] ==> ranks_before(h, r[0] as int, i)
    }
}

/// All profile indices in height order.
fn order_by_height(profiles: &Vec<TranscodingProfile>) -> (r: Vec<usize>)
    ensures
        in_height_order(profile_heights(profiles@), r@),
        r@.len() == profiles@.len(),
        forall|k: int| 0 <= k < r@.len() ==> #[trigger] r@[k] < profiles@.len(),
        forall|i: int| 0 <= i < profiles@.len() ==> #[trigger] r@.contains(i as usize),
{
    let ghost h = profile_heights(profiles@);
    let mut ordered: Vec<usize> = Vec::new();
    let mut i: usize = 0;
    while i < profiles.len()
        invariant
            h == profile_heights(profiles@),
            i <= profiles@.len(),
            ordered@.len() == i,
            in_height_order(h, ordered@),
            forall|k: int| 0 <= k < ordered@.len() ==> #[trigger] ordered@[k] < i,
            forall|j: int| 0 <= j < i ==> #[trigger] ordered@.contains(j as usize),
        decreases profiles@.len() - i,
    {
        let height = profiles[i].maximum_height;
        let mut pos: usize = 0;
        while pos < ordered.len() && profiles[ordered[pos]].maximum_height <= height
            invariant
                h == profile_heights(profiles@),
                i < profiles@.len(),
                height == h[i as int],
                pos <= ordered@.len(),
                forall|k: int| 0 <= k < ordered@.len() ==> #[trigger] ordered@[k] < i,
                forall|k: int| 0 <= k < pos ==> h[#[trigger] ordered@[k] as int] <= height,
            decreases ordered@.len() - pos,
        {
            pos = pos + 1;
        }
        let ghost old_ordered = ordered@;
        ordered.insert(pos, i);
        proof {
            let s = old_ordered;
            let t = ordered@;
            assert(t == s.insert(pos as int, i));
            assert forall|a: int, b: int| 0 <= a < b < t.len() implies ranks_before(
                h,
                #[trigger] t[a] as int,
                #[trigger] t[b] as int,
            ) by {
                if b < pos {
                    assert(t[a] == s[a] && t[b] == s[b]);
                } else if b == pos {
                    assert(t[a] == s[a]);
                } else if a < pos {
                    assert(t[a] == s[a] && t[b] == s[b - 1]);
                    assert(ranks_before(h, s[a] as int, s[b - 1] as int));
                } else if a == pos {
                    assert(t[b] == s[b - 1]);
                    assert(h[s[pos as int] as int] > height);
                    if b - 1 > pos {
                        assert(ranks_before(h, s[pos as int] as int, s[b - 1] as int));
                    }
                } else {
                    assert(t[a] == s[a - 1] && t[b] == s[b - 1]);
                    assert(ranks_before(h, s[a - 1] as int, s[b - 1] as int));
                }
            }
            assert forall|k: int| 0 <= k < t.len() implies #[trigger] t[k] < i + 1 by {
                if k < pos {
                    assert(t[k] == s[k]);
                } else if k > pos {
                    assert(t[k] == s[k - 1]);
                }
            }
            assert forall|j: int| 0 <= j < i + 1 implies #[trigger] t.contains(j as usize) by {
                if j < i {
                    assert(s.contains(j as usize));
                    let k = choose|k: int| 0 <= k < s.len() && s[k] == j as usize;
                    if k < pos {
                        assert(t[k] == s[k]);
                    } else {
                        assert(t[k + 1] == s[k]);
                    }
                } else {
                    assert(t[pos as int] == i);
                }
            }
        }
        i = i + 1;
    }
    ordered
}

/// The profiles to transcode a source of height `source_height` to, as
/// indices into `profiles`: all of them in height order when upscaling is
/// allowed; otherwise those no taller than the source, in height order, or
/// the lowest profile alone when none is.
pub fn select_profiles(profiles: &Vec<TranscodingProfile>, source_height: u32, allow_upscale: bool) -> (r: Vec<usize>)
    ensures
        is_selection(profile_heights(profiles@), source_height, allow_upscale, r@),
{
    let ghost h = profile_heights(profiles@);
    let ordered = order_by_height(profiles);
    if allow_upscale {
        return ordered;
    }
    let mut selected: Vec<usize> = Vec::new();
    let mut k: usize = 0;
    while k < ordered.len()
        invariant
            h == profile_heights(profiles@),
            k <= ordered@.len(),
            ordered@.len() == profiles@.len(),
            in_height_order(h, ordered@),
            forall|m: int| 0 <= m < ordered@.len() ==> #[trigger] ordered@[m] < profiles@.len(),
            in_height_order(h, selected@),
            forall|a: int, m: int|
                0 <= a < selected@.len() && k <= m < ordered@.len() ==> ranks_before(
                    h,
                    #[trigger] selected@[a] as int,
                    #[trigger] ordered@[m] as int,
                ),
            forall|a: int| 0 <= a < selected@.len() ==> #[trigger] selected@[a] < h.len() && h[selected@[a] as int] <= source_height,
            forall|j: int| 0 <= j < k && h[ordered@[j] as int] <= source_height ==> #[trigger] selected@.contains(ordered@[j]),
        decreases ordered@.len() - k,
    {
        let index = ordered[k];
        if profiles[index].maximum_height <= source_height {
            let ghost before = selected@;
            selected.push(index);
            proof {
                assert forall|j: int| 0 <= j < k + 1 && h[ordered@[j] as int] <= source_height implies #[trigger] selected@.contains(ordered@[j]) by {
                    if j < k {
                        assert(before.contains(ordered@[j]));
                        let a = choose|a: int| 0 <= a < before.len() && before[a] == ordered@[j];
                        assert(selected@[a] == before[a]);
                    } else {
                        assert(selected@[before.len() as int] == index);
                    }
                }
                assert forall|a: int, m: int|
                    0 <= a < selected@.len() && k + 1 <= m < ordered@.len() implies ranks_before(
                    h,
                    #[trigger] selected@[a] as int,
                    #[trigger] ordered@[m] as int,
                ) by {
                    if a < before.len() {
                        assert(selected@[a] == before[a]);
                    } else {
                        assert(ranks_before(h, ordered@[k as int] as int, ordered@[m] as int));
                    }
                }
                assert forall|a: int, b: int| 0 <= a < b < selected@.len() implies ranks_before(
                    h,
                    #[trigger] selected@[a] as int,
                    #[trigger] selected@[b] as int,
                ) by {
                    if b < before.len() {
                        assert(selected@[a] == before[a] && selected@[b] == before[b]);
                    } else {
                        assert(selected@[a] == before[a]);
                        assert(ranks_before(h, before[a] as int, ordered@[k as int] as int));
                    }
                }
            }
        }
        k = k + 1;
    }
    proof {
        assert forall|i: int| 0 <= i < h.len() && h[i] <= source_height implies #[trigger] selected@.contains(i as usize) by {
            assert(ordered@.contains(i as usize));
            let j = choose|j: int| 0 <= j < ordered@.len() && ordered@[j] == i as usize;
            assert(h[ordered@[j] as int] <= source_height);
        }
    }
    if selected.len() > 0 {
        proof {
            let a = selected@[0];
            assert(h[a as int] <= source_height);
        }
        return selected;
    }
    proof {
        assert(!some_fits(h, source_height)) by {
            if some_fits(h, source_height) {
                let i = choose|i: int| 0 <= i < h.len() && #[trigger] h[i] <= source_height;
                assert(selected@.contains(i as usize));
            }
        }
    }
    let mut lowest: Vec<usize> = Vec::new();
    if ordered.len() > 0 {
        lowest.push(ordered[0]);
        proof {
            assert forall|i: int| 0 <= i < h.len() && i != lowest@[0] implies ranks_before(
                h,
                lowest@[0] as int,
                i,
            ) by {
                assert(ordered@.contains(i as usize));
                let j = choose|j: int| 0 <= j < ordered@.len() && ordered@[j] == i as usize;
                assert(j != 0);
                assert(ranks_before(h, ordered@[0] as int, ordered@[j] as int));
            }
        }
    }
    lowest
}

/// The size a rendition is scaled to: the profile's height (or the source
/// height, if lower and upscaling is not allowed) rounded down to an even
/// number of at least 2, and the width that keeps the source's aspect ratio,
/// rounded down to an even number of at least 2.
pub open spec fn scaled(source_width: u32, source_height: u32, maximum_height: u32, allow_upscale: bool) -> (u32, u32) {
    let height: int = if allow_upscale || maximum_height <= source_height {
        maximum_height as int
    } else {
        source_height as int
    };
    let even_height: int = if height - height % 2 < 2 {
        2
    } else {
        height - height % 2
    };
    let raw_width: int = (source_width * even_height) / (source_height as int);
    let capped: int = if raw_width > u32::MAX {
        u32::MAX as int
    } else {
        raw_width
    };
    let even_width: int = capped - capped % 2;
    ((if even_width < 2 {
        2
    } else {
        even_width
    }) as u32, even_height as u32)
}

/// The width and height of a rendition of a source; both are even and at
/// least 2.
pub fn scaled_dimensions(source_width: u32, source_height: u32, maximum_height: u32, allow_upscale: bool) -> (r: (u32, u32))
    requires
        source_height > 0,
    ensures
        r == scaled(source_width, source_height, maximum_height, allow_upscale),
        r.0 % 2 == 0 && r.0 >= 2,
        r.1 % 2 == 0 && r.1 >= 2,
{
    let height: u32 = if allow_upscale || maximum_height <= source_height {
        maximum_height
    } else {
        source_height
    };
    let even_height: u32 = if height - height % 2 < 2 {
        2
    } else {
        height - height % 2
    };
    assert((source_width as u64) * (even_height as u64) <= u64::MAX) by (nonlinear_arith)
        requires
            source_width <= u32::MAX,
            even_height <= u32::MAX,
    ;
    let product: u64 = (source_width as u64) * (even_height as u64);
    let raw_width: u64 = product / (source_height as u64);
    let capped: u32 = if raw_width > u32::MAX as u64 {
        u32::MAX
    } else {
        raw_width as u32
    };
    let even_width: u32 = capped - capped % 2;
    (if even_width < 2 {
        2
    } else {
        even_width
    }, even_height)
}

/// A rendition is as tall as the profile allows: the largest even height
/// (at least 2) within the profile's height and, unless upscaling is
/// allowed, within the source's. Its width keeps the source's aspect ratio:
/// where the width is neither the minimum nor capped, it is the even number
/// just below the exact width, `width * source_height <= source_width *
/// height < (width + 2) * source_height`.
pub proof fn lemma_scaled_fits(source_width: u32, source_height: u32, maximum_height: u32, allow_upscale: bool)
    requires
        source_height > 0,
    ensures
        ({
            let (w, h) = scaled(source_width, source_height, maximum_height, allow_upscale);
            &&& h % 2 == 0 && h >= 2
            &&& h <= maximum_height || h == 2
            &&& !allow_upscale ==> h <= source_height || h == 2
            &&& maximum_height <= source_height || allow_upscale ==> h + 2 > maximum_height
            &&& source_height < maximum_height && !allow_upscale ==> h + 2 > source_height
            &&& w % 2 == 0 && w >= 2
            &&& (w > 2 && (source_width * h) / (source_height as int) <= u32::MAX) ==> w * source_height
                <= source_width * h < (w + 2) * source_height
        }),
{
    let (w, h) = scaled(source_width, source_height, maximum_height, allow_upscale);
    let sw = source_width as int;
    let sh = source_height as int;
    let raw = (sw * h) / sh;
    if w > 2 && raw <= u32::MAX {
        assert(w == raw - raw % 2);
        assert(raw * sh <= sw * h < (raw + 1) * sh) by (nonlinear_arith)
            requires
                sh > 0,
                raw == (sw * h) / sh,
        ;
        assert(w * sh <= raw * sh) by (nonlinear_arith)
            requires
                w <= raw,
                sh > 0,
        ;
        assert((raw + 1) * sh <= (w + 2) * sh) by (nonlinear_arith)
            requires
                raw + 1 <= w + 2,
                sh > 0,
        ;
    }
}

// ---------------------------------------------------------------------------
// Planning the renditions.
// ---------------------------------------------------------------------------

/// A rendition that was produced.
#[derive(Clone, Debug)]
pub struct GeneratedVariant {
    pub name: String,
    pub width: u32,
    pub height: u32,
    pub bandwidth_bps: u64,
    pub codecs: String,
    pub playlist_path: String,
}

/// A rendition to produce: the profile it follows, the directory it is
/// written to, and what it will be once written.
#[derive(Clone, Debug)]
pub struct VariantPlan {
    pub profile: usize,
    pub directory: String,
    pub variant: GeneratedVariant,
}

/// Why a source cannot be transcoded.
#[derive(Clone, Copy, Debug, PartialEq, Eq, Structural)]
pub enum TranscodeError {
    WidthUnavailable,
    HeightUnavailable,
    ZeroDimension,
}

impl TranscodeError {
    /// The description of the error.
    pub fn message(self) -> (m: &'static str)
        ensures
            m@ == (match self {
                TranscodeError::WidthUnavailable => "source video width is unavailable"@,
                TranscodeError::HeightUnavailable => "source video height is unavailable"@,
                TranscodeError::ZeroDimension => "source video dimensions must be greater than zero"@,
            }),
    {
        match self {
            TranscodeError::WidthUnavailable => "source video width is unavailable",
            TranscodeError::HeightUnavailable => "source video height is unavailable",
            TranscodeError::ZeroDimension => "source video dimensions must be greater than zero",
        }
    }
}

/// The bandwidth a rendition announces, in bits per second: its maximum
/// video bit rate, plus its audio bit rate when the source has audio.
pub open spec fn variant_bandwidth(p: TranscodingProfile, has_audio: bool) -> int {
    (p.maximum_video_bitrate_kbps + if has_audio {
        p.audio_bitrate_kbps as int
    } else {
        0
    }) * 1000
}

/// The codecs a rendition announces: video and audio codec, or the video
/// codec alone when the source has no audio.
pub open spec fn variant_codecs(p: TranscodingProfile, has_audio: bool) -> Seq<char> {
    if has_audio {
        p.hls_video_codec@ + ","@ + p.hls_audio_codec@
    } else {
        p.hls_video_codec@
    }
}

/// Whether `plan` describes the rendition of `profiles[plan.profile]` for a
/// source of the given size, written below `staging_root`.
pub open spec fn plans_variant(
    plan: VariantPlan,
    profiles: Seq<TranscodingProfile>,
    source_width: u32,
    source_height: u32,
    has_audio: bool,
    staging_root: Seq<char>,
    config: TranscodingConfig,
) -> bool {
    let p = profiles[plan.profile as int];
    let size = scaled(source_width, source_height, p.maximum_height, config.allow_upscale);
    &&& plan.profile < profiles.len()
    &&& plan.variant.name@ == p.name@
    &&& plan.directory@ == join(staging_root, p.name@)
    &&& plan.variant.playlist_path@ == join(plan.directory@, config.variant_playlist_filename@)
    &&& plan.variant.width == size.0
    &&& plan.variant.height == size.1
    &&& plan.variant.bandwidth_bps == variant_bandwidth(p, has_audio)
    &&& plan.variant.codecs@ == variant_codecs(p, has_audio)
}

/// The renditions to produce of a probed source, in the order they are made:
/// the selected profiles, each scaled to the source. Fails when the source's
/// width or height is unknown or zero.
pub fn plan_variants(probe: &MediaProbe, staging_root: &str, config: &TranscodingConfig) -> (r: Result<Vec<VariantPlan>, TranscodeError>)
    ensures
        probe.width is None ==> r == Err::<Vec<VariantPlan>, TranscodeError>(TranscodeError::WidthUnavailable),
        probe.width is Some && probe.height is None ==> r == Err::<Vec<VariantPlan>, TranscodeError>(TranscodeError::HeightUnavailable),
        probe.width matches Some(w) && probe.height matches Some(h) && (w == 0 || h == 0) ==> r == Err::<Vec<VariantPlan>, TranscodeError>(TranscodeError::ZeroDimension),
        probe.width is Some && probe.height is Some && probe.width.unwrap() > 0 && probe.height.unwrap() > 0 ==> (r matches Ok(plans) && is_selection(
            profile_heights(config.profiles@),
            probe.height.unwrap(),
            config.allow_upscale,
            plans@.map_values(|v: VariantPlan| v.profile),
        ) && forall|k: int| 0 <= k < plans@.len() ==> plans_variant(
            #[trigger] plans@[k],
            config.profiles@,
            probe.width.unwrap(),
            probe.height.unwrap(),
            probe.audio_codec is Some,
            staging_root@,
            *config,
        )),
{
    let source_width = match probe.width {
        Some(w) => w,
        None => return Err(TranscodeError::WidthUnavailable),
    };
    let source_height = match probe.height {
        Some(h) => h,
        None => return Err(TranscodeError::HeightUnavailable),
    };
    if source_width == 0 || source_height == 0 {
        return Err(TranscodeError::ZeroDimension);
    }
    let has_audio = probe.audio_codec.is_some();
    let selection = select_profiles(&config.profiles, source_height, config.allow_upscale);
    let mut plans: Vec<VariantPlan> = Vec::new();
    let mut k: usize = 0;
    while k < selection.len()
        invariant
            k <= selection@.len(),
            source_height > 0,
            has_audio == probe.audio_codec is Some,
            is_selection(profile_heights(config.profiles@), source_height, config.allow_upscale, selection@),
            forall|m: int| 0 <= m < selection@.len() ==> #[trigger] selection@[m] < config.profiles@.len(),
            plans@.len() == k,
            forall|m: int| 0 <= m < k ==> #[trigger] plans@[m].profile == selection@[m],
            forall|m: int| 0 <= m < k ==> plans_variant(
                #[trigger] plans@[m],
                config.profiles@,
                source_width,
                source_height,
                has_audio,
                staging_root@,
                *config,
            ),
        decreases selection@.len() - k,
    {
        let index = selection[k];
        let profile = &config.profiles[index];
        let (width, height) = scaled_dimensions(
            source_width,
            source_height,
            profile.maximum_height,
            config.allow_upscale,
        );
        let directory = join_path(staging_root, profile.name.as_str());
        let playlist_path = join_path(directory.as_str(), config.variant_playlist_filename.as_str());
        let audio_kbps: u64 = if has_audio {
            profile.audio_bitrate_kbps as u64
        } else {
            0
        };
        let bandwidth_bps: u64 = ((profile.maximum_video_bitrate_kbps as u64) + audio_kbps) * 1000;
        let mut codecs = profile.hls_video_codec.as_str().to_owned();
        if has_audio {
            push_str(&mut codecs, ",");
            push_str(&mut codecs, profile.hls_audio_codec.as_str());
        }
        let plan = VariantPlan {
            profile: index,
            directory,
            variant: GeneratedVariant {
                name: profile.name.as_str().to_owned(),
                width,
                height,
                bandwidth_bps,
                codecs,
                playlist_path,
            },
        };
        plans.push(plan);
        k = k + 1;
    }
    proof {
        if selection@.len() > 0 {
            proof_selection_bounds(profile_heights(config.profiles@), source_height, config.allow_upscale, selection@);
        }
        assert(plans@.map_values(|v: VariantPlan| v.profile) =~= selection@);
    }
    Ok(plans)
}

proof fn proof_selection_bounds(h: Seq<u32>, source_height: u32, allow_upscale: bool, r: Seq<usize>)
    requires
        is_selection(h, source_height, allow_upscale, r),
    ensures
        forall|m: int| 0 <= m < r.len() ==> #[trigger] r[m] < h.len(),
{
}

// ---------------------------------------------------------------------------
// Command-line arguments.
// ---------------------------------------------------------------------------

/// `n` in decimal followed by `k` (kilobits).
pub open spec fn kilobits(n: u32) -> Seq<char> {
    decimal(n as nat) + "k"@
}

/// The arguments that select the input and the video encoding.
pub open spec fn input_and_video_arguments(
    source: Seq<char>,
    p: TranscodingProfile,
    width: u32,
    height: u32,
    config: TranscodingConfig,
) -> Seq<Seq<char>> {
    input_arguments(source, width, height, config) + video_arguments(p, config)
}

/// The arguments that select the audio encoding and the HLS output.
pub open spec fn audio_and_hls_arguments(p: TranscodingProfile, config: TranscodingConfig) -> Seq<Seq<char>> {
    seq![
        "-c:a"@,
        p.audio_codec@,
        "-b:a"@,
        kilobits(p.audio_bitrate_kbps),
        "-ar"@,
        decimal(config.audio_sample_rate_hz as nat),
        "-ac"@,
        decimal(config.audio_channels as nat),
        "-threads"@,
        decimal(config.ffmpeg_threads as nat),
        "-f"@,
        "hls"@,
        "-hls_time"@,
        decimal(config.segment_duration_seconds as nat),
        "-hls_playlist_type"@,
        config.hls_playlist_type@,
    ] + (if config.hls_flags@.len() > 0 {
        seq!["-hls_flags"@, joined(texts(config.hls_flags@), "+"@)]
    } else {
        seq![]
    })
}

/// The arguments that name the segments.
pub open spec fn segment_arguments(directory: Seq<char>, config: TranscodingConfig) -> Seq<Seq<char>> {
    match config.segment_format {
        SegmentFormat::Fmp4 => seq![
            "-hls_segment_type"@,
            "fmp4"@,
            "-hls_fmp4_init_filename"@,
            config.fmp4_init_filename@,
            "-hls_segment_filename"@,
            join(directory, config.fmp4_segment_filename_pattern@),
        ],
        SegmentFormat::MpegTs => seq![
            "-hls_segment_filename"@,
            join(directory, config.mpegts_segment_filename_pattern@),
        ],
    }
}

/// All arguments of the FFmpeg run that makes one rendition.
pub open spec fn transcode_argument_list(
    source: Seq<char>,
    directory: Seq<char>,
    playlist_path: Seq<char>,
    p: TranscodingProfile,
    width: u32,
    height: u32,
    config: TranscodingConfig,
) -> Seq<Seq<char>> {
    input_and_video_arguments(source, p, width, height, config) + audio_and_hls_arguments(p, config)
        + segment_arguments(directory, config) + texts(config.extra_output_arguments@) + seq![
        playlist_path,
    ]
}

/// The segments are written into the rendition's directory under the name
/// pattern of the chosen segment format: the argument after
/// `-hls_segment_filename` is that pattern joined onto the directory, and
/// for fMP4 segments `-hls_segment_type fmp4` is given too.
pub proof fn lemma_segments_follow_format(
    source: Seq<char>,
    directory: Seq<char>,
    playlist_path: Seq<char>,
    p: TranscodingProfile,
    width: u32,
    height: u32,
    config: TranscodingConfig,
)
    ensures
        ({
            let args = transcode_argument_list(source, directory, playlist_path, p, width, height, config);
            let pattern = match config.segment_format {
                SegmentFormat::MpegTs => config.mpegts_segment_filename_pattern@,
                SegmentFormat::Fmp4 => config.fmp4_segment_filename_pattern@,
            };
            &&& exists|i: int|
                0 <= i && i + 1 < args.len() && #[trigger] args[i] == "-hls_segment_filename"@ && args[i + 1]
                    == join(directory, pattern)
            &&& config.segment_format == SegmentFormat::Fmp4 ==> exists|i: int|
                0 <= i && i + 1 < args.len() && #[trigger] args[i] == "-hls_segment_type"@ && args[i + 1]
                    == "fmp4"@
        }),
{
    let args = transcode_argument_list(source, directory, playlist_path, p, width, height, config);
    let head = input_and_video_arguments(source, p, width, height, config) + audio_and_hls_arguments(p, config);
    let seg = segment_arguments(directory, config);
    let n = head.len() as int;
    assert(args == head + seg + texts(config.extra_output_arguments@) + seq![playlist_path]);
    match config.segment_format {
        SegmentFormat::MpegTs => {
            assert(args[n] == seg[0]);
            assert(args[n + 1] == seg[1]);
        },
        SegmentFormat::Fmp4 => {
            assert(args[n] == seg[0]);
            assert(args[n + 1] == seg[1]);
            assert(args[n + 4] == seg[4]);
            assert(args[n + 5] == seg[5]);
        },
    }
}

fn push_decimal_text(v: &mut Vec<String>, n: u64)
    ensures
        texts(final(v)@) == texts(old(v)@).push(decimal(n as nat)),
{
    let s = decimal_string(n);
    push_text(v, s.as_str());
}

fn push_kilobits(v: &mut Vec<String>, n: u32)
    ensures
        texts(final(v)@) == texts(old(v)@).push(kilobits(n)),
{
    let mut s = decimal_string(n as u64);
    push_str(&mut s, "k");
    push_text(v, s.as_str());
}

/// The arguments that select the input and its scaling.
pub open spec fn input_arguments(source: Seq<char>, width: u32, height: u32, config: TranscodingConfig) -> Seq<Seq<char>> {
    seq!["-hide_banner"@, "-nostdin"@, "-y"@] + texts(config.extra_input_arguments@) + seq![
        "-i"@,
        source,
        "-map"@,
        "0:v:0"@,
        "-map"@,
        "0:a:0?"@,
        "-vf"@,
        "scale="@ + decimal(width as nat) + ":"@ + decimal(height as nat) + ":flags="@
            + config.scaling_flags@,
    ]
}

/// The arguments that select the video encoding.
pub open spec fn video_arguments(p: TranscodingProfile, config: TranscodingConfig) -> Seq<Seq<char>> {
    let gop = decimal((p.frame_rate * config.segment_duration_seconds) as nat);
    seq![
        "-c:v"@,
        p.video_codec@,
        "-preset"@,
        p.preset@,
        "-profile:v"@,
        p.profile@,
        "-pix_fmt"@,
        p.pixel_format@,
        "-r"@,
        decimal(p.frame_rate as nat),
        "-b:v"@,
        kilobits(p.video_bitrate_kbps),
        "-maxrate"@,
        kilobits(p.maximum_video_bitrate_kbps),
        "-bufsize"@,
        kilobits(p.video_buffer_kbps),
        "-g"@,
        gop,
        "-keyint_min"@,
        gop,
        "-sc_threshold"@,
        "0"@,
        "-force_key_frames"@,
        "expr:gte(t,n_forced*"@ + decimal(config.segment_duration_seconds as nat) + ")"@,
    ]
}

fn input_part(source: &str, width: u32, height: u32, config: &TranscodingConfig) -> (r: Vec<String>)
    ensures
        texts(r@) == input_arguments(source@, width, height, *config),
{
    let mut v: Vec<String> = Vec::new();
    push_text(&mut v, "-hide_banner");
    push_text(&mut v, "-nostdin");
    push_text(&mut v, "-y");
    push_texts(&mut v, &config.extra_input_arguments);
    push_text(&mut v, "-i");
    push_text(&mut v, source);
    push_text(&mut v, "-map");
    push_text(&mut v, "0:v:0");
    push_text(&mut v, "-map");
    push_text(&mut v, "0:a:0?");
    push_text(&mut v, "-vf");
    let mut scale = "scale=".to_owned();
    push_str(&mut scale, decimal_string(width as u64).as_str());
    push_str(&mut scale, ":");
    push_str(&mut scale, decimal_string(height as u64).as_str());
    push_str(&mut scale, ":flags=");
    push_str(&mut scale, config.scaling_flags.as_str());
    push_text(&mut v, scale.as_str());
    assert(texts(v@) =~= input_arguments(source@, width, height, *config));
    v
}

fn video_part(p: &TranscodingProfile, config: &TranscodingConfig) -> (r: Vec<String>)
    ensures
        texts(r@) == video_arguments(*p, *config),
{
    let mut v: Vec<String> = Vec::new();
    push_text(&mut v, "-c:v");
    push_text(&mut v, p.video_codec.as_str());
    push_text(&mut v, "-preset");
    push_text(&mut v, p.preset.as_str());
    push_text(&mut v, "-profile:v");
    push_text(&mut v, p.profile.as_str());
    push_text(&mut v, "-pix_fmt");
    push_text(&mut v, p.pixel_format.as_str());
    push_text(&mut v, "-r");
    push_decimal_text(&mut v, p.frame_rate as u64);
    push_text(&mut v, "-b:v");
    push_kilobits(&mut v, p.video_bitrate_kbps);
    push_text(&mut v, "-maxrate");
    push_kilobits(&mut v, p.maximum_video_bitrate_kbps);
    push_text(&mut v, "-bufsize");
    push_kilobits(&mut v, p.video_buffer_kbps);
    assert((p.frame_rate as u64) * (config.segment_duration_seconds as u64) <= u64::MAX) by (nonlinear_arith)
        requires
            p.frame_rate <= u32::MAX,
            config.segment_duration_seconds <= u32::MAX,
    ;
    let gop: u64 = (p.frame_rate as u64) * (config.segment_duration_seconds as u64);
    push_text(&mut v, "-g");
    push_decimal_text(&mut v, gop);
    push_text(&mut v, "-keyint_min");
    push_decimal_text(&mut v, gop);
    push_text(&mut v, "-sc_threshold");
    push_text(&mut v, "0");
    push_text(&mut v, "-force_key_frames");
    let mut expr = "expr:gte(t,n_forced*".to_owned();
    push_str(&mut expr, decimal_string(config.segment_duration_seconds as u64).as_str());
    push_str(&mut expr, ")");
    push_text(&mut v, expr.as_str());
    assert(texts(v@) =~= video_arguments(*p, *config));
    v
}

fn input_and_video(source: &str, p: &TranscodingProfile, width: u32, height: u32, config: &TranscodingConfig) -> (r: Vec<String>)
    ensures
        texts(r@) == input_and_video_arguments(source@, *p, width, height, *config),
{
    let mut v = input_part(source, width, height, config);
    append_texts(&mut v, video_part(p, config));
    v
}

fn audio_and_hls(p: &TranscodingProfile, config: &TranscodingConfig) -> (r: Vec<String>)
    ensures
        texts(r@) == audio_and_hls_arguments(*p, *config),
{
    let mut v: Vec<String> = Vec::new();
    push_text(&mut v, "-c:a");
    push_text(&mut v, p.audio_codec.as_str());
    push_text(&mut v, "-b:a");
    push_kilobits(&mut v, p.audio_bitrate_kbps);
    push_text(&mut v, "-ar");
    push_decimal_text(&mut v, config.audio_sample_rate_hz as u64);
    push_text(&mut v, "-ac");
    push_decimal_text(&mut v, config.audio_channels as u64);
    push_text(&mut v, "-threads");
    push_decimal_text(&mut v, config.ffmpeg_threads as u64);
    push_text(&mut v, "-f");
    push_text(&mut v, "hls");
    push_text(&mut v, "-hls_time");
    push_decimal_text(&mut v, config.segment_duration_seconds as u64);
    push_text(&mut v, "-hls_playlist_type");
    push_text(&mut v, config.hls_playlist_type.as_str());
    let ghost head = texts(v@);
    if config.hls_flags.len() > 0 {
        push_text(&mut v, "-hls_flags");
        let flags = join_texts(&config.hls_flags, "+");
        push_text(&mut v, flags.as_str());
    }
    assert(texts(v@) =~= audio_and_hls_arguments(*p, *config));
    v
}

fn segments(directory: &str, config: &TranscodingConfig) -> (r: Vec<String>)
    ensures
        texts(r@) == segment_arguments(directory@, *config),
{
    let mut v: Vec<String> = Vec::new();
    match config.segment_format {
        SegmentFormat::Fmp4 => {
            push_text(&mut v, "-hls_segment_type");
            push_text(&mut v, "fmp4");
            push_text(&mut v, "-hls_fmp4_init_filename");
            push_text(&mut v, config.fmp4_init_filename.as_str());
            push_text(&mut v, "-hls_segment_filename");
            let pattern = join_path(directory, config.fmp4_segment_filename_pattern.as_str());
            push_text(&mut v, pattern.as_str());
        },
        SegmentFormat::MpegTs => {
            push_text(&mut v, "-hls_segment_filename");
            let pattern = join_path(directory, config.mpegts_segment_filename_pattern.as_str());
            push_text(&mut v, pattern.as_str());
        },
    }
    assert(texts(v@) =~= segment_arguments(directory@, *config));
    v
}

fn append_texts(v: &mut Vec<String>, items: Vec<String>)
    ensures
        texts(final(v)@) == texts(old(v)@) + texts(items@),
{
    push_texts(v, &items);
}

/// The arguments of the FFmpeg run that writes the rendition of profile `p`
/// at `width` x `height` from `source` into `directory`, with its playlist at
/// `playlist_path`.
pub fn transcode_arguments(
    source: &str,
    directory: &str,
    playlist_path: &str,
    p: &TranscodingProfile,
    width: u32,
    height: u32,
    config: &TranscodingConfig,
) -> (r: Vec<String>)
    ensures
        texts(r@) == transcode_argument_list(source@, directory@, playlist_path@, *p, width, height, *config),
{
    let mut v = input_and_video(source, p, width, height, config);
    append_texts(&mut v, audio_and_hls(p, config));
    append_texts(&mut v, segments(directory, config));
    push_texts(&mut v, &config.extra_output_arguments);
    push_text(&mut v, playlist_path);
    v
}

// ---------------------------------------------------------------------------
// The master playlist.
// ---------------------------------------------------------------------------

/// The playlist entry of one rendition.
pub open spec fn stream_entry(v: GeneratedVariant, config: TranscodingConfig) -> Seq<char> {
    "#EXT-X-STREAM-INF:BANDWIDTH="@ + decimal(v.bandwidth_bps as nat) + ",RESOLUTION="@ + decimal(
        v.width as nat,
    ) + "x"@ + decimal(v.height as nat) + ",CODECS=\""@ + v.codecs@ + "\"\n"@ + v.name@ + "/"@
        + config.variant_playlist_filename@ + "\n"@
}

/// The entries of the renditions, in order.
pub open spec fn stream_entries(vs: Seq<GeneratedVariant>, config: TranscodingConfig) -> Seq<char>
    decreases vs.len(),
{
    if vs.len() == 0 {
        seq![]
    } else {
        stream_entries(vs.drop_last(), config) + stream_entry(vs.last(), config)
    }
}

/// The master playlist text: the HLS header and version, then one entry per
/// rendition.
pub open spec fn master_playlist_text(vs: Seq<GeneratedVariant>, config: TranscodingConfig) -> Seq<char> {
    "#EXTM3U\n#EXT-X-VERSION:"@ + decimal(config.hls_version as nat) + "\n"@ + stream_entries(vs, config)
}

fn stream_entry_text(v: &GeneratedVariant, config: &TranscodingConfig) -> (r: String)
    ensures
        r@ == stream_entry(*v, *config),
{
    let mut out = "#EXT-X-STREAM-INF:BANDWIDTH=".to_owned();
    push_str(&mut out, decimal_string(v.bandwidth_bps).as_str());
    push_str(&mut out, ",RESOLUTION=");
    push_str(&mut out, decimal_string(v.width as u64).as_str());
    push_str(&mut out, "x");
    push_str(&mut out, decimal_string(v.height as u64).as_str());
    push_str(&mut out, ",CODECS=\"");
    push_str(&mut out, v.codecs.as_str());
    push_str(&mut out, "\"\n");
    push_str(&mut out, v.name.as_str());
    push_str(&mut out, "/");
    push_str(&mut out, config.variant_playlist_filename.as_str());
    push_str(&mut out, "\n");
    out
}

/// The master playlist that lists the renditions (written by the caller to
/// the configured master playlist file).
pub fn master_playlist(variants: &Vec<GeneratedVariant>, config: &TranscodingConfig) -> (r: String)
    ensures
        r@ == master_playlist_text(variants@, *config),
{
    let mut out = "#EXTM3U\n#EXT-X-VERSION:".to_owned();
    push_str(&mut out, decimal_string(config.hls_version as u64).as_str());
    push_str(&mut out, "\n");
    let ghost head = out@;
    let mut i: usize = 0;
    while i < variants.len()
        invariant
            i <= variants@.len(),
            out@ == head + stream_entries(variants@.take(i as int), *config),
        decreases variants@.len() - i,
    {
        let ghost before = out@;
        let entry = stream_entry_text(&variants[i], config);
        push_str(&mut out, entry.as_str());
        proof {
            assert(variants@.take(i + 1).drop_last() == variants@.take(i as int));
            assert(variants@.take(i + 1).last() == variants@[i as int]);
        }
        i = i + 1;
    }
    assert(variants@.take(variants@.len() as int) == variants@);
    out
}

} // verus!
