use gulfstream::config::{SegmentFormat, TranscodingConfig, TranscodingProfile};
use gulfstream::infrastructure::ffmpeg::{
    master_playlist, plan_variants, probe_from_streams, scaled_dimensions, select_profiles,
    transcode_arguments, GeneratedVariant, MediaProbe, ProbeStream, TranscodeError,
};

#[test]
fn scaling_preserves_aspect_ratio_and_even_dimensions() {
    assert_eq!(scaled_dimensions(1920, 1080, 720, false), (1280, 720));
    assert_eq!(scaled_dimensions(1280, 720, 1080, false), (1280, 720));
    assert_eq!(scaled_dimensions(853, 480, 360, false), (638, 360));
}

#[test]
fn scaling_upscales_only_when_allowed_and_keeps_minimums() {
    assert_eq!(scaled_dimensions(1280, 720, 1080, true), (1920, 1080));
    assert_eq!(scaled_dimensions(1, 1000, 1, false), (2, 2));
    assert_eq!(scaled_dimensions(u32::MAX, 1, 4, true), (u32::MAX - 1, 4));
}

fn profile(name: &str, height: u32) -> TranscodingProfile {
    TranscodingProfile {
        name: name.to_owned(),
        maximum_height: height,
        video_codec: "libx264".to_owned(),
        video_bitrate_kbps: 2500,
        maximum_video_bitrate_kbps: 3000,
        video_buffer_kbps: 5000,
        audio_codec: "aac".to_owned(),
        audio_bitrate_kbps: 128,
        preset: "veryfast".to_owned(),
        profile: "high".to_owned(),
        pixel_format: "yuv420p".to_owned(),
        frame_rate: 30,
        hls_video_codec: "avc1.640028".to_owned(),
        hls_audio_codec: "mp4a.40.2".to_owned(),
    }
}

fn config(profiles: Vec<TranscodingProfile>, allow_upscale: bool) -> TranscodingConfig {
    TranscodingConfig {
        enabled: true,
        ffmpeg_path: "ffmpeg".to_owned(),
        ffprobe_path: "ffprobe".to_owned(),
        command_timeout_seconds: 600,
        segment_duration_seconds: 6,
        segment_format: SegmentFormat::Fmp4,
        hls_version: 7,
        master_playlist_filename: "master.m3u8".to_owned(),
        variant_playlist_filename: "index.m3u8".to_owned(),
        fmp4_init_filename: "init.mp4".to_owned(),
        fmp4_segment_filename_pattern: "segment-%05d.m4s".to_owned(),
        mpegts_segment_filename_pattern: "segment-%05d.ts".to_owned(),
        hls_playlist_type: "vod".to_owned(),
        hls_flags: vec!["independent_segments".to_owned(), "temp_file".to_owned()],
        scaling_flags: "lanczos".to_owned(),
        audio_sample_rate_hz: 48000,
        audio_channels: 2,
        ffmpeg_threads: 0,
        retain_original: true,
        allow_upscale,
        extra_input_arguments: vec![],
        extra_output_arguments: vec!["-movflags".to_owned(), "+faststart".to_owned()],
        profiles,
    }
}

#[test]
fn profiles_are_selected_in_height_order() {
    let profiles = vec![profile("1080p", 1080), profile("360p", 360), profile("720p", 720), profile("360b", 360)];
    assert_eq!(select_profiles(&profiles, 720, false), vec![1, 3, 2]);
    assert_eq!(select_profiles(&profiles, 200, false), vec![1]);
    assert_eq!(select_profiles(&profiles, 200, true), vec![1, 3, 2, 0]);
    assert_eq!(select_profiles(&vec![], 200, false), Vec::<usize>::new());
}

#[test]
fn variants_are_planned_from_the_probe() {
    let profiles = vec![profile("720p", 720), profile("360p", 360)];
    let transcoding = config(profiles, false);
    let probe = MediaProbe {
        duration_ms: Some(1000),
        width: Some(1920),
        height: Some(1080),
        video_codec: Some("h264".to_owned()),
        audio_codec: Some("aac".to_owned()),
    };
    let plans = plan_variants(&probe, "/tmp/stage", &transcoding).expect("plan");
    assert_eq!(plans.len(), 2);
    assert_eq!(plans[0].profile, 1);
    assert_eq!(plans[0].directory, "/tmp/stage/360p");
    assert_eq!(plans[0].variant.playlist_path, "/tmp/stage/360p/index.m3u8");
    assert_eq!((plans[0].variant.width, plans[0].variant.height), (640, 360));
    assert_eq!(plans[0].variant.bandwidth_bps, 3_128_000);
    assert_eq!(plans[0].variant.codecs, "avc1.640028,mp4a.40.2");
    let silent = MediaProbe { audio_codec: None, ..probe.clone() };
    let plans = plan_variants(&silent, "/tmp/stage", &transcoding).expect("plan");
    assert_eq!(plans[1].variant.bandwidth_bps, 3_000_000);
    assert_eq!(plans[1].variant.codecs, "avc1.640028");
    let missing = MediaProbe { width: None, ..probe.clone() };
    assert_eq!(plan_variants(&missing, "/tmp", &transcoding).unwrap_err(), TranscodeError::WidthUnavailable);
    let zero = MediaProbe { height: Some(0), ..probe };
    assert_eq!(plan_variants(&zero, "/tmp", &transcoding).unwrap_err(), TranscodeError::ZeroDimension);
}

#[test]
fn probes_read_the_first_streams() {
    let streams = vec![
        ProbeStream { codec_type: Some("audio".to_owned()), codec_name: Some("opus".to_owned()), width: None, height: None },
        ProbeStream { codec_type: Some("video".to_owned()), codec_name: Some("vp9".to_owned()), width: Some(640), height: Some(480) },
        ProbeStream { codec_type: Some("video".to_owned()), codec_name: Some("h264".to_owned()), width: Some(1), height: Some(1) },
    ];
    let probe = probe_from_streams(&streams, Some(42));
    assert_eq!(probe.width, Some(640));
    assert_eq!(probe.height, Some(480));
    assert_eq!(probe.video_codec.as_deref(), Some("vp9"));
    assert_eq!(probe.audio_codec.as_deref(), Some("opus"));
    assert_eq!(probe.duration_ms, Some(42));
}

#[test]
fn transcode_arguments_follow_the_profile() {
    let p = profile("720p", 720);
    let transcoding = config(vec![p.clone()], false);
    let arguments = transcode_arguments("/in.mp4", "/out/720p", "/out/720p/index.m3u8", &p, 1280, 720, &transcoding);
    let expected: Vec<&str> = vec![
        "-hide_banner", "-nostdin", "-y", "-i", "/in.mp4", "-map", "0:v:0", "-map", "0:a:0?", "-vf",
        "scale=1280:720:flags=lanczos", "-c:v", "libx264", "-preset", "veryfast", "-profile:v", "high",
        "-pix_fmt", "yuv420p", "-r", "30", "-b:v", "2500k", "-maxrate", "3000k", "-bufsize", "5000k",
        "-g", "180", "-keyint_min", "180", "-sc_threshold", "0", "-force_key_frames",
        "expr:gte(t,n_forced*6)", "-c:a", "aac", "-b:a", "128k", "-ar", "48000", "-ac", "2",
        "-threads", "0", "-f", "hls", "-hls_time", "6", "-hls_playlist_type", "vod", "-hls_flags",
        "independent_segments+temp_file", "-hls_segment_type", "fmp4", "-hls_fmp4_init_filename",
        "init.mp4", "-hls_segment_filename", "/out/720p/segment-%05d.m4s", "-movflags", "+faststart",
        "/out/720p/index.m3u8",
    ];
    assert_eq!(arguments, expected);
}

#[test]
fn master_playlist_lists_every_rendition() {
    let transcoding = config(vec![], false);
    let variants = vec![GeneratedVariant {
        name: "720p".to_owned(),
        width: 1280,
        height: 720,
        bandwidth_bps: 3_128_000,
        codecs: "avc1.640028,mp4a.40.2".to_owned(),
        playlist_path: "/x/720p/index.m3u8".to_owned(),
    }];
    assert_eq!(
        master_playlist(&variants, &transcoding),
        "#EXTM3U\n#EXT-X-VERSION:7\n#EXT-X-STREAM-INF:BANDWIDTH=3128000,RESOLUTION=1280x720,CODECS=\"avc1.640028,mp4a.40.2\"\n720p/index.m3u8\n"
    );
}
