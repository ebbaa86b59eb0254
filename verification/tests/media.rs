use fpv_editor::media::error::MediaError;
use fpv_editor::media::export::{export_clip_args, export_clip_preview_args, generate_proxy_args, ClipNumbers};
use fpv_editor::media::preview::{preview_clip_file_name, preview_composite_args, preview_plan, preview_window_clips};
use fpv_editor::media::probe::{
    decode_ffprobe_hex, downsample, gyro_trace_from_packets, media_info, GyroRaw, Reading, StreamInfo,
};
use fpv_editor::media::process::{
    captured_output, exit_outcome, first_line_of, override_variable, progress_args, progress_micros,
    tool_diagnostic, version_line, VersionRun,
};
use fpv_editor::media::settings::{
    export_capabilities, preview_dimensions, AudioCodec, ExportContainer, ExportSettings, VideoCodec,
};
use fpv_editor::media::timeline_export::{export_timeline_args, timeline_video_clips, TimelineNumbers};
use fpv_editor::timeline::bus::CommandBus;
use fpv_editor::timeline::command::{Command, NewClip};
use fpv_editor::timeline::model::{Clip, Project, SpeedKeyframe, StabilizationProfile, Timecode, TrackKind};

fn base_clip() -> Clip {
    Clip::new("input.mp4".to_string(), Timecode(1_000_000), Timecode(4_000_000))
}

fn base_settings() -> ExportSettings {
    ExportSettings {
        output_path: "out.mp4".to_string(),
        width: 1920,
        height: 1080,
        fps_bits: 60.0f64.to_bits(),
        crf: None,
        container: ExportContainer::Mp4,
        video_codec: VideoCodec::H264,
        audio_codec: AudioCodec::Aac,
    }
}

fn numbers_for(clip: &Clip, settings: &ExportSettings) -> ClipNumbers {
    let (crop_width, crop_height) = match &clip.stabilization {
        Some(p) => {
            let scale = 1.0 + f32::from_bits(p.dynamic_fov_bits).clamp(0.0, 1.0);
            ((settings.width as f32 / scale) as u32, (settings.height as f32 / scale) as u32)
        }
        None => (0, 0),
    };
    let rate_text = match clip.speed_keyframes.first() {
        Some(k) => format!("{}", f64::from_bits(k.rate_bits)),
        None => String::new(),
    };
    ClipNumbers { fps_text: format!("{}", f64::from_bits(settings.fps_bits)), crop_width, crop_height, rate_text }
}

fn args_for(clip: &Clip, settings: &ExportSettings) -> Vec<String> {
    export_clip_args(clip, settings, &numbers_for(clip, settings))
}

#[test]
fn trims_using_ss_and_to_from_clip_in_out_points() {
    let args = args_for(&base_clip(), &base_settings());
    let ss_idx = args.iter().position(|a| a == "-ss").unwrap();
    assert_eq!(args[ss_idx + 1], "1.000000");
    let to_idx = args.iter().position(|a| a == "-to").unwrap();
    assert_eq!(args[to_idx + 1], "4.000000");
}

#[test]
fn plain_clip_has_no_lut_or_crop_filter() {
    let args = args_for(&base_clip(), &base_settings());
    let vf_idx = args.iter().position(|a| a == "-vf").unwrap();
    let filter = &args[vf_idx + 1];
    assert!(!filter.contains("lut3d"));
    assert!(!filter.contains("crop"));
    assert!(filter.contains("scale=1920:1080"));
}

#[test]
fn stabilized_clip_adds_a_crop_filter_before_scale() {
    let mut clip = base_clip();
    clip.stabilization = Some(StabilizationProfile {
        smoothness_bits: 0.5f32.to_bits(),
        strength_bits: 1.0f32.to_bits(),
        horizon_lock: false,
        dynamic_fov_bits: 0.25f32.to_bits(),
    });
    let args = args_for(&clip, &base_settings());
    let vf_idx = args.iter().position(|a| a == "-vf").unwrap();
    let filter = &args[vf_idx + 1];
    assert!(filter.starts_with("crop="));
    let crop_pos = filter.find("crop=").unwrap();
    let scale_pos = filter.find("scale=").unwrap();
    assert!(crop_pos < scale_pos);
    assert!(filter.starts_with("crop=1536:864:(in_w-1536)/2:(in_h-864)/2,scale=1920:1080"));
}

#[test]
fn clip_with_lut_appends_lut3d_filter() {
    let mut clip = base_clip();
    clip.lut_path = Some("/luts/warm.cube".to_string());
    let args = args_for(&clip, &base_settings());
    let vf_idx = args.iter().position(|a| a == "-vf").unwrap();
    assert!(args[vf_idx + 1].contains("lut3d='/luts/warm.cube'"));
}

#[test]
fn speed_keyframe_adds_setpts_filter() {
    let mut clip = base_clip();
    clip.speed_keyframes = vec![SpeedKeyframe { at: Timecode(0), rate_bits: 2.0f64.to_bits() }];
    let args = args_for(&clip, &base_settings());
    let vf_idx = args.iter().position(|a| a == "-vf").unwrap();
    assert!(args[vf_idx + 1].contains("setpts=(1/2)*PTS"));
}

#[test]
fn custom_crf_overrides_default() {
    let mut settings = base_settings();
    settings.crf = Some(18);
    let args = args_for(&base_clip(), &settings);
    let crf_idx = args.iter().position(|a| a == "-crf").unwrap();
    assert_eq!(args[crf_idx + 1], "18");
}

#[test]
fn full_clip_argument_list() {
    let args = args_for(&base_clip(), &base_settings());
    let expected = [
        "-y", "-ss", "1.000000", "-to", "4.000000", "-i", "input.mp4", "-vf", "scale=1920:1080", "-r", "60",
        "-c:v", "libx264", "-crf", "23", "-pix_fmt", "yuv420p", "-c:a", "aac", "-movflags", "+faststart",
        "out.mp4",
    ];
    assert_eq!(args, expected);
}

#[test]
fn negative_and_fractional_seconds_print_with_six_decimals() {
    let clip = Clip::new("x.mp4".to_string(), Timecode(-1_500_000), Timecode(2_000_005));
    let args = args_for(&clip, &base_settings());
    assert_eq!(args[2], "-1.500000");
    assert_eq!(args[4], "2.000005");
}

#[test]
fn nonpositive_speed_ramp_rate_adds_no_setpts() {
    let mut clip = base_clip();
    clip.speed_keyframes = vec![SpeedKeyframe { at: Timecode(0), rate_bits: (-1.0f64).to_bits() }];
    let args = args_for(&clip, &base_settings());
    assert!(!args[8].contains("setpts"));
}

#[test]
fn preview_clip_args_insert_fast_options_before_the_output() {
    let settings = base_settings();
    let clip = base_clip();
    let args = export_clip_preview_args(&clip, &settings, &numbers_for(&clip, &settings));
    let n = args.len();
    assert_eq!(&args[n - 7..], ["-preset", "ultrafast", "-threads", "2", "-movflags", "+faststart", "out.mp4"]);
}

#[test]
fn validation_rejects_odd_sizes_bad_rates_and_webm_codecs() {
    let mut s = base_settings();
    s.width = 1921;
    assert_eq!(s.validate(), Err(MediaError::Parse("resolution must use positive, even dimensions".to_string())));
    let mut s = base_settings();
    s.fps_bits = 0.0f64.to_bits();
    assert_eq!(s.validate(), Err(MediaError::Parse("frame rate must be greater than zero".to_string())));
    let mut s = base_settings();
    s.fps_bits = f64::INFINITY.to_bits();
    assert!(s.validate().is_err());
    let mut s = base_settings();
    s.container = ExportContainer::Webm;
    assert_eq!(s.validate(), Err(MediaError::Parse("WebM requires the VP9 video codec in FPV Editor".to_string())));
    s.video_codec = VideoCodec::Vp9;
    assert_eq!(s.validate(), Err(MediaError::Parse("WebM requires the Opus audio codec in FPV Editor".to_string())));
    s.audio_codec = AudioCodec::Opus;
    assert_eq!(s.validate(), Ok(()));
}

#[test]
fn preview_dimensions_keep_aspect_and_cap_the_long_edge() {
    assert_eq!(preview_dimensions(1920, 1080), (960, 540));
    assert_eq!(preview_dimensions(640, 480), (640, 480));
    assert_eq!(preview_dimensions(3840, 2160), (960, 540));
    assert_eq!(preview_dimensions(1000, 1), (960, 2));
    assert_eq!(preview_dimensions(1001, 3), (960, 2));
    assert_eq!(preview_dimensions(1280, 721), (960, 540));
    assert_eq!(preview_dimensions(1080, 1920), (540, 960));
    assert_eq!(preview_dimensions(900, 1000), (864, 960));
    assert_eq!(preview_dimensions(960, 960), (960, 960));
}

#[test]
fn capabilities_follow_the_listed_words() {
    let encoders = " V....D libx264              libx264 H.264\n A....D aac                  AAC\n";
    let muxers = "  E mp4             MP4 (MPEG-4 Part 14)\n  E webm            WebM\n";
    let caps = export_capabilities(encoders, muxers);
    assert_eq!(caps.containers, vec![ExportContainer::Mp4, ExportContainer::Webm]);
    assert_eq!(caps.video_codecs, vec![VideoCodec::H264]);
    assert_eq!(caps.audio_codecs, vec![AudioCodec::Aac]);
}

#[test]
fn proxy_arguments_scale_to_the_height() {
    let args = generate_proxy_args("in.mp4", "proxy.mp4", 540);
    assert_eq!(
        args,
        ["-y", "-i", "in.mp4", "-vf", "scale=-2:540", "-c:v", "libx264", "-preset", "ultrafast", "-crf", "28", "proxy.mp4"]
    );
}

fn two_clip_bus() -> CommandBus {
    let mut bus = CommandBus::new(Project::new("preview".to_string()));
    bus.execute(Command::AddTrack { kind: TrackKind::Video, name: "V1".to_string() }).unwrap();
    let track_id = bus.project().tracks[0].id;
    for position in [0i64, 1_000_000] {
        bus.execute(Command::AddClip {
            track_id,
            clip: NewClip {
                source_path: "src.mp4".to_string(),
                in_point: Timecode(0),
                out_point: Timecode(1_000_000),
                position: Timecode(position),
            },
        })
        .unwrap();
    }
    bus
}

#[test]
fn timeline_export_layers_clips_and_mixes_audio() {
    let bus = two_clip_bus();
    let clips = timeline_video_clips(bus.project());
    assert_eq!(clips.len(), 2);
    let numbers = TimelineNumbers { fps_text: "60".to_string(), duration_text: "2".to_string() };
    let delays = vec![Some("0".to_string()), Some("1000".to_string())];
    let args = export_timeline_args(&clips, &delays, &base_settings(), &numbers).unwrap();
    let fc = args.iter().position(|a| a == "-filter_complex").unwrap();
    let filter = &args[fc + 1];
    assert!(filter.starts_with("[1:v]setpts=PTS-STARTPTS+0.000000/TB,scale=1920:1080[v0];[0:v][v0]overlay"));
    assert!(filter.contains("[2:v]setpts=PTS-STARTPTS+1.000000/TB,scale=1920:1080[v1];[layer0][v1]overlay"));
    assert!(filter.contains("[2:a]asetpts=PTS-STARTPTS,adelay=1000:all=1[a1];"));
    assert!(filter.ends_with("[layer1]format=yuv420p[video];[a0][a1]amix=inputs=2:duration=longest[audio]"));
    assert_eq!(args[4], "color=c=black:s=1920x1080:r=60:d=2");
    assert!(args.contains(&"[audio]".to_string()));
    assert_eq!(args.last().unwrap(), "out.mp4");
}

#[test]
fn timeline_export_without_clips_is_an_error() {
    let numbers = TimelineNumbers { fps_text: "60".to_string(), duration_text: "0.01".to_string() };
    let err = export_timeline_args(&Vec::new(), &Vec::new(), &base_settings(), &numbers).unwrap_err();
    assert_eq!(err, MediaError::Parse("timeline has no video clips to export".to_string()));
}

#[test]
fn preview_window_cuts_clips_to_the_visible_range() {
    let bus = two_clip_bus();
    let clips = preview_window_clips(bus.project(), Timecode(500_000), Timecode(750_000));
    assert_eq!(clips.len(), 2);
    assert_eq!((clips[0].in_point, clips[0].out_point, clips[0].position), (Timecode(500_000), Timecode(1_000_000), Timecode(0)));
    assert_eq!((clips[1].in_point, clips[1].out_point, clips[1].position), (Timecode(0), Timecode(250_000), Timecode(500_000)));
    let later = preview_window_clips(bus.project(), Timecode(5_000_000), Timecode(0));
    assert!(later.is_empty());
}

#[test]
fn preview_composite_stacks_the_renders() {
    let bus = two_clip_bus();
    let clips = preview_window_clips(bus.project(), Timecode(0), Timecode(2_000_000));
    let names: Vec<String> = (0..clips.len()).map(|i| preview_clip_file_name("preview", i)).collect();
    assert_eq!(names[1], "preview-clip-1.mp4");
    let numbers = TimelineNumbers { fps_text: "30".to_string(), duration_text: "2".to_string() };
    let args = preview_composite_args(&clips, &names, 960, 540, &numbers, "out.mp4");
    assert_eq!(args[4], "color=c=black:s=960x540:r=30:d=2");
    assert_eq!(args[5..9], ["-i", "preview-clip-0.mp4", "-i", "preview-clip-1.mp4"]);
    assert_eq!(
        args[10],
        "[1:v]setpts=PTS-STARTPTS+0.000000/TB[clip0];[0:v][clip0]overlay=eof_action=pass:shortest=0[layer0];[2:v]setpts=PTS-STARTPTS+1.000000/TB[clip1];[layer0][clip1]overlay=eof_action=pass:shortest=0[layer1];[layer1]format=yuv420p[preview]"
    );
}

#[test]
fn extracts_the_first_non_empty_version_line() {
    assert_eq!(
        version_line(b"ffmpeg version 7.1 Copyright\nconfiguration: test\n"),
        Some("ffmpeg version 7.1 Copyright".to_string())
    );
    assert_eq!(version_line(b""), None);
}

#[test]
fn first_line_is_trimmed_and_blank_lines_are_skipped() {
    assert_eq!(first_line_of("  ffprobe 6.0 \r\nrest"), Some("ffprobe 6.0".to_string()));
    assert_eq!(first_line_of("   \nsecond"), Some("second".to_string()));
    assert_eq!(first_line_of(" \n\t\r\n"), None);
    assert_eq!(version_line(b"\nffmpeg version 7.1\n"), Some("ffmpeg version 7.1".to_string()));
}

#[test]
fn failed_runs_report_status_and_stderr() {
    assert_eq!(exit_outcome("ffmpeg", true, Some(0), b""), Ok(()));
    assert_eq!(
        exit_outcome("ffmpeg", false, None, b"boom"),
        Err(MediaError::NonZeroExit { binary: "ffmpeg".to_string(), status: -1, stderr: "boom".to_string() })
    );
    assert_eq!(captured_output("ffprobe", true, Some(0), b"{}".to_vec(), b""), Ok("{}".to_string()));
    assert!(matches!(captured_output("ffprobe", true, Some(0), vec![0xff], b""), Err(MediaError::Parse(_))));
}

#[test]
fn tool_diagnosis_covers_each_outcome() {
    let healthy = tool_diagnostic(
        "ffmpeg",
        "/usr/bin/ffmpeg".to_string(),
        "PATH",
        VersionRun::Exited { success: true, code: Some(0), stdout: b"ffmpeg version 7\n".to_vec() },
    );
    assert_eq!(healthy.status, "healthy");
    assert_eq!(healthy.version.as_deref(), Some("ffmpeg version 7"));
    let failed = tool_diagnostic("ffmpeg", "ffmpeg".to_string(), "PATH", VersionRun::Exited { success: false, code: Some(3), stdout: Vec::new() });
    assert_eq!(failed.status, "error");
    assert_eq!(
        failed.message,
        "The executable could not start successfully (exit 3). Check that this is a compatible FFmpeg installation."
    );
    let missing = tool_diagnostic("ffprobe", "ffprobe".to_string(), "System command lookup", VersionRun::NotFound);
    assert_eq!(missing.status, "missing");
    assert_eq!(tool_diagnostic("x", "x".to_string(), "PATH", VersionRun::Failed).status, "error");
}

#[test]
fn override_variable_is_upper_case() {
    assert_eq!(override_variable("ffprobe"), "FPV_FFPROBE_PATH");
}

#[test]
fn progress_reporting_arguments_and_lines() {
    let args = vec!["-i".to_string(), "a.mp4".to_string(), "out.mp4".to_string()];
    assert_eq!(progress_args(&args).unwrap(), ["-i", "a.mp4", "-progress", "pipe:1", "-nostats", "out.mp4"]);
    assert_eq!(progress_args(&Vec::new()), Err(MediaError::Parse("missing export output path".to_string())));
    assert_eq!(progress_micros("out_time_us=1500000"), Some(1_500_000));
    assert_eq!(progress_micros("out_time_us=N/A"), None);
    assert_eq!(progress_micros("frame=12"), None);
}

#[test]
fn hex_dump_decodes_four_digit_words_after_the_colon() {
    assert_eq!(decode_ffprobe_hex("00000000: 4445 5643 zz 12\n00000010: 0a0B"), vec![0x44, 0x45, 0x56, 0x43, 0x0a, 0x0b]);
    assert!(decode_ffprobe_hex("4445 5643").is_empty());
}

fn samples_from_hex(hex: &str) -> Option<Vec<[f32; 3]>> {
    let data = format!("\n00000000: {hex}");
    gyro_trace_from_packets(&vec![Some(data)]).map(|raw| {
        raw.iter()
            .map(|s: &GyroRaw| [s.x as f32 / s.scale as f32, s.y as f32 / s.scale as f32, s.z as f32 / s.scale as f32])
            .collect()
    })
}

#[test]
fn parses_nested_gpmf_gyro_samples_from_ffprobe_packets() {
    let hex = "4445 5643 0000 0020 5343 414c 6c04 0001 0000 0064 4759 524f 7306 0002 000a 0014 ffe2 001e ffd8 0028";
    let samples = samples_from_hex(hex).unwrap();
    assert_eq!(samples.len(), 2);
    assert_eq!(samples[0], [0.1, 0.2, -0.3]);
    assert_eq!(samples[1], [0.3, -0.4, 0.4]);
}

#[test]
fn gyro_packets_without_gyro_data_are_ignored() {
    assert!(gyro_trace_from_packets(&Vec::new()).is_none());
}

#[test]
fn a_packet_without_data_yields_no_trace() {
    let hex = "\n00000000: 4759 524f 7306 0001 000a 0014 ffe2 0000";
    assert!(gyro_trace_from_packets(&vec![Some(hex.to_string()), None]).is_none());
    assert_eq!(gyro_trace_from_packets(&vec![Some(hex.to_string())]).unwrap().len(), 1);
}

#[test]
fn downsampling_keeps_at_most_160_points() {
    let samples: Vec<GyroRaw> = (0..1000).map(|i| GyroRaw { x: i as i16, y: 0, z: 0, scale: 1 }).collect();
    let thinned = downsample(&samples);
    assert_eq!(thinned.len(), 143);
    assert_eq!(thinned[1].x, 7);
    let few: Vec<GyroRaw> = (0..5).map(|i| GyroRaw { x: i as i16, y: 0, z: 0, scale: 1 }).collect();
    assert_eq!(downsample(&few).len(), 5);
}

fn stream(kind: &str, rate: Option<Reading<u64>>) -> StreamInfo {
    StreamInfo {
        codec_type: kind.to_string(),
        codec_name: Some(if kind == "video" { "h264" } else { "aac" }.to_string()),
        width: if kind == "video" { Some(1920) } else { None },
        height: if kind == "video" { Some(1080) } else { None },
        r_frame_rate: rate,
    }
}

#[test]
fn media_summary_reads_the_first_video_stream() {
    let rate = Reading { raw: "60000/1001".to_string(), value: Some((60000.0f64 / 1001.0).to_bits()) };
    let streams = vec![stream("audio", None), stream("video", Some(rate))];
    let duration = Some(Reading { raw: "12.345000".to_string(), value: Some(12_345_000i64) });
    let info = media_info(&streams, &duration).unwrap();
    assert_eq!((info.width, info.height), (1920, 1080));
    assert!((f64::from_bits(info.fps_bits) - 59.94).abs() < 0.01);
    assert_eq!(info.video_codec, "h264");
    assert!(info.has_audio);
    assert_eq!(info.duration_us, 12_345_000);
}

#[test]
fn media_summary_errors() {
    let audio_only = vec![stream("audio", None)];
    assert_eq!(media_info(&audio_only, &None).unwrap_err(), MediaError::Parse("no video stream found".to_string()));
    let bad_rate = vec![stream("video", Some(Reading { raw: "0/0".to_string(), value: None }))];
    assert_eq!(
        media_info(&bad_rate, &None).unwrap_err(),
        MediaError::Parse("unparseable frame rate: \"0/0\"".to_string())
    );
    let ok_rate = vec![stream("video", None)];
    let bad_duration = Some(Reading { raw: "N/A".to_string(), value: None });
    assert_eq!(
        media_info(&ok_rate, &bad_duration).unwrap_err(),
        MediaError::Parse("unparseable duration: \"N/A\"".to_string())
    );
    let info = media_info(&ok_rate, &None).unwrap();
    assert!(!info.has_audio);
    assert_eq!((info.fps_bits, info.duration_us), (0, 0));
}

#[test]
fn container_and_codec_names() {
    assert_eq!(ExportContainer::Webm.extension(), "webm");
    assert_eq!(VideoCodec::Vp9.ffmpeg_name(), "libvpx-vp9");
    assert_eq!(AudioCodec::Opus.ffmpeg_name(), "libopus");
}

#[test]
fn media_error_messages() {
    assert_eq!(MediaError::Cancelled.message(), "export was cancelled");
    assert_eq!(
        MediaError::NonZeroExit { binary: "ffmpeg".to_string(), status: 1, stderr: "oops".to_string() }.message(),
        "`ffmpeg` exited with status 1: oops"
    );
    assert_eq!(MediaError::BinaryNotFound("ffprobe".to_string()).message(), "binary `ffprobe` not found on PATH");
}

fn video_stream(width: u32, height: u32, rate: &str, value: Option<f64>) -> StreamInfo {
    StreamInfo {
        codec_type: "video".to_string(),
        codec_name: Some("h264".to_string()),
        width: Some(width),
        height: Some(height),
        r_frame_rate: Some(Reading { raw: rate.to_string(), value: value.map(f64::to_bits) }),
    }
}

fn audio_stream() -> StreamInfo {
    StreamInfo {
        codec_type: "audio".to_string(),
        codec_name: Some("aac".to_string()),
        width: None,
        height: None,
        r_frame_rate: None,
    }
}

fn duration_reading(raw: &str, value: Option<i64>) -> Option<Reading<i64>> {
    Some(Reading { raw: raw.to_string(), value })
}

#[test]
fn parses_video_and_audio_stream_info() {
    let streams = vec![video_stream(1920, 1080, "60000/1001", Some(60000.0 / 1001.0)), audio_stream()];
    let info = media_info(&streams, &duration_reading("12.345000", Some(12_345_000))).unwrap();
    assert_eq!(info.width, 1920);
    assert_eq!(info.height, 1080);
    assert!((f64::from_bits(info.fps_bits) - 59.94).abs() < 0.01);
    assert_eq!(info.video_codec, "h264");
    assert!(info.has_audio);
    assert_eq!(info.duration_us, 12_345_000);
}

#[test]
fn video_only_file_reports_no_audio() {
    let streams = vec![video_stream(640, 480, "30/1", Some(30.0))];
    let info = media_info(&streams, &duration_reading("1.0", Some(1_000_000))).unwrap();
    assert!(!info.has_audio);
    assert_eq!(f64::from_bits(info.fps_bits), 30.0);
}

#[test]
fn missing_video_stream_is_an_error() {
    let streams = vec![audio_stream()];
    assert!(media_info(&streams, &duration_reading("1.0", Some(1_000_000))).is_err());
}

#[test]
fn non_numeric_duration_is_an_error_not_a_silent_zero() {
    let streams = vec![video_stream(640, 480, "30/1", Some(30.0))];
    assert!(media_info(&streams, &duration_reading("N/A", None)).is_err());
}

#[test]
fn non_numeric_frame_rate_is_an_error_not_a_silent_zero() {
    let streams = vec![video_stream(640, 480, "0/0", None)];
    assert!(media_info(&streams, &duration_reading("1.0", Some(1_000_000))).is_err());
}

#[test]
fn preview_plan_refuses_an_empty_window() {
    let bus = two_clip_bus();
    let clips = preview_plan(bus.project(), Timecode(500_000), Timecode(750_000)).unwrap();
    assert_eq!(clips.len(), 2);
    assert_eq!(
        preview_plan(bus.project(), Timecode(5_000_000), Timecode(0)).unwrap_err(),
        MediaError::Parse("timeline has no video clips".to_string())
    );
    let empty = Project::new("empty".to_string());
    assert!(preview_plan(&empty, Timecode(0), Timecode(1)).is_err());
}

#[test]
fn plain_output_is_decoded_as_written() {
    assert_eq!(version_line(b"\n  ffprobe version 6.0  \r\n"), Some("ffprobe version 6.0".to_string()));
    assert_eq!(
        exit_outcome("ffmpeg", false, Some(2), b"no such file"),
        Err(MediaError::NonZeroExit { binary: "ffmpeg".to_string(), status: 2, stderr: "no such file".to_string() })
    );
    assert_eq!(
        captured_output("ffmpeg", false, None, Vec::new(), b"bad"),
        Err(MediaError::NonZeroExit { binary: "ffmpeg".to_string(), status: -1, stderr: "bad".to_string() })
    );
}
