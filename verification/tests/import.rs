use fpv_editor::import::{import_media, import_stays_in_range, is_supported_video, Candidate, ImportError};
use fpv_editor::media::preview::{preview_cache_key, preview_job, PreviewJob};
use fpv_editor::timeline::bus::CommandBus;
use fpv_editor::timeline::command::{Command, NewClip};
use fpv_editor::timeline::ids::ClipId;
use fpv_editor::timeline::model::{Project, Timecode, TrackKind};

fn candidate(path: &str, probe: Result<i64, &str>) -> Candidate {
    Candidate { path: path.to_string(), probe: probe.map_err(|m| m.to_string()) }
}

#[test]
fn import_adds_readable_new_files_end_to_end_on_a_new_video_track() {
    let mut bus = CommandBus::new(Project::new("import".to_string()));
    let candidates = vec![
        candidate("/shares/a.mp4", Ok(2_000_000)),
        candidate("/shares/broken.mp4", Err("/shares/broken.mp4: ffprobe failed")),
        candidate("/shares/b.mov", Ok(3_000_000)),
        candidate("/shares/empty.mp4", Ok(0)),
    ];
    assert!(import_stays_in_range(bus.project(), &candidates));
    let outcome = import_media(&mut bus, &candidates).unwrap();
    assert_eq!(outcome.imported_paths, vec!["/shares/a.mp4", "/shares/b.mov"]);
    assert_eq!(outcome.skipped_paths, vec!["/shares/broken.mp4", "/shares/empty.mp4"]);
    let project = bus.project();
    assert_eq!(project.tracks.len(), 1);
    assert_eq!(project.tracks[0].kind, TrackKind::Video);
    assert_eq!(project.tracks[0].name, "V1");
    let order = &project.tracks[0].clip_order;
    assert_eq!(order.len(), 2);
    let first = project.clip(order[0]).unwrap();
    let second = project.clip(order[1]).unwrap();
    assert_eq!((first.source_path.as_str(), first.position, first.out_point), ("/shares/a.mp4", Timecode(0), Timecode(2_000_000)));
    assert_eq!((second.source_path.as_str(), second.position), ("/shares/b.mov", Timecode(2_000_000)));
    assert_eq!(bus.history().len(), 3);
}

#[test]
fn import_skips_files_the_project_already_uses() {
    let mut bus = CommandBus::new(Project::new("import".to_string()));
    bus.execute(Command::AddTrack { kind: TrackKind::Audio, name: "A1".to_string() }).unwrap();
    bus.execute(Command::AddTrack { kind: TrackKind::Video, name: "Main".to_string() }).unwrap();
    let video = bus.project().tracks[1].id;
    bus.execute(Command::AddClip {
        track_id: video,
        clip: NewClip {
            source_path: "/a.mp4".to_string(),
            in_point: Timecode(0),
            out_point: Timecode(1_000_000),
            position: Timecode(500_000),
        },
    })
    .unwrap();
    let candidates = vec![candidate("/a.mp4", Ok(1_000_000)), candidate("/c.mp4", Ok(4_000_000))];
    let outcome = import_media(&mut bus, &candidates).unwrap();
    assert_eq!(outcome.imported_paths, vec!["/c.mp4"]);
    assert_eq!(outcome.skipped_paths, vec!["/a.mp4"]);
    assert_eq!(bus.project().tracks.len(), 2);
    let added = bus.project().tracks[1].clip_order[1];
    assert_eq!(bus.project().clip(added).unwrap().position, Timecode(1_500_000));
}

#[test]
fn import_failures_leave_the_project_alone() {
    let mut bus = CommandBus::new(Project::new("import".to_string()));
    assert_eq!(import_media(&mut bus, &Vec::new()).unwrap_err(), ImportError::NoCandidates);
    let err = import_media(&mut bus, &vec![candidate("/x.mp4", Err("/x.mp4: no such file"))]).unwrap_err();
    assert_eq!(err, ImportError::NothingReadable("/x.mp4: no such file".to_string()));
    assert_eq!(err.message(), "no readable video files could be imported (/x.mp4: no such file)");
    let err = import_media(&mut bus, &vec![candidate("/y.mp4", Ok(0))]).unwrap_err();
    assert_eq!(err.message(), "no readable video files could be imported (no usable video stream found)");
    assert!(bus.project().tracks.is_empty());
    assert!(!bus.can_undo());
}

#[test]
fn overflowing_imports_are_detected() {
    let bus = CommandBus::new(Project::new("import".to_string()));
    let candidates = vec![candidate("/a.mp4", Ok(i64::MAX)), candidate("/b.mp4", Ok(1))];
    assert!(!import_stays_in_range(bus.project(), &candidates));
}

#[test]
fn supported_video_extensions_ignore_case() {
    assert!(is_supported_video(Some("MP4")));
    assert!(is_supported_video(Some("m2ts")));
    assert!(!is_supported_video(Some("txt")));
    assert!(!is_supported_video(None));
}

#[test]
fn preview_jobs_follow_the_selection() {
    let mut bus = CommandBus::new(Project::new("p".to_string()));
    bus.execute(Command::AddTrack { kind: TrackKind::Video, name: "V1".to_string() }).unwrap();
    let track_id = bus.project().tracks[0].id;
    bus.execute(Command::AddClip {
        track_id,
        clip: NewClip { source_path: "a.mp4".to_string(), in_point: Timecode(0), out_point: Timecode(10), position: Timecode(0) },
    })
    .unwrap();
    let clip_id = bus.project().tracks[0].clip_order[0];
    match preview_job(bus.project(), Some(clip_id), None, "out.mp4".to_string()).unwrap() {
        PreviewJob::Clip { clip, settings } => {
            assert_eq!(clip.id, clip_id);
            assert_eq!((settings.width, settings.height, settings.crf), (960, 540, Some(28)));
        }
        other => panic!("unexpected job {other:?}"),
    }
    assert_eq!(
        preview_job(bus.project(), Some(ClipId(7)), None, "out.mp4".to_string()).unwrap_err(),
        "selected clip no longer exists"
    );
    match preview_job(bus.project(), None, Some(Timecode(5)), "out.mp4".to_string()).unwrap() {
        PreviewJob::Window { start, duration } => assert_eq!((start, duration), (Timecode(5), Timecode(12_000_000))),
        other => panic!("unexpected job {other:?}"),
    }
    assert_eq!(preview_cache_key(None, None), (None, 0));
    assert_eq!(preview_cache_key(Some(ClipId(0)), Some(Timecode(3))).0.as_deref(), Some("00000000-0000-0000-0000-000000000000"));
}
