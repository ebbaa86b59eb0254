use fpv_editor::timeline::bus::CommandBus;
use fpv_editor::timeline::command::{Command, NewClip};
use fpv_editor::timeline::error::CoreError;
use fpv_editor::timeline::ids::{ClipId, TrackId};
use fpv_editor::timeline::model::{Project, Timecode, TrackKind, PROJECT_FORMAT_VERSION};
use fpv_editor::timeline::project_file::check_format_version;

fn seconds(s: i64) -> Timecode {
    Timecode(s * 1_000_000)
}

fn bus_with_video_track() -> (CommandBus, TrackId) {
    let mut bus = CommandBus::new(Project::new("test".to_string()));
    bus.execute(Command::AddTrack { kind: TrackKind::Video, name: "V1".to_string() }).unwrap();
    let track_id = bus.project().tracks[0].id;
    (bus, track_id)
}

fn new_clip(path: &str, out_point: Timecode, position: Timecode) -> NewClip {
    NewClip { source_path: path.to_string(), in_point: Timecode(0), out_point, position }
}

#[test]
fn execute_add_track_then_undo_restores_empty_project() {
    let mut bus = CommandBus::new(Project::new("test".to_string()));
    assert!(bus.project().tracks.is_empty());
    bus.execute(Command::AddTrack { kind: TrackKind::Video, name: "V1".to_string() }).unwrap();
    assert_eq!(bus.project().tracks.len(), 1);
    bus.undo().unwrap();
    assert!(bus.project().tracks.is_empty());
    assert!(!bus.can_undo());
}

#[test]
fn redo_replays_an_undone_command() {
    let (mut bus, track_id) = bus_with_video_track();
    bus.execute(Command::AddClip { track_id, clip: new_clip("a.mp4", seconds(2), Timecode(0)) }).unwrap();
    assert_eq!(bus.project().clips.len(), 1);
    bus.undo().unwrap();
    assert_eq!(bus.project().clips.len(), 0);
    bus.redo().unwrap();
    assert_eq!(bus.project().clips.len(), 1);
}

#[test]
fn a_new_command_clears_redo_history() {
    let (mut bus, track_id) = bus_with_video_track();
    bus.execute(Command::AddClip { track_id, clip: new_clip("a.mp4", seconds(2), Timecode(0)) }).unwrap();
    bus.undo().unwrap();
    assert!(bus.can_redo());
    bus.execute(Command::AddTrack { kind: TrackKind::Audio, name: "A1".to_string() }).unwrap();
    assert!(!bus.can_redo());
}

#[test]
fn failed_command_does_not_pollute_undo_stack_or_mutate_state() {
    let (mut bus, _track_id) = bus_with_video_track();
    let tracks_before: Vec<(TrackId, Vec<ClipId>)> =
        bus.project().tracks.iter().map(|t| (t.id, t.clip_order.clone())).collect();
    let clips_before = bus.project().clips.len();
    let history_len_before = bus.history().len();
    let bogus_track = TrackId::new();
    let err = bus
        .execute(Command::AddClip { track_id: bogus_track, clip: new_clip("a.mp4", seconds(2), Timecode(0)) })
        .unwrap_err();
    assert_eq!(err, CoreError::TrackNotFound(bogus_track));
    let tracks_after: Vec<(TrackId, Vec<ClipId>)> =
        bus.project().tracks.iter().map(|t| (t.id, t.clip_order.clone())).collect();
    assert_eq!(tracks_after, tracks_before);
    assert_eq!(bus.project().clips.len(), clips_before);
    assert_eq!(bus.history().len(), history_len_before);
}

#[test]
fn undo_on_empty_history_errors() {
    let mut bus = CommandBus::new(Project::new("test".to_string()));
    assert_eq!(bus.undo().unwrap_err(), CoreError::NothingToUndo);
}

#[test]
fn split_clip_then_undo_restores_original_single_clip() {
    let (mut bus, track_id) = bus_with_video_track();
    bus.execute(Command::AddClip { track_id, clip: new_clip("a.mp4", seconds(10), Timecode(0)) }).unwrap();
    let clip_id = bus.project().tracks[0].clip_order[0];
    bus.execute(Command::SplitClip { clip_id, at: seconds(4) }).unwrap();
    assert_eq!(bus.project().clips.len(), 2);
    assert_eq!(bus.project().tracks[0].clip_order.len(), 2);
    bus.undo().unwrap();
    assert_eq!(bus.project().clips.len(), 1);
    let clip = bus.project().clip(clip_id).unwrap();
    assert_eq!(clip.out_point, seconds(10));
}

#[test]
fn trim_clip_start_moves_its_timeline_edge_and_is_undoable() {
    let (mut bus, track_id) = bus_with_video_track();
    bus.execute(Command::AddClip { track_id, clip: new_clip("a.mp4", seconds(10), seconds(2)) }).unwrap();
    let clip_id = bus.project().tracks[0].clip_order[0];
    bus.execute(Command::TrimClipStart { clip_id, new_in: seconds(3), new_position: seconds(5) }).unwrap();
    let clip = bus.project().clip(clip_id).unwrap();
    assert_eq!(clip.in_point, seconds(3));
    assert_eq!(clip.position, seconds(5));
    bus.undo().unwrap();
    let clip = bus.project().clip(clip_id).unwrap();
    assert_eq!(clip.in_point, Timecode(0));
    assert_eq!(clip.position, seconds(2));
}

#[test]
fn history_reports_descriptions_in_order() {
    let (mut bus, _track_id) = bus_with_video_track();
    bus.execute(Command::AddTrack { kind: TrackKind::Audio, name: "A1".to_string() }).unwrap();
    assert_eq!(bus.history().len(), 2);
    assert!(bus.history()[0].contains("Video"));
    assert!(bus.history()[1].contains("Audio"));
}

#[test]
fn rejects_a_project_file_from_a_newer_format_version() {
    let mut project = Project::new("future".to_string());
    project.format_version = PROJECT_FORMAT_VERSION + 1;
    let err = check_format_version(project).unwrap_err();
    assert!(matches!(err, CoreError::Serde(_)));
}

#[test]
fn newer_version_message_names_both_versions() {
    let mut project = Project::new("future".to_string());
    project.format_version = 7;
    let err = check_format_version(project).unwrap_err();
    assert_eq!(err, CoreError::Serde("project format version 7 is newer than supported version 1".to_string()));
}

#[test]
fn current_format_version_is_accepted() {
    let project = Project::new("now".to_string());
    let accepted = check_format_version(project).unwrap();
    assert_eq!(accepted.name, "now");
}

#[test]
fn undo_then_redo_returns_to_the_executed_state() {
    let (mut bus, track_id) = bus_with_video_track();
    bus.execute(Command::AddClip { track_id, clip: new_clip("a.mp4", seconds(3), seconds(1)) }).unwrap();
    let clip_id = bus.project().tracks[0].clip_order[0];
    let undone = bus.undo().unwrap();
    assert!(matches!(undone, Command::AddClip { .. }));
    assert!(bus.project().clip(clip_id).is_none());
    let redone = bus.redo().unwrap();
    assert!(matches!(redone, Command::AddClip { .. }));
    assert_eq!(bus.project().clip(clip_id).unwrap().position, seconds(1));
    assert_eq!(bus.redo().unwrap_err(), CoreError::NothingToRedo);
}

#[test]
fn duration_is_the_latest_clip_end() {
    let (mut bus, track_id) = bus_with_video_track();
    assert_eq!(bus.project().duration(), Timecode(0));
    bus.execute(Command::AddClip { track_id, clip: new_clip("a.mp4", seconds(3), seconds(1)) }).unwrap();
    bus.execute(Command::AddClip { track_id, clip: new_clip("b.mp4", seconds(2), seconds(10)) }).unwrap();
    assert_eq!(bus.project().duration(), seconds(12));
}

#[test]
fn removing_a_track_removes_its_clips_and_undo_brings_them_back() {
    let (mut bus, track_id) = bus_with_video_track();
    bus.execute(Command::AddTrack { kind: TrackKind::Audio, name: "A1".to_string() }).unwrap();
    let audio = bus.project().tracks[1].id;
    bus.execute(Command::AddClip { track_id, clip: new_clip("a.mp4", seconds(3), Timecode(0)) }).unwrap();
    bus.execute(Command::AddClip { track_id: audio, clip: new_clip("b.wav", seconds(3), Timecode(0)) }).unwrap();
    let kept = bus.project().tracks[1].clip_order[0];
    bus.execute(Command::RemoveTrack { track_id }).unwrap();
    assert_eq!(bus.project().tracks.len(), 1);
    assert_eq!(bus.project().tracks[0].id, audio);
    assert_eq!(bus.project().clips.len(), 1);
    assert!(bus.project().clips.contains_key(&kept.0));
    bus.undo().unwrap();
    assert_eq!(bus.project().tracks.len(), 2);
    assert_eq!(bus.project().clips.len(), 2);
    assert_eq!(
        bus.execute(Command::RemoveTrack { track_id: TrackId(0) }).unwrap_err(),
        CoreError::TrackNotFound(TrackId(0))
    );
}

#[test]
fn added_clips_are_kept_in_timeline_order() {
    let (mut bus, track_id) = bus_with_video_track();
    bus.execute(Command::AddClip { track_id, clip: new_clip("late.mp4", seconds(2), seconds(10)) }).unwrap();
    bus.execute(Command::AddClip { track_id, clip: new_clip("early.mp4", seconds(2), seconds(0)) }).unwrap();
    bus.execute(Command::AddClip { track_id, clip: new_clip("middle.mp4", seconds(2), seconds(5)) }).unwrap();
    bus.execute(Command::AddClip { track_id, clip: new_clip("also_middle.mp4", seconds(2), seconds(5)) }).unwrap();
    let project = bus.project();
    let names: Vec<&str> =
        project.tracks[0].clip_order.iter().map(|id| project.clip(*id).unwrap().source_path.as_str()).collect();
    assert_eq!(names, vec!["early.mp4", "middle.mp4", "also_middle.mp4", "late.mp4"]);
}

#[test]
fn checked_sub_reports_overflow() {
    assert_eq!(Timecode(5).checked_sub(Timecode(3)), Some(Timecode(2)));
    assert_eq!(Timecode(i64::MIN).checked_sub(Timecode(1)), None);
}

#[test]
fn command_descriptions_name_the_edit() {
    assert_eq!(Command::AddTrack { kind: TrackKind::Audio, name: "A1".to_string() }.describe(), "Add Audio track 'A1'");
    let id = ClipId(0);
    assert_eq!(
        Command::RemoveClip { clip_id: id }.describe(),
        "Remove clip 00000000-0000-0000-0000-000000000000"
    );
}

#[test]
fn error_messages_spell_out_the_problem() {
    assert_eq!(CoreError::NothingToUndo.message(), "nothing to undo");
    assert_eq!(
        CoreError::InvalidSplit { clip: ClipId(0), at: -5, start: 0, end: 10 }.message(),
        "invalid split point -5 for clip 00000000-0000-0000-0000-000000000000 (bounds [0, 10])"
    );
    assert_eq!(CoreError::Serde("bad".to_string()).message(), "serialization error: bad");
}

#[test]
fn track_mut_changes_the_track_in_place() {
    let (bus, track_id) = bus_with_video_track();
    let mut project = bus.project().clone();
    project.track_mut(track_id).expect("track exists").name = "Renamed".to_string();
    assert_eq!(project.track(track_id).unwrap().name, "Renamed");
    assert_eq!(project.tracks.len(), 1);
    assert!(project.track_mut(TrackId(0)).is_none());
}

#[test]
fn clip_mut_changes_the_clip_in_place() {
    let (mut bus, track_id) = bus_with_video_track();
    bus.execute(Command::AddClip { track_id, clip: new_clip("a.mp4", seconds(2), seconds(0)) }).unwrap();
    let mut project = bus.project().clone();
    let id = project.tracks[0].clip_order[0];
    project.clip_mut(id).expect("clip exists").position = seconds(5);
    assert_eq!(project.clip(id).unwrap().position, seconds(5));
    assert_eq!(project.clips.len(), 1);
    assert!(project.clip_mut(ClipId(0)).is_none());
}

#[test]
fn ids_print_as_hyphenated_uuids() {
    let id = ClipId(0x0123_4567_89ab_cdef_0123_4567_89ab_cdef);
    assert_eq!(id.to_text(), "01234567-89ab-cdef-0123-456789abcdef");
    assert_ne!(ClipId::new(), ClipId::new());
}

#[test]
fn track_of_clip_names_the_owning_track() {
    let (mut bus, track_id) = bus_with_video_track();
    bus.execute(Command::AddClip { track_id, clip: new_clip("a.mp4", seconds(2), seconds(0)) }).unwrap();
    let id = bus.project().tracks[0].clip_order[0];
    assert_eq!(bus.project().track_of_clip(id), Some(track_id));
    assert_eq!(bus.project().track_of_clip(ClipId(0)), None);
}
