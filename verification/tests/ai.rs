use fpv_editor::ai::agent::{on_reply, AgentError, AgentStep, AgentTurn, AiError, ModelReply, MAX_TOOL_ITERATIONS};
use fpv_editor::ai::config::{Preset, ProviderConfig};
use fpv_editor::ai::tools::{call_tool, catalog, execute_tool_command, tool_route, ToolError, ToolRoute};
use fpv_editor::timeline::bus::CommandBus;
use fpv_editor::timeline::command::{Command, NewClip};
use fpv_editor::timeline::error::CoreError;
use fpv_editor::timeline::ids::{ClipId, TrackId};
use fpv_editor::timeline::model::{Project, StabilizationProfile, Timecode, TrackKind};

fn bus_with_track() -> (CommandBus, TrackId) {
    let mut bus = CommandBus::new(Project::new("test".to_string()));
    bus.execute(Command::AddTrack { kind: TrackKind::Video, name: "V1".to_string() }).unwrap();
    let track_id = bus.project().tracks[0].id;
    (bus, track_id)
}

fn add_clip(track_id: TrackId, path: &str, out_point: i64) -> Command {
    Command::AddClip {
        track_id,
        clip: NewClip {
            source_path: path.to_string(),
            in_point: Timecode(0),
            out_point: Timecode(out_point),
            position: Timecode(0),
        },
    }
}

#[test]
fn ollama_preset_points_at_the_local_openai_compatible_port() {
    let cfg = Preset::Ollama.config_with_model("llama3");
    assert_eq!(cfg.base_url, "http://localhost:11434/v1");
    assert_eq!(cfg.model, "llama3");
    assert!(cfg.api_key.is_none());
}

#[test]
fn with_api_key_sets_the_key() {
    let cfg = ProviderConfig::new("http://localhost:1234/v1", "local-model").with_api_key("sk-test");
    assert_eq!(cfg.api_key.as_deref(), Some("sk-test"));
}

#[test]
fn presets_have_their_documented_base_urls() {
    assert_eq!(Preset::OpenAi.default_base_url(), "https://api.openai.com/v1");
    assert_eq!(Preset::LmStudio.default_base_url(), "http://localhost:1234/v1");
    assert_eq!(Preset::Custom.default_base_url(), "");
    assert!(Preset::Custom.config_with_model("m").extra_headers.is_empty());
}

#[test]
fn catalog_has_no_duplicate_tool_names() {
    let names: Vec<String> = catalog().into_iter().map(|t| t.name).collect();
    let mut sorted = names.clone();
    sorted.sort();
    sorted.dedup();
    assert_eq!(names.len(), sorted.len());
}

#[test]
fn catalog_covers_every_command_variant() {
    let names: Vec<String> = catalog().into_iter().map(|t| t.name).collect();
    for expected in [
        "add_track",
        "remove_track",
        "add_clip",
        "remove_clip",
        "trim_clip",
        "split_clip",
        "reorder_clip",
        "move_clip",
        "apply_stabilization",
        "apply_lut",
        "set_speed_ramp",
        "add_text_overlay",
        "add_osd_overlay",
    ] {
        assert!(names.contains(&expected.to_string()), "catalog is missing tool {expected}");
    }
}

#[test]
fn catalog_schemas_are_json_objects() {
    for spec in catalog() {
        let value: serde_json::Value = serde_json::from_str(&spec.parameters).unwrap();
        assert_eq!(value["type"], "object");
        assert!(!spec.description.is_empty());
    }
}

#[test]
fn unknown_tool_name_is_rejected() {
    let err = tool_route("delete_universe").unwrap_err();
    assert!(matches!(err, ToolError::UnknownTool(_)));
}

#[test]
fn list_clips_is_read_only_and_does_not_touch_undo_history() {
    let (bus, _track_id) = bus_with_track();
    let before_history = bus.history().len();
    assert_eq!(tool_route("list_clips").unwrap(), ToolRoute::ListClips);
    assert_eq!(tool_route("get_timeline_state").unwrap(), ToolRoute::TimelineState);
    assert_eq!(bus.history().len(), before_history);
}

#[test]
fn dispatching_add_clip_mutates_the_project_via_the_command_bus() {
    let (mut bus, track_id) = bus_with_track();
    assert_eq!(tool_route("add_clip").unwrap(), ToolRoute::Edit);
    execute_tool_command(&mut bus, "add_clip", Ok(add_clip(track_id, "run.mp4", 3_000_000))).unwrap();
    assert_eq!(bus.project().clips.len(), 1);
}

#[test]
fn dispatching_apply_stabilization_sets_the_clips_profile() {
    let (mut bus, track_id) = bus_with_track();
    execute_tool_command(&mut bus, "add_clip", Ok(add_clip(track_id, "a.mp4", 1_000_000))).unwrap();
    let clip_id = bus.project().tracks[0].clip_order[0];
    let profile = StabilizationProfile {
        smoothness_bits: 0.6f32.to_bits(),
        strength_bits: 0.9f32.to_bits(),
        horizon_lock: true,
        dynamic_fov_bits: 0.15f32.to_bits(),
    };
    execute_tool_command(&mut bus, "apply_stabilization", Ok(Command::ApplyStabilization { clip_id, profile }))
        .unwrap();
    let stored = bus.project().clip(clip_id).unwrap().stabilization.unwrap();
    assert!((f32::from_bits(stored.smoothness_bits) - 0.6).abs() < 1e-6);
    assert!(stored.horizon_lock);
}

#[test]
fn dispatching_move_clip_relocates_a_clip_to_another_track() {
    let (mut bus, track_id) = bus_with_track();
    execute_tool_command(&mut bus, "add_track", Ok(Command::AddTrack { kind: TrackKind::Video, name: "V2".to_string() }))
        .unwrap();
    let track2_id = bus.project().tracks[1].id;
    execute_tool_command(&mut bus, "add_clip", Ok(add_clip(track_id, "a.mp4", 1_000_000))).unwrap();
    let clip_id = bus.project().tracks[0].clip_order[0];
    execute_tool_command(
        &mut bus,
        "move_clip",
        Ok(Command::MoveClip { clip_id, new_track_id: track2_id, new_position: Timecode(5_000_000) }),
    )
    .unwrap();
    assert!(bus.project().tracks[0].clip_order.is_empty());
    assert_eq!(bus.project().tracks[1].clip_order, vec![clip_id]);
}

#[test]
fn malformed_arguments_produce_an_invalid_arguments_error_not_a_panic() {
    let (mut bus, _track_id) = bus_with_track();
    let err = execute_tool_command(&mut bus, "trim_clip", Err("missing field `new_in`".to_string())).unwrap_err();
    assert!(matches!(err, ToolError::InvalidArguments { .. }));
    assert_eq!(bus.history().len(), 1);
}

#[test]
fn a_command_referencing_a_missing_clip_surfaces_as_a_core_error() {
    let (mut bus, _track_id) = bus_with_track();
    let bogus_clip = ClipId::new();
    let err = execute_tool_command(
        &mut bus,
        "trim_clip",
        Ok(Command::TrimClip { clip_id: bogus_clip, new_in: Timecode(0), new_out: Timecode(1000) }),
    )
    .unwrap_err();
    assert!(matches!(err, ToolError::Core(CoreError::ClipNotFound(_))));
}

#[test]
fn agent_turn_allows_at_most_eight_requests() {
    let mut turn = AgentTurn::new();
    for _ in 0..MAX_TOOL_ITERATIONS {
        turn.begin_request().unwrap();
    }
    assert_eq!(turn.begin_request(), Err(AgentError::TooManyIterations(8)));
}

#[test]
fn agent_steps_follow_the_reply() {
    assert!(matches!(on_reply(ModelReply::NoChoices), AgentStep::Fail(AgentError::Ai(AiError::NoChoices))));
    assert!(matches!(
        on_reply(ModelReply::Choice { content: None, tool_calls: Some(2) }),
        AgentStep::CallTools
    ));
    match on_reply(ModelReply::Choice { content: Some("Done.".to_string()), tool_calls: Some(0) }) {
        AgentStep::Finish(text) => assert_eq!(text, "Done."),
        other => panic!("unexpected step {other:?}"),
    }
    match on_reply(ModelReply::Choice { content: None, tool_calls: None }) {
        AgentStep::Finish(text) => assert_eq!(text, ""),
        other => panic!("unexpected step {other:?}"),
    }
}

#[test]
fn dispatching_add_track_creates_a_track_from_a_fresh_project() {
    let mut bus = CommandBus::new(Project::new("test".to_string()));
    assert_eq!(tool_route("add_track").unwrap(), ToolRoute::Edit);
    execute_tool_command(&mut bus, "add_track", Ok(Command::AddTrack { kind: TrackKind::Video, name: "V1".to_string() }))
        .unwrap();
    assert_eq!(bus.project().tracks.len(), 1);
    assert_eq!(bus.project().tracks[0].name, "V1");
}

#[test]
fn tool_calls_change_history_only_when_an_edit_succeeds() {
    let (mut bus, track_id) = bus_with_track();
    let history = bus.history();
    assert_eq!(
        call_tool(&mut bus, "delete_universe", Err("ignored".to_string())),
        Err(ToolError::UnknownTool("delete_universe".to_string()))
    );
    assert_eq!(call_tool(&mut bus, "list_clips", Err("no command".to_string())), Ok(ToolRoute::ListClips));
    assert_eq!(
        call_tool(&mut bus, "add_clip", Err("missing field".to_string())),
        Err(ToolError::InvalidArguments { tool: "add_clip".to_string(), message: "missing field".to_string() })
    );
    assert_eq!(
        call_tool(&mut bus, "remove_clip", Ok(Command::RemoveClip { clip_id: ClipId(0) })),
        Err(ToolError::Core(CoreError::ClipNotFound(ClipId(0))))
    );
    assert_eq!(bus.history(), history);
    assert_eq!(call_tool(&mut bus, "add_clip", Ok(add_clip(track_id, "a.mp4", 1_000_000))), Ok(ToolRoute::Edit));
    assert_eq!(bus.history().len(), history.len() + 1);
    assert!(!bus.can_redo());
}
