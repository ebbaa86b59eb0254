//! The catalog of AI tools shared by the chat agent and the MCP server:
//! each tool's name, description and the JSON Schema of its arguments, and
//! how a tool call is routed and applied to the command bus.

use vstd::prelude::*;
use vstd::string::StringExecFns;

use crate::timeline::bus::{execute_spec, CommandBus};
use crate::timeline::command::{Command, CommandView};
use crate::timeline::error::CoreError;

verus! {

/// A tool of the catalog.
#[derive(Debug, Clone, Copy, PartialEq, Eq, Structural)]
pub enum ToolName {
    ListClips,
    GetTimelineState,
    AddTrack,
    RemoveTrack,
    AddClip,
    RemoveClip,
    TrimClip,
    SplitClip,
    ReorderClip,
    MoveClip,
    ApplyStabilization,
    ApplyLut,
    SetSpeedRamp,
    AddTextOverlay,
    AddOsdOverlay,
}

/// The tools of the catalog, in catalog order.
pub open spec fn catalog_order() -> Seq<ToolName> {
    seq![
        ToolName::ListClips,
        ToolName::GetTimelineState,
        ToolName::AddTrack,
        ToolName::RemoveTrack,
        ToolName::AddClip,
        ToolName::RemoveClip,
        ToolName::TrimClip,
        ToolName::SplitClip,
        ToolName::ReorderClip,
        ToolName::MoveClip,
        ToolName::ApplyStabilization,
        ToolName::ApplyLut,
        ToolName::SetSpeedRamp,
        ToolName::AddTextOverlay,
        ToolName::AddOsdOverlay,
    ]
}

impl ToolName {
    /// The name under which the tool is called.
    pub open spec fn name_text(self) -> Seq<char> {
        match self {
            ToolName::ListClips => "list_clips"@,
            ToolName::GetTimelineState => "get_timeline_state"@,
            ToolName::AddTrack => "add_track"@,
            ToolName::RemoveTrack => "remove_track"@,
            ToolName::AddClip => "add_clip"@,
            ToolName::RemoveClip => "remove_clip"@,
            ToolName::TrimClip => "trim_clip"@,
            ToolName::SplitClip => "split_clip"@,
            ToolName::ReorderClip => "reorder_clip"@,
            ToolName::MoveClip => "move_clip"@,
            ToolName::ApplyStabilization => "apply_stabilization"@,
            ToolName::ApplyLut => "apply_lut"@,
            ToolName::SetSpeedRamp => "set_speed_ramp"@,
            ToolName::AddTextOverlay => "add_text_overlay"@,
            ToolName::AddOsdOverlay => "add_osd_overlay"@,
        }
    }

    /// What the tool does, for the model.
    pub open spec fn description_text(self) -> Seq<char> {
        match self {
            ToolName::ListClips => "List all clips in the current project, with their ids, tracks, and timing."@,
            ToolName::GetTimelineState => "Get the full current project/timeline state as JSON."@,
            ToolName::AddTrack => "Add a new track (video or audio) to the project."@,
            ToolName::RemoveTrack => "Remove a track and all of its clips from the project."@,
            ToolName::AddClip => "Add a new clip to a track."@,
            ToolName::RemoveClip => "Remove a clip from the project entirely."@,
            ToolName::TrimClip => "Change a clip's in/out points within its source media."@,
            ToolName::SplitClip => "Split a clip into two at an absolute timeline position."@,
            ToolName::ReorderClip => "Move a clip to a new index within its track's playback order."@,
            ToolName::MoveClip => "Move a clip to a different track and/or timeline position."@,
            ToolName::ApplyStabilization => "Apply gyro-based stabilization to a clip."@,
            ToolName::ApplyLut => "Apply a 3D LUT color grade to a clip."@,
            ToolName::SetSpeedRamp => "Set speed-ramp keyframes on a clip."@,
            ToolName::AddTextOverlay => "Add a text overlay to a clip, positioned in normalized 0..1 coordinates."@,
            ToolName::AddOsdOverlay => "Overlay the clip's flight-controller OSD telemetry, decoded from the given source format."@,
        }
    }

    /// The JSON Schema of the tool's arguments object.
    pub open spec fn schema_text(self) -> Seq<char> {
        match self {
            ToolName::ListClips => "{\"type\":\"object\",\"properties\":{},\"additionalProperties\":false}"@,
            ToolName::GetTimelineState => "{\"type\":\"object\",\"properties\":{},\"additionalProperties\":false}"@,
            ToolName::AddTrack => "{\"type\":\"object\",\"properties\":{\"kind\":{\"type\":\"string\",\"enum\":[\"Video\",\"Audio\"]},\"name\":{\"type\":\"string\"}},\"required\":[\"kind\",\"name\"]}"@,
            ToolName::RemoveTrack => "{\"type\":\"object\",\"properties\":{\"track_id\":{\"type\":\"string\"}},\"required\":[\"track_id\"]}"@,
            ToolName::AddClip => "{\"type\":\"object\",\"properties\":{\"track_id\":{\"type\":\"string\"},\"clip\":{\"type\":\"object\",\"properties\":{\"source_path\":{\"type\":\"string\"},\"in_point\":{\"type\":\"integer\",\"description\":\"microseconds\"},\"out_point\":{\"type\":\"integer\",\"description\":\"microseconds\"},\"position\":{\"type\":\"integer\",\"description\":\"microseconds\"}},\"required\":[\"source_path\",\"in_point\",\"out_point\",\"position\"]}},\"required\":[\"track_id\",\"clip\"]}"@,
            ToolName::RemoveClip => "{\"type\":\"object\",\"properties\":{\"clip_id\":{\"type\":\"string\"}},\"required\":[\"clip_id\"]}"@,
            ToolName::TrimClip => "{\"type\":\"object\",\"properties\":{\"clip_id\":{\"type\":\"string\"},\"new_in\":{\"type\":\"integer\",\"description\":\"microseconds\"},\"new_out\":{\"type\":\"integer\",\"description\":\"microseconds\"}},\"required\":[\"clip_id\",\"new_in\",\"new_out\"]}"@,
            ToolName::SplitClip => "{\"type\":\"object\",\"properties\":{\"clip_id\":{\"type\":\"string\"},\"at\":{\"type\":\"integer\",\"description\":\"microseconds\"}},\"required\":[\"clip_id\",\"at\"]}"@,
            ToolName::ReorderClip => "{\"type\":\"object\",\"properties\":{\"track_id\":{\"type\":\"string\"},\"clip_id\":{\"type\":\"string\"},\"new_index\":{\"type\":\"integer\"}},\"required\":[\"track_id\",\"clip_id\",\"new_index\"]}"@,
            ToolName::MoveClip => "{\"type\":\"object\",\"properties\":{\"clip_id\":{\"type\":\"string\"},\"new_track_id\":{\"type\":\"string\"},\"new_position\":{\"type\":\"integer\",\"description\":\"microseconds\"}},\"required\":[\"clip_id\",\"new_track_id\",\"new_position\"]}"@,
            ToolName::ApplyStabilization => "{\"type\":\"object\",\"properties\":{\"clip_id\":{\"type\":\"string\"},\"profile\":{\"type\":\"object\",\"properties\":{\"smoothness\":{\"type\":\"number\",\"minimum\":0,\"maximum\":1},\"strength\":{\"type\":\"number\",\"minimum\":0,\"maximum\":1},\"horizon_lock\":{\"type\":\"boolean\"},\"dynamic_fov\":{\"type\":\"number\",\"minimum\":0,\"maximum\":1}},\"required\":[\"smoothness\",\"strength\",\"horizon_lock\",\"dynamic_fov\"]}},\"required\":[\"clip_id\",\"profile\"]}"@,
            ToolName::ApplyLut => "{\"type\":\"object\",\"properties\":{\"clip_id\":{\"type\":\"string\"},\"lut_path\":{\"type\":\"string\"}},\"required\":[\"clip_id\",\"lut_path\"]}"@,
            ToolName::SetSpeedRamp => "{\"type\":\"object\",\"properties\":{\"clip_id\":{\"type\":\"string\"},\"keyframes\":{\"type\":\"array\",\"items\":{\"type\":\"object\",\"properties\":{\"at\":{\"type\":\"integer\"},\"rate\":{\"type\":\"number\"}},\"required\":[\"at\",\"rate\"]}}},\"required\":[\"clip_id\",\"keyframes\"]}"@,
            ToolName::AddTextOverlay => "{\"type\":\"object\",\"properties\":{\"clip_id\":{\"type\":\"string\"},\"overlay\":{\"type\":\"object\",\"properties\":{\"text\":{\"type\":\"string\"},\"start\":{\"type\":\"integer\",\"description\":\"microseconds\"},\"end\":{\"type\":\"integer\",\"description\":\"microseconds\"},\"x\":{\"type\":\"number\"},\"y\":{\"type\":\"number\"}},\"required\":[\"text\",\"start\",\"end\",\"x\",\"y\"]}},\"required\":[\"clip_id\",\"overlay\"]}"@,
            ToolName::AddOsdOverlay => "{\"type\":\"object\",\"properties\":{\"clip_id\":{\"type\":\"string\"},\"source\":{\"type\":\"string\",\"enum\":[\"Betaflight\",\"Inav\",\"WalkSnail\",\"Hdzero\"]}},\"required\":[\"clip_id\",\"source\"]}"@,
        }
    }

    /// The name under which the tool is called.
    pub fn name(self) -> (s: &'static str)
        ensures
            s@ == self.name_text(),
    {
        match self {
            ToolName::ListClips => "list_clips",
            ToolName::GetTimelineState => "get_timeline_state",
            ToolName::AddTrack => "add_track",
            ToolName::RemoveTrack => "remove_track",
            ToolName::AddClip => "add_clip",
            ToolName::RemoveClip => "remove_clip",
            ToolName::TrimClip => "trim_clip",
            ToolName::SplitClip => "split_clip",
            ToolName::ReorderClip => "reorder_clip",
            ToolName::MoveClip => "move_clip",
            ToolName::ApplyStabilization => "apply_stabilization",
            ToolName::ApplyLut => "apply_lut",
            ToolName::SetSpeedRamp => "set_speed_ramp",
            ToolName::AddTextOverlay => "add_text_overlay",
            ToolName::AddOsdOverlay => "add_osd_overlay",
        }
    }

    /// What the tool does, for the model.
    pub fn description(self) -> (s: &'static str)
        ensures
            s@ == self.description_text(),
    {
        match self {
            ToolName::ListClips => "List all clips in the current project, with their ids, tracks, and timing.",
            ToolName::GetTimelineState => "Get the full current project/timeline state as JSON.",
            ToolName::AddTrack => "Add a new track (video or audio) to the project.",
            ToolName::RemoveTrack => "Remove a track and all of its clips from the project.",
            ToolName::AddClip => "Add a new clip to a track.",
            ToolName::RemoveClip => "Remove a clip from the project entirely.",
            ToolName::TrimClip => "Change a clip's in/out points within its source media.",
            ToolName::SplitClip => "Split a clip into two at an absolute timeline position.",
            ToolName::ReorderClip => "Move a clip to a new index within its track's playback order.",
            ToolName::MoveClip => "Move a clip to a different track and/or timeline position.",
            ToolName::ApplyStabilization => "Apply gyro-based stabilization to a clip.",
            ToolName::ApplyLut => "Apply a 3D LUT color grade to a clip.",
            ToolName::SetSpeedRamp => "Set speed-ramp keyframes on a clip.",
            ToolName::AddTextOverlay => "Add a text overlay to a clip, positioned in normalized 0..1 coordinates.",
            ToolName::AddOsdOverlay => "Overlay the clip's flight-controller OSD telemetry, decoded from the given source format.",
        }
    }

    /// The JSON Schema of the tool's arguments object.
    pub fn schema(self) -> (s: &'static str)
        ensures
            s@ == self.schema_text(),
    {
        match self {
            ToolName::ListClips => "{\"type\":\"object\",\"properties\":{},\"additionalProperties\":false}",
            ToolName::GetTimelineState => "{\"type\":\"object\",\"properties\":{},\"additionalProperties\":false}",
            ToolName::AddTrack => "{\"type\":\"object\",\"properties\":{\"kind\":{\"type\":\"string\",\"enum\":[\"Video\",\"Audio\"]},\"name\":{\"type\":\"string\"}},\"required\":[\"kind\",\"name\"]}",
            ToolName::RemoveTrack => "{\"type\":\"object\",\"properties\":{\"track_id\":{\"type\":\"string\"}},\"required\":[\"track_id\"]}",
            ToolName::AddClip => "{\"type\":\"object\",\"properties\":{\"track_id\":{\"type\":\"string\"},\"clip\":{\"type\":\"object\",\"properties\":{\"source_path\":{\"type\":\"string\"},\"in_point\":{\"type\":\"integer\",\"description\":\"microseconds\"},\"out_point\":{\"type\":\"integer\",\"description\":\"microseconds\"},\"position\":{\"type\":\"integer\",\"description\":\"microseconds\"}},\"required\":[\"source_path\",\"in_point\",\"out_point\",\"position\"]}},\"required\":[\"track_id\",\"clip\"]}",
            ToolName::RemoveClip => "{\"type\":\"object\",\"properties\":{\"clip_id\":{\"type\":\"string\"}},\"required\":[\"clip_id\"]}",
            ToolName::TrimClip => "{\"type\":\"object\",\"properties\":{\"clip_id\":{\"type\":\"string\"},\"new_in\":{\"type\":\"integer\",\"description\":\"microseconds\"},\"new_out\":{\"type\":\"integer\",\"description\":\"microseconds\"}},\"required\":[\"clip_id\",\"new_in\",\"new_out\"]}",
            ToolName::SplitClip => "{\"type\":\"object\",\"properties\":{\"clip_id\":{\"type\":\"string\"},\"at\":{\"type\":\"integer\",\"description\":\"microseconds\"}},\"required\":[\"clip_id\",\"at\"]}",
            ToolName::ReorderClip => "{\"type\":\"object\",\"properties\":{\"track_id\":{\"type\":\"string\"},\"clip_id\":{\"type\":\"string\"},\"new_index\":{\"type\":\"integer\"}},\"required\":[\"track_id\",\"clip_id\",\"new_index\"]}",
            ToolName::MoveClip => "{\"type\":\"object\",\"properties\":{\"clip_id\":{\"type\":\"string\"},\"new_track_id\":{\"type\":\"string\"},\"new_position\":{\"type\":\"integer\",\"description\":\"microseconds\"}},\"required\":[\"clip_id\",\"new_track_id\",\"new_position\"]}",
            ToolName::ApplyStabilization => "{\"type\":\"object\",\"properties\":{\"clip_id\":{\"type\":\"string\"},\"profile\":{\"type\":\"object\",\"properties\":{\"smoothness\":{\"type\":\"number\",\"minimum\":0,\"maximum\":1},\"strength\":{\"type\":\"number\",\"minimum\":0,\"maximum\":1},\"horizon_lock\":{\"type\":\"boolean\"},\"dynamic_fov\":{\"type\":\"number\",\"minimum\":0,\"maximum\":1}},\"required\":[\"smoothness\",\"strength\",\"horizon_lock\",\"dynamic_fov\"]}},\"required\":[\"clip_id\",\"profile\"]}",
            ToolName::ApplyLut => "{\"type\":\"object\",\"properties\":{\"clip_id\":{\"type\":\"string\"},\"lut_path\":{\"type\":\"string\"}},\"required\":[\"clip_id\",\"lut_path\"]}",
            ToolName::SetSpeedRamp => "{\"type\":\"object\",\"properties\":{\"clip_id\":{\"type\":\"string\"},\"keyframes\":{\"type\":\"array\",\"items\":{\"type\":\"object\",\"properties\":{\"at\":{\"type\":\"integer\"},\"rate\":{\"type\":\"number\"}},\"required\":[\"at\",\"rate\"]}}},\"required\":[\"clip_id\",\"keyframes\"]}",
            ToolName::AddTextOverlay => "{\"type\":\"object\",\"properties\":{\"clip_id\":{\"type\":\"string\"},\"overlay\":{\"type\":\"object\",\"properties\":{\"text\":{\"type\":\"string\"},\"start\":{\"type\":\"integer\",\"description\":\"microseconds\"},\"end\":{\"type\":\"integer\",\"description\":\"microseconds\"},\"x\":{\"type\":\"number\"},\"y\":{\"type\":\"number\"}},\"required\":[\"text\",\"start\",\"end\",\"x\",\"y\"]}},\"required\":[\"clip_id\",\"overlay\"]}",
            ToolName::AddOsdOverlay => "{\"type\":\"object\",\"properties\":{\"clip_id\":{\"type\":\"string\"},\"source\":{\"type\":\"string\",\"enum\":[\"Betaflight\",\"Inav\",\"WalkSnail\",\"Hdzero\"]}},\"required\":[\"clip_id\",\"source\"]}",
        }
    }
}

/// A tool as the chat agent and the MCP server offer it.
#[derive(Debug)]
pub struct ToolSpec {
    pub name: String,
    pub description: String,
    /// JSON Schema of the tool's arguments object, as JSON text.
    pub parameters: String,
}

/// Whether `spec` describes `tool`.
pub open spec fn describes(spec: ToolSpec, tool: ToolName) -> bool {
    &&& spec.name@ == tool.name_text()
    &&& spec.description@ == tool.description_text()
    &&& spec.parameters@ == tool.schema_text()
}

/// The tools of the catalog, in catalog order.
pub fn catalog_tools() -> (v: Vec<ToolName>)
    ensures
        v@ == catalog_order(),
{
    let v = vec![
        ToolName::ListClips,
        ToolName::GetTimelineState,
        ToolName::AddTrack,
        ToolName::RemoveTrack,
        ToolName::AddClip,
        ToolName::RemoveClip,
        ToolName::TrimClip,
        ToolName::SplitClip,
        ToolName::ReorderClip,
        ToolName::MoveClip,
        ToolName::ApplyStabilization,
        ToolName::ApplyLut,
        ToolName::SetSpeedRamp,
        ToolName::AddTextOverlay,
        ToolName::AddOsdOverlay,
    ];
    assert(v@ =~= catalog_order());
    v
}

/// The full tool catalog: for each tool in catalog order, its name,
/// description and argument schema. The two read-only tools come first.
pub fn catalog() -> (c: Vec<ToolSpec>)
    ensures
        c.len() == catalog_order().len(),
        forall|i: int| 0 <= i < c.len() ==> describes(#[trigger] c@[i], catalog_order()[i]),
{
    let tools = catalog_tools();
    let mut c: Vec<ToolSpec> = Vec::new();
    let mut i: usize = 0;
    while i < tools.len()
        invariant
            i <= tools.len(),
            tools@ == catalog_order(),
            c.len() == i,
            forall|k: int| 0 <= k < i ==> describes(#[trigger] c@[k], catalog_order()[k]),
        decreases tools.len() - i,
    {
        let t = tools[i];
        c.push(
            ToolSpec {
                name: String::from_str(t.name()),
                description: String::from_str(t.description()),
                parameters: String::from_str(t.schema()),
            },
        );
        i = i + 1;
    }
    c
}

/// Different tools have different names.
pub proof fn lemma_tool_names_distinct(a: ToolName, b: ToolName)
    requires
        a != b,
    ensures
        a.name_text() != b.name_text(),
{
    reveal_strlit("list_clips");
    reveal_strlit("get_timeline_state");
    reveal_strlit("add_track");
    reveal_strlit("remove_track");
    reveal_strlit("add_clip");
    reveal_strlit("remove_clip");
    reveal_strlit("trim_clip");
    reveal_strlit("split_clip");
    reveal_strlit("reorder_clip");
    reveal_strlit("move_clip");
    reveal_strlit("apply_stabilization");
    reveal_strlit("apply_lut");
    reveal_strlit("set_speed_ramp");
    reveal_strlit("add_text_overlay");
    reveal_strlit("add_osd_overlay");
    if a.name_text().len() == b.name_text().len() {
        assert(a.name_text()[0] != b.name_text()[0] || a.name_text()[1] != b.name_text()[1]
            || a.name_text()[2] != b.name_text()[2]);
    }
}

/// No two entries of the catalog share a name.
pub proof fn lemma_catalog_names_unique(i: int, j: int)
    requires
        0 <= i < catalog_order().len(),
        0 <= j < catalog_order().len(),
        i != j,
    ensures
        catalog_order()[i].name_text() != catalog_order()[j].name_text(),
{
    lemma_tool_names_distinct(catalog_order()[i], catalog_order()[j]);
}

/// The tag that names a command in its serialized form: the variant's
/// name in snake case.
pub open spec fn command_tag(cmd: CommandView) -> Seq<char> {
    match cmd {
        CommandView::AddTrack { .. } => "add_track"@,
        CommandView::RemoveTrack { .. } => "remove_track"@,
        CommandView::AddClip { .. } => "add_clip"@,
        CommandView::RemoveClip { .. } => "remove_clip"@,
        CommandView::TrimClip { .. } => "trim_clip"@,
        CommandView::TrimClipStart { .. } => "trim_clip_start"@,
        CommandView::SplitClip { .. } => "split_clip"@,
        CommandView::ReorderClip { .. } => "reorder_clip"@,
        CommandView::MoveClip { .. } => "move_clip"@,
        CommandView::ApplyStabilization { .. } => "apply_stabilization"@,
        CommandView::ApplyLut { .. } => "apply_lut"@,
        CommandView::SetSpeedRamp { .. } => "set_speed_ramp"@,
        CommandView::AddTextOverlay { .. } => "add_text_overlay"@,
        CommandView::AddOsdOverlay { .. } => "add_osd_overlay"@,
    }
}

/// Every command except the start trim is reachable through the catalog:
/// some tool is named by the command's tag.
pub proof fn lemma_catalog_covers_commands(cmd: CommandView)
    requires
        !(cmd is TrimClipStart),
    ensures
        exists|i: int| 0 <= i < catalog_order().len() && (#[trigger] catalog_order()[i]).name_text() == command_tag(cmd),
{
    let i: int = match cmd {
        CommandView::AddTrack { .. } => 2,
        CommandView::RemoveTrack { .. } => 3,
        CommandView::AddClip { .. } => 4,
        CommandView::RemoveClip { .. } => 5,
        CommandView::TrimClip { .. } => 6,
        CommandView::SplitClip { .. } => 7,
        CommandView::ReorderClip { .. } => 8,
        CommandView::MoveClip { .. } => 9,
        CommandView::ApplyStabilization { .. } => 10,
        CommandView::ApplyLut { .. } => 11,
        CommandView::SetSpeedRamp { .. } => 12,
        CommandView::AddTextOverlay { .. } => 13,
        _ => 14,
    };
    assert(catalog_order()[i].name_text() == command_tag(cmd));
}

/// Every editing tool is named by the tag of a command, so that its
/// arguments can describe that command.
pub proof fn lemma_edit_tools_name_commands(t: ToolName)
    requires
        route_of(t.name_text()) == Some(ToolRoute::Edit),
    ensures
        exists|cmd: CommandView| #[trigger] command_tag(cmd) == t.name_text(),
{
    let cmd: CommandView = match t {
        ToolName::AddTrack => CommandView::AddTrack { kind: arbitrary(), name: arbitrary() },
        ToolName::RemoveTrack => CommandView::RemoveTrack { track_id: arbitrary() },
        ToolName::AddClip => CommandView::AddClip { track_id: arbitrary(), clip: arbitrary() },
        ToolName::RemoveClip => CommandView::RemoveClip { clip_id: arbitrary() },
        ToolName::TrimClip => CommandView::TrimClip { clip_id: arbitrary(), new_in: arbitrary(), new_out: arbitrary() },
        ToolName::SplitClip => CommandView::SplitClip { clip_id: arbitrary(), at: arbitrary() },
        ToolName::ReorderClip => CommandView::ReorderClip {
            track_id: arbitrary(),
            clip_id: arbitrary(),
            new_index: arbitrary(),
        },
        ToolName::MoveClip => CommandView::MoveClip {
            clip_id: arbitrary(),
            new_track_id: arbitrary(),
            new_position: arbitrary(),
        },
        ToolName::ApplyStabilization => CommandView::ApplyStabilization { clip_id: arbitrary(), profile: arbitrary() },
        ToolName::ApplyLut => CommandView::ApplyLut { clip_id: arbitrary(), lut_path: arbitrary() },
        ToolName::SetSpeedRamp => CommandView::SetSpeedRamp { clip_id: arbitrary(), keyframes: arbitrary() },
        ToolName::AddTextOverlay => CommandView::AddTextOverlay { clip_id: arbitrary(), overlay: arbitrary() },
        _ => CommandView::AddOsdOverlay { clip_id: arbitrary(), source: arbitrary() },
    };
    if t == ToolName::ListClips || t == ToolName::GetTimelineState {
        assert(route_of(t.name_text()) != Some(ToolRoute::Edit));
    }
    assert(command_tag(cmd) == t.name_text());
}

/// Why a tool call failed.
#[derive(Debug, PartialEq, Eq)]
pub enum ToolError {
    /// No tool has this name.
    UnknownTool(String),
    /// The arguments do not describe the tool's command; `message` says
    /// why.
    InvalidArguments { tool: String, message: String },
    /// The command bus refused the command.
    Core(CoreError),
}

/// How a tool call is answered.
#[derive(Debug, Clone, Copy, PartialEq, Eq, Structural)]
pub enum ToolRoute {
    /// Read-only: the project's clips.
    ListClips,
    /// Read-only: the whole project.
    TimelineState,
    /// The arguments become a command executed on the bus.
    Edit,
}

/// How a call of the tool named `name` is answered, or `None` when no tool
/// has that name.
pub open spec fn route_of(name: Seq<char>) -> Option<ToolRoute> {
    if name == ToolName::ListClips.name_text() {
        Some(ToolRoute::ListClips)
    } else if name == ToolName::GetTimelineState.name_text() {
        Some(ToolRoute::TimelineState)
    } else if exists|t: ToolName| t.name_text() == name {
        Some(ToolRoute::Edit)
    } else {
        None
    }
}

/// Every tool is in the catalog.
proof fn lemma_catalog_complete(t: ToolName)
    ensures
        exists|i: int| 0 <= i < catalog_order().len() && #[trigger] catalog_order()[i] == t,
{
    let i: int = match t {
        ToolName::ListClips => 0,
        ToolName::GetTimelineState => 1,
        ToolName::AddTrack => 2,
        ToolName::RemoveTrack => 3,
        ToolName::AddClip => 4,
        ToolName::RemoveClip => 5,
        ToolName::TrimClip => 6,
        ToolName::SplitClip => 7,
        ToolName::ReorderClip => 8,
        ToolName::MoveClip => 9,
        ToolName::ApplyStabilization => 10,
        ToolName::ApplyLut => 11,
        ToolName::SetSpeedRamp => 12,
        ToolName::AddTextOverlay => 13,
        ToolName::AddOsdOverlay => 14,
    };
    assert(catalog_order()[i] == t);
}

/// Routes a call of the tool named `name`: the two read-only tools are
/// answered from the project, every other catalog tool edits it, and an
/// unknown name is refused.
pub fn tool_route(name: &str) -> (r: Result<ToolRoute, ToolError>)
    ensures
        match route_of(name@) {
            Some(route) => r == Ok::<ToolRoute, ToolError>(route),
            None => r matches Err(ToolError::UnknownTool(n)) && n@ == name@,
        },
{
    let tools = catalog_tools();
    let wanted = String::from_str(name);
    let mut i: usize = 0;
    while i < tools.len()
        invariant
            i <= tools.len(),
            tools@ == catalog_order(),
            wanted@ == name@,
            forall|k: int| 0 <= k < i ==> (#[trigger] catalog_order()[k]).name_text() != name@,
        decreases tools.len() - i,
    {
        let t = tools[i];
        let candidate = String::from_str(t.name());
        if candidate == wanted {
            proof {
                if t != ToolName::ListClips {
                    lemma_tool_names_distinct(t, ToolName::ListClips);
                }
                if t != ToolName::GetTimelineState {
                    lemma_tool_names_distinct(t, ToolName::GetTimelineState);
                }
            }
            return match t {
                ToolName::ListClips => Ok(ToolRoute::ListClips),
                ToolName::GetTimelineState => Ok(ToolRoute::TimelineState),
                _ => Ok(ToolRoute::Edit),
            };
        }
        i = i + 1;
    }
    proof {
        assert forall|t: ToolName| t.name_text() != name@ by {
            lemma_catalog_complete(t);
        }
        assert(ToolName::ListClips.name_text() != name@);
        assert(ToolName::GetTimelineState.name_text() != name@);
    }
    Err(ToolError::UnknownTool(wanted))
}

/// Executes the command that a tool call's arguments were read into, or
/// reports why they could not be: `parsed` is the command, or the reason
/// the arguments did not describe one. A refusal of the bus is reported as
/// [`ToolError::Core`]; on any failure the bus is unchanged.
pub fn execute_tool_command(bus: &mut CommandBus, tool_name: &str, parsed: Result<Command, String>) -> (r: Result<
    (),
    ToolError,
>)
    requires
        parsed matches Ok(c) ==> crate::timeline::command::executable_on(c@, old(bus)@.project),
    ensures
        match parsed {
            Err(m) => r matches Err(ToolError::InvalidArguments { tool, message }) && tool@ == tool_name@
                && message@ == m@ && final(bus)@ == old(bus)@,
            Ok(c) => exists|fresh: u128|
                match #[trigger] execute_spec(old(bus)@, c@, fresh) {
                    Ok(nb) => r is Ok && final(bus)@ == nb,
                    Err(e) => r == Err::<(), ToolError>(ToolError::Core(e)) && final(bus)@ == old(bus)@,
                },
        },
{
    match parsed {
        Err(message) => Err(ToolError::InvalidArguments { tool: String::from_str(tool_name), message }),
        Ok(command) => match bus.execute(command) {
            Ok(()) => Ok(()),
            Err(e) => Err(ToolError::Core(e)),
        },
    }
}

/// Answers a call of the tool named `name` whose arguments were read into
/// `parsed` (the command they describe, or why they describe none): an
/// unknown tool is refused; a read-only tool is routed to its answer
/// without touching the bus; an editing tool executes its command. Every
/// refused call leaves the bus, and so the project and the history, as it
/// was; an executed edit is the bus's own execute, which adds exactly one
/// history entry (see `lemma_execute_outcomes`).
pub fn call_tool(bus: &mut CommandBus, name: &str, parsed: Result<Command, String>) -> (r: Result<
    ToolRoute,
    ToolError,
>)
    requires
        route_of(name@) == Some(ToolRoute::Edit) ==> (parsed matches Ok(c) ==> crate::timeline::command::executable_on(
            c@,
            old(bus)@.project,
        )),
    ensures
        match route_of(name@) {
            None => r matches Err(ToolError::UnknownTool(n)) && n@ == name@ && final(bus)@ == old(bus)@,
            Some(ToolRoute::Edit) => match parsed {
                Err(m) => r matches Err(ToolError::InvalidArguments { tool, message }) && tool@ == name@
                    && message@ == m@ && final(bus)@ == old(bus)@,
                Ok(c) => exists|fresh: u128|
                    match #[trigger] execute_spec(old(bus)@, c@, fresh) {
                        Ok(nb) => r == Ok::<ToolRoute, ToolError>(ToolRoute::Edit) && final(bus)@ == nb,
                        Err(e) => r == Err::<ToolRoute, ToolError>(ToolError::Core(e)) && final(bus)@ == old(bus)@,
                    },
            },
            Some(route) => r == Ok::<ToolRoute, ToolError>(route) && final(bus)@ == old(bus)@,
        },
{
    match tool_route(name) {
        Err(e) => Err(e),
        Ok(ToolRoute::Edit) => match execute_tool_command(bus, name, parsed) {
            Ok(()) => Ok(ToolRoute::Edit),
            Err(e) => Err(e),
        },
        Ok(route) => Ok(route),
    }
}

impl ToolError {
    /// What the error says.
    pub open spec fn message_text(&self) -> Seq<char> {
        match self {
            ToolError::UnknownTool(name) => "unknown tool: "@ + name@,
            ToolError::InvalidArguments { tool, message } => "invalid arguments for tool "@ + tool@ + ": "@
                + message@,
            ToolError::Core(e) => e.message_text(),
        }
    }

    /// What the error says.
    pub fn message(&self) -> (s: String)
        ensures
            s@ == self.message_text(),
    {
        match self {
            ToolError::UnknownTool(name) => {
                let mut s = String::from_str("unknown tool: ");
                s.append(name.as_str());
                s
            },
            ToolError::InvalidArguments { tool, message } => {
                let mut s = String::from_str("invalid arguments for tool ");
                s.append(tool.as_str());
                s.append(": ");
                s.append(message.as_str());
                s
            },
            ToolError::Core(e) => e.message(),
        }
    }
}

} // verus!
