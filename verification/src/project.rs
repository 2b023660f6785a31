//! What the panels read of the edited project, as plain values.
use vstd::prelude::*;

use crate::PipelineKind;

verus! {

/// A shared effect pipeline of the project.
#[derive(Clone, Debug)]
pub struct PipelineInfo {
    pub id: u64,
    pub kind: PipelineKind,
    pub name: String,
}

/// The first pipeline of `pipelines` with the given id.
pub open spec fn first_pipeline(pipelines: Seq<PipelineInfo>, id: u64) -> Option<PipelineInfo>
    decreases pipelines.len(),
{
    if pipelines.len() == 0 {
        None
    } else if pipelines[0].id == id {
        Some(pipelines[0])
    } else {
        first_pipeline(pipelines.drop_first(), id)
    }
}

/// The position of the first pipeline with the given id.
pub open spec fn pipeline_position(pipelines: Seq<PipelineInfo>, id: u64) -> Option<nat>
    decreases pipelines.len(),
{
    if pipelines.len() == 0 {
        None
    } else if pipelines[0].id == id {
        Some(0)
    } else {
        match pipeline_position(pipelines.drop_first(), id) {
            Some(p) => Some(p + 1),
            None => None,
        }
    }
}

/// The kind of the first pipeline with the given id, if there is one.
pub fn pipeline_kind(pipelines: &[PipelineInfo], id: u64) -> (kind: Option<PipelineKind>)
    ensures
        kind == match first_pipeline(pipelines@, id) {
            Some(p) => Some(p.kind),
            None => None,
        },
{
    let mut i: usize = 0;
    assert(pipelines@.skip(0) =~= pipelines@);
    while i < pipelines.len()
        invariant
            i <= pipelines.len(),
            first_pipeline(pipelines@, id) == first_pipeline(pipelines@.skip(i as int), id),
        decreases pipelines.len() - i,
    {
        if pipelines[i].id == id {
            return Some(pipelines[i].kind);
        }
        assert(pipelines@.skip(i as int).drop_first() =~= pipelines@.skip(i + 1));
        i = i + 1;
    }
    None
}

/// The position of the first pipeline with the given id.
pub fn find_pipeline_position(pipelines: &[PipelineInfo], id: u64) -> (position: Option<usize>)
    ensures
        match position {
            Some(p) => pipeline_position(pipelines@, id) == Some(p as nat) && p < pipelines.len(),
            None => pipeline_position(pipelines@, id) is None,
        },
{
    let mut i: usize = 0;
    assert(pipelines@.skip(0) =~= pipelines@);
    while i < pipelines.len()
        invariant
            i <= pipelines.len(),
            pipeline_position(pipelines@, id) == match pipeline_position(pipelines@.skip(i as int), id) {
                Some(p) => Some((p + i) as nat),
                None => None,
            },
        decreases pipelines.len() - i,
    {
        if pipelines[i].id == id {
            return Some(i);
        }
        assert(pipelines@.skip(i as int).drop_first() =~= pipelines@.skip(i + 1));
        i = i + 1;
    }
    None
}

/// What a media file holds.
#[derive(Clone, Copy, Debug, PartialEq, Eq, Structural)]
pub enum MediaKind {
    Image { width: u32, height: u32 },
    Video,
    Audio,
    Model3d,
    WasmPlugin,
    Unknown,
}

/// Whether a track of a media file carries pictures or sound.
#[derive(Clone, Copy, Debug, PartialEq, Eq, Structural)]
pub enum MediaTrackKind {
    Video,
    Audio,
}

/// A track of a media file.
#[derive(Clone, Debug)]
pub struct MediaTrack {
    pub kind: MediaTrackKind,
    pub codec: String,
}

/// A media file of the project's library.
#[derive(Clone, Debug)]
pub struct MediaAsset {
    pub id: u64,
    pub name: String,
    /// The file's path, as the user sees it.
    pub path: String,
    pub kind: MediaKind,
    /// A video file without track list that has sound.
    pub has_audio: bool,
    /// The duration, in whole milliseconds.
    pub duration_millis: Option<u64>,
    pub tracks: Vec<MediaTrack>,
}

/// A clip of a composition's timeline.
#[derive(Clone, Copy, Debug, PartialEq, Eq, Structural)]
pub struct Clip {
    pub id: u32,
    /// The composition the clip shows, when it shows one.
    pub composition: Option<u64>,
}

/// A composition of the project.
#[derive(Clone, Debug)]
pub struct Composition {
    pub id: u64,
    pub canvas_size: [u32; 2],
    pub clips: Vec<Clip>,
}

/// What the panels read of a project.
#[derive(Clone, Debug)]
pub struct Project {
    pub compositions: Vec<Composition>,
    pub media: Vec<MediaAsset>,
    pub pipelines: Vec<PipelineInfo>,
    pub active_composition: u64,
}

} // verus!
