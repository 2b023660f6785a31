//! Verified interaction logic of the editor's side panels: the pipeline graph, the media
//! library, media details, project options and the render caches they feed.
use vstd::prelude::*;

pub mod details;
pub mod graph;
pub mod graph_state;
pub mod graph_wires;
pub mod input;
pub mod inspector;
pub mod media;
pub mod media_panel;
pub mod menu;
pub mod node_names;
pub mod order;
pub mod project;
pub mod project_options;
pub mod render_cache;
pub mod text;

verus! {

/// The kind of a pipeline: image effects or audio effects.
#[derive(Clone, Copy, Debug, PartialEq, Eq, Structural)]
pub enum PipelineKind {
    Video,
    Audio,
}

} // verus!
