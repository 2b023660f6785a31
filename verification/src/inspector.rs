//! The inspector panel's selection tracking, editor focus and effect sections.
use vstd::prelude::*;

use crate::input::ControlDrag;
use crate::graph_state::EditResponse;

verus! {

/// A text editor of the inspector.
#[derive(Clone, Copy, Debug, PartialEq, Eq, Structural)]
pub enum InspectorEditor {
    /// The text of a text clip.
    Text,
    ClipStart,
    ClipEnd,
    PipelineName,
    /// A number field of the property controls.
    Controls,
}

/// Which of the inspector's editors must take new text because what they show changed.
#[derive(Clone, Copy, Debug, PartialEq, Eq, Structural)]
pub struct SelectionChanges {
    pub text: bool,
    pub summary: bool,
    pub pipeline: bool,
}

/// The open state of each effect section, by effect node id.
pub open spec fn sections_map(sections: Seq<(u64, bool)>) -> Map<u64, bool>
    decreases sections.len(),
{
    if sections.len() == 0 {
        Map::empty()
    } else {
        sections_map(sections.drop_last()).insert(sections.last().0, sections.last().1)
    }
}

/// The ids that `sections` lists.
pub open spec fn section_ids(sections: Seq<(u64, bool)>) -> Seq<u64> {
    sections.map_values(|s: (u64, bool)| s.0)
}

/// The sections after a sync with the live nodes: a section for each live node, which keeps
/// its open state where it had one and starts open where it is new.
pub open spec fn synced_sections(old: Map<u64, bool>, live: Set<u64>) -> Map<u64, bool> {
    Map::new(|id: u64| live.contains(id), |id: u64| if old.contains_key(id) { old[id] } else { true })
}

/// Which editors a sync with the given selection tells to take new text.
pub open spec fn selection_changes(
    text_clip: Option<u32>,
    summary_clip: Option<u32>,
    pipeline_id: Option<u64>,
    new_text_clip: Option<u32>,
    new_selected_clip: Option<u32>,
    new_pipeline: Option<u64>,
) -> SelectionChanges {
    SelectionChanges {
        text: text_clip != new_text_clip,
        summary: summary_clip != new_selected_clip,
        pipeline: pipeline_id != new_pipeline,
    }
}

/// A second sync with an unchanged selection tells no editor to take new text.
pub proof fn lemma_sync_selection_settles(text_clip: Option<u32>, selected_clip: Option<u32>, pipeline: Option<u64>)
    ensures
        selection_changes(text_clip, selected_clip, pipeline, text_clip, selected_clip, pipeline)
            == (SelectionChanges { text: false, summary: false, pipeline: false }),
{
}

/// Syncing the effect sections a second time with the same live nodes changes nothing, and
/// each section that stays keeps its open state.
pub proof fn lemma_sync_sections_settles(sections: Map<u64, bool>, live: Set<u64>)
    ensures
        synced_sections(synced_sections(sections, live), live) == synced_sections(sections, live),
        forall|id: u64| live.contains(id) && sections.contains_key(id) ==> #[trigger] synced_sections(sections, live)[id] == sections[id],
{
    assert(synced_sections(synced_sections(sections, live), live) =~= synced_sections(sections, live));
}

/// A section of the inspector that folds open and shut.
#[derive(Clone, Copy, Debug, PartialEq, Eq, Hash, Structural)]
pub enum InspectorSection {
    MediaGeneral,
    MediaVideo,
    MediaAudio,
    MediaModel,
    Source,
    Pipeline,
    Effects,
    Model3d,
    Transform,
    Compositing,
}

/// A vector property whose components can be linked.
#[derive(Clone, Debug, PartialEq, Eq, Hash)]
pub enum VectorLink {
    Transform(String),
    Model3dClip(String),
    Pipeline { node: u64, input: String },
    Generator(String),
}

/// What tells two vector links apart: their kind, node and input name.
pub open spec fn link_key(link: VectorLink) -> (int, u64, Seq<char>) {
    match link {
        VectorLink::Transform(name) => (0, 0, name@),
        VectorLink::Model3dClip(name) => (1, 0, name@),
        VectorLink::Pipeline { node, input } => (2, node, input@),
        VectorLink::Generator(name) => (3, 0, name@),
    }
}

/// The keys of `links`, in order.
pub open spec fn link_keys(links: Seq<VectorLink>) -> Seq<(int, u64, Seq<char>)> {
    links.map_values(|l: VectorLink| link_key(l))
}

/// `set` with `x` taken out where it was there and put in where it was not.
pub open spec fn flipped<A>(set: Set<A>, x: A) -> Set<A> {
    if set.contains(x) { set.remove(x) } else { set.insert(x) }
}

/// What an enumerated option edits.
#[derive(Clone, Copy, Debug, PartialEq, Eq, Structural)]
pub enum EnumTarget {
    /// A plugin input; `boolean` where it is an on/off switch.
    Plugin { boolean: bool },
    Model3dShading,
    BlendMode,
    AlphaBlendMode,
}

/// The value a chosen option sets.
#[derive(Clone, Copy, Debug, PartialEq, Eq, Structural)]
pub enum EnumValue {
    Bool(bool),
    Enum(u32),
    Index(usize),
}

/// The value option `index` sets on `target`: a switch is on for any option but the first, a
/// plugin choice takes the index as its value, and the clip's own choices take the index.
pub open spec fn enum_value_of(target: EnumTarget, index: usize) -> EnumValue {
    match target {
        EnumTarget::Plugin { boolean } => if boolean {
            EnumValue::Bool(index != 0)
        } else {
            EnumValue::Enum(index as u32)
        },
        _ => EnumValue::Index(index),
    }
}

/// What the inspector asks the application to do next.
#[derive(Clone, Copy, Debug, PartialEq, Eq, Structural)]
pub enum InspectorRequest {
    ChoosePipeline,
    ChooseFont,
    CreatePipeline,
    AddEffect,
    MoveEffect(u64, i32),
    RemoveEffect(u64),
    MakeIndependent,
    OpenGraph,
}

/// An edit that a press asks the application to make to the project now.
#[derive(Clone, Copy, Debug, PartialEq, Eq, Structural)]
pub enum InspectorCommand {
    Nothing,
    /// Copy the value the context menu was opened on.
    CopyValue,
    /// Paste the copied value onto what the context menu was opened on.
    PasteValue,
    SetEnum(EnumTarget, EnumValue),
    ToggleEffectEnabled(u64),
    ToggleEffectKeyframe(u64),
    /// Toggle the keyframe of the row that was pressed.
    ToggleKeyframe,
}

/// What lies under a press on the inspector, as the drawing layer found it, topmost first.
#[derive(Clone, Debug)]
pub enum InspectorHit {
    /// Entry `index` of the open context menu.
    MenuEntry(usize),
    /// The open context menu, off its entries.
    MenuArea,
    /// The colour picker took the press.
    ColorPicker,
    /// The colour swatch of a property, which opens its picker.
    ColorSwatch,
    /// Outside the panel and its pop-ups, or nothing to inspect.
    Outside,
    /// The header of a section.
    SectionHeader(InspectorSection),
    /// Field `index` of the selected clip's start (0) and end (1).
    SummaryField(usize),
    VectorLink(VectorLink),
    /// Option `index` of an open option list.
    EnumOption { target: EnumTarget, index: usize },
    /// The button that opens an option list.
    EnumToggle,
    /// A number or angle control, and the drag the press began in it.
    ValueControl(ControlDrag),
    TextField,
    FontField,
    PipelineName,
    CreatePipeline,
    ChoosePipeline,
    /// The pipeline row while the clip's pipeline cannot be changed.
    PipelineLocked,
    /// Button `index` under the pipeline row: add effect, make independent, open graph.
    PipelineButton(usize),
    /// Button `index` of an effect's header: up, down, on/off, keyframe, remove.
    EffectAction { node: u64, index: usize },
    /// The header of an effect's section.
    EffectSection(u64),
    /// The keyframe button of a row.
    Keyframe,
    /// A row that takes the press without a decision here (a slider, a property row).
    Consumed,
    /// Nothing of the inspector.
    Nothing,
}

/// Whether the colour picker and an option list are open after a press on `hit` that the
/// context menu did not take. In the media view the picker is left alone; a press on an
/// option list's button opens or closes it, one outside the panel keeps it, any other press
/// closes it. Otherwise a press on a colour swatch opens its picker, any other press the picker
/// did not take closes it, and every press but one outside the panel or on a link button
/// closes the option lists.
pub open spec fn popups_after_press(s: InspectorState, hit: InspectorHit, media_mode: bool) -> (bool, bool) {
    if media_mode {
        (s.color_picker_open, match hit {
            InspectorHit::Outside | InspectorHit::Nothing => s.choice_list_open,
            InspectorHit::EnumToggle => !s.choice_list_open,
            _ => false,
        })
    } else {
        match hit {
            InspectorHit::ColorPicker => (s.color_picker_open, s.choice_list_open),
            InspectorHit::ColorSwatch => (true, false),
            InspectorHit::Outside | InspectorHit::VectorLink(_) => (false, s.choice_list_open),
            _ => (false, false),
        }
    }
}

/// The pending request after a press on pipeline button `index`.
pub open spec fn pipeline_button_request(index: usize) -> InspectorRequest {
    if index == 0 {
        InspectorRequest::AddEffect
    } else if index == 1 {
        InspectorRequest::MakeIndependent
    } else {
        InspectorRequest::OpenGraph
    }
}

/// The command of context menu entry `index`: copy, or paste where pasting is possible.
pub open spec fn menu_command(index: usize, paste_enabled: bool) -> InspectorCommand {
    if index == 0 {
        InspectorCommand::CopyValue
    } else if index == 1 && paste_enabled {
        InspectorCommand::PasteValue
    } else {
        InspectorCommand::Nothing
    }
}

/// The decisions of the inspector panel. Its widgets' drawing, scrolling and animation stay
/// with the drawing layer.
pub struct InspectorState {
    /// The media file shown.
    pub media_asset: Option<u64>,
    /// The text clip whose text the text editor holds.
    pub text_clip: Option<u32>,
    /// The clip whose start and end the summary editors hold.
    pub summary_clip: Option<u32>,
    /// The pipeline whose name the name editor holds.
    pub pipeline_id: Option<u64>,
    /// The editor that has the keyboard.
    pub focused_editor: Option<InspectorEditor>,
    pub context_menu_open: bool,
    /// The effect sections, each node id once, with whether it is open.
    pub effect_sections: Vec<(u64, bool)>,
    /// The fixed sections that are folded shut, each once; all start open.
    pub collapsed: Vec<InspectorSection>,
    /// The vector properties whose components move together, each once.
    pub vector_links: Vec<VectorLink>,
    /// What a press asked the application to do next.
    pub pending_action: Option<InspectorRequest>,
    /// A colour control's picker is open.
    pub color_picker_open: bool,
    /// A property's option list is open.
    pub choice_list_open: bool,
    /// The drag under way in the property controls.
    pub controls_drag: ControlDrag,
}

impl InspectorState {
    /// The state's own invariant: each effect section is listed once.
    pub open spec fn wf(&self) -> bool {
        &&& section_ids(self.effect_sections@).no_duplicates()
        &&& self.collapsed@.no_duplicates()
        &&& link_keys(self.vector_links@).no_duplicates()
    }

    /// The open state of each effect section, by node id.
    pub open spec fn sections(&self) -> Map<u64, bool> {
        sections_map(self.effect_sections@)
    }

    /// An inspector that shows nothing.
    pub fn new() -> (state: Self)
        ensures
            state.wf(),
            state.media_asset is None,
            state.text_clip is None,
            state.summary_clip is None,
            state.pipeline_id is None,
            state.focused_editor is None,
            !state.context_menu_open,
            state.effect_sections@ == Seq::<(u64, bool)>::empty(),
            state.collapsed@ == Seq::<InspectorSection>::empty(),
            link_keys(state.vector_links@) == seq![(0int, 0u64, "scale"@), (1int, 0u64, "scale"@)],
            state.pending_action is None,
            !state.color_picker_open,
            !state.choice_list_open,
            state.controls_drag == ControlDrag::Idle,
    {
        let state = InspectorState {
            media_asset: None,
            text_clip: None,
            summary_clip: None,
            pipeline_id: None,
            focused_editor: None,
            context_menu_open: false,
            effect_sections: Vec::new(),
            collapsed: Vec::new(),
            vector_links: vec![
                VectorLink::Transform(String::from_str("scale")),
                VectorLink::Model3dClip(String::from_str("scale")),
            ],
            pending_action: None,
            color_picker_open: false,
            choice_list_open: false,
            controls_drag: ControlDrag::Idle,
        };
        assert(section_ids(state.effect_sections@) =~= Seq::<u64>::empty());
        assert(link_keys(state.vector_links@) =~= seq![(0int, 0u64, "scale"@), (1int, 0u64, "scale"@)]);
        state
    }

    /// Losing focus closes the context menu, the colour picker and any option list, and takes
    /// the keyboard from every editor.
    pub fn set_focused(&mut self, focused: bool)
        ensures
            focused ==> *final(self) == *old(self),
            !focused ==> *final(self) == (InspectorState {
                context_menu_open: false,
                focused_editor: None,
                color_picker_open: false,
                choice_list_open: false,
                ..*old(self)
            }),
    {
        if focused {
            return;
        }
        self.context_menu_open = false;
        self.focused_editor = None;
        self.color_picker_open = false;
        self.choice_list_open = false;
    }

    /// Closes the context menu.
    pub fn close_context_menu(&mut self)
        ensures
            *final(self) == (InspectorState { context_menu_open: false, ..*old(self) }),
    {
        self.context_menu_open = false;
    }

    /// A value control is being dragged with the pointer hidden and held in place.
    pub fn is_cursor_lock_dragging(&self) -> (dragging: bool)
        ensures
            dragging == (self.controls_drag is PointerLocked),
    {
        match self.controls_drag {
            ControlDrag::PointerLocked => true,
            _ => false,
        }
    }

    /// A release is told to the property controls and to each text editor, every one of them
    /// even where an earlier one had a drag; it counts where any of them had one, and no drag
    /// of the property controls remains.
    pub fn pointer_released(
        &mut self,
        controls_released: bool,
        text_released: bool,
        clip_start_released: bool,
        clip_end_released: bool,
        name_released: bool,
    ) -> (released: bool)
        ensures
            released == (controls_released || text_released || clip_start_released || clip_end_released
                || name_released),
            *final(self) == (InspectorState { controls_drag: ControlDrag::Idle, ..*old(self) }),
            !(final(self).controls_drag is PointerLocked),
    {
        self.controls_drag = ControlDrag::Idle;
        controls_released || text_released || clip_start_released || clip_end_released || name_released
    }


    /// Follows the timeline's selection: the text clip (a selected clip that has text), the
    /// selected clip and the pipeline of the selected clip. Says which editors show something
    /// else now and must take the new text.
    pub fn sync_selection(&mut self, text_clip: Option<u32>, selected_clip: Option<u32>, pipeline: Option<u64>) -> (changes: SelectionChanges)
        ensures
            changes == selection_changes(old(self).text_clip, old(self).summary_clip, old(self).pipeline_id, text_clip, selected_clip, pipeline),
            *final(self) == (InspectorState {
                text_clip: text_clip,
                summary_clip: selected_clip,
                pipeline_id: pipeline,
                ..*old(self)
            }),
    {
        let changes = SelectionChanges {
            text: self.text_clip != text_clip,
            summary: self.summary_clip != selected_clip,
            pipeline: self.pipeline_id != pipeline,
        };
        self.text_clip = text_clip;
        self.summary_clip = selected_clip;
        self.pipeline_id = pipeline;
        changes
    }

    /// Keeps one section for each live effect node: sections of nodes no longer live go, a
    /// section that stays keeps its open state, and the section of a new node starts open.
    pub fn sync_effect_sections(&mut self, live: &[u64])
        requires
            old(self).wf(),
        ensures
            final(self).wf(),
            final(self).sections() == synced_sections(old(self).sections(), live@.to_set()),
            *final(self) == (InspectorState { effect_sections: final(self).effect_sections, ..*old(self) }),
    {
        let ghost old_map = self.sections();
        let mut kept: Vec<(u64, bool)> = Vec::new();
        let mut i: usize = 0;
        proof {
            assert(section_ids(kept@) =~= Seq::<u64>::empty());
            assert(sections_map(kept@) =~= Map::<u64, bool>::empty());
        }
        while i < live.len()
            invariant
                i <= live.len(),
                old(self).wf(),
                old_map == sections_map(old(self).effect_sections@),
                self.effect_sections@ == old(self).effect_sections@,
                section_ids(kept@).no_duplicates(),
                sections_map(kept@) == synced_sections(old_map, live@.take(i as int).to_set()),
            decreases live.len() - i,
        {
            let id = live[i];
            let present = section_index(&kept, id);
            proof {
                assert(live@.take(i + 1) =~= live@.take(i as int).push(id));
                live@.take(i as int).lemma_push_to_set_commute(id);
                lemma_sections_map_contains(kept@, id);
                lemma_sections_map_contains(old(self).effect_sections@, id);
            }
            if present.is_none() {
                let found = section_index(&self.effect_sections, id);
                let open = match found {
                    Some(k) => self.effect_sections[k].1,
                    None => true,
                };
                proof {
                    if let Some(k) = found {
                        assert(old(self).effect_sections@[k as int].0 == id);
                        assert(section_ids(old(self).effect_sections@)[k as int] == id);
                        assert(old_map.contains_key(id));
                        assert(old_map[id] == old(self).effect_sections@[k as int].1);
                        assert(open == old(self).effect_sections@[k as int].1);
                    } else {
                        assert(!section_ids(old(self).effect_sections@).contains(id));
                        assert(!old_map.contains_key(id));
                    }
                }
                let ghost before = kept@;
                proof {
                    assert(open == if old_map.contains_key(id) { old_map[id] } else { true });
                    assert(!live@.take(i as int).to_set().contains(id));
                }
                kept.push((id, open));
                proof {
                    assert(kept@.drop_last() =~= before);
                    assert(section_ids(kept@) =~= section_ids(before).push(id));
                    let want = synced_sections(old_map, live@.take(i + 1).to_set());
                    assert(sections_map(kept@) == sections_map(before).insert(id, open));
                    assert(sections_map(kept@) =~= want);
                }
            } else {
                proof {
                    let k = present->0;
                    assert(section_ids(kept@)[k as int] == id);
                    assert(live@.take(i as int).to_set().contains(id));
                    assert(live@.take(i + 1).to_set() =~= live@.take(i as int).to_set());
                }
            }
            i = i + 1;
        }
        proof {
            assert(live@.take(live.len() as int) =~= live@);
        }
        self.effect_sections = kept;
    }
}

/// Where `sections` lists `id`, and what is known of the map there.
proof fn lemma_sections_map_contains(sections: Seq<(u64, bool)>, id: u64)
    requires
        section_ids(sections).no_duplicates(),
    ensures
        sections_map(sections).contains_key(id) <==> section_ids(sections).contains(id),
        forall|k: int| 0 <= k < sections.len() && #[trigger] sections[k].0 == id ==> sections_map(sections)[id] == sections[k].1,
    decreases sections.len(),
{
    if sections.len() > 0 {
        let init = sections.drop_last();
        let last = sections.last();
        assert(section_ids(init) =~= section_ids(sections).drop_last());
        assert(section_ids(init).no_duplicates());
        lemma_sections_map_contains(init, id);
        assert(section_ids(sections) =~= section_ids(init).push(last.0));
        assert(sections_map(sections) == sections_map(init).insert(last.0, last.1));
        if section_ids(sections).contains(id) {
            let k = choose|k: int| 0 <= k < section_ids(sections).len() && section_ids(sections)[k] == id;
            if k < sections.len() - 1 {
                assert(section_ids(init)[k] == id);
            }
        }
        if section_ids(init).contains(id) {
            let k = choose|k: int| 0 <= k < section_ids(init).len() && section_ids(init)[k] == id;
            assert(section_ids(sections)[k] == id);
        }
        if last.0 == id {
            assert(section_ids(sections)[sections.len() - 1] == id);
        }
        assert forall|k: int| 0 <= k < sections.len() && #[trigger] sections[k].0 == id implies sections_map(sections)[id] == sections[k].1 by {
            if k < sections.len() - 1 {
                assert(sections[k] == init[k]);
                assert(section_ids(init)[k] == id);
                if last.0 == id {
                    assert(section_ids(sections)[k] == section_ids(sections)[sections.len() - 1]);
                }
            }
        }
    }
}

/// The position of the section for `id`, if `sections` has one.
fn section_index(sections: &Vec<(u64, bool)>, id: u64) -> (index: Option<usize>)
    ensures
        match index {
            Some(k) => k < sections.len() && sections@[k as int].0 == id,
            None => !section_ids(sections@).contains(id),
        },
{
    let mut k: usize = 0;
    while k < sections.len()
        invariant
            k <= sections.len(),
            forall|j: int| 0 <= j < k ==> sections@[j].0 != id,
        decreases sections.len() - k,
    {
        if sections[k].0 == id {
            return Some(k);
        }
        k = k + 1;
    }
    proof {
        if section_ids(sections@).contains(id) {
            let j = choose|j: int| 0 <= j < section_ids(sections@).len() && section_ids(sections@)[j] == id;
            assert(sections@[j].0 == id);
        }
    }
    None
}

/// `sections` with the open state of `id` turned over at its place `k`.
proof fn lemma_sections_map_update(sections: Seq<(u64, bool)>, k: int, open: bool)
    requires
        section_ids(sections).no_duplicates(),
        0 <= k < sections.len(),
    ensures
        sections_map(sections.update(k, (sections[k].0, open))) == sections_map(sections).insert(sections[k].0, open),
    decreases sections.len(),
{
    let id = sections[k].0;
    let u = sections.update(k, (id, open));
    let init = sections.drop_last();
    assert(section_ids(init) =~= section_ids(sections).drop_last());
    if k == sections.len() - 1 {
        assert(u.drop_last() =~= init);
        assert(sections_map(u) =~= sections_map(sections).insert(id, open));
    } else {
        assert(u.drop_last() =~= init.update(k, (id, open)));
        assert(init[k] == sections[k]);
        lemma_sections_map_update(init, k, open);
        let last = sections.last();
        assert(section_ids(sections)[k] == id && section_ids(sections)[sections.len() - 1] == last.0);
        assert(last.0 != id);
        assert(u.last() == last);
        assert(sections_map(u) =~= sections_map(sections).insert(id, open));
    }
}

impl InspectorState {
    fn toggle_section(&mut self, section: InspectorSection)
        requires
            old(self).collapsed@.no_duplicates(),
        ensures
            final(self).collapsed@.no_duplicates(),
            final(self).collapsed@.to_set() == flipped(old(self).collapsed@.to_set(), section),
            *final(self) == (InspectorState { collapsed: final(self).collapsed, ..*old(self) }),
    {
        let mut k: usize = 0;
        while k < self.collapsed.len()
            invariant
                k <= self.collapsed.len(),
                *self == *old(self),
                old(self).collapsed@.no_duplicates(),
                forall|q: int| 0 <= q < k ==> self.collapsed@[q] != section,
            decreases self.collapsed.len() - k,
        {
            if self.collapsed[k] == section {
                let ghost before = self.collapsed@;
                self.collapsed.remove(k);
                proof {
                    let after = before.remove(k as int);
                    assert(self.collapsed@ == after);
                    assert forall|x: InspectorSection| after.contains(x) <==> before.to_set().remove(section).contains(x) by {
                        if after.contains(x) {
                            let q = choose|q: int| 0 <= q < after.len() && after[q] == x;
                            let r = if q < k { q } else { q + 1 };
                            assert(before[r] == x);
                            assert(r != k as int);
                        }
                        if before.to_set().remove(section).contains(x) {
                            let r = choose|r: int| 0 <= r < before.len() && before[r] == x;
                            assert(r != k as int);
                            let q = if r < k { r } else { r - 1 };
                            assert(after[q] == x);
                        }
                    }
                    assert(self.collapsed@.to_set() =~= before.to_set().remove(section));
                    assert(before.to_set().contains(section)) by {
                        assert(before[k as int] == section);
                    }
                    assert forall|a: int, b: int| 0 <= a < b < after.len() implies after[a] != after[b] by {
                        let ra = if a < k { a } else { a + 1 };
                        let rb = if b < k { b } else { b + 1 };
                        assert(after[a] == before[ra] && after[b] == before[rb]);
                    }
                }
                return;
            }
            k = k + 1;
        }
        let ghost before = self.collapsed@;
        self.collapsed.push(section);
        proof {
            assert(!before.contains(section)) by {
                if before.contains(section) {
                    let q = choose|q: int| 0 <= q < before.len() && before[q] == section;
                    assert(before[q] != section);
                }
            }
            before.lemma_push_to_set_commute(section);
            assert forall|a: int, b: int| 0 <= a < b < self.collapsed@.len() implies self.collapsed@[a] != self.collapsed@[b] by {
                if b == before.len() {
                    assert(self.collapsed@[a] == before[a]);
                    assert(before.contains(before[a]));
                } else {
                    assert(self.collapsed@[a] == before[a] && self.collapsed@[b] == before[b]);
                }
            }
        }
    }

    fn toggle_link(&mut self, link: VectorLink)
        requires
            link_keys(old(self).vector_links@).no_duplicates(),
        ensures
            link_keys(final(self).vector_links@).no_duplicates(),
            link_keys(final(self).vector_links@).to_set() == flipped(link_keys(old(self).vector_links@).to_set(), link_key(link)),
            *final(self) == (InspectorState { vector_links: final(self).vector_links, ..*old(self) }),
    {
        let ghost key = link_key(link);
        let ghost keys = link_keys(self.vector_links@);
        let mut k: usize = 0;
        while k < self.vector_links.len()
            invariant
                k <= self.vector_links.len(),
                *self == *old(self),
                keys.no_duplicates(),
                keys == link_keys(self.vector_links@),
                key == link_key(link),
                forall|q: int| 0 <= q < k ==> keys[q] != key,
            decreases self.vector_links.len() - k,
        {
            if same_link(&self.vector_links[k], &link) {
                let ghost before = self.vector_links@;
                self.vector_links.remove(k);
                proof {
                    let after = link_keys(self.vector_links@);
                    assert(after =~= keys.remove(k as int));
                    assert(keys[k as int] == key);
                    assert forall|x: (int, u64, Seq<char>)| after.contains(x) <==> keys.to_set().remove(key).contains(x) by {
                        if after.contains(x) {
                            let q = choose|q: int| 0 <= q < after.len() && after[q] == x;
                            let r = if q < k { q } else { q + 1 };
                            assert(keys[r] == x);
                            assert(r != k as int);
                        }
                        if keys.to_set().remove(key).contains(x) {
                            let r = choose|r: int| 0 <= r < keys.len() && keys[r] == x;
                            assert(r != k as int);
                            let q = if r < k { r } else { r - 1 };
                            assert(after[q] == x);
                        }
                    }
                    assert(after.to_set() =~= keys.to_set().remove(key));
                    assert(keys.to_set().contains(key));
                    assert forall|a: int, b: int| 0 <= a < b < after.len() implies after[a] != after[b] by {
                        let ra = if a < k { a } else { a + 1 };
                        let rb = if b < k { b } else { b + 1 };
                        assert(after[a] == keys[ra] && after[b] == keys[rb]);
                    }
                }
                return;
            }
            k = k + 1;
        }
        self.vector_links.push(link);
        proof {
            let after = link_keys(self.vector_links@);
            assert(after =~= keys.push(key));
            assert(!keys.contains(key)) by {
                if keys.contains(key) {
                    let q = choose|q: int| 0 <= q < keys.len() && keys[q] == key;
                    assert(keys[q] != key);
                }
            }
            keys.lemma_push_to_set_commute(key);
            assert forall|a: int, b: int| 0 <= a < b < after.len() implies after[a] != after[b] by {
                if b == keys.len() {
                    assert(after[a] == keys[a]);
                    assert(keys.contains(keys[a]));
                } else {
                    assert(after[a] == keys[a] && after[b] == keys[b]);
                }
            }
        }
    }

    fn toggle_effect_section(&mut self, node: u64)
        requires
            section_ids(old(self).effect_sections@).no_duplicates(),
        ensures
            section_ids(final(self).effect_sections@).no_duplicates(),
            final(self).sections() == if old(self).sections().contains_key(node) {
                old(self).sections().insert(node, !old(self).sections()[node])
            } else {
                old(self).sections()
            },
            *final(self) == (InspectorState { effect_sections: final(self).effect_sections, ..*old(self) }),
    {
        let found = section_index(&self.effect_sections, node);
        proof {
            lemma_sections_map_contains(self.effect_sections@, node);
        }
        if let Some(k) = found {
            let ghost before = self.effect_sections@;
            let open = self.effect_sections[k].1;
            proof {
                assert(section_ids(before)[k as int] == node);
            }
            let entry = self.effect_sections.remove(k);
            self.effect_sections.insert(k, (entry.0, !open));
            proof {
                assert(self.effect_sections@ =~= before.update(k as int, (node, !open)));
                lemma_sections_map_update(before, k as int, !open);
                assert(section_ids(self.effect_sections@) =~= section_ids(before));
            }
        }
    }
}

impl InspectorState {
    /// What a press does, given what lies under it (`hit`), whether the inspector shows a
    /// media file (`media_mode`) and whether the copied value fits what the context menu was
    /// opened on (`paste_enabled`). An open context menu takes the press first: an entry copies
    /// or pastes and closes the menu, the rest of the menu keeps it; any other press closes it.
    /// For a media file, a section header folds its section and any press inside counts. For a
    /// clip, the press focuses an editor, chooses an option, folds a section, links a vector,
    /// or asks the application for a pipeline, font or effect change. Returns whether the
    /// press was taken and what the project should change now.
    pub fn pointer_pressed(&mut self, hit: InspectorHit, media_mode: bool, paste_enabled: bool) -> (outcome: (bool, InspectorCommand))
        requires
            old(self).wf(),
        ensures
            final(self).wf(),
            ({
                let popups = popups_after_press(*old(self), hit, media_mode);
                let base = InspectorState {
                    context_menu_open: false,
                    color_picker_open: popups.0,
                    choice_list_open: popups.1,
                    controls_drag: match hit {
                        InspectorHit::ValueControl(drag) => drag,
                        _ => old(self).controls_drag,
                    },
                    ..*old(self)
                };
                if !media_mode && old(self).context_menu_open && (hit is MenuEntry || hit is MenuArea) {
                    match hit {
                        InspectorHit::MenuEntry(index) => outcome == (true, menu_command(index, paste_enabled))
                            && *final(self) == (InspectorState { context_menu_open: false, ..*old(self) }),
                        _ => outcome == (true, InspectorCommand::Nothing) && *final(self) == *old(self),
                    }
                } else if media_mode {
                    match hit {
                        InspectorHit::Outside | InspectorHit::Nothing => outcome == (false, InspectorCommand::Nothing)
                            && *final(self) == base,
                        InspectorHit::SectionHeader(section) => {
                            &&& outcome == (true, InspectorCommand::Nothing)
                            &&& final(self).collapsed@.to_set() == flipped(old(self).collapsed@.to_set(), section)
                            &&& *final(self) == (InspectorState { collapsed: final(self).collapsed, ..base })
                        },
                        _ => outcome == (true, InspectorCommand::Nothing) && *final(self) == base,
                    }
                } else {
                    match hit {
                        InspectorHit::ColorPicker | InspectorHit::PipelineLocked | InspectorHit::Consumed => outcome
                            == (true, InspectorCommand::Nothing) && *final(self) == base,
                        InspectorHit::Outside => outcome == (false, InspectorCommand::Nothing)
                            && *final(self) == (InspectorState { focused_editor: None, ..base }),
                        InspectorHit::SectionHeader(section) => {
                            &&& outcome == (true, InspectorCommand::Nothing)
                            &&& final(self).collapsed@.to_set() == flipped(old(self).collapsed@.to_set(), section)
                            &&& *final(self) == (InspectorState { collapsed: final(self).collapsed, ..base })
                        },
                        InspectorHit::SummaryField(index) => outcome == (true, InspectorCommand::Nothing)
                            && *final(self) == (InspectorState {
                                focused_editor: Some(if index == 0 { InspectorEditor::ClipStart } else { InspectorEditor::ClipEnd }),
                                ..base
                            }),
                        InspectorHit::VectorLink(link) => {
                            &&& outcome == (true, InspectorCommand::Nothing)
                            &&& link_keys(final(self).vector_links@).to_set() == flipped(link_keys(old(self).vector_links@).to_set(), link_key(link))
                            &&& *final(self) == (InspectorState { vector_links: final(self).vector_links, ..base })
                        },
                        InspectorHit::EnumOption { target, index } => outcome == (true, InspectorCommand::SetEnum(target, enum_value_of(target, index)))
                            && *final(self) == (InspectorState { focused_editor: None, ..base }),
                        InspectorHit::EnumToggle | InspectorHit::ValueControl(_) | InspectorHit::ColorSwatch => outcome == (true, InspectorCommand::Nothing)
                            && *final(self) == (InspectorState { focused_editor: None, ..base }),
                        InspectorHit::TextField => outcome == (true, InspectorCommand::Nothing)
                            && *final(self) == (InspectorState { focused_editor: Some(InspectorEditor::Text), ..base }),
                        InspectorHit::FontField => outcome == (true, InspectorCommand::Nothing)
                            && *final(self) == (InspectorState {
                                focused_editor: None,
                                pending_action: Some(InspectorRequest::ChooseFont),
                                ..base
                            }),
                        InspectorHit::PipelineName => outcome == (true, InspectorCommand::Nothing)
                            && *final(self) == if old(self).pipeline_id is Some {
                                InspectorState { focused_editor: Some(InspectorEditor::PipelineName), ..base }
                            } else {
                                InspectorState { pending_action: Some(InspectorRequest::ChoosePipeline), ..base }
                            },
                        InspectorHit::CreatePipeline => outcome == (true, InspectorCommand::Nothing)
                            && *final(self) == (InspectorState { pending_action: Some(InspectorRequest::CreatePipeline), ..base }),
                        InspectorHit::ChoosePipeline => outcome == (true, InspectorCommand::Nothing)
                            && *final(self) == (InspectorState { pending_action: Some(InspectorRequest::ChoosePipeline), ..base }),
                        InspectorHit::PipelineButton(index) => outcome == (true, InspectorCommand::Nothing)
                            && *final(self) == (InspectorState { pending_action: Some(pipeline_button_request(index)), ..base }),
                        InspectorHit::EffectAction { node, index } => if index == 2 {
                            outcome == (true, InspectorCommand::ToggleEffectEnabled(node)) && *final(self) == base
                        } else if index == 3 {
                            outcome == (true, InspectorCommand::ToggleEffectKeyframe(node)) && *final(self) == base
                        } else {
                            outcome == (true, InspectorCommand::Nothing) && *final(self) == (InspectorState {
                                pending_action: Some(
                                    if index == 0 {
                                        InspectorRequest::MoveEffect(node, -1i32)
                                    } else if index == 1 {
                                        InspectorRequest::MoveEffect(node, 1i32)
                                    } else {
                                        InspectorRequest::RemoveEffect(node)
                                    },
                                ),
                                ..base
                            })
                        },
                        InspectorHit::EffectSection(node) => {
                            &&& outcome == (true, InspectorCommand::Nothing)
                            &&& final(self).sections() == if old(self).sections().contains_key(node) {
                                old(self).sections().insert(node, !old(self).sections()[node])
                            } else {
                                old(self).sections()
                            }
                            &&& *final(self) == (InspectorState { effect_sections: final(self).effect_sections, ..base })
                        },
                        InspectorHit::Keyframe => outcome == (true, InspectorCommand::ToggleKeyframe) && *final(self) == base,
                        _ => outcome == (false, InspectorCommand::Nothing) && *final(self) == base,
                    }
                }
            }),
    {
        if !media_mode && self.context_menu_open {
            match hit {
                InspectorHit::MenuEntry(index) => {
                    self.context_menu_open = false;
                    let command = if index == 0 {
                        InspectorCommand::CopyValue
                    } else if index == 1 && paste_enabled {
                        InspectorCommand::PasteValue
                    } else {
                        InspectorCommand::Nothing
                    };
                    return (true, command);
                },
                InspectorHit::MenuArea => {
                    return (true, InspectorCommand::Nothing);
                },
                _ => {},
            }
        }
        self.context_menu_open = false;
        if media_mode {
            self.choice_list_open = match &hit {
                InspectorHit::Outside | InspectorHit::Nothing => self.choice_list_open,
                InspectorHit::EnumToggle => !self.choice_list_open,
                _ => false,
            };
        } else {
            match &hit {
                InspectorHit::ColorPicker => {},
                InspectorHit::ColorSwatch => {
                    self.color_picker_open = true;
                    self.choice_list_open = false;
                },
                InspectorHit::Outside | InspectorHit::VectorLink(_) => {
                    self.color_picker_open = false;
                },
                _ => {
                    self.color_picker_open = false;
                    self.choice_list_open = false;
                },
            }
        }
        if let InspectorHit::ValueControl(drag) = &hit {
            self.controls_drag = *drag;
        }
        if media_mode {
            return match hit {
                InspectorHit::Outside | InspectorHit::Nothing => (false, InspectorCommand::Nothing),
                InspectorHit::SectionHeader(section) => {
                    self.toggle_section(section);
                    (true, InspectorCommand::Nothing)
                },
                _ => (true, InspectorCommand::Nothing),
            };
        }
        match hit {
            InspectorHit::ColorPicker | InspectorHit::PipelineLocked | InspectorHit::Consumed => (true, InspectorCommand::Nothing),
            InspectorHit::Outside => {
                self.focused_editor = None;
                (false, InspectorCommand::Nothing)
            },
            InspectorHit::SectionHeader(section) => {
                self.toggle_section(section);
                (true, InspectorCommand::Nothing)
            },
            InspectorHit::SummaryField(index) => {
                self.focused_editor = Some(if index == 0 { InspectorEditor::ClipStart } else { InspectorEditor::ClipEnd });
                (true, InspectorCommand::Nothing)
            },
            InspectorHit::VectorLink(link) => {
                self.toggle_link(link);
                (true, InspectorCommand::Nothing)
            },
            InspectorHit::EnumOption { target, index } => {
                self.focused_editor = None;
                let value = match target {
                    EnumTarget::Plugin { boolean } => if boolean {
                        EnumValue::Bool(index != 0)
                    } else {
                        EnumValue::Enum(index as u32)
                    },
                    _ => EnumValue::Index(index),
                };
                (true, InspectorCommand::SetEnum(target, value))
            },
            InspectorHit::EnumToggle | InspectorHit::ValueControl(_) | InspectorHit::ColorSwatch => {
                self.focused_editor = None;
                (true, InspectorCommand::Nothing)
            },
            InspectorHit::TextField => {
                self.focused_editor = Some(InspectorEditor::Text);
                (true, InspectorCommand::Nothing)
            },
            InspectorHit::FontField => {
                self.focused_editor = None;
                self.pending_action = Some(InspectorRequest::ChooseFont);
                (true, InspectorCommand::Nothing)
            },
            InspectorHit::PipelineName => {
                if self.pipeline_id.is_some() {
                    self.focused_editor = Some(InspectorEditor::PipelineName);
                } else {
                    self.pending_action = Some(InspectorRequest::ChoosePipeline);
                }
                (true, InspectorCommand::Nothing)
            },
            InspectorHit::CreatePipeline => {
                self.pending_action = Some(InspectorRequest::CreatePipeline);
                (true, InspectorCommand::Nothing)
            },
            InspectorHit::ChoosePipeline => {
                self.pending_action = Some(InspectorRequest::ChoosePipeline);
                (true, InspectorCommand::Nothing)
            },
            InspectorHit::PipelineButton(index) => {
                self.pending_action = Some(
                    if index == 0 {
                        InspectorRequest::AddEffect
                    } else if index == 1 {
                        InspectorRequest::MakeIndependent
                    } else {
                        InspectorRequest::OpenGraph
                    },
                );
                (true, InspectorCommand::Nothing)
            },
            InspectorHit::EffectAction { node, index } => {
                if index == 2 {
                    (true, InspectorCommand::ToggleEffectEnabled(node))
                } else if index == 3 {
                    (true, InspectorCommand::ToggleEffectKeyframe(node))
                } else {
                    self.pending_action = Some(
                        if index == 0 {
                            InspectorRequest::MoveEffect(node, -1)
                        } else if index == 1 {
                            InspectorRequest::MoveEffect(node, 1)
                        } else {
                            InspectorRequest::RemoveEffect(node)
                        },
                    );
                    (true, InspectorCommand::Nothing)
                }
            },
            InspectorHit::EffectSection(node) => {
                self.toggle_effect_section(node);
                (true, InspectorCommand::Nothing)
            },
            InspectorHit::Keyframe => (true, InspectorCommand::ToggleKeyframe),
            _ => (false, InspectorCommand::Nothing),
        }
    }

    /// Hands out what a press asked the application to do.
    pub fn take_action(&mut self) -> (action: Option<InspectorRequest>)
        ensures
            action == old(self).pending_action,
            *final(self) == (InspectorState { pending_action: None, ..*old(self) }),
    {
        self.pending_action.take()
    }
}

/// Whether two vector links name the same property.
fn same_link(a: &VectorLink, b: &VectorLink) -> (same: bool)
    ensures
        same == (link_key(*a) == link_key(*b)),
{
    match (a, b) {
        (VectorLink::Transform(x), VectorLink::Transform(y)) => *x == *y,
        (VectorLink::Model3dClip(x), VectorLink::Model3dClip(y)) => *x == *y,
        (VectorLink::Pipeline { node: n, input: x }, VectorLink::Pipeline { node: m, input: y }) => *n == *m && *x == *y,
        (VectorLink::Generator(x), VectorLink::Generator(y)) => *x == *y,
        _ => false,
    }
}

/// How many of the first `k` effects of `path` are of type `t`.
pub open spec fn type_count(path: Seq<(u64, String)>, k: int, t: Seq<char>) -> nat
    decreases k,
{
    if k <= 0 {
        0
    } else {
        type_count(path, k - 1, t) + if path[k - 1].1@ == t { 1nat } else { 0nat }
    }
}

/// The occurrence number of effect `k` of `path`: how many effects of its type come before it.
pub open spec fn occurrence_of(path: Seq<(u64, String)>, k: int) -> nat {
    type_count(path, k, path[k].1@)
}

/// The place among the first `n` effects of `path` of the first effect of type `t` whose
/// occurrence number is `occurrence`.
pub open spec fn paste_match(path: Seq<(u64, String)>, t: Seq<char>, occurrence: nat, n: int) -> Option<int>
    decreases n,
{
    if n <= 0 {
        None
    } else {
        match paste_match(path, t, occurrence, n - 1) {
            Some(k) => Some(k),
            None => if path[n - 1].1@ == t && type_count(path, n - 1, t) == occurrence { Some(n - 1) } else { None },
        }
    }
}

/// The occurrence number of each effect of a pipeline's main path (node id and node type, in
/// path order): copied effect values carry it, so that a paste finds the same effect again.
pub fn effect_occurrences(path: &[(u64, String)]) -> (occurrences: Vec<usize>)
    ensures
        occurrences.len() == path.len(),
        forall|k: int| 0 <= k < path.len() ==> occurrences@[k] == occurrence_of(path@, k),
{
    let mut occurrences: Vec<usize> = Vec::new();
    let mut k: usize = 0;
    while k < path.len()
        invariant
            k <= path.len(),
            occurrences.len() == k,
            forall|q: int| 0 <= q < k ==> occurrences@[q] == occurrence_of(path@, q),
        decreases path.len() - k,
    {
        let mut seen: usize = 0;
        let mut j: usize = 0;
        while j < k
            invariant
                j <= k,
                k < path.len(),
                seen == type_count(path@, j as int, path@[k as int].1@),
                seen <= j,
            decreases k - j,
        {
            if path[j].1 == path[k].1 {
                seen = seen + 1;
            }
            j = j + 1;
        }
        occurrences.push(seen);
        k = k + 1;
    }
    occurrences
}

/// The node that copied values of the effect of type `node_type` with occurrence number
/// `occurrence` are pasted onto: the effect of the main path with the same type and the same
/// occurrence number, if there is one.
pub fn effect_paste_destination(path: &[(u64, String)], node_type: &String, occurrence: usize) -> (node: Option<u64>)
    ensures
        node == match paste_match(path@, node_type@, occurrence as nat, path.len() as int) {
            Some(k) => Some(path@[k].0),
            None => None,
        },
{
    let mut seen: usize = 0;
    let mut k: usize = 0;
    while k < path.len()
        invariant
            k <= path.len(),
            seen == type_count(path@, k as int, node_type@),
            seen <= k,
            paste_match(path@, node_type@, occurrence as nat, k as int) is None,
        decreases path.len() - k,
    {
        if path[k].1 == *node_type {
            if seen == occurrence {
                proof {
                    lemma_paste_match_keeps(path@, node_type@, occurrence as nat, k as int + 1);
                }
                return Some(path[k].0);
            }
            seen = seen + 1;
        }
        k = k + 1;
    }
    None
}

proof fn lemma_paste_match_keeps(path: Seq<(u64, String)>, t: Seq<char>, occurrence: nat, n: int)
    requires
        0 < n <= path.len(),
        paste_match(path, t, occurrence, n) == Some(n - 1),
    ensures
        paste_match(path, t, occurrence, path.len() as int) == Some(n - 1),
{
    lemma_paste_match_stays(path, t, occurrence, n, n - 1);
}

proof fn lemma_paste_match_stays(path: Seq<(u64, String)>, t: Seq<char>, occurrence: nat, n: int, k: int)
    requires
        0 < n <= path.len(),
        paste_match(path, t, occurrence, n) == Some(k),
    ensures
        paste_match(path, t, occurrence, path.len() as int) == Some(k),
    decreases path.len() - n,
{
    if n < path.len() {
        assert(paste_match(path, t, occurrence, n + 1) == Some(k));
        lemma_paste_match_stays(path, t, occurrence, n + 1, k);
    }
}

/// The kind of a timeline track.
#[derive(Clone, Copy, Debug, PartialEq, Eq, Structural)]
pub enum TrackKind {
    Video,
    Audio,
    Effect,
}

/// The label of a kind of track.
pub open spec fn track_kind_label(kind: TrackKind) -> Seq<char> {
    match kind {
        TrackKind::Video => "Video Track"@,
        TrackKind::Audio => "Audio Track"@,
        TrackKind::Effect => "Effect Track"@,
    }
}

/// The inspector's title for a selected clip named `clip`, else for a selected track of kind
/// and name `track`; none where nothing is selected.
pub open spec fn title_of(clip: Option<Seq<char>>, track: Option<(TrackKind, Seq<char>)>) -> Option<Seq<char>> {
    match clip {
        Some(name) => Some("Clip: "@ + name),
        None => match track {
            Some((kind, name)) => Some(track_kind_label(kind) + ": "@ + name),
            None => None,
        },
    }
}

/// The inspector's title: "Clip: " and the name of the selected clip, else the kind and name
/// of the selected track ("Audio Track: Music"); none where nothing is selected.
pub fn inspector_title(selected_clip: Option<&str>, selected_track: Option<(TrackKind, &str)>) -> (title: Option<String>)
    ensures
        match title {
            Some(t) => title_of(
                match selected_clip { Some(n) => Some(n@), None => None },
                match selected_track { Some((k, n)) => Some((k, n@)), None => None },
            ) == Some(t@),
            None => title_of(
                match selected_clip { Some(n) => Some(n@), None => None },
                match selected_track { Some((k, n)) => Some((k, n@)), None => None },
            ) is None,
        },
{
    match selected_clip {
        Some(name) => Some(String::from_str("Clip: ").concat(name)),
        None => match selected_track {
            Some((kind, name)) => {
                let label = match kind {
                    TrackKind::Video => "Video Track",
                    TrackKind::Audio => "Audio Track",
                    TrackKind::Effect => "Effect Track",
                };
                Some(String::from_str(label).concat(": ").concat(name))
            },
            None => None,
        },
    }
}

/// Where a key or composed text went in the inspector, and what it asks for.
#[derive(Clone, Copy, Debug, PartialEq, Eq, Structural)]
pub enum InspectorEdit {
    /// An angle control took it; the value it set, if any, is applied.
    Angle,
    /// The number field being edited took it; the value it set, if any, is applied.
    Number,
    /// The colour picker took it; its colour goes to the control whose picker is open.
    Color,
    /// A text editor took it and changed its text, which the clip or the pipeline takes.
    Changed(InspectorEditor),
    /// A text editor took it without a change to apply.
    Unchanged,
    /// Nothing took it.
    Ignored,
}

/// Where a key or composed text goes: to an angle control that took it, else to the number
/// field being edited, else to the colour picker where it took it, else to the first of the
/// clip text, clip start, clip end and pipeline name editors that took it. A changed pipeline
/// name renames a pipeline only where one is shown.
pub open spec fn edit_route(
    angle_took: bool,
    number_editing: bool,
    color_took: bool,
    editors: Seq<(InspectorEditor, EditResponse)>,
    pipeline_shown: bool,
) -> InspectorEdit
    decreases editors.len(),
{
    if angle_took {
        InspectorEdit::Angle
    } else if number_editing {
        InspectorEdit::Number
    } else if color_took {
        InspectorEdit::Color
    } else if editors.len() == 0 {
        InspectorEdit::Ignored
    } else if editors[0].1.handled {
        if editors[0].1.changed && (editors[0].0 != InspectorEditor::PipelineName || pipeline_shown) {
            InspectorEdit::Changed(editors[0].0)
        } else {
            InspectorEdit::Unchanged
        }
    } else {
        edit_route(false, false, false, editors.drop_first(), pipeline_shown)
    }
}

impl InspectorState {
    /// Routes a key (see `edit_route`). `angle_took` and `color_took` are the angle controls'
    /// and the colour picker's answers, `number_editing` whether a number field is being
    /// edited, and the responses are those of the clip text, clip start, clip end and pipeline
    /// name editors.
    pub fn handle_key(
        &self,
        angle_took: bool,
        number_editing: bool,
        color_took: bool,
        text: EditResponse,
        clip_start: EditResponse,
        clip_end: EditResponse,
        pipeline_name: EditResponse,
    ) -> (edit: InspectorEdit)
        ensures
            edit == edit_route(
                angle_took,
                number_editing,
                color_took,
                seq![
                    (InspectorEditor::Text, text),
                    (InspectorEditor::ClipStart, clip_start),
                    (InspectorEditor::ClipEnd, clip_end),
                    (InspectorEditor::PipelineName, pipeline_name),
                ],
                self.pipeline_id is Some,
            ),
    {
        self.edit_fields(angle_took, number_editing, color_took, [text, clip_start, clip_end, pipeline_name])
    }

    /// Routes composed text, as a key is routed (see `edit_route`).
    pub fn handle_ime(
        &self,
        angle_took: bool,
        number_editing: bool,
        color_took: bool,
        text: EditResponse,
        clip_start: EditResponse,
        clip_end: EditResponse,
        pipeline_name: EditResponse,
    ) -> (edit: InspectorEdit)
        ensures
            edit == edit_route(
                angle_took,
                number_editing,
                color_took,
                seq![
                    (InspectorEditor::Text, text),
                    (InspectorEditor::ClipStart, clip_start),
                    (InspectorEditor::ClipEnd, clip_end),
                    (InspectorEditor::PipelineName, pipeline_name),
                ],
                self.pipeline_id is Some,
            ),
    {
        self.edit_fields(angle_took, number_editing, color_took, [text, clip_start, clip_end, pipeline_name])
    }

    fn edit_fields(&self, angle_took: bool, number_editing: bool, color_took: bool, responses: [EditResponse; 4]) -> (edit: InspectorEdit)
        ensures
            edit == edit_route(
                angle_took,
                number_editing,
                color_took,
                seq![
                    (InspectorEditor::Text, responses@[0]),
                    (InspectorEditor::ClipStart, responses@[1]),
                    (InspectorEditor::ClipEnd, responses@[2]),
                    (InspectorEditor::PipelineName, responses@[3]),
                ],
                self.pipeline_id is Some,
            ),
    {
        let ghost editors = seq![
            (InspectorEditor::Text, responses@[0]),
            (InspectorEditor::ClipStart, responses@[1]),
            (InspectorEditor::ClipEnd, responses@[2]),
            (InspectorEditor::PipelineName, responses@[3]),
        ];
        if angle_took {
            return InspectorEdit::Angle;
        }
        if number_editing {
            return InspectorEdit::Number;
        }
        if color_took {
            return InspectorEdit::Color;
        }
        let kinds = [InspectorEditor::Text, InspectorEditor::ClipStart, InspectorEditor::ClipEnd, InspectorEditor::PipelineName];
        let mut i: usize = 0;
        assert(editors.skip(0) =~= editors);
        while i < 4
            invariant
                i <= 4,
                !angle_took && !number_editing && !color_took,
                editors == seq![
                    (InspectorEditor::Text, responses@[0]),
                    (InspectorEditor::ClipStart, responses@[1]),
                    (InspectorEditor::ClipEnd, responses@[2]),
                    (InspectorEditor::PipelineName, responses@[3]),
                ],
                kinds@ == seq![InspectorEditor::Text, InspectorEditor::ClipStart, InspectorEditor::ClipEnd, InspectorEditor::PipelineName],
                responses@.len() == 4,
                editors.len() == 4,
                forall|j: int| 0 <= j < 4 ==> #[trigger] editors[j] == (kinds@[j], responses@[j]),
                edit_route(false, false, false, editors, self.pipeline_id is Some)
                    == edit_route(false, false, false, editors.skip(i as int), self.pipeline_id is Some),
            decreases 4 - i,
        {
            let response = responses[i];
            let kind = kinds[i];
            assert(editors.skip(i as int)[0] == editors[i as int]);
            assert(editors.skip(i as int)[0] == (kind, response));
            assert(edit_route(angle_took, number_editing, color_took, editors, self.pipeline_id is Some)
                == edit_route(false, false, false, editors, self.pipeline_id is Some));
            if response.handled {
                if response.changed && (kind != InspectorEditor::PipelineName || self.pipeline_id.is_some()) {
                    assert(edit_route(false, false, false, editors.skip(i as int), self.pipeline_id is Some) == InspectorEdit::Changed(kind));
                    return InspectorEdit::Changed(kind);
                }
                assert(edit_route(false, false, false, editors.skip(i as int), self.pipeline_id is Some) == InspectorEdit::Unchanged);
                return InspectorEdit::Unchanged;
            }
            assert(editors.skip(i as int).drop_first() =~= editors.skip(i + 1));
            i = i + 1;
        }
        InspectorEdit::Ignored
    }
}

/// The buttons under the pipeline row are, in order, add effect, make independent and open
/// graph: a press on button `index` leaves the request of that button, and every button from
/// the third on opens the graph.
pub proof fn lemma_pipeline_buttons(index: usize)
    ensures
        (pipeline_button_request(index) == InspectorRequest::AddEffect) == (index == 0),
        (pipeline_button_request(index) == InspectorRequest::MakeIndependent) == (index == 1),
        (pipeline_button_request(index) == InspectorRequest::OpenGraph) == (index >= 2),
{
}

} // verus!
