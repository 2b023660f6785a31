use kama_panels::inspector::{InspectorEditor, InspectorState, SelectionChanges};
use kama_panels::input::ControlDrag;

fn open_state(state: &InspectorState, id: u64) -> Option<bool> {
    state.effect_sections.iter().find(|(k, _)| *k == id).map(|(_, open)| *open)
}

#[test]
fn losing_focus_closes_menu_and_editors() {
    let mut state = InspectorState::new();
    state.context_menu_open = true;
    state.focused_editor = Some(InspectorEditor::ClipStart);
    state.set_focused(true);
    assert!(state.context_menu_open);
    state.set_focused(false);
    assert!(!state.context_menu_open);
    assert_eq!(state.focused_editor, None);
    state.context_menu_open = true;
    state.close_context_menu();
    assert!(!state.context_menu_open);
}

#[test]
fn sync_selection_reports_changes_once() {
    let mut state = InspectorState::new();
    let first = state.sync_selection(Some(4), Some(4), Some(9));
    assert_eq!(first, SelectionChanges { text: true, summary: true, pipeline: true });
    let again = state.sync_selection(Some(4), Some(4), Some(9));
    assert_eq!(again, SelectionChanges { text: false, summary: false, pipeline: false });
    let other = state.sync_selection(None, Some(4), Some(9));
    assert_eq!(other, SelectionChanges { text: true, summary: false, pipeline: false });
    assert_eq!(state.text_clip, None);
}

#[test]
fn effect_sections_follow_live_nodes() {
    let mut state = InspectorState::new();
    state.sync_effect_sections(&[3, 1, 3]);
    assert_eq!(state.effect_sections.len(), 2);
    assert_eq!(open_state(&state, 1), Some(true));
    assert_eq!(open_state(&state, 3), Some(true));
    state.effect_sections[0].1 = false;
    let closed = state.effect_sections[0].0;
    state.sync_effect_sections(&[1, 3, 5]);
    assert_eq!(state.effect_sections.len(), 3);
    assert_eq!(open_state(&state, closed), Some(false));
    assert_eq!(open_state(&state, 5), Some(true));
    let before = state.effect_sections.clone();
    state.sync_effect_sections(&[1, 3, 5]);
    let mut a = before.clone();
    let mut b = state.effect_sections.clone();
    a.sort();
    b.sort();
    assert_eq!(a, b);
    state.sync_effect_sections(&[5]);
    assert_eq!(state.effect_sections, vec![(5, true)]);
    state.sync_effect_sections(&[]);
    assert!(state.effect_sections.is_empty());
}

#[test]
fn releases_and_cursor_lock() {
    let mut state = InspectorState::new();
    assert!(!state.pointer_released(false, false, false, false, false));
    assert!(state.pointer_released(false, false, false, true, false));
    assert!(!state.is_cursor_lock_dragging());
    state.pointer_pressed(InspectorHit::ValueControl(ControlDrag::PointerLocked), false, false);
    assert!(state.is_cursor_lock_dragging());
    assert!(state.pointer_released(true, false, false, false, false));
    assert!(!state.is_cursor_lock_dragging());
    state.pointer_pressed(InspectorHit::ValueControl(ControlDrag::Free), false, false);
    assert!(!state.is_cursor_lock_dragging());
}

use kama_panels::inspector::{
    EnumTarget, EnumValue, InspectorCommand, InspectorHit, InspectorRequest, InspectorSection, VectorLink,
};

#[test]
fn context_menu_entries_copy_and_paste() {
    let mut state = InspectorState::new();
    state.context_menu_open = true;
    assert_eq!(state.pointer_pressed(InspectorHit::MenuArea, false, true), (true, InspectorCommand::Nothing));
    assert!(state.context_menu_open);
    assert_eq!(state.pointer_pressed(InspectorHit::MenuEntry(0), false, false), (true, InspectorCommand::CopyValue));
    assert!(!state.context_menu_open);
    state.context_menu_open = true;
    assert_eq!(state.pointer_pressed(InspectorHit::MenuEntry(1), false, false), (true, InspectorCommand::Nothing));
    state.context_menu_open = true;
    assert_eq!(state.pointer_pressed(InspectorHit::MenuEntry(1), false, true), (true, InspectorCommand::PasteValue));
    state.context_menu_open = true;
    assert_eq!(state.pointer_pressed(InspectorHit::Consumed, false, true), (true, InspectorCommand::Nothing));
    assert!(!state.context_menu_open);
}

#[test]
fn presses_focus_editors_and_choose_options() {
    let mut state = InspectorState::new();
    state.pointer_pressed(InspectorHit::SummaryField(1), false, false);
    assert_eq!(state.focused_editor, Some(InspectorEditor::ClipEnd));
    state.pointer_pressed(InspectorHit::TextField, false, false);
    assert_eq!(state.focused_editor, Some(InspectorEditor::Text));
    let switch = InspectorHit::EnumOption { target: EnumTarget::Plugin { boolean: true }, index: 2 };
    assert_eq!(
        state.pointer_pressed(switch, false, false),
        (true, InspectorCommand::SetEnum(EnumTarget::Plugin { boolean: true }, EnumValue::Bool(true)))
    );
    assert_eq!(state.focused_editor, None);
    let choice = InspectorHit::EnumOption { target: EnumTarget::Plugin { boolean: false }, index: 3 };
    assert_eq!(
        state.pointer_pressed(choice, false, false).1,
        InspectorCommand::SetEnum(EnumTarget::Plugin { boolean: false }, EnumValue::Enum(3))
    );
    let blend = InspectorHit::EnumOption { target: EnumTarget::BlendMode, index: 0 };
    assert_eq!(
        state.pointer_pressed(blend, false, false).1,
        InspectorCommand::SetEnum(EnumTarget::BlendMode, EnumValue::Index(0))
    );
    state.focused_editor = Some(InspectorEditor::Text);
    assert_eq!(state.pointer_pressed(InspectorHit::Outside, false, false), (false, InspectorCommand::Nothing));
    assert_eq!(state.focused_editor, None);
}

#[test]
fn presses_ask_for_pipeline_and_effect_changes() {
    let mut state = InspectorState::new();
    state.pointer_pressed(InspectorHit::PipelineName, false, false);
    assert_eq!(state.take_action(), Some(InspectorRequest::ChoosePipeline));
    state.pipeline_id = Some(4);
    state.pointer_pressed(InspectorHit::PipelineName, false, false);
    assert_eq!(state.focused_editor, Some(InspectorEditor::PipelineName));
    assert_eq!(state.take_action(), None);
    state.pointer_pressed(InspectorHit::PipelineButton(1), false, false);
    assert_eq!(state.take_action(), Some(InspectorRequest::MakeIndependent));
    state.pointer_pressed(InspectorHit::PipelineButton(7), false, false);
    assert_eq!(state.take_action(), Some(InspectorRequest::OpenGraph));
    state.pointer_pressed(InspectorHit::EffectAction { node: 9, index: 0 }, false, false);
    assert_eq!(state.take_action(), Some(InspectorRequest::MoveEffect(9, -1)));
    assert_eq!(
        state.pointer_pressed(InspectorHit::EffectAction { node: 9, index: 2 }, false, false),
        (true, InspectorCommand::ToggleEffectEnabled(9))
    );
    state.pointer_pressed(InspectorHit::EffectAction { node: 9, index: 4 }, false, false);
    assert_eq!(state.take_action(), Some(InspectorRequest::RemoveEffect(9)));
    state.pointer_pressed(InspectorHit::FontField, false, false);
    assert_eq!(state.take_action(), Some(InspectorRequest::ChooseFont));
}

#[test]
fn presses_fold_sections_and_link_vectors() {
    let mut state = InspectorState::new();
    state.pointer_pressed(InspectorHit::SectionHeader(InspectorSection::Transform), false, false);
    assert_eq!(state.collapsed, vec![InspectorSection::Transform]);
    state.pointer_pressed(InspectorHit::SectionHeader(InspectorSection::Transform), false, false);
    assert!(state.collapsed.is_empty());
    assert_eq!(state.pointer_pressed(InspectorHit::SectionHeader(InspectorSection::MediaAudio), true, false).0, true);
    assert_eq!(state.collapsed, vec![InspectorSection::MediaAudio]);
    assert_eq!(state.pointer_pressed(InspectorHit::Outside, true, false).0, false);
    assert_eq!(state.vector_links.len(), 2);
    state.pointer_pressed(InspectorHit::VectorLink(VectorLink::Transform("scale".to_string())), false, false);
    assert_eq!(state.vector_links.len(), 1);
    assert!(matches!(&state.vector_links[0], VectorLink::Model3dClip(name) if name == "scale"));
    state.pointer_pressed(InspectorHit::VectorLink(VectorLink::Transform("scale".to_string())), false, false);
    assert_eq!(state.vector_links.len(), 2);
    state.sync_effect_sections(&[5]);
    state.pointer_pressed(InspectorHit::EffectSection(5), false, false);
    assert_eq!(state.effect_sections, vec![(5, false)]);
    state.pointer_pressed(InspectorHit::EffectSection(6), false, false);
    assert_eq!(state.effect_sections, vec![(5, false)]);
}

use kama_panels::inspector::{effect_occurrences, effect_paste_destination};

#[test]
fn pasted_effects_find_the_same_occurrence() {
    let path = vec![(1u64, "blur".to_string()), (2, "glow".to_string()), (3, "blur".to_string())];
    assert_eq!(effect_occurrences(&path), vec![0, 0, 1]);
    assert_eq!(effect_paste_destination(&path, &"blur".to_string(), 1), Some(3));
    assert_eq!(effect_paste_destination(&path, &"blur".to_string(), 0), Some(1));
    assert_eq!(effect_paste_destination(&path, &"glow".to_string(), 1), None);
    assert_eq!(effect_paste_destination(&path, &"sharpen".to_string(), 0), None);
    assert!(effect_occurrences(&[]).is_empty());
}

#[test]
fn picker_and_option_lists_close() {
    let mut state = InspectorState::new();
    state.pointer_pressed(InspectorHit::ColorSwatch, false, false);
    assert!(state.color_picker_open);
    state.pointer_pressed(InspectorHit::ColorPicker, false, false);
    assert!(state.color_picker_open);
    state.choice_list_open = true;
    state.set_focused(false);
    assert!(!state.color_picker_open);
    assert!(!state.choice_list_open);
    state.pointer_pressed(InspectorHit::EnumToggle, true, false);
    assert!(state.choice_list_open);
    state.pointer_pressed(InspectorHit::Outside, true, false);
    assert!(state.choice_list_open);
    state.pointer_pressed(InspectorHit::Keyframe, true, false);
    assert!(!state.choice_list_open);
    state.choice_list_open = true;
    state.pointer_pressed(InspectorHit::TextField, false, false);
    assert!(!state.choice_list_open);
}

use kama_panels::graph_state::EditResponse;
use kama_panels::inspector::{inspector_title, InspectorEdit, TrackKind};

#[test]
fn titles_name_the_clip_or_the_track() {
    assert_eq!(inspector_title(Some("Intro"), Some((TrackKind::Video, "V1"))), Some("Clip: Intro".to_string()));
    assert_eq!(inspector_title(None, Some((TrackKind::Audio, "Music"))), Some("Audio Track: Music".to_string()));
    assert_eq!(inspector_title(None, Some((TrackKind::Effect, "Fx"))), Some("Effect Track: Fx".to_string()));
    assert_eq!(inspector_title(None, None), None);
}

#[test]
fn keys_go_to_controls_then_editors_in_order() {
    let idle = EditResponse { handled: false, changed: false };
    let took = EditResponse { handled: true, changed: false };
    let changed = EditResponse { handled: true, changed: true };
    let mut state = InspectorState::new();
    assert_eq!(state.handle_key(true, true, true, changed, idle, idle, idle), InspectorEdit::Angle);
    assert_eq!(state.handle_key(false, true, true, changed, idle, idle, idle), InspectorEdit::Number);
    assert_eq!(state.handle_key(false, false, true, changed, idle, idle, idle), InspectorEdit::Color);
    assert_eq!(state.handle_key(false, false, false, idle, changed, idle, idle), InspectorEdit::Changed(InspectorEditor::ClipStart));
    assert_eq!(state.handle_key(false, false, false, idle, took, changed, idle), InspectorEdit::Unchanged);
    assert_eq!(state.handle_ime(false, false, false, idle, idle, idle, changed), InspectorEdit::Unchanged);
    state.pipeline_id = Some(3);
    assert_eq!(state.handle_ime(false, false, false, idle, idle, idle, changed), InspectorEdit::Changed(InspectorEditor::PipelineName));
    assert_eq!(state.handle_key(false, false, false, idle, idle, idle, idle), InspectorEdit::Ignored);
}
