use kama_panels::project::{Composition, Project};
use kama_panels::project_options::{
    find_composition, OptionsEditOutcome, ProjectNumberField, ProjectOptionsState, ResolutionPreset,
    RESOLUTION_PRESET_COUNT,
};

fn project() -> Project {
    Project {
        compositions: vec![
            Composition { id: 1, canvas_size: [640, 480], clips: Vec::new() },
            Composition { id: 2, canvas_size: [100, 100], clips: Vec::new() },
        ],
        media: Vec::new(),
        pipelines: Vec::new(),
        active_composition: 1,
    }
}

#[test]
fn presets_in_chooser_order() {
    assert_eq!(RESOLUTION_PRESET_COUNT, 9);
    assert_eq!(ResolutionPreset::at(0), Some(ResolutionPreset::Custom));
    assert_eq!(ResolutionPreset::at(8), Some(ResolutionPreset::Square));
    assert_eq!(ResolutionPreset::at(9), None);
    assert_eq!(ResolutionPreset::Hd.label(), "HD: 1280 × 720");
    assert_eq!(ResolutionPreset::Dci4k.label(), "DCI 4K: 4096×2160");
    assert_eq!(ResolutionPreset::Custom.dimensions(), None);
    assert_eq!(ResolutionPreset::VerticalFullHd.dimensions(), Some([1080, 1920]));
}

#[test]
fn index_for_finds_preset_or_custom() {
    assert_eq!(ResolutionPreset::index_for([1920, 1080]), 2);
    assert_eq!(ResolutionPreset::index_for([1080, 1080]), 8);
    assert_eq!(ResolutionPreset::index_for([1080, 1920]), 7);
    assert_eq!(ResolutionPreset::index_for([1920, 1081]), 0);
    assert_eq!(ResolutionPreset::index_for([0, 0]), 0);
}

#[test]
fn applied_preset_is_shown_by_the_chooser() {
    for index in 1..RESOLUTION_PRESET_COUNT {
        let mut p = project();
        let mut state = ProjectOptionsState::new();
        state.apply_resolution_preset(index, &mut p, 2);
        let size = ResolutionPreset::at(index).unwrap().dimensions().unwrap();
        assert_eq!(p.compositions[1].canvas_size, size);
        assert_eq!(p.compositions[0].canvas_size, [640, 480]);
        state.sync_preset(p.compositions[1].canvas_size);
        assert_eq!(state.preset_selected, index);
    }
}

#[test]
fn custom_or_unknown_changes_nothing() {
    let state = ProjectOptionsState::new();
    let mut p = project();
    state.apply_resolution_preset(0, &mut p, 1);
    assert_eq!(p.compositions[0].canvas_size, [640, 480]);
    state.apply_resolution_preset(42, &mut p, 1);
    assert_eq!(p.compositions[0].canvas_size, [640, 480]);
    state.apply_resolution_preset(3, &mut p, 99);
    assert_eq!(p.compositions[0].canvas_size, [640, 480]);
    assert_eq!(p.compositions[1].canvas_size, [100, 100]);
}

#[test]
fn open_chooser_keeps_its_entry() {
    let mut state = ProjectOptionsState::new();
    state.preset_open = true;
    state.preset_selected = 5;
    state.sync_preset([1920, 1080]);
    assert_eq!(state.preset_selected, 5);
    state.preset_open = false;
    state.sync_preset([1920, 1080]);
    assert_eq!(state.preset_selected, 2);
}

#[test]
fn losing_focus_closes_everything() {
    let mut state = ProjectOptionsState::new();
    state.editing = Some(ProjectNumberField::FrameRate);
    state.preset_open = true;
    state.color_open = true;
    state.preset_selected = 3;
    let before = state;
    state.set_focused(true);
    assert_eq!(state, before);
    state.set_focused(false);
    assert_eq!(state.editing, None);
    assert!(!state.preset_open);
    assert!(!state.color_open);
    assert_eq!(state.preset_selected, 3);
}

#[test]
fn keys_go_to_color_then_number() {
    let mut state = ProjectOptionsState::new();
    assert_eq!(state.handle_key(false), OptionsEditOutcome::Ignored);
    assert_eq!(state.handle_key(true), OptionsEditOutcome::ApplyColor);
    state.editing = Some(ProjectNumberField::ResolutionY);
    assert_eq!(state.handle_key(false), OptionsEditOutcome::EditNumber(ProjectNumberField::ResolutionY));
    assert_eq!(state.handle_ime(true), OptionsEditOutcome::ApplyColor);
    assert_eq!(state.handle_ime(false), OptionsEditOutcome::EditNumber(ProjectNumberField::ResolutionY));
}

#[test]
fn widget_states_combine() {
    let mut state = ProjectOptionsState::new();
    assert!(!state.is_animating(false, false, false));
    assert!(state.is_animating(false, false, true));
    assert!(!state.is_value_dragging());
    state.value_drag = true;
    assert!(state.is_value_dragging());
    assert!(state.pointer_released(false, true));
    assert!(!state.is_value_dragging());
    assert!(!state.pointer_released(false, false));
}

#[test]
fn first_composition_with_id() {
    let mut p = project();
    p.compositions.push(Composition { id: 2, canvas_size: [1, 1], clips: Vec::new() });
    assert_eq!(find_composition(&p.compositions, 2), Some(1));
    assert_eq!(find_composition(&p.compositions, 3), None);
}

use kama_panels::project_options::OptionsCaret;

#[test]
fn caret_goes_to_color_picker_first() {
    let state = ProjectOptionsState::new();
    assert_eq!(state.ime_area(true), OptionsCaret::ColorPicker);
    assert_eq!(state.ime_area(false), OptionsCaret::Numbers);
}
