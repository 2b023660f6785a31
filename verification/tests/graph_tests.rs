use kama_panels::graph::{
    card_index, graph_card_draw_order, graph_stable_fallback, GraphMonitorSelection, GraphNodeTarget,
    PipelineGraphAction, Rgb8,
};
use kama_panels::graph_state::{CaretOwner, EditResponse, NameEditOutcome, PipelineGraphState};
use kama_panels::input::{ControlDrag, PanelKey};
use kama_panels::project::PipelineInfo;
use kama_panels::PipelineKind;

#[test]
fn fallback_position_depends_on_identity_not_collection_order() {
    let a = graph_stable_fallback(GraphNodeTarget::Shared(17));
    let b = graph_stable_fallback(GraphNodeTarget::Shared(29));
    assert_eq!(a, graph_stable_fallback(GraphNodeTarget::Shared(17)));
    assert_eq!(b, graph_stable_fallback(GraphNodeTarget::Shared(29)));
    assert_ne!(a, b);
}

#[test]
fn fallback_positions_by_kind() {
    assert_eq!(graph_stable_fallback(GraphNodeTarget::Input), [24, 100]);
    assert_eq!(graph_stable_fallback(GraphNodeTarget::Output), [820, 100]);
    assert_eq!(graph_stable_fallback(GraphNodeTarget::Local(2)), [540, 364]);
    assert_eq!(graph_stable_fallback(GraphNodeTarget::Shared(0)), [292, 100]);
    assert_eq!(graph_stable_fallback(GraphNodeTarget::Shared(1)), [292, 100]);
    assert_eq!(graph_stable_fallback(GraphNodeTarget::Shared(3)), [292, 580]);
    assert_eq!(graph_stable_fallback(GraphNodeTarget::Value(1)), [44, 360]);
    assert_eq!(graph_stable_fallback(GraphNodeTarget::Value(2)), [44, 540]);
    assert_eq!(
        graph_stable_fallback(GraphNodeTarget::Shared(u64::MAX)),
        [292, 100 + (u64::MAX as u128 - 1) * 240]
    );
}

#[test]
fn header_colors_by_kind() {
    assert_eq!(GraphNodeTarget::Input.header_color(), Rgb8 { r: 0x2f, g: 0x45, b: 0x36 });
    assert_eq!(GraphNodeTarget::Output.header_color(), Rgb8 { r: 0x3a, g: 0x3a, b: 0x3a });
    assert_eq!(GraphNodeTarget::Local(9).header_color(), Rgb8 { r: 0x2d, g: 0x3a, b: 0x48 });
    assert_eq!(GraphNodeTarget::Shared(9).header_color(), Rgb8 { r: 0x4a, g: 0x36, b: 0x20 });
    assert_eq!(GraphNodeTarget::Value(9).header_color(), Rgb8 { r: 0x35, g: 0x2d, b: 0x4a });
}

#[test]
fn card_index_finds_first_occurrence() {
    let cards = [GraphNodeTarget::Input, GraphNodeTarget::Local(4), GraphNodeTarget::Local(4)];
    assert_eq!(card_index(&cards, GraphNodeTarget::Local(4)), Some(1));
    assert_eq!(card_index(&cards, GraphNodeTarget::Output), None);
}

#[test]
fn draw_order_puts_unraised_cards_first() {
    let cards = [
        GraphNodeTarget::Input,
        GraphNodeTarget::Local(1),
        GraphNodeTarget::Shared(2),
        GraphNodeTarget::Output,
    ];
    assert_eq!(graph_card_draw_order(&cards, &[]), vec![0, 1, 2, 3]);
    let z = [GraphNodeTarget::Shared(2), GraphNodeTarget::Local(1)];
    assert_eq!(graph_card_draw_order(&cards, &z), vec![0, 3, 2, 1]);
}

#[test]
fn raised_card_is_drawn_last() {
    let cards = [GraphNodeTarget::Local(1), GraphNodeTarget::Shared(2), GraphNodeTarget::Value(3)];
    let mut state = PipelineGraphState::new();
    state.bring_to_front(GraphNodeTarget::Local(1));
    state.bring_to_front(GraphNodeTarget::Shared(2));
    state.bring_to_front(GraphNodeTarget::Local(1));
    assert_eq!(state.z_order, vec![GraphNodeTarget::Shared(2), GraphNodeTarget::Local(1)]);
    let order = graph_card_draw_order(&cards, &state.z_order);
    assert_eq!(order, vec![2, 1, 0]);
    assert_eq!(*order.last().unwrap(), 0);
}

#[test]
fn losing_focus_ends_drags_but_the_view_drag() {
    let mut state = PipelineGraphState::new();
    state.drag = Some(GraphNodeTarget::Local(1));
    state.group_drag = true;
    state.block_selection = Some(vec![GraphNodeTarget::Local(2)]);
    state.pan_drag = false;
    assert!(state.is_dragging(ControlDrag::Idle));
    state.set_focused(false);
    assert!(!state.is_dragging(ControlDrag::Idle));
    assert!(state.is_dragging(ControlDrag::Free));
    assert!(state.drag.is_none());
    assert!(!state.group_drag);
    assert!(state.block_selection.is_none());

    let mut panning = PipelineGraphState::new();
    panning.pan_drag = true;
    panning.set_focused(false);
    assert!(panning.is_dragging(ControlDrag::Idle));

    let mut kept = PipelineGraphState::new();
    kept.drag = Some(GraphNodeTarget::Input);
    kept.set_focused(true);
    assert_eq!(kept.drag, Some(GraphNodeTarget::Input));
}

#[test]
fn delete_key_queues_removal_once() {
    let mut state = PipelineGraphState::new();
    state.select_single_node(GraphNodeTarget::Local(7));
    assert!(state.handle_key(PanelKey::Delete));
    assert!(state.selected_nodes.is_empty());
    assert!(state.selected_node.is_none());
    match state.take_action() {
        Some(PipelineGraphAction::Remove(target)) => assert_eq!(target, GraphNodeTarget::Local(7)),
        other => panic!("unexpected action {:?}", other),
    }
    assert!(state.take_action().is_none());
    assert!(!state.handle_key(PanelKey::Delete));
    assert!(state.take_action().is_none());
}

#[test]
fn delete_key_removes_several_in_listing_order() {
    let mut state = PipelineGraphState::new();
    state.selected_nodes = vec![
        GraphNodeTarget::Output,
        GraphNodeTarget::Shared(5),
        GraphNodeTarget::Local(9),
        GraphNodeTarget::Local(2),
    ];
    assert!(state.handle_key(PanelKey::Backspace));
    match state.take_action() {
        Some(PipelineGraphAction::RemoveMany(list)) => assert_eq!(
            list,
            vec![GraphNodeTarget::Local(2), GraphNodeTarget::Local(9), GraphNodeTarget::Shared(5)]
        ),
        other => panic!("unexpected action {:?}", other),
    }
}

#[test]
fn delete_key_ignores_input_output_and_renames() {
    let mut state = PipelineGraphState::new();
    state.selected_nodes = vec![GraphNodeTarget::Input, GraphNodeTarget::Output];
    assert!(!state.handle_key(PanelKey::Delete));
    assert!(state.take_action().is_none());
    assert_eq!(state.selected_nodes.len(), 2);

    let mut renaming = PipelineGraphState::new();
    renaming.select_single_node(GraphNodeTarget::Local(1));
    renaming.renaming = true;
    assert!(!renaming.handle_key(PanelKey::Delete));
    assert!(renaming.take_action().is_none());

    let mut other = PipelineGraphState::new();
    other.select_single_node(GraphNodeTarget::Local(1));
    assert!(!other.handle_key(PanelKey::ArrowUp));
}

#[test]
fn name_edits_rename_only_while_renaming() {
    let mut state = PipelineGraphState::new();
    let changed = EditResponse { handled: true, changed: true };
    let moved = EditResponse { handled: true, changed: false };
    let ignored = EditResponse { handled: false, changed: false };
    assert_eq!(state.handle_ime(changed), NameEditOutcome::Ignored);
    state.renaming = true;
    assert_eq!(state.handle_ime(changed), NameEditOutcome::Handled);
    state.pipeline_id = Some(12);
    assert_eq!(state.handle_ime(changed), NameEditOutcome::Rename(12));
    assert_eq!(state.handle_ime(moved), NameEditOutcome::Handled);
    assert_eq!(state.handle_ime(ignored), NameEditOutcome::Ignored);
}

#[test]
fn caret_owner_prefers_color_picker() {
    let mut state = PipelineGraphState::new();
    assert_eq!(state.ime_area(true, true), CaretOwner::ColorPicker);
    assert_eq!(state.ime_area(false, true), CaretOwner::Controls);
    state.renaming = true;
    state.pipeline_id = Some(3);
    assert_eq!(state.ime_area(false, true), CaretOwner::PipelineName);
    assert_eq!(state.ime_area(false, false), CaretOwner::Controls);
    assert_eq!(state.ime_area(true, true), CaretOwner::ColorPicker);
}

#[test]
fn monitor_follows_selected_node() {
    let mut state = PipelineGraphState::new();
    assert_eq!(state.monitor_selection(Some(4)), None);
    state.selected_node = Some(GraphNodeTarget::Local(6));
    assert_eq!(state.monitor_selection(None), Some(GraphMonitorSelection::Local { node: 6 }));
    state.selected_node = Some(GraphNodeTarget::Shared(8));
    assert_eq!(
        state.monitor_selection(Some(4)),
        Some(GraphMonitorSelection::Shared { pipeline: 4, node: 8, follows_clip: true })
    );
    assert_eq!(state.monitor_selection(None), None);
    state.pinned_pipeline = Some(9);
    assert_eq!(
        state.monitor_selection(Some(4)),
        Some(GraphMonitorSelection::Shared { pipeline: 9, node: 8, follows_clip: false })
    );
    state.selected_node = Some(GraphNodeTarget::Local(6));
    assert_eq!(state.monitor_selection(Some(4)), None);
    state.selected_node = Some(GraphNodeTarget::Output);
    assert_eq!(state.monitor_selection(Some(4)), None);
}

#[test]
fn pinned_pipeline_decides_kind_and_target() {
    let pipelines = vec![
        PipelineInfo { id: 1, kind: PipelineKind::Video, name: "Grade".to_string() },
        PipelineInfo { id: 2, kind: PipelineKind::Audio, name: "Voice".to_string() },
    ];
    let mut state = PipelineGraphState::new();
    assert_eq!(state.graph_kind(&pipelines, PipelineKind::Video), PipelineKind::Video);
    assert_eq!(state.target_pipeline(&pipelines, PipelineKind::Video, Some(1)), Some(1));
    assert_eq!(state.target_pipeline(&pipelines, PipelineKind::Video, Some(2)), None);
    state.pinned_pipeline = Some(2);
    assert!(state.is_pinned());
    assert_eq!(state.graph_kind(&pipelines, PipelineKind::Video), PipelineKind::Audio);
    assert_eq!(state.target_pipeline(&pipelines, PipelineKind::Video, Some(1)), Some(2));
    state.pinned_pipeline = Some(77);
    assert_eq!(state.graph_kind(&pipelines, PipelineKind::Audio), PipelineKind::Audio);
    assert_eq!(state.target_pipeline(&pipelines, PipelineKind::Audio, Some(2)), Some(2));
}

#[test]
fn animating_and_cursor_lock_pass_through() {
    let state = PipelineGraphState::new();
    assert!(!state.is_animating(false, false, false));
    assert!(state.is_animating(false, true, false));
    assert!(state.is_cursor_lock_dragging(ControlDrag::PointerLocked));
    assert!(state.is_dragging(ControlDrag::PointerLocked));
    assert!(!state.is_cursor_lock_dragging(ControlDrag::Free));
    assert!(!state.is_cursor_lock_dragging(ControlDrag::Idle));
}

use kama_panels::graph::{GraphPropertyKey, GraphWire};
use kama_panels::graph_state::{GraphContextTarget, GraphRightPress};

#[test]
fn right_press_on_cards_wires_and_canvas() {
    let mut state = PipelineGraphState::new();
    let action = state.pointer_right_pressed(GraphRightPress::Card { target: GraphNodeTarget::Shared(3), property: None });
    assert!(matches!(action, PipelineGraphAction::Nothing));
    assert_eq!(state.selected_nodes, vec![GraphNodeTarget::Shared(3)]);
    assert_eq!(state.z_order, vec![GraphNodeTarget::Shared(3)]);
    assert!(matches!(state.context_menu, Some(GraphContextTarget::Node(GraphNodeTarget::Shared(3)))));

    let key = GraphPropertyKey { target: GraphNodeTarget::Shared(3), input: "radius".to_string() };
    state.pointer_right_pressed(GraphRightPress::Card { target: GraphNodeTarget::Shared(3), property: Some(key) });
    match &state.context_menu {
        Some(GraphContextTarget::Property(k)) => assert_eq!(k.input, "radius"),
        other => panic!("unexpected menu {:?}", other),
    }

    state.pointer_right_pressed(GraphRightPress::Card { target: GraphNodeTarget::Output, property: None });
    assert!(state.context_menu.is_none());
    assert_eq!(state.selected_node, Some(GraphNodeTarget::Output));

    let wire = GraphWire::LocalImage { source: Some(1), destination: Some(2) };
    state.pointer_right_pressed(GraphRightPress::Wire(wire.clone()));
    assert!(state.selected_nodes.is_empty());
    assert!(state.selected_wire == Some(wire.clone()));
    assert!(matches!(state.context_menu, Some(GraphContextTarget::Wire(_))));

    let action = state.pointer_right_pressed(GraphRightPress::Empty);
    assert!(matches!(action, PipelineGraphAction::InsertNode));
    assert!(state.selected_wire.is_none());
    assert!(state.context_menu.is_none());

    state.pointer_right_pressed(GraphRightPress::PipelineSelector);
    assert!(matches!(state.context_menu, Some(GraphContextTarget::PipelineSelector)));
    state.pointer_right_pressed(GraphRightPress::OutsideCanvas);
    assert!(state.context_menu.is_none());
}

use kama_panels::graph::{ChoiceValue, GraphControlTarget};
use kama_panels::graph::InputHit;

#[test]
fn release_ends_view_drag_and_card_drags() {
    let mut state = PipelineGraphState::new();
    state.pan_drag = true;
    state.group_drag = true;
    state.drag = Some(GraphNodeTarget::Local(1));
    let action = state.pointer_released(&[], &[], &[], false, &[]);
    assert!(matches!(action, PipelineGraphAction::Nothing));
    assert!(!state.pan_drag && !state.group_drag && state.drag.is_none());

    let mut band = PipelineGraphState::new();
    band.pan_drag = true;
    band.block_selection = Some(Vec::new());
    let cards = [GraphNodeTarget::Input, GraphNodeTarget::Local(2)];
    band.pointer_released(&cards, &[true, true], &[InputHit { image_input: false, named_image_input: None, value_input: None }, InputHit { image_input: false, named_image_input: None, value_input: None }], false, &[]);
    assert!(!band.pan_drag);
    assert!(band.block_selection.is_none());
    assert_eq!(band.selected_node, Some(GraphNodeTarget::Local(2)));
}

#[test]
fn dropped_shared_card_is_inserted_into_a_wire() {
    let mut state = PipelineGraphState::new();
    state.drag = Some(GraphNodeTarget::Shared(4));
    let own = GraphWire::Image { source: Some(4), destination: Some(7), input: Some("a".to_string()) };
    let other = GraphWire::Image { source: Some(1), destination: Some(7), input: Some("b".to_string()) };
    match state.pointer_released(&[], &[], &[], false, &[own, other]) {
        PipelineGraphAction::InsertNodeOnWire { node, source, destination, destination_input } => {
            assert_eq!((node, source, destination), (4, Some(1), Some(7)));
            assert_eq!(destination_input, Some("b".to_string()));
        },
        other => panic!("unexpected action {:?}", other),
    }
    assert!(state.drag.is_none());
}

#[test]
fn pipeline_chooser_and_option_picks() {
    let pipelines = vec![
        PipelineInfo { id: 11, kind: PipelineKind::Video, name: "A".to_string() },
        PipelineInfo { id: 12, kind: PipelineKind::Video, name: "B".to_string() },
    ];
    let mut state = PipelineGraphState::new();
    assert!(matches!(state.choose_pipeline_option(0, &pipelines), Some(PipelineGraphAction::SelectPipeline(None))));
    assert!(matches!(state.choose_pipeline_option(2, &pipelines), Some(PipelineGraphAction::SelectPipeline(Some(12)))));
    assert!(matches!(state.choose_pipeline_option(3, &pipelines), Some(PipelineGraphAction::SelectPipeline(None))));
    state.renaming = true;
    assert!(state.choose_pipeline_option(1, &pipelines).is_none());
    let key = GraphPropertyKey { target: GraphNodeTarget::Shared(3), input: "mode".to_string() };
    match state.choose_property_option(key, 2, true) {
        PipelineGraphAction::SetEffectChoice { target, input, value } => {
            assert_eq!(target, GraphNodeTarget::Shared(3));
            assert_eq!(input, "mode");
            assert_eq!(value, ChoiceValue::Bool(true));
        },
        other => panic!("unexpected action {:?}", other),
    }
    assert!(!state.renaming);
    assert!(!state.frame_all(&[]));
    assert!(state.frame_all(&[GraphNodeTarget::Input]));
}

#[test]
fn link_toggle_selects_the_card() {
    let mut state = PipelineGraphState::new();
    state.toggle_property_link(GraphControlTarget::ValueNode(5));
    assert_eq!(state.property_links.len(), 1);
    assert_eq!(state.selected_nodes, vec![GraphNodeTarget::Value(5)]);
    assert_eq!(state.z_order, vec![GraphNodeTarget::Value(5)]);
    state.toggle_property_link(GraphControlTarget::ValueNode(5));
    assert!(state.property_links.is_empty());
}

#[test]
fn losing_focus_closes_name_chooser_and_picker() {
    let mut state = PipelineGraphState::new();
    state.pipeline_id = Some(4);
    assert!(state.begin_pipeline_rename());
    assert!(state.renaming && state.name_focused);
    state.set_focused(false);
    assert!(!state.name_focused);
    assert!(state.renaming);
    let mut state = PipelineGraphState::new();
    assert!(state.press_pipeline_chooser());
    assert!(state.chooser_open);
    state.press_color_swatch(kama_panels::graph::GraphControlTarget::ValueNode(3));
    assert!(state.color_target.is_some());
    assert_eq!(state.selected_node, Some(GraphNodeTarget::Value(3)));
    state.set_focused(false);
    assert!(!state.chooser_open);
    assert!(state.color_target.is_none());
}

#[test]
fn rename_closes_chooser_and_chooser_waits_for_rename() {
    let mut state = PipelineGraphState::new();
    state.pipeline_id = Some(4);
    state.press_pipeline_chooser();
    assert!(state.chooser_open);
    state.begin_pipeline_rename();
    assert!(!state.chooser_open);
    assert!(!state.press_pipeline_chooser());
    assert!(!state.chooser_open);
    let pipelines = vec![PipelineInfo { id: 12, kind: PipelineKind::Video, name: "a".to_string() }];
    let mut state = PipelineGraphState::new();
    state.press_pipeline_chooser();
    assert!(state.choose_pipeline_option(1, &pipelines).is_some());
    assert!(!state.chooser_open);
}

use kama_panels::graph::PendingGraphWire;
use kama_panels::graph_state::GraphPress;
use kama_panels::input::Modifiers;

fn plain() -> Modifiers {
    Modifiers { shift: false, control: false, alt: false, super_key: false }
}

#[test]
fn left_press_follows_the_hit_order() {
    let pipelines = vec![PipelineInfo { id: 12, kind: PipelineKind::Video, name: "a".to_string() }];
    let mut state = PipelineGraphState::new();
    state.pipeline_id = Some(12);
    state.context_menu = Some(GraphContextTarget::PipelineSelector);
    let action = state.pointer_pressed(GraphPress::MenuEntry { index: 0, enabled: true, input_is_override: false }, plain(), &pipelines);
    assert!(matches!(action, PipelineGraphAction::Nothing));
    assert!(state.context_menu.is_none());
    assert!(state.renaming && state.name_focused);
    state.pointer_pressed(GraphPress::Chooser, plain(), &pipelines);
    assert!(!state.chooser_open);
    state.renaming = false;
    state.pointer_pressed(GraphPress::Chooser, plain(), &pipelines);
    assert!(state.chooser_open);
    let action = state.pointer_pressed(GraphPress::ChooserOption(1), plain(), &pipelines);
    assert!(matches!(action, PipelineGraphAction::SelectPipeline(Some(12))));
    assert!(!state.chooser_open);

    state.press_color_swatch(kama_panels::graph::GraphControlTarget::ValueNode(4));
    state.pointer_pressed(GraphPress::ColorPicker, plain(), &pipelines);
    assert!(state.color_target.is_some());
    state.pointer_pressed(GraphPress::Card(GraphNodeTarget::Local(2)), plain(), &pipelines);
    assert!(state.color_target.is_none());
    assert_eq!(state.selected_node, Some(GraphNodeTarget::Local(2)));
    assert_eq!(state.drag, Some(GraphNodeTarget::Local(2)));

    let wire = GraphWire::LocalImage { source: None, destination: Some(2) };
    let action = state.pointer_pressed(
        GraphPress::ConnectedInput { pending: PendingGraphWire::LocalImage(None), wire: wire.clone() },
        plain(),
        &pipelines,
    );
    assert!(matches!(action, PipelineGraphAction::DeleteWire(w) if w == wire));
    assert_eq!(state.pending_wire, Some(PendingGraphWire::LocalImage(None)));

    let action = state.pointer_pressed(GraphPress::HostKeyframe(GraphNodeTarget::Shared(5)), plain(), &pipelines);
    assert!(matches!(action, PipelineGraphAction::ToggleHostKeyframe { target: GraphNodeTarget::Shared(5), input } if input == "band_values"));
    assert_eq!(state.z_order.last(), Some(&GraphNodeTarget::Shared(5)));

    state.pointer_pressed(GraphPress::Empty { inside_canvas: false }, plain(), &pipelines);
    assert!(state.selected_nodes.is_empty());
    assert!(state.pending_wire.is_none());
}

#[test]
fn a_chooser_pick_leaves_the_pin_to_the_caller() {
    let pipelines = vec![PipelineInfo { id: 12, kind: PipelineKind::Video, name: "a".to_string() }];
    let mut state = PipelineGraphState::new();
    state.open_pipeline(30);
    state.pointer_pressed(GraphPress::Chooser, plain(), &pipelines);
    let action = state.pointer_pressed(GraphPress::ChooserOption(1), plain(), &pipelines);
    assert!(matches!(action, PipelineGraphAction::SelectPipeline(Some(12))));
    assert_eq!(state.pinned_pipeline, Some(30));
    state.pointer_pressed(GraphPress::Empty { inside_canvas: true }, plain(), &pipelines);
    assert_eq!(state.pinned_pipeline, Some(30));
}

#[test]
fn right_presses_releases_and_keys_keep_the_pin() {
    let mut state = PipelineGraphState::new();
    state.open_pipeline(30);
    state.pointer_right_pressed(GraphRightPress::PipelineSelector);
    assert_eq!(state.pinned_pipeline, Some(30));
    state.pointer_released(&[], &[], &[], false, &[]);
    assert_eq!(state.pinned_pipeline, Some(30));
    state.handle_key(PanelKey::Delete);
    assert_eq!(state.pinned_pipeline, Some(30));
    state.set_focused(false);
    state.clear_selection();
    assert_eq!(state.pinned_pipeline, Some(30));
    state.follow_selection();
    assert_eq!(state.pinned_pipeline, None);
}
