use kama_panels::input::{Modifiers, PanelKey};
use kama_panels::media::{
    media_context_icon, media_context_items, media_display_order, media_kind_icon, media_kind_label,
    media_kind_sort_key, media_streams, MediaAction, MediaContextItem, MediaContextTarget, MediaDragItem,
    MediaStream,
};
use kama_panels::media_panel::{
    media_list_rows, CompositionSelection, MediaKeyboardSelection, MediaPanelState, MediaPress, MediaRowTarget,
    MediaSelection,
};
use kama_panels::menu::AppIcon;
use kama_panels::project::{Clip, Composition, MediaAsset, MediaKind, MediaTrack, MediaTrackKind, Project};

fn asset(id: u64, name: &str, kind: MediaKind) -> MediaAsset {
    MediaAsset {
        id,
        name: name.to_string(),
        path: format!("/media/{name}"),
        kind,
        has_audio: false,
        duration_millis: None,
        tracks: Vec::new(),
    }
}

fn track(kind: MediaTrackKind, codec: &str) -> MediaTrack {
    MediaTrack { kind, codec: codec.to_string() }
}

fn composition(id: u64) -> Composition {
    Composition { id, canvas_size: [1920, 1080], clips: Vec::new() }
}

fn project(compositions: Vec<Composition>, media: Vec<MediaAsset>) -> Project {
    Project { compositions, media, pipelines: Vec::new(), active_composition: 1 }
}

fn no_modifiers() -> Modifiers {
    Modifiers { shift: false, control: false, alt: false, super_key: false }
}

fn whole(media: u64) -> MediaSelection {
    MediaSelection { media, stream: MediaStream::All }
}

#[test]
fn streams_follow_tracks() {
    let mut clip = asset(1, "clip", MediaKind::Video);
    clip.tracks = vec![
        track(MediaTrackKind::Video, "h264"),
        track(MediaTrackKind::Audio, "aac"),
        track(MediaTrackKind::Audio, "opus"),
    ];
    assert_eq!(
        media_streams(&clip),
        vec![MediaStream::Video(0), MediaStream::Audio(0), MediaStream::Audio(1)]
    );
}

#[test]
fn streams_without_track_list() {
    let mut video = asset(1, "v", MediaKind::Video);
    assert_eq!(media_streams(&video), vec![MediaStream::Video(0)]);
    video.has_audio = true;
    assert_eq!(media_streams(&video), vec![MediaStream::Video(0), MediaStream::Audio(0)]);
    assert_eq!(media_streams(&asset(2, "a", MediaKind::Audio)), vec![MediaStream::Audio(0)]);
    assert!(media_streams(&asset(3, "i", MediaKind::Image { width: 4, height: 4 })).is_empty());
    assert!(media_streams(&asset(4, "m", MediaKind::Model3d)).is_empty());
}

#[test]
fn display_order_groups_kinds_then_lower_case_names() {
    let media = vec![
        asset(10, "b", MediaKind::Audio),
        asset(11, "Zeta", MediaKind::Image { width: 1, height: 1 }),
        asset(12, "alpha", MediaKind::Image { width: 1, height: 1 }),
        asset(13, "clip", MediaKind::Video),
        asset(14, "ALPHA", MediaKind::Image { width: 1, height: 1 }),
    ];
    assert_eq!(media_display_order(&media), vec![2, 4, 1, 3, 0]);
}

#[test]
fn display_order_of_nothing() {
    assert!(media_display_order(&[]).is_empty());
}

#[test]
fn kind_labels_icons_and_groups() {
    assert_eq!(media_kind_label(MediaKind::Image { width: 2, height: 3 }), "Image");
    assert_eq!(media_kind_label(MediaKind::Model3d), "3D model");
    assert_eq!(media_kind_label(MediaKind::WasmPlugin), "CPU/WASM generator");
    assert_eq!(media_kind_label(MediaKind::Unknown), "Unknown media");
    assert_eq!(media_kind_icon(MediaKind::Audio), AppIcon::Audio);
    assert_eq!(media_kind_icon(MediaKind::WasmPlugin), AppIcon::Node);
    assert_eq!(media_kind_sort_key(MediaKind::Image { width: 0, height: 0 }), 0);
    assert_eq!(media_kind_sort_key(MediaKind::Unknown), 5);
}

#[test]
fn context_menu_entries() {
    let items = media_context_items(MediaContextTarget::Empty);
    assert_eq!(
        items,
        vec![
            (MediaContextItem::NewComposition, "New Composition…"),
            (MediaContextItem::Import, "Import media…"),
            (MediaContextItem::ImportClipboard, "Import from clipboard"),
        ]
    );
    assert_eq!(media_context_items(MediaContextTarget::Stream).len(), 1);
    assert_eq!(media_context_icon(MediaContextItem::Remove), AppIcon::Remove);
    assert_eq!(media_context_icon(MediaContextItem::Insert), AppIcon::Timeline);
}

#[test]
fn list_rows_show_open_entries() {
    let mut clip = asset(5, "clip", MediaKind::Video);
    clip.has_audio = true;
    let p = project(vec![composition(1)], vec![clip]);
    let rows = media_list_rows(&p, &vec![1], &vec![5]);
    assert_eq!(
        rows,
        vec![
            MediaKeyboardSelection::Composition(CompositionSelection { composition: 1, stream: MediaStream::All }),
            MediaKeyboardSelection::Composition(CompositionSelection { composition: 1, stream: MediaStream::Video(0) }),
            MediaKeyboardSelection::Composition(CompositionSelection { composition: 1, stream: MediaStream::Audio(0) }),
            MediaKeyboardSelection::Media(whole(5)),
            MediaKeyboardSelection::Media(MediaSelection { media: 5, stream: MediaStream::Video(0) }),
            MediaKeyboardSelection::Media(MediaSelection { media: 5, stream: MediaStream::Audio(0) }),
        ]
    );
    assert_eq!(media_list_rows(&p, &vec![], &vec![]).len(), 2);
}

#[test]
fn arrow_keys_walk_the_rows() {
    let p = project(
        vec![composition(1)],
        vec![asset(7, "b", MediaKind::Audio), asset(8, "a", MediaKind::Video)],
    );
    let mut state = MediaPanelState::new();
    assert!(state.handle_key(PanelKey::ArrowDown, no_modifiers(), &p));
    assert_eq!(
        state.selected_composition(),
        Some(1)
    );
    assert!(state.handle_key(PanelKey::ArrowDown, no_modifiers(), &p));
    assert_eq!(state.selected(), Some(8));
    assert!(state.selected_composition().is_none());
    assert!(state.handle_key(PanelKey::ArrowDown, no_modifiers(), &p));
    assert_eq!(state.selected(), Some(7));
    assert!(state.handle_key(PanelKey::ArrowDown, no_modifiers(), &p));
    assert_eq!(state.selected(), Some(7));
    assert!(state.handle_key(PanelKey::ArrowUp, no_modifiers(), &p));
    assert_eq!(state.selected(), Some(8));
}

#[test]
fn arrow_up_without_selection_takes_last_row() {
    let p = project(vec![composition(1)], vec![asset(7, "b", MediaKind::Audio)]);
    let mut state = MediaPanelState::new();
    assert!(state.handle_key(PanelKey::ArrowUp, no_modifiers(), &p));
    assert_eq!(state.selected(), Some(7));
    assert_eq!(state.selected_with_stream(), Some((7, MediaStream::All)));
}

#[test]
fn keys_left_alone() {
    let p = project(vec![composition(1)], Vec::new());
    let mut state = MediaPanelState::new();
    let control = Modifiers { shift: false, control: true, alt: false, super_key: false };
    assert!(!state.handle_key(PanelKey::ArrowDown, control, &p));
    assert!(!state.handle_key(PanelKey::Delete, no_modifiers(), &p));
    assert!(state.selected_composition().is_none());
    let empty = project(Vec::new(), Vec::new());
    assert!(state.handle_key(PanelKey::ArrowDown, no_modifiers(), &empty));
    assert!(state.selected().is_none());
}

#[test]
fn disclosure_twice_restores_the_rows() {
    let mut clip = asset(5, "clip", MediaKind::Video);
    clip.has_audio = true;
    let p = project(vec![composition(1)], vec![clip]);
    let mut state = MediaPanelState::new();
    let before = state.keyboard_rows(&p);
    let row = MediaRowTarget::Media(whole(5));
    assert!(matches!(state.press_row(row, true, no_modifiers(), &p), MediaAction::Nothing));
    assert_eq!(state.keyboard_rows(&p).len(), before.len() + 2);
    assert!(matches!(state.press_row(row, true, no_modifiers(), &p), MediaAction::Nothing));
    assert_eq!(state.keyboard_rows(&p), before);

    let comp_row = MediaRowTarget::Composition(CompositionSelection { composition: 1, stream: MediaStream::All });
    state.press_row(comp_row, true, no_modifiers(), &p);
    assert_eq!(state.keyboard_rows(&p).len(), before.len() + 2);
    state.press_row(comp_row, true, no_modifiers(), &p);
    assert_eq!(state.keyboard_rows(&p), before);
}

#[test]
fn disclosure_of_media_without_streams_selects_it() {
    let p = project(Vec::new(), vec![asset(3, "pic", MediaKind::Image { width: 2, height: 2 })]);
    let mut state = MediaPanelState::new();
    let action = state.press_row(MediaRowTarget::Media(whole(3)), true, no_modifiers(), &p);
    match action {
        MediaAction::BeginDrag { items, open_on_click } => {
            assert_eq!(items, vec![MediaDragItem::Media { media: 3, stream: MediaStream::All }]);
            assert_eq!(open_on_click, None);
        },
        other => panic!("unexpected action {:?}", other),
    }
    assert_eq!(state.selected(), Some(3));
}

#[test]
fn composition_press_drags_and_opens_on_click() {
    let p = project(vec![composition(4)], Vec::new());
    let mut state = MediaPanelState::new();
    let selection = CompositionSelection { composition: 4, stream: MediaStream::All };
    match state.press_row(MediaRowTarget::Composition(selection), false, no_modifiers(), &p) {
        MediaAction::BeginDrag { items, open_on_click } => {
            assert_eq!(items, vec![MediaDragItem::Composition { composition: 4, stream: MediaStream::All }]);
            assert_eq!(open_on_click, Some(4));
        },
        other => panic!("unexpected action {:?}", other),
    }
    assert_eq!(state.selected_composition(), Some(4));
    let audio = CompositionSelection { composition: 4, stream: MediaStream::Audio(0) };
    match state.press_row(MediaRowTarget::Composition(audio), false, no_modifiers(), &p) {
        MediaAction::BeginDrag { open_on_click, .. } => assert_eq!(open_on_click, None),
        other => panic!("unexpected action {:?}", other),
    }
}

#[test]
fn shift_click_selects_a_range_in_project_order() {
    let p = project(
        Vec::new(),
        vec![
            asset(1, "a", MediaKind::Audio),
            asset(2, "b", MediaKind::Audio),
            asset(3, "c", MediaKind::Audio),
        ],
    );
    let mut state = MediaPanelState::new();
    state.select_and_drag(whole(1), no_modifiers(), &p);
    let shift = Modifiers { shift: true, control: false, alt: false, super_key: false };
    match state.select_and_drag(whole(3), shift, &p) {
        MediaAction::BeginDrag { items, .. } => assert_eq!(
            items,
            vec![
                MediaDragItem::Media { media: 1, stream: MediaStream::All },
                MediaDragItem::Media { media: 2, stream: MediaStream::All },
                MediaDragItem::Media { media: 3, stream: MediaStream::All },
            ]
        ),
        other => panic!("unexpected action {:?}", other),
    }
    assert_eq!(state.selected_media_ids(&p), vec![1, 2, 3]);
    assert_eq!(state.selected(), Some(3));
    let control = Modifiers { shift: false, control: true, alt: false, super_key: false };
    state.select_and_drag(whole(2), control, &p);
    assert_eq!(state.selected_media_ids(&p), vec![1, 3]);
}

#[test]
fn clear_selection_and_context_menu() {
    let p = project(vec![composition(1)], vec![asset(2, "x", MediaKind::Audio)]);
    let mut state = MediaPanelState::new();
    state.select_composition(1);
    assert_eq!(state.selected_composition(), Some(1));
    state.clear_selection();
    assert!(state.selected_composition().is_none());
    assert!(state.selected().is_none());
    assert!(state.selected_drag_items(&p).is_empty());
    state.open_context_menu(None);
    assert_eq!(state.context_menu, Some(MediaContextTarget::Empty));
    state.close_context_menu();
    assert!(state.context_menu.is_none());
}

#[test]
fn clip_model_is_plain() {
    let c = Clip { id: 3, composition: Some(9) };
    assert_eq!(c, Clip { id: 3, composition: Some(9) });
}

#[test]
fn press_chooses_menu_entry_or_goes_to_row() {
    let p = project(vec![composition(1)], vec![asset(2, "x", MediaKind::Audio)]);
    let mut state = MediaPanelState::new();
    state.open_context_menu(None);
    assert!(matches!(state.pointer_pressed(MediaPress::MenuEntry(1), no_modifiers(), &p), MediaAction::Import));
    assert!(state.context_menu.is_none());
    assert!(matches!(state.pointer_pressed(MediaPress::MenuEntry(0), no_modifiers(), &p), MediaAction::Nothing));
    state.open_context_menu(None);
    assert!(matches!(state.pointer_pressed(MediaPress::MenuEntry(7), no_modifiers(), &p), MediaAction::Nothing));
    state.open_context_menu(None);
    let row = MediaRowTarget::Media(whole(2));
    match state.pointer_pressed(MediaPress::Row { row, on_disclosure: false }, no_modifiers(), &p) {
        MediaAction::BeginDrag { items, open_on_click } => {
            assert!(items == vec![MediaDragItem::Media { media: 2, stream: MediaStream::All }]);
            assert_eq!(open_on_click, None);
        }
        _ => panic!("a press on a row starts a drag"),
    }
    assert!(state.context_menu.is_none());
    assert_eq!(state.selected(), Some(2));
    state.context_menu = Some(MediaContextTarget::Media);
    assert!(matches!(state.pointer_pressed(MediaPress::Outside, no_modifiers(), &p), MediaAction::Nothing));
    assert!(state.context_menu.is_none());
    assert_eq!(state.selected(), Some(2));
}
