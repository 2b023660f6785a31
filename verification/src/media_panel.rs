//! Selection, keyboard navigation and context menu of the media library panel. Scrolling and
//! the opening animation of rows live with the drawing layer.
use vstd::prelude::*;

use crate::input::{Modifiers, PanelKey};
use crate::media::{
    MediaAction, MediaContextItem, MediaContextTarget, MediaDragItem, MediaStream, context_items_for,
    media_context_items, media_display_order, media_order, media_streams, streams_of,
};
use crate::project::{Composition, MediaAsset, Project};

verus! {

/// A selected media file or one of its streams.
#[derive(Clone, Copy, Debug, PartialEq, Eq, Hash, Structural)]
pub struct MediaSelection {
    pub media: u64,
    pub stream: MediaStream,
}

/// A selected composition or one of its streams.
#[derive(Clone, Copy, Debug, PartialEq, Eq, Hash, Structural)]
pub struct CompositionSelection {
    pub composition: u64,
    pub stream: MediaStream,
}

/// A row of the media library that the arrow keys move through.
#[derive(Clone, Copy, Debug, PartialEq, Eq, Structural)]
pub enum MediaKeyboardSelection {
    Composition(CompositionSelection),
    Media(MediaSelection),
}

/// A row of the media library under the pointer.
#[derive(Clone, Copy, Debug, PartialEq, Eq, Structural)]
pub enum MediaRowTarget {
    Composition(CompositionSelection),
    Media(MediaSelection),
}

/// `new` and `action` are what a press on `row` (on its disclosure mark where
/// `on_disclosure`) makes of `old`: on the disclosure mark of a whole composition, or of a
/// whole media file that has streams, the streams are shown or hidden; otherwise the row is
/// selected and a drag of the selection starts (a composition's own row opens it on a click
/// without movement).
pub open spec fn row_press(
    old: MediaPanelState,
    new: MediaPanelState,
    row: MediaRowTarget,
    on_disclosure: bool,
    modifiers: Modifiers,
    project: Project,
    action: MediaAction,
) -> bool {
    match row {
        MediaRowTarget::Composition(c) => if c.stream == MediaStream::All && on_disclosure {
            &&& action is Nothing
            &&& new.expanded_compositions@.to_set() == toggled(old.expanded_compositions@, c.composition)
            &&& new == (MediaPanelState { expanded_compositions: new.expanded_compositions, ..old })
        } else {
            &&& new.selected@ == Seq::<MediaSelection>::empty()
            &&& new == (MediaPanelState {
                selected: new.selected,
                primary: None,
                selected_composition: Some(c),
                ..old
            })
            &&& action matches MediaAction::BeginDrag { items, open_on_click: open }
                && items@ == seq![MediaDragItem::Composition { composition: c.composition, stream: c.stream }]
                && open == if c.stream == MediaStream::All { Some(c.composition) } else { None }
        },
        MediaRowTarget::Media(m) => if m.stream == MediaStream::All && on_disclosure
            && has_streams(first_media(project.media@, m.media)) {
            &&& action is Nothing
            &&& new.expanded@.to_set() == toggled(old.expanded@, m.media)
            &&& new == (MediaPanelState { expanded: new.expanded, ..old })
        } else {
            let sel = clicked_selection(
                old.selected@.to_set(),
                old.primary,
                m,
                modifiers,
                visible_rows(project.media@, old.expanded@.to_set()),
            );
            let items = media_drag_items(project.media@, sel);
            &&& new.selected@.to_set() == sel
            &&& primary_after(sel, m, new.primary)
            &&& new == (MediaPanelState {
                selected: new.selected,
                primary: new.primary,
                selected_composition: None,
                ..old
            })
            &&& if items.len() == 0 {
                action is Nothing
            } else {
                action matches MediaAction::BeginDrag { items: list, open_on_click: None } && list@ == items
            }
        },
    }
}

/// `action` is what entry `index` of the context menu opened on `target` asks for: an index
/// past the entries asks for nothing.
pub open spec fn menu_choice(target: MediaContextTarget, index: usize, state: MediaPanelState, project: Project, action: MediaAction) -> bool {
    let items = context_items_for(target);
    if index < items.len() {
        item_action(items[index as int].0, state, project, action)
    } else {
        action is Nothing
    }
}

/// What a press in the media library landed on, as the hit test of the drawn rows found it.
pub enum MediaPress {
    /// Outside the panel.
    Outside,
    /// Entry `index` of the open context menu.
    MenuEntry(usize),
    /// A row, on its disclosure mark where `on_disclosure`.
    Row { row: MediaRowTarget, on_disclosure: bool },
    /// Inside the panel, off every row and menu entry.
    Empty,
}

/// The selection and menu state of the media library.
pub struct MediaPanelState {
    /// The selected media files and streams, each once.
    pub selected: Vec<MediaSelection>,
    /// The selected entry that the inspector shows.
    pub primary: Option<MediaSelection>,
    pub selected_composition: Option<CompositionSelection>,
    /// Compositions whose streams are shown, each once.
    pub expanded_compositions: Vec<u64>,
    /// Media files whose streams are shown, each once.
    pub expanded: Vec<u64>,
    pub context_menu: Option<MediaContextTarget>,
}

/// The rows of one composition: itself, and its video and audio when it is expanded.
pub open spec fn composition_block(id: u64, expanded: Set<u64>) -> Seq<MediaKeyboardSelection> {
    seq![MediaKeyboardSelection::Composition(CompositionSelection { composition: id, stream: MediaStream::All })]
        + if expanded.contains(id) {
        seq![
            MediaKeyboardSelection::Composition(CompositionSelection { composition: id, stream: MediaStream::Video(0) }),
            MediaKeyboardSelection::Composition(CompositionSelection { composition: id, stream: MediaStream::Audio(0) }),
        ]
    } else {
        Seq::empty()
    }
}

/// The rows of the compositions, in the project's order.
pub open spec fn composition_rows(compositions: Seq<Composition>, expanded: Set<u64>) -> Seq<MediaKeyboardSelection>
    decreases compositions.len(),
{
    if compositions.len() == 0 {
        Seq::empty()
    } else {
        composition_rows(compositions.drop_last(), expanded) + composition_block(compositions.last().id, expanded)
    }
}

/// The rows of one media file: itself, and its streams when it is expanded.
pub open spec fn media_block(asset: MediaAsset, expanded: Set<u64>) -> Seq<MediaKeyboardSelection> {
    seq![MediaKeyboardSelection::Media(MediaSelection { media: asset.id, stream: MediaStream::All })]
        + if expanded.contains(asset.id) {
        streams_of(asset).map_values(|s: MediaStream| MediaKeyboardSelection::Media(MediaSelection { media: asset.id, stream: s }))
    } else {
        Seq::empty()
    }
}

/// The rows of the media files taken in `order`.
pub open spec fn media_rows(media: Seq<MediaAsset>, order: Seq<usize>, expanded: Set<u64>) -> Seq<MediaKeyboardSelection>
    decreases order.len(),
{
    if order.len() == 0 {
        Seq::empty()
    } else {
        media_rows(media, order.drop_last(), expanded) + media_block(media[order.last() as int], expanded)
    }
}

/// The rows that the arrow keys move through: the compositions, then the media files in
/// listing order, each followed by its streams when expanded.
pub open spec fn keyboard_rows(
    project: Project,
    expanded_compositions: Set<u64>,
    expanded_media: Set<u64>,
) -> Seq<MediaKeyboardSelection> {
    composition_rows(project.compositions@, expanded_compositions)
        + media_rows(project.media@, media_order(project.media@), expanded_media)
}

/// The first place of `row` among `rows`.
pub open spec fn row_position(rows: Seq<MediaKeyboardSelection>, row: MediaKeyboardSelection) -> Option<int>
    decreases rows.len(),
{
    if rows.len() == 0 {
        None
    } else if rows[0] == row {
        Some(0)
    } else {
        match row_position(rows.drop_first(), row) {
            Some(p) => Some(p + 1),
            None => None,
        }
    }
}

/// The row the arrow key moves to: one up or down from the current row, kept inside the list;
/// the last row for Up and the first for Down when the current row is not listed.
pub open spec fn next_row_index(rows: Seq<MediaKeyboardSelection>, current: Option<MediaKeyboardSelection>, up: bool) -> int {
    let found = match current {
        Some(c) => row_position(rows, c),
        None => None,
    };
    match found {
        Some(p) => {
            let moved = if up { p - 1 } else { p + 1 };
            if moved < 0 { 0 } else if moved > rows.len() - 1 { rows.len() - 1 } else { moved }
        },
        None => if up { rows.len() - 1 } else { 0 },
    }
}

/// The row that stands for the current selection.
pub open spec fn current_row(state: MediaPanelState) -> Option<MediaKeyboardSelection> {
    match state.selected_composition {
        Some(c) => Some(MediaKeyboardSelection::Composition(c)),
        None => match state.primary {
            Some(m) => Some(MediaKeyboardSelection::Media(m)),
            None => None,
        },
    }
}

/// `new` is `old` with only `row` selected and the context menu closed.
pub open spec fn selects_only(old: MediaPanelState, new: MediaPanelState, row: MediaKeyboardSelection) -> bool {
    &&& new.context_menu is None
    &&& new.expanded_compositions == old.expanded_compositions
    &&& new.expanded == old.expanded
    &&& match row {
        MediaKeyboardSelection::Composition(c) => {
            &&& new.selected@ == Seq::<MediaSelection>::empty()
            &&& new.primary is None
            &&& new.selected_composition == Some(c)
        },
        MediaKeyboardSelection::Media(m) => {
            &&& new.selected@ == seq![m]
            &&& new.primary == Some(m)
            &&& new.selected_composition is None
        },
    }
}

/// The drag items of the streams of media file `id` that are selected, in the given order.
pub open spec fn stream_drag_items(id: u64, streams: Seq<MediaStream>, sel: Set<MediaSelection>) -> Seq<MediaDragItem>
    decreases streams.len(),
{
    if streams.len() == 0 {
        Seq::empty()
    } else {
        stream_drag_items(id, streams.drop_last(), sel) + if sel.contains(MediaSelection { media: id, stream: streams.last() }) {
            seq![MediaDragItem::Media { media: id, stream: streams.last() }]
        } else {
            Seq::empty()
        }
    }
}

/// The parts of a media file that can be selected: the whole file, then its streams.
pub open spec fn selectable_streams(asset: MediaAsset) -> Seq<MediaStream> {
    seq![MediaStream::All] + streams_of(asset)
}

/// The drag items of the selected parts of the media files, in the project's order.
pub open spec fn media_drag_items(media: Seq<MediaAsset>, sel: Set<MediaSelection>) -> Seq<MediaDragItem>
    decreases media.len(),
{
    if media.len() == 0 {
        Seq::empty()
    } else {
        media_drag_items(media.drop_last(), sel) + stream_drag_items(media.last().id, selectable_streams(media.last()), sel)
    }
}

/// What dragging the selection drags: the selected composition, else the selected parts of
/// media files.
pub open spec fn drag_items_of(state: MediaPanelState, project: Project) -> Seq<MediaDragItem> {
    match state.selected_composition {
        Some(c) => seq![MediaDragItem::Composition { composition: c.composition, stream: c.stream }],
        None => media_drag_items(project.media@, state.selected@.to_set()),
    }
}

/// The ids of the media files with a selected part, in the project's order.
pub open spec fn selected_ids_of(media: Seq<MediaAsset>, sel: Set<MediaSelection>) -> Seq<u64>
    decreases media.len(),
{
    if media.len() == 0 {
        Seq::empty()
    } else {
        selected_ids_of(media.drop_last(), sel) + if exists|s: MediaSelection| #[trigger] sel.contains(s) && s.media == media.last().id {
            seq![media.last().id]
        } else {
            Seq::empty()
        }
    }
}

/// The rows of one media file that a Shift-click range runs through.
pub open spec fn visible_block(asset: MediaAsset, expanded: Set<u64>) -> Seq<MediaSelection> {
    seq![MediaSelection { media: asset.id, stream: MediaStream::All }] + if expanded.contains(asset.id) {
        streams_of(asset).map_values(|s: MediaStream| MediaSelection { media: asset.id, stream: s })
    } else {
        Seq::empty()
    }
}

/// The media rows, in the project's order, that a Shift-click range runs through.
pub open spec fn visible_rows(media: Seq<MediaAsset>, expanded: Set<u64>) -> Seq<MediaSelection>
    decreases media.len(),
{
    if media.len() == 0 {
        Seq::empty()
    } else {
        visible_rows(media.drop_last(), expanded) + visible_block(media.last(), expanded)
    }
}

/// The first place of `x` among `rows`.
pub open spec fn selection_position(rows: Seq<MediaSelection>, x: MediaSelection) -> Option<int>
    decreases rows.len(),
{
    if rows.len() == 0 {
        None
    } else if rows[0] == x {
        Some(0)
    } else {
        match selection_position(rows.drop_first(), x) {
            Some(p) => Some(p + 1),
            None => None,
        }
    }
}

/// The rows from place `lo` up to, not including, place `hi`.
pub open spec fn span_set(rows: Seq<MediaSelection>, lo: int, hi: int) -> Set<MediaSelection> {
    Set::new(|x: MediaSelection| exists|k: int| lo <= k < hi && #[trigger] rows[k] == x)
}

/// The rows from place `a` to place `b`, both included, in either order.
pub open spec fn range_set(rows: Seq<MediaSelection>, a: int, b: int) -> Set<MediaSelection> {
    if a <= b { span_set(rows, a, b + 1) } else { span_set(rows, b, a + 1) }
}

proof fn lemma_span_step(rows: Seq<MediaSelection>, lo: int, hi: int)
    requires
        lo <= hi,
    ensures
        span_set(rows, lo, hi + 1) == span_set(rows, lo, hi).insert(rows[hi]),
{
    let next = span_set(rows, lo, hi + 1);
    let prev = span_set(rows, lo, hi);
    assert forall|x: MediaSelection| next.contains(x) <==> prev.contains(x) || x == rows[hi] by {
        if next.contains(x) {
            let k = choose|k: int| lo <= k < hi + 1 && #[trigger] rows[k] == x;
            if k < hi {
                assert(prev.contains(x));
            }
        }
        if prev.contains(x) {
            let k = choose|k: int| lo <= k < hi && #[trigger] rows[k] == x;
            assert(lo <= k < hi + 1 && rows[k] == x);
        }
        if x == rows[hi] {
            assert(lo <= hi < hi + 1 && rows[hi] == x);
        }
    }
    assert(next =~= prev.insert(rows[hi]));
}

/// The selection after clicking `selection`: Shift selects the range from the selected entry
/// (added to the selection with Control or Super), Control or Super toggles the entry, and a
/// plain click selects it alone unless it is already selected.
pub open spec fn clicked_selection(
    old_sel: Set<MediaSelection>,
    primary: Option<MediaSelection>,
    selection: MediaSelection,
    modifiers: Modifiers,
    visible: Seq<MediaSelection>,
) -> Set<MediaSelection> {
    let additive = modifiers.control || modifiers.super_key;
    if modifiers.shift {
        let anchor = match primary {
            Some(p) => selection_position(visible, p),
            None => None,
        };
        match (anchor, selection_position(visible, selection)) {
            (Some(a), Some(t)) => (if additive { old_sel } else { Set::empty() }).union(range_set(visible, a, t)),
            _ => set![selection],
        }
    } else if additive {
        if old_sel.contains(selection) { old_sel.remove(selection) } else { old_sel.insert(selection) }
    } else if !old_sel.contains(selection) {
        set![selection]
    } else {
        old_sel
    }
}

/// The entry the inspector shows after a click: the clicked one when selected, else some
/// selected one, else none.
pub open spec fn primary_after(sel: Set<MediaSelection>, selection: MediaSelection, primary: Option<MediaSelection>) -> bool {
    if sel.contains(selection) {
        primary == Some(selection)
    } else if sel == Set::<MediaSelection>::empty() {
        primary is None
    } else {
        primary matches Some(p) && sel.contains(p)
    }
}

fn contains_selection(list: &Vec<MediaSelection>, x: MediaSelection) -> (found: bool)
    ensures
        found == list@.contains(x),
{
    let mut i: usize = 0;
    while i < list.len()
        invariant
            i <= list.len(),
            forall|k: int| 0 <= k < i ==> list@[k] != x,
        decreases list.len() - i,
    {
        if list[i] == x {
            return true;
        }
        i = i + 1;
    }
    false
}

fn insert_selection(list: &mut Vec<MediaSelection>, x: MediaSelection)
    requires
        old(list)@.no_duplicates(),
    ensures
        final(list)@.no_duplicates(),
        final(list)@.to_set() == old(list)@.to_set().insert(x),
{
    if contains_selection(list, x) {
        assert(list@.to_set() =~= old(list)@.to_set().insert(x));
        return;
    }
    let ghost prev = list@;
    list.push(x);
    proof {
        assert forall|a: int, b: int| 0 <= a < list@.len() && 0 <= b < list@.len() && a != b implies list@[a] != list@[b] by {
            if a == prev.len() {
                assert(prev.contains(list@[b]));
            } else if b == prev.len() {
                assert(prev.contains(list@[a]));
            } else {
                assert(list@[a] == prev[a] && list@[b] == prev[b]);
            }
        }
        assert forall|u: MediaSelection| list@.contains(u) <==> prev.contains(u) || u == x by {
            if list@.contains(u) {
                let q = choose|q: int| 0 <= q < list@.len() && list@[q] == u;
                if q < prev.len() {
                    assert(prev[q] == u);
                }
            }
            if prev.contains(u) {
                let q = choose|q: int| 0 <= q < prev.len() && prev[q] == u;
                assert(list@[q] == u);
            }
            if u == x {
                assert(list@[prev.len() as int] == u);
            }
        }
        assert(list@.to_set() =~= prev.to_set().insert(x));
    }
}

fn without_selection(list: &Vec<MediaSelection>, x: MediaSelection) -> (kept: Vec<MediaSelection>)
    requires
        list@.no_duplicates(),
    ensures
        kept@.no_duplicates(),
        kept@.to_set() == list@.to_set().remove(x),
{
    let mut kept: Vec<MediaSelection> = Vec::new();
    let mut i: usize = 0;
    while i < list.len()
        invariant
            i <= list.len(),
            list@.no_duplicates(),
            kept@.no_duplicates(),
            kept@.to_set() == list@.take(i as int).to_set().remove(x),
        decreases list.len() - i,
    {
        let u = list[i];
        proof {
            assert(list@.take(i + 1) =~= list@.take(i as int).push(u));
            let ghost next = list@.take(i + 1);
            let ghost prev = list@.take(i as int);
            assert forall|x: MediaSelection| next.contains(x) <==> prev.contains(x) || x == u by {
                if next.contains(x) {
                    let q = choose|q: int| 0 <= q < next.len() && #[trigger] next[q] == x;
                    if q < i {
                        assert(prev[q] == x);
                    }
                }
                if prev.contains(x) {
                    let q = choose|q: int| 0 <= q < prev.len() && #[trigger] prev[q] == x;
                    assert(next[q] == x);
                }
                if x == u {
                    assert(next[i as int] == x);
                }
            }
            assert(list@.take(i + 1).to_set() =~= list@.take(i as int).to_set().insert(u));
        }
        if u != x {
            insert_selection(&mut kept, u);
            proof {
                assert(kept@.to_set() =~= list@.take(i + 1).to_set().remove(x));
            }
        } else {
            assert(kept@.to_set() =~= list@.take(i + 1).to_set().remove(x));
        }
        i = i + 1;
    }
    assert(list@.take(list.len() as int) =~= list@);
    kept
}

fn find_selection(rows: &Vec<MediaSelection>, x: MediaSelection) -> (found: Option<usize>)
    ensures
        match found {
            Some(p) => selection_position(rows@, x) == Some(p as int) && p < rows.len(),
            None => selection_position(rows@, x) is None,
        },
{
    let mut i: usize = 0;
    assert(rows@.skip(0) =~= rows@);
    while i < rows.len()
        invariant
            i <= rows.len(),
            selection_position(rows@, x) == match selection_position(rows@.skip(i as int), x) {
                Some(p) => Some(p + i),
                None => None,
            },
        decreases rows.len() - i,
    {
        if rows[i] == x {
            return Some(i);
        }
        assert(rows@.skip(i as int).drop_first() =~= rows@.skip(i + 1));
        i = i + 1;
    }
    None
}

/// The media rows that a Shift-click range runs through.
fn visible_media_rows(media: &Vec<MediaAsset>, expanded: &Vec<u64>) -> (rows: Vec<MediaSelection>)
    ensures
        rows@ == visible_rows(media@, expanded@.to_set()),
{
    let mut rows: Vec<MediaSelection> = Vec::new();
    let mut i: usize = 0;
    while i < media.len()
        invariant
            i <= media.len(),
            rows@ == visible_rows(media@.take(i as int), expanded@.to_set()),
        decreases media.len() - i,
    {
        let asset = &media[i];
        let ghost before = rows@;
        rows.push(MediaSelection { media: asset.id, stream: MediaStream::All });
        let open = contains_id(expanded, asset.id);
        if open {
            let streams = media_streams(asset);
            let mut j: usize = 0;
            while j < streams.len()
                invariant
                    j <= streams.len(),
                    streams@ == streams_of(*asset),
                    rows@ == before.push(MediaSelection { media: asset.id, stream: MediaStream::All })
                        + streams@.take(j as int).map_values(|s: MediaStream| MediaSelection { media: asset.id, stream: s }),
                decreases streams.len() - j,
            {
                rows.push(MediaSelection { media: asset.id, stream: streams[j] });
                assert(streams@.take(j + 1) =~= streams@.take(j as int).push(streams@[j as int]));
                j = j + 1;
            }
            assert(streams@.take(streams.len() as int) =~= streams@);
        }
        proof {
            assert(media@.take(i + 1).drop_last() =~= media@.take(i as int));
            assert(rows@ =~= visible_rows(media@.take(i + 1), expanded@.to_set()));
        }
        i = i + 1;
    }
    assert(media@.take(media.len() as int) =~= media@);
    rows
}

/// `action` is what choosing `item` from the context menu asks for, given the selection in
/// `state`.
pub open spec fn item_action(item: MediaContextItem, state: MediaPanelState, project: Project, action: MediaAction) -> bool {
    match item {
        MediaContextItem::NewComposition => action is NewComposition,
        MediaContextItem::DuplicateComposition => match state.selected_composition {
            Some(c) => action == MediaAction::DuplicateComposition(c.composition),
            None => action is Nothing,
        },
        MediaContextItem::RenameComposition => match state.selected_composition {
            Some(c) => action == MediaAction::RenameComposition(c.composition),
            None => action is Nothing,
        },
        MediaContextItem::DeleteComposition => match state.selected_composition {
            Some(c) => if project.compositions.len() > 1 {
                action == MediaAction::DeleteComposition(c.composition)
            } else {
                action is Nothing
            },
            None => action is Nothing,
        },
        MediaContextItem::Import => action is Import,
        MediaContextItem::ImportClipboard => action is ImportClipboard,
        MediaContextItem::Insert => {
            let items = drag_items_of(state, project);
            if items.len() == 0 {
                action is Nothing
            } else {
                action matches MediaAction::InsertSelected { items: list } && list@ == items
            }
        },
        MediaContextItem::ReplaceSelectedMedia => match state.primary {
            Some(p) => action == MediaAction::ReplaceSelectedMedia { media: p.media },
            None => action is Nothing,
        },
        MediaContextItem::Remove => {
            let ids = selected_ids_of(project.media@, state.selected@.to_set());
            if ids.len() == 0 {
                action is Nothing
            } else {
                action matches MediaAction::RemoveSelected { media: list } && list@ == ids
            }
        },
    }
}

/// The first media file with the given id.
pub open spec fn first_media(media: Seq<MediaAsset>, id: u64) -> Option<MediaAsset>
    decreases media.len(),
{
    if media.len() == 0 {
        None
    } else if media[0].id == id {
        Some(media[0])
    } else {
        first_media(media.drop_first(), id)
    }
}

/// A media file was found and has streams.
pub open spec fn has_streams(asset: Option<MediaAsset>) -> bool {
    asset matches Some(a) && streams_of(a).len() > 0
}

/// The ids in `list`, with `id` added when it was missing and removed when it was there.
pub open spec fn toggled(list: Seq<u64>, id: u64) -> Set<u64> {
    if list.contains(id) { list.to_set().remove(id) } else { list.to_set().insert(id) }
}

/// Pressing a disclosure mark twice shows what was shown before: toggling an id twice gives
/// back the ids there were.
pub proof fn lemma_toggle_twice(first: Seq<u64>, second: Seq<u64>, id: u64)
    requires
        second.to_set() == toggled(first, id),
    ensures
        toggled(second, id) == first.to_set(),
{
    assert(second.contains(id) <==> second.to_set().contains(id));
    assert(first.contains(id) <==> first.to_set().contains(id));
    assert(toggled(second, id) =~= first.to_set());
}

fn toggle_id(list: &mut Vec<u64>, id: u64)
    requires
        old(list)@.no_duplicates(),
    ensures
        final(list)@.no_duplicates(),
        final(list)@.to_set() == toggled(old(list)@, id),
{
    if contains_id(list, id) {
        let mut kept: Vec<u64> = Vec::new();
        let mut i: usize = 0;
        while i < list.len()
            invariant
                i <= list.len(),
                list@.no_duplicates(),
                kept@.no_duplicates(),
                forall|x: u64| kept@.contains(x) <==> (exists|k: int| 0 <= k < i && #[trigger] list@[k] == x) && x != id,
            decreases list.len() - i,
        {
            let x = list[i];
            if x != id {
                let ghost prev = kept@;
                proof {
                    if prev.contains(x) {
                        let k = choose|k: int| 0 <= k < i && #[trigger] list@[k] == x;
                        assert(list@[k] == list@[i as int]);
                    }
                }
                kept.push(x);
                proof {
                    assert forall|a: int, b: int| 0 <= a < kept@.len() && 0 <= b < kept@.len() && a != b implies kept@[a] != kept@[b] by {
                        if a == prev.len() {
                            assert(prev.contains(kept@[b]));
                        } else if b == prev.len() {
                            assert(prev.contains(kept@[a]));
                        } else {
                            assert(kept@[a] == prev[a] && kept@[b] == prev[b]);
                        }
                    }
                    assert forall|y: u64| kept@.contains(y) <==> (exists|k: int| 0 <= k < i + 1 && #[trigger] list@[k] == y) && y != id by {
                        if kept@.contains(y) {
                            let q = choose|q: int| 0 <= q < kept@.len() && kept@[q] == y;
                            if q < prev.len() {
                                assert(prev[q] == y);
                                assert(prev.contains(y));
                            } else {
                                assert(list@[i as int] == y);
                            }
                        }
                        if (exists|k: int| 0 <= k < i + 1 && #[trigger] list@[k] == y) && y != id {
                            let k = choose|k: int| 0 <= k < i + 1 && #[trigger] list@[k] == y;
                            if k < i {
                                assert(prev.contains(y));
                                let q = choose|q: int| 0 <= q < prev.len() && prev[q] == y;
                                assert(kept@[q] == y);
                            } else {
                                assert(kept@[prev.len() as int] == y);
                            }
                        }
                    }
                }
            }
            i = i + 1;
        }
        proof {
            assert forall|y: u64| kept@.to_set().contains(y) <==> toggled(old(list)@, id).contains(y) by {
                if list@.contains(y) && y != id {
                    let k = choose|k: int| 0 <= k < list@.len() && list@[k] == y;
                    assert(exists|k: int| 0 <= k < i && #[trigger] list@[k] == y);
                }
            }
            assert(kept@.to_set() =~= toggled(old(list)@, id));
        }
        *list = kept;
    } else {
        let ghost prev = list@;
        list.push(id);
        proof {
            assert forall|a: int, b: int| 0 <= a < list@.len() && 0 <= b < list@.len() && a != b implies list@[a] != list@[b] by {
                if a == prev.len() {
                    assert(prev.contains(list@[b]));
                } else if b == prev.len() {
                    assert(prev.contains(list@[a]));
                } else {
                    assert(list@[a] == prev[a] && list@[b] == prev[b]);
                }
            }
            assert forall|y: u64| list@.contains(y) <==> prev.contains(y) || y == id by {
                if list@.contains(y) {
                    let q = choose|q: int| 0 <= q < list@.len() && list@[q] == y;
                    if q < prev.len() {
                        assert(prev[q] == y);
                    }
                }
                if prev.contains(y) {
                    let q = choose|q: int| 0 <= q < prev.len() && prev[q] == y;
                    assert(list@[q] == y);
                }
                if y == id {
                    assert(list@[prev.len() as int] == y);
                }
            }
            assert(list@.to_set() =~= toggled(prev, id));
        }
    }
}

fn find_media<'a>(media: &'a Vec<MediaAsset>, id: u64) -> (found: Option<&'a MediaAsset>)
    ensures
        match found {
            Some(a) => first_media(media@, id) == Some(*a),
            None => first_media(media@, id) is None,
        },
{
    let mut i: usize = 0;
    assert(media@.skip(0) =~= media@);
    while i < media.len()
        invariant
            i <= media.len(),
            first_media(media@, id) == first_media(media@.skip(i as int), id),
        decreases media.len() - i,
    {
        if media[i].id == id {
            return Some(&media[i]);
        }
        assert(media@.skip(i as int).drop_first() =~= media@.skip(i + 1));
        i = i + 1;
    }
    None
}

fn find_row(rows: &Vec<MediaKeyboardSelection>, row: MediaKeyboardSelection) -> (found: Option<usize>)
    ensures
        match found {
            Some(p) => row_position(rows@, row) == Some(p as int) && p < rows.len(),
            None => row_position(rows@, row) is None,
        },
{
    let mut i: usize = 0;
    assert(rows@.skip(0) =~= rows@);
    while i < rows.len()
        invariant
            i <= rows.len(),
            row_position(rows@, row) == match row_position(rows@.skip(i as int), row) {
                Some(p) => Some(p + i),
                None => None,
            },
        decreases rows.len() - i,
    {
        if rows[i] == row {
            return Some(i);
        }
        assert(rows@.skip(i as int).drop_first() =~= rows@.skip(i + 1));
        i = i + 1;
    }
    None
}

fn contains_id(ids: &Vec<u64>, id: u64) -> (found: bool)
    ensures
        found == ids@.contains(id),
{
    let mut i: usize = 0;
    while i < ids.len()
        invariant
            i <= ids.len(),
            forall|k: int| 0 <= k < i ==> ids@[k] != id,
        decreases ids.len() - i,
    {
        if ids[i] == id {
            return true;
        }
        i = i + 1;
    }
    false
}

impl MediaPanelState {
    /// The state's own invariant: nothing is listed twice.
    pub open spec fn wf(&self) -> bool {
        &&& self.selected@.no_duplicates()
        &&& self.expanded_compositions@.no_duplicates()
        &&& self.expanded@.no_duplicates()
    }

    /// A library with nothing selected or expanded.
    pub fn new() -> (state: Self)
        ensures
            state.wf(),
            state.selected@ == Seq::<MediaSelection>::empty(),
            state.primary is None,
            state.selected_composition is None,
            state.expanded_compositions@ == Seq::<u64>::empty(),
            state.expanded@ == Seq::<u64>::empty(),
            state.context_menu is None,
    {
        MediaPanelState {
            selected: Vec::new(),
            primary: None,
            selected_composition: None,
            expanded_compositions: Vec::new(),
            expanded: Vec::new(),
            context_menu: None,
        }
    }

    /// The media file the inspector shows.
    pub fn selected(&self) -> (media: Option<u64>)
        ensures
            media == match self.primary {
                Some(s) => Some(s.media),
                None => None,
            },
    {
        match self.primary {
            Some(selection) => Some(selection.media),
            None => None,
        }
    }

    /// The media file the inspector shows, with the stream chosen of it.
    pub fn selected_with_stream(&self) -> (selection: Option<(u64, MediaStream)>)
        ensures
            selection == match self.primary {
                Some(s) => Some((s.media, s.stream)),
                None => None,
            },
    {
        match self.primary {
            Some(selection) => Some((selection.media, selection.stream)),
            None => None,
        }
    }

    /// The selected composition.
    pub fn selected_composition(&self) -> (composition: Option<u64>)
        ensures
            composition == match self.selected_composition {
                Some(s) => Some(s.composition),
                None => None,
            },
    {
        match self.selected_composition {
            Some(selection) => Some(selection.composition),
            None => None,
        }
    }

    /// Selects a whole composition and nothing else.
    pub fn select_composition(&mut self, composition: u64)
        requires
            old(self).wf(),
        ensures
            final(self).wf(),
            selects_only(*old(self), *final(self), MediaKeyboardSelection::Composition(
                CompositionSelection { composition, stream: MediaStream::All })),
    {
        self.selected = Vec::new();
        self.primary = None;
        self.selected_composition = Some(CompositionSelection { composition, stream: MediaStream::All });
        self.context_menu = None;
    }

    /// Selects nothing and closes the context menu.
    pub fn clear_selection(&mut self)
        ensures
            final(self).selected@ == Seq::<MediaSelection>::empty(),
            *final(self) == (MediaPanelState {
                selected: final(self).selected,
                primary: None,
                selected_composition: None,
                context_menu: None,
                ..*old(self)
            }),
    {
        self.selected = Vec::new();
        self.primary = None;
        self.selected_composition = None;
        self.context_menu = None;
    }

    /// Moves the selection one row up or down with the arrow keys (not with Control, Super or
    /// Alt held), selecting that row alone. Returns whether the key was used; with no rows the
    /// key is used and nothing changes.
    pub fn handle_key(&mut self, key: PanelKey, modifiers: Modifiers, project: &Project) -> (handled: bool)
        requires
            old(self).wf(),
        ensures
            final(self).wf(),
            ({
                let rows = keyboard_rows(*project, old(self).expanded_compositions@.to_set(), old(self).expanded@.to_set());
                if modifiers.control || modifiers.super_key || modifiers.alt || !(key is ArrowUp || key is ArrowDown) {
                    !handled && *final(self) == *old(self)
                } else if rows.len() == 0 {
                    handled && *final(self) == *old(self)
                } else {
                    handled && selects_only(*old(self), *final(self), rows[next_row_index(rows, current_row(*old(self)), key is ArrowUp)])
                }
            }),
    {
        if modifiers.control || modifiers.super_key || modifiers.alt {
            return false;
        }
        let up = match key {
            PanelKey::ArrowUp => true,
            PanelKey::ArrowDown => false,
            _ => {
                return false;
            },
        };
        let rows = self.keyboard_rows(project);
        if rows.len() == 0 {
            return true;
        }
        let current = match self.selected_composition {
            Some(c) => Some(MediaKeyboardSelection::Composition(c)),
            None => match self.primary {
                Some(m) => Some(MediaKeyboardSelection::Media(m)),
                None => None,
            },
        };
        let found = match current {
            Some(c) => find_row(&rows, c),
            None => None,
        };
        let index: usize = match found {
            Some(p) => if up {
                if p == 0 { 0 } else { p - 1 }
            } else {
                if p + 1 > rows.len() - 1 { rows.len() - 1 } else { p + 1 }
            },
            None => if up { rows.len() - 1 } else { 0 },
        };
        assert(index == next_row_index(rows@, current_row(*old(self)), up));
        let row = rows[index];
        self.selected = Vec::new();
        self.primary = None;
        self.selected_composition = None;
        match row {
            MediaKeyboardSelection::Composition(selection) => {
                self.selected_composition = Some(selection);
            },
            MediaKeyboardSelection::Media(selection) => {
                let mut only: Vec<MediaSelection> = Vec::new();
                only.push(selection);
                self.selected = only;
                self.primary = Some(selection);
            },
        }
        self.context_menu = None;
        true
    }

    /// What dragging the selection drags: the selected composition, else the selected parts of
    /// media files in the project's order.
    pub fn selected_drag_items(&self, project: &Project) -> (items: Vec<MediaDragItem>)
        ensures
            items@ == drag_items_of(*self, *project),
    {
        let mut items: Vec<MediaDragItem> = Vec::new();
        if let Some(selection) = self.selected_composition {
            items.push(MediaDragItem::Composition { composition: selection.composition, stream: selection.stream });
            assert(items@ =~= drag_items_of(*self, *project));
            return items;
        }
        let ghost sel = self.selected@.to_set();
        let media = &project.media;
        let mut i: usize = 0;
        while i < media.len()
            invariant
                i <= media.len(),
                sel == self.selected@.to_set(),
                items@ == media_drag_items(media@.take(i as int), sel),
            decreases media.len() - i,
        {
            let asset = &media[i];
            let mut streams: Vec<MediaStream> = Vec::new();
            streams.push(MediaStream::All);
            let rest = media_streams(asset);
            let mut r: usize = 0;
            while r < rest.len()
                invariant
                    r <= rest.len(),
                    streams@ == seq![MediaStream::All] + rest@.take(r as int),
                decreases rest.len() - r,
            {
                streams.push(rest[r]);
                assert(rest@.take(r + 1) =~= rest@.take(r as int).push(rest@[r as int]));
                r = r + 1;
            }
            assert(rest@.take(rest.len() as int) =~= rest@);
            assert(streams@ =~= selectable_streams(*asset));
            let ghost before = items@;
            let mut j: usize = 0;
            while j < streams.len()
                invariant
                    j <= streams.len(),
                    sel == self.selected@.to_set(),
                    items@ == before + stream_drag_items(asset.id, streams@.take(j as int), sel),
                decreases streams.len() - j,
            {
                let candidate = MediaSelection { media: asset.id, stream: streams[j] };
                let chosen = contains_selection(&self.selected, candidate);
                if chosen {
                    items.push(MediaDragItem::Media { media: asset.id, stream: streams[j] });
                }
                proof {
                    assert(streams@.take(j + 1).drop_last() =~= streams@.take(j as int));
                    assert(chosen == sel.contains(candidate));
                    assert(items@ =~= before + stream_drag_items(asset.id, streams@.take(j + 1), sel));
                }
                j = j + 1;
            }
            proof {
                assert(streams@.take(streams.len() as int) =~= streams@);
                assert(media@.take(i + 1).drop_last() =~= media@.take(i as int));
                assert(items@ =~= media_drag_items(media@.take(i + 1), sel));
            }
            i = i + 1;
        }
        assert(media@.take(media.len() as int) =~= media@);
        items
    }

    /// The ids of the media files with a selected part, in the project's order.
    pub fn selected_media_ids(&self, project: &Project) -> (ids: Vec<u64>)
        ensures
            ids@ == selected_ids_of(project.media@, self.selected@.to_set()),
    {
        let ghost sel = self.selected@.to_set();
        let media = &project.media;
        let mut ids: Vec<u64> = Vec::new();
        let mut i: usize = 0;
        while i < media.len()
            invariant
                i <= media.len(),
                sel == self.selected@.to_set(),
                ids@ == selected_ids_of(media@.take(i as int), sel),
            decreases media.len() - i,
        {
            let id = media[i].id;
            let mut any = false;
            let mut k: usize = 0;
            while k < self.selected.len()
                invariant
                    k <= self.selected.len(),
                    any == exists|q: int| 0 <= q < k && (#[trigger] self.selected@[q]).media == id,
                decreases self.selected.len() - k,
            {
                if self.selected[k].media == id {
                    any = true;
                }
                k = k + 1;
            }
            proof {
                assert(any == exists|s: MediaSelection| #[trigger] sel.contains(s) && s.media == id) by {
                    if any {
                        let q = choose|q: int| 0 <= q < k && (#[trigger] self.selected@[q]).media == id;
                        assert(sel.contains(self.selected@[q]));
                    }
                    if exists|s: MediaSelection| #[trigger] sel.contains(s) && s.media == id {
                        let s = choose|s: MediaSelection| #[trigger] sel.contains(s) && s.media == id;
                        assert(self.selected@.contains(s));
                        let q = choose|q: int| 0 <= q < self.selected@.len() && self.selected@[q] == s;
                        assert((self.selected@[q]).media == id);
                    }
                }
            }
            if any {
                ids.push(id);
            }
            proof {
                assert(media@.take(i + 1).drop_last() =~= media@.take(i as int));
                assert(ids@ =~= selected_ids_of(media@.take(i + 1), sel));
            }
            i = i + 1;
        }
        assert(media@.take(media.len() as int) =~= media@);
        ids
    }

    /// Selects a composition (or one of its streams) alone and starts dragging it; a click on
    /// the composition's own row opens it if the drag ends without moving.
    pub fn select_composition_and_drag(&mut self, selection: CompositionSelection, open_on_click: bool) -> (action: MediaAction)
        requires
            old(self).wf(),
        ensures
            final(self).wf(),
            final(self).selected@ == Seq::<MediaSelection>::empty(),
            *final(self) == (MediaPanelState {
                selected: final(self).selected,
                primary: None,
                selected_composition: Some(selection),
                ..*old(self)
            }),
            action matches MediaAction::BeginDrag { items, open_on_click: open }
                && items@ == seq![MediaDragItem::Composition { composition: selection.composition, stream: selection.stream }]
                && open == if open_on_click { Some(selection.composition) } else { None },
    {
        self.selected = Vec::new();
        self.primary = None;
        self.selected_composition = Some(selection);
        let mut items: Vec<MediaDragItem> = Vec::new();
        items.push(MediaDragItem::Composition { composition: selection.composition, stream: selection.stream });
        MediaAction::BeginDrag {
            items,
            open_on_click: if open_on_click { Some(selection.composition) } else { None },
        }
    }

    /// A click on a media row: updates the selection as `clicked_selection` says, makes the
    /// clicked entry the one the inspector shows when it stays selected, and starts dragging the
    /// selection unless nothing is selected.
    pub fn select_and_drag(&mut self, selection: MediaSelection, modifiers: Modifiers, project: &Project) -> (action: MediaAction)
        requires
            old(self).wf(),
        ensures
            final(self).wf(),
            ({
                let sel = clicked_selection(
                    old(self).selected@.to_set(),
                    old(self).primary,
                    selection,
                    modifiers,
                    visible_rows(project.media@, old(self).expanded@.to_set()),
                );
                let items = media_drag_items(project.media@, sel);
                &&& final(self).selected@.to_set() == sel
                &&& primary_after(sel, selection, final(self).primary)
                &&& *final(self) == (MediaPanelState {
                    selected: final(self).selected,
                    primary: final(self).primary,
                    selected_composition: None,
                    ..*old(self)
                })
                &&& if items.len() == 0 {
                    action is Nothing
                } else {
                    action matches MediaAction::BeginDrag { items: list, open_on_click: None } && list@ == items
                }
            }),
    {
        self.selected_composition = None;
        let additive = modifiers.control || modifiers.super_key;
        let ghost old_sel = self.selected@.to_set();
        let ghost visible_spec = visible_rows(project.media@, self.expanded@.to_set());
        if modifiers.shift {
            let visible = visible_media_rows(&project.media, &self.expanded);
            let anchor = match self.primary {
                Some(p) => find_selection(&visible, p),
                None => None,
            };
            let target = find_selection(&visible, selection);
            match (anchor, target) {
                (Some(a), Some(t)) => {
                    if !additive {
                        self.selected = Vec::new();
                        assert(self.selected@.no_duplicates());
                    }
                    let ghost base = self.selected@.to_set();
                    let (start, end) = if a <= t { (a, t) } else { (t, a) };
                    let mut k = start;
                    proof {
                        assert(span_set(visible@, start as int, start as int) =~= Set::<MediaSelection>::empty());
                        assert(self.selected@.to_set() =~= base.union(span_set(visible@, start as int, k as int)));
                    }
                    while k <= end
                        invariant
                            start <= k <= end + 1,
                            end < visible.len(),
                            self.expanded == old(self).expanded,
                            self.expanded_compositions == old(self).expanded_compositions,
                            self.primary == old(self).primary,
                            self.context_menu == old(self).context_menu,
                            self.selected_composition is None,
                            self.selected@.no_duplicates(),
                            self.selected@.to_set() == base.union(span_set(visible@, start as int, k as int)),
                        decreases end + 1 - k,
                    {
                        let ghost before = self.selected@.to_set();
                        insert_selection(&mut self.selected, visible[k]);
                        proof {
                            lemma_span_step(visible@, start as int, k as int);
                            assert(self.selected@.to_set() =~= base.union(span_set(visible@, start as int, k + 1)));
                        }
                        k = k + 1;
                    }
                    proof {
                        let want = (if additive { old_sel } else { Set::empty() }).union(range_set(visible@, a as int, t as int));
                        assert(base == if additive { old_sel } else { Set::<MediaSelection>::empty() }) by {
                            if !additive {
                                assert(base =~= Set::<MediaSelection>::empty());
                            }
                        }
                        assert(self.selected@.to_set() =~= want);
                    }
                },
                _ => {
                    let mut only: Vec<MediaSelection> = Vec::new();
                    only.push(selection);
                    self.selected = only;
                    proof {
                        assert(self.selected@.no_duplicates());
                        assert(self.selected@.to_set() =~= set![selection]) by {
                            assert forall|u: MediaSelection| self.selected@.contains(u) <==> u == selection by {
                                if u == selection {
                                    assert(self.selected@[0] == u);
                                }
                            }
                        }
                    }
                },
            }
        } else if additive {
            if contains_selection(&self.selected, selection) {
                self.selected = without_selection(&self.selected, selection);
            } else {
                insert_selection(&mut self.selected, selection);
            }
        } else if !contains_selection(&self.selected, selection) {
            let mut only: Vec<MediaSelection> = Vec::new();
            only.push(selection);
            self.selected = only;
            proof {
                assert(self.selected@.no_duplicates());
                assert(self.selected@.to_set() =~= set![selection]) by {
                    assert forall|u: MediaSelection| self.selected@.contains(u) <==> u == selection by {
                        if u == selection {
                            assert(self.selected@[0] == u);
                        }
                    }
                }
            }
        }
        let ghost sel = self.selected@.to_set();
        assert(self.selected@.no_duplicates());
        assert(sel == clicked_selection(old_sel, old(self).primary, selection, modifiers, visible_spec));
        if contains_selection(&self.selected, selection) {
            self.primary = Some(selection);
        } else if self.selected.len() > 0 {
            self.primary = Some(self.selected[0]);
            proof {
                assert(sel.contains(self.selected@[0]));
            }
        } else {
            self.primary = None;
            proof {
                assert(sel =~= Set::<MediaSelection>::empty());
            }
        }
        let items = self.selected_drag_items(project);
        if items.len() == 0 {
            MediaAction::Nothing
        } else {
            MediaAction::BeginDrag { items, open_on_click: None }
        }
    }

    /// Opens the context menu on a row, or on the empty part of the list: the row becomes the
    /// selection (a media row joins it when already selected), and the menu offers what fits
    /// the row.
    pub fn open_context_menu(&mut self, row: Option<MediaRowTarget>)
        requires
            old(self).wf(),
        ensures
            final(self).wf(),
            final(self).expanded == old(self).expanded,
            final(self).expanded_compositions == old(self).expanded_compositions,
            match row {
                Some(MediaRowTarget::Media(m)) => {
                    &&& final(self).selected@.to_set() == if old(self).selected@.contains(m) {
                        old(self).selected@.to_set()
                    } else {
                        set![m]
                    }
                    &&& final(self).primary == Some(m)
                    &&& final(self).selected_composition is None
                    &&& final(self).context_menu == Some(
                        if m.stream == MediaStream::All { MediaContextTarget::Media } else { MediaContextTarget::Stream })
                },
                Some(MediaRowTarget::Composition(c)) => {
                    &&& final(self).selected@ == Seq::<MediaSelection>::empty()
                    &&& final(self).primary is None
                    &&& final(self).selected_composition == Some(c)
                    &&& final(self).context_menu == Some(
                        if c.stream == MediaStream::All { MediaContextTarget::Composition } else { MediaContextTarget::Stream })
                },
                None => {
                    &&& final(self).selected@ == Seq::<MediaSelection>::empty()
                    &&& final(self).primary is None
                    &&& final(self).selected_composition is None
                    &&& final(self).context_menu == Some(MediaContextTarget::Empty)
                },
            },
    {
        let target = match row {
            Some(MediaRowTarget::Media(selection)) => {
                if !contains_selection(&self.selected, selection) {
                    let mut only: Vec<MediaSelection> = Vec::new();
                    only.push(selection);
                    self.selected = only;
                    proof {
                        assert(self.selected@.no_duplicates());
                        assert(self.selected@.to_set() =~= set![selection]) by {
                            assert forall|u: MediaSelection| self.selected@.contains(u) <==> u == selection by {
                                if u == selection {
                                    assert(self.selected@[0] == u);
                                }
                            }
                        }
                    }
                }
                self.primary = Some(selection);
                self.selected_composition = None;
                if selection.stream == MediaStream::All {
                    MediaContextTarget::Media
                } else {
                    MediaContextTarget::Stream
                }
            },
            Some(MediaRowTarget::Composition(selection)) => {
                self.selected = Vec::new();
                self.primary = None;
                self.selected_composition = Some(selection);
                if selection.stream == MediaStream::All {
                    MediaContextTarget::Composition
                } else {
                    MediaContextTarget::Stream
                }
            },
            None => {
                self.selected = Vec::new();
                self.primary = None;
                self.selected_composition = None;
                MediaContextTarget::Empty
            },
        };
        self.context_menu = Some(target);
    }

    /// Chooses entry `index` of the open context menu, which closes. Returns `None` when no
    /// menu is open; an index past the entries asks for nothing.
    pub fn choose_context_item(&mut self, index: usize, project: &Project) -> (chosen: Option<MediaAction>)
        requires
            old(self).wf(),
        ensures
            final(self).wf(),
            match old(self).context_menu {
                None => chosen is None && *final(self) == *old(self),
                Some(target) => {
                    let items = context_items_for(target);
                    &&& *final(self) == (MediaPanelState { context_menu: None, ..*old(self) })
                    &&& chosen matches Some(action) && menu_choice(target, index, *old(self), *project, action)
                },
            },
    {
        let target = match self.context_menu {
            Some(target) => target,
            None => {
                return None;
            },
        };
        self.context_menu = None;
        let items = media_context_items(target);
        if index >= items.len() {
            return Some(MediaAction::Nothing);
        }
        let action = match items[index].0 {
            MediaContextItem::NewComposition => MediaAction::NewComposition,
            MediaContextItem::DuplicateComposition => match self.selected_composition {
                Some(c) => MediaAction::DuplicateComposition(c.composition),
                None => MediaAction::Nothing,
            },
            MediaContextItem::RenameComposition => match self.selected_composition {
                Some(c) => MediaAction::RenameComposition(c.composition),
                None => MediaAction::Nothing,
            },
            MediaContextItem::DeleteComposition => match self.selected_composition {
                Some(c) => if project.compositions.len() > 1 {
                    MediaAction::DeleteComposition(c.composition)
                } else {
                    MediaAction::Nothing
                },
                None => MediaAction::Nothing,
            },
            MediaContextItem::Import => MediaAction::Import,
            MediaContextItem::ImportClipboard => MediaAction::ImportClipboard,
            MediaContextItem::Insert => {
                let items = self.selected_drag_items(project);
                if items.len() == 0 {
                    MediaAction::Nothing
                } else {
                    MediaAction::InsertSelected { items }
                }
            },
            MediaContextItem::ReplaceSelectedMedia => match self.primary {
                Some(p) => MediaAction::ReplaceSelectedMedia { media: p.media },
                None => MediaAction::Nothing,
            },
            MediaContextItem::Remove => {
                let media = self.selected_media_ids(project);
                if media.len() == 0 {
                    MediaAction::Nothing
                } else {
                    MediaAction::RemoveSelected { media }
                }
            },
        };
        Some(action)
    }

    /// A press on a row. On the disclosure mark of a whole composition, or of a whole media
    /// file that has streams, it shows or hides the streams; otherwise it selects and starts a
    /// drag (a composition's own row opens it on a click without movement).
    pub fn press_row(&mut self, row: MediaRowTarget, on_disclosure: bool, modifiers: Modifiers, project: &Project) -> (action: MediaAction)
        requires
            old(self).wf(),
        ensures
            final(self).wf(),
            row_press(*old(self), *final(self), row, on_disclosure, modifiers, *project, action),
    {
        match row {
            MediaRowTarget::Composition(selection) => {
                let parent = selection.stream == MediaStream::All;
                if parent && on_disclosure {
                    toggle_id(&mut self.expanded_compositions, selection.composition);
                    MediaAction::Nothing
                } else {
                    self.select_composition_and_drag(selection, parent)
                }
            },
            MediaRowTarget::Media(selection) => {
                let mut disclosure = false;
                if selection.stream == MediaStream::All && on_disclosure {
                    if let Some(asset) = find_media(&project.media, selection.media) {
                        let streams = media_streams(asset);
                        disclosure = streams.len() > 0;
                    }
                }
                if disclosure {
                    toggle_id(&mut self.expanded, selection.media);
                    MediaAction::Nothing
                } else {
                    self.select_and_drag(selection, modifiers, project)
                }
            },
        }
    }

    /// A press of the left button. An entry of the open context menu is chosen and the menu
    /// closes; any other press closes the menu first, and a press on a row then goes to the
    /// row.
    pub fn pointer_pressed(&mut self, press: MediaPress, modifiers: Modifiers, project: &Project) -> (action: MediaAction)
        requires
            old(self).wf(),
        ensures
            final(self).wf(),
            match press {
                MediaPress::Outside | MediaPress::Empty => action is Nothing
                    && *final(self) == (MediaPanelState { context_menu: None, ..*old(self) }),
                MediaPress::MenuEntry(index) => match old(self).context_menu {
                    Some(target) => *final(self) == (MediaPanelState { context_menu: None, ..*old(self) })
                        && menu_choice(target, index, *old(self), *project, action),
                    None => action is Nothing && *final(self) == *old(self),
                },
                MediaPress::Row { row, on_disclosure } => row_press(
                    MediaPanelState { context_menu: None, ..*old(self) },
                    *final(self),
                    row,
                    on_disclosure,
                    modifiers,
                    *project,
                    action,
                ),
            },
    {
        match press {
            MediaPress::Outside | MediaPress::Empty => {
                self.context_menu = None;
                MediaAction::Nothing
            },
            MediaPress::MenuEntry(index) => match self.choose_context_item(index, project) {
                Some(action) => action,
                None => MediaAction::Nothing,
            },
            MediaPress::Row { row, on_disclosure } => {
                self.context_menu = None;
                self.press_row(row, on_disclosure, modifiers, project)
            },
        }
    }

    /// Closes the context menu.
    pub fn close_context_menu(&mut self)
        ensures
            *final(self) == (MediaPanelState { context_menu: None, ..*old(self) }),
    {
        self.context_menu = None;
    }

    /// The rows that the arrow keys move through.
    pub fn keyboard_rows(&self, project: &Project) -> (rows: Vec<MediaKeyboardSelection>)
        ensures
            rows@ == keyboard_rows(*project, self.expanded_compositions@.to_set(), self.expanded@.to_set()),
    {
        media_list_rows(project, &self.expanded_compositions, &self.expanded)
    }
}

/// The rows of the media list in display order: each composition, with its video and
/// audio rows where it is in `open_compositions`, then each media file in listing order,
/// with its streams where it is in `open_media`.
pub fn media_list_rows(project: &Project, open_compositions: &Vec<u64>, open_media: &Vec<u64>) -> (rows: Vec<MediaKeyboardSelection>)
    ensures
        rows@ == keyboard_rows(*project, open_compositions@.to_set(), open_media@.to_set()),
{
    let ghost exp_c = open_compositions@.to_set();
    let ghost exp_m = open_media@.to_set();
    let mut rows: Vec<MediaKeyboardSelection> = Vec::new();
    let comps = &project.compositions;
    let mut i: usize = 0;
    while i < comps.len()
        invariant
            i <= comps.len(),
            exp_c == open_compositions@.to_set(),
            rows@ == composition_rows(comps@.take(i as int), exp_c),
        decreases comps.len() - i,
    {
        let id = comps[i].id;
        rows.push(MediaKeyboardSelection::Composition(CompositionSelection { composition: id, stream: MediaStream::All }));
        let open = contains_id(open_compositions, id);
        if open {
            rows.push(MediaKeyboardSelection::Composition(CompositionSelection { composition: id, stream: MediaStream::Video(0) }));
            rows.push(MediaKeyboardSelection::Composition(CompositionSelection { composition: id, stream: MediaStream::Audio(0) }));
        }
        proof {
            assert(comps@.take(i + 1).drop_last() =~= comps@.take(i as int));
            assert(open == exp_c.contains(id));
            assert(rows@ =~= composition_rows(comps@.take(i + 1), exp_c));
        }
        i = i + 1;
    }
    assert(comps@.take(comps.len() as int) =~= comps@);
    let ghost crows = rows@;
    let order = media_display_order(project.media.as_slice());
    let mut k: usize = 0;
    while k < order.len()
        invariant
            k <= order.len(),
            order@ == media_order(project.media@),
            order.len() == project.media.len(),
            forall|q: int| 0 <= q < order.len() ==> #[trigger] order@[q] < project.media.len(),
            exp_m == open_media@.to_set(),
            rows@ == crows + media_rows(project.media@, order@.take(k as int), exp_m),
        decreases order.len() - k,
    {
        let asset = &project.media[order[k]];
        let ghost before = rows@;
        rows.push(MediaKeyboardSelection::Media(MediaSelection { media: asset.id, stream: MediaStream::All }));
        let open = contains_id(open_media, asset.id);
        if open {
            let streams = media_streams(asset);
            let mut j: usize = 0;
            while j < streams.len()
                invariant
                    j <= streams.len(),
                    streams@ == streams_of(*asset),
                    rows@ == before.push(MediaKeyboardSelection::Media(MediaSelection { media: asset.id, stream: MediaStream::All }))
                        + streams@.take(j as int).map_values(|s: MediaStream| MediaKeyboardSelection::Media(MediaSelection { media: asset.id, stream: s })),
                decreases streams.len() - j,
            {
                rows.push(MediaKeyboardSelection::Media(MediaSelection { media: asset.id, stream: streams[j] }));
                assert(streams@.take(j + 1) =~= streams@.take(j as int).push(streams@[j as int]));
                j = j + 1;
            }
            assert(streams@.take(streams.len() as int) =~= streams@);
        }
        proof {
            assert(order@.take(k + 1).drop_last() =~= order@.take(k as int));
            assert(open == exp_m.contains(asset.id));
            assert(rows@ =~= crows + media_rows(project.media@, order@.take(k + 1), exp_m));
        }
        k = k + 1;
    }
    assert(order@.take(order.len() as int) =~= order@);
    rows
}

/// A click with no modifier key on an entry that is already selected keeps the whole
/// selection, so that a drag of several selected entries can start from any of them; on an
/// entry that is not selected it selects that entry alone. With Control or Super (and no
/// Shift) the clicked entry joins or leaves the selection and no other entry changes.
pub proof fn lemma_click_selection(
    old_sel: Set<MediaSelection>,
    primary: Option<MediaSelection>,
    selection: MediaSelection,
    modifiers: Modifiers,
    visible: Seq<MediaSelection>,
)
    ensures
        !modifiers.shift && !modifiers.control && !modifiers.super_key && old_sel.contains(selection)
            ==> clicked_selection(old_sel, primary, selection, modifiers, visible) == old_sel,
        !modifiers.shift && !modifiers.control && !modifiers.super_key && !old_sel.contains(selection)
            ==> clicked_selection(old_sel, primary, selection, modifiers, visible) == set![selection],
        !modifiers.shift && (modifiers.control || modifiers.super_key) ==> {
            let sel = clicked_selection(old_sel, primary, selection, modifiers, visible);
            &&& sel.contains(selection) == !old_sel.contains(selection)
            &&& forall|x: MediaSelection| x != selection ==> (#[trigger] sel.contains(x) == old_sel.contains(x))
        },
{
}

/// Choosing a composition entry of the context menu while composition `c` is selected asks
/// for that entry's operation on `c`: "Duplicate Composition" duplicates it, "Rename
/// Composition…" renames it, and "Delete Composition" deletes it where the project has
/// another composition left.
pub proof fn lemma_composition_entries_act_on_selection(
    target: MediaContextTarget,
    index: usize,
    state: MediaPanelState,
    project: Project,
    action: MediaAction,
    c: CompositionSelection,
)
    requires
        state.selected_composition == Some(c),
        index < context_items_for(target).len(),
        menu_choice(target, index, state, project, action),
    ensures
        context_items_for(target)[index as int].0 == MediaContextItem::DuplicateComposition
            ==> action == MediaAction::DuplicateComposition(c.composition),
        context_items_for(target)[index as int].0 == MediaContextItem::RenameComposition
            ==> action == MediaAction::RenameComposition(c.composition),
        context_items_for(target)[index as int].0 == MediaContextItem::DeleteComposition && project.compositions.len() > 1
            ==> action == MediaAction::DeleteComposition(c.composition),
        context_items_for(target)[index as int].0 == MediaContextItem::DeleteComposition && project.compositions.len() <= 1
            ==> action is Nothing,
{
}

/// The other entries of the context menu ask for what they name: a new composition, an
/// import from disk or from the clipboard, and the replacement of the media file the
/// inspector shows.
pub proof fn lemma_entries_ask_for_what_they_name(
    target: MediaContextTarget,
    index: usize,
    state: MediaPanelState,
    project: Project,
    action: MediaAction,
)
    requires
        index < context_items_for(target).len(),
        menu_choice(target, index, state, project, action),
    ensures
        context_items_for(target)[index as int].0 == MediaContextItem::NewComposition ==> action is NewComposition,
        context_items_for(target)[index as int].0 == MediaContextItem::Import ==> action is Import,
        context_items_for(target)[index as int].0 == MediaContextItem::ImportClipboard ==> action is ImportClipboard,
        context_items_for(target)[index as int].0 == MediaContextItem::ReplaceSelectedMedia ==> match state.primary {
            Some(p) => action == MediaAction::ReplaceSelectedMedia { media: p.media },
            None => action is Nothing,
        },
{
}

proof fn lemma_position_names_row(rows: Seq<MediaSelection>, x: MediaSelection)
    ensures
        selection_position(rows, x) matches Some(p) ==> 0 <= p < rows.len() && rows[p] == x,
    decreases rows.len(),
{
    if rows.len() > 0 && rows[0] != x {
        lemma_position_names_row(rows.drop_first(), x);
    }
}

/// A Shift-click on a visible row, with the inspector's entry visible too, selects the rows
/// from that entry to the clicked one, both included and nothing outside the visible rows
/// between them; with Control or Super as well, the earlier selection stays.
pub proof fn lemma_shift_click_selects_range(
    old_sel: Set<MediaSelection>,
    primary: MediaSelection,
    selection: MediaSelection,
    modifiers: Modifiers,
    visible: Seq<MediaSelection>,
)
    requires
        modifiers.shift,
        selection_position(visible, primary) is Some,
        selection_position(visible, selection) is Some,
    ensures
        ({
            let sel = clicked_selection(old_sel, Some(primary), selection, modifiers, visible);
            let a = selection_position(visible, primary)->0;
            let t = selection_position(visible, selection)->0;
            &&& sel.contains(selection)
            &&& sel.contains(primary)
            &&& forall|k: int| (a <= k <= t || t <= k <= a) ==> #[trigger] sel.contains(visible[k])
            &&& forall|x: MediaSelection| #[trigger] sel.contains(x) && !((modifiers.control || modifiers.super_key) && old_sel.contains(x))
                ==> exists|k: int| (a <= k <= t || t <= k <= a) && visible[k] == x
            &&& (modifiers.control || modifiers.super_key) ==> old_sel.subset_of(sel)
        }),
{
    lemma_position_names_row(visible, primary);
    lemma_position_names_row(visible, selection);
    let a = selection_position(visible, primary)->0;
    let t = selection_position(visible, selection)->0;
    let sel = clicked_selection(old_sel, Some(primary), selection, modifiers, visible);
    let range = range_set(visible, a, t);
    assert forall|k: int| (a <= k <= t || t <= k <= a) implies #[trigger] sel.contains(visible[k]) by {
        if a <= t {
            assert(a <= k < t + 1 && visible[k] == visible[k]);
            assert(span_set(visible, a, t + 1).contains(visible[k]));
        } else {
            assert(t <= k < a + 1 && visible[k] == visible[k]);
            assert(span_set(visible, t, a + 1).contains(visible[k]));
        }
    }
    assert(sel.contains(visible[t]));
    assert(sel.contains(visible[a]));
}

} // verus!
