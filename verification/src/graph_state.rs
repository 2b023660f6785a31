//! The interaction state of the pipeline graph: selection, wires being drawn, raising order
//! and the pipeline being shown.
use vstd::prelude::*;

use crate::graph::{control_node, control_key, control_keys, same_control, GraphControlTarget, ChoiceValue, opt_text, raised, other_than, GraphNodeTarget, GraphMonitorSelection, GraphWire, PendingGraphWire, GraphPropertyKey, PipelineGraphAction, InputHit, connect_action_of, graph_connect_action, graph_card_draw_order, drawn_before, copy_wire};
use crate::input::{ControlDrag, Modifiers, PanelKey};
use crate::menu::{AppIcon, ContextMenuItem, item, menu_item};
use crate::order::{SortKey, sorted_order, key_before, lemma_key_before_order, is_index_permutation};
use crate::project::{PipelineInfo, first_pipeline, pipeline_kind, pipeline_position, find_pipeline_position};
use crate::PipelineKind;

verus! {

/// What a graph context menu was opened on.
#[derive(Clone, Debug)]
pub enum GraphContextTarget {
    PipelineSelector,
    Property(GraphPropertyKey),
    Node(GraphNodeTarget),
    Wire(GraphWire),
}

/// The interaction state of the pipeline graph panel. Positions, zoom and the text and colour
/// editors live with the drawing layer; this holds what the graph decides on.
pub struct PipelineGraphState {
    /// The card that the inspector-like parts of the graph follow.
    pub selected_node: Option<GraphNodeTarget>,
    /// All selected cards, each once.
    pub selected_nodes: Vec<GraphNodeTarget>,
    pub selected_wire: Option<GraphWire>,
    /// The pipeline shown instead of the one of the selected clip.
    pub pinned_pipeline: Option<u64>,
    pub pending_wire: Option<PendingGraphWire>,
    pub pending_action: Option<PipelineGraphAction>,
    /// The pipeline whose name the toolbar shows.
    pub pipeline_id: Option<u64>,
    pub renaming: bool,
    pub context_menu: Option<GraphContextTarget>,
    /// The card being dragged alone.
    pub drag: Option<GraphNodeTarget>,
    /// Several selected cards are being dragged together.
    pub group_drag: bool,
    /// The selection a rubber-band selection adds to, while one is drawn.
    pub block_selection: Option<Vec<GraphNodeTarget>>,
    pub pan_drag: bool,
    /// Cards in the order they were last raised, each once; the last is drawn on top.
    pub z_order: Vec<GraphNodeTarget>,
    /// The vector controls whose components move together, each once.
    pub property_links: Vec<GraphControlTarget>,
    /// The pipeline name editor has the keyboard.
    pub name_focused: bool,
    /// The pipeline chooser's list is open.
    pub chooser_open: bool,
    /// The colour control whose picker is open.
    pub color_target: Option<GraphControlTarget>,
}

/// The card that the monitor follows, if the selection names one that it can show.
pub open spec fn monitor_of(
    selected_node: Option<GraphNodeTarget>,
    pinned: Option<u64>,
    followed_pipeline: Option<u64>,
) -> Option<GraphMonitorSelection> {
    match selected_node {
        Some(GraphNodeTarget::Local(node)) => if pinned is None {
            Some(GraphMonitorSelection::Local { node })
        } else {
            None
        },
        Some(GraphNodeTarget::Shared(node)) => {
            let pipeline = if pinned is Some { pinned } else { followed_pipeline };
            match pipeline {
                Some(pipeline) => Some(GraphMonitorSelection::Shared { pipeline, node, follows_clip: pinned is None }),
                None => None,
            }
        },
        _ => None,
    }
}

/// The kind of pipeline the graph shows: that of the pinned pipeline when it exists, else the
/// kind of the selected clip's pipeline.
pub open spec fn graph_kind_of(
    pinned: Option<u64>,
    pipelines: Seq<PipelineInfo>,
    selected_kind: PipelineKind,
) -> PipelineKind {
    match pinned {
        Some(id) => match first_pipeline(pipelines, id) {
            Some(p) => p.kind,
            None => selected_kind,
        },
        None => selected_kind,
    }
}

/// `id` names an existing pipeline of the given kind.
pub open spec fn pipeline_of_kind(pipelines: Seq<PipelineInfo>, id: u64, kind: PipelineKind) -> bool {
    first_pipeline(pipelines, id) matches Some(p) && p.kind == kind
}

/// The pipeline the graph edits: the pinned one if it has the graph's kind, else the followed
/// clip's pipeline if that has it.
pub open spec fn target_pipeline_of(
    pinned: Option<u64>,
    pipelines: Seq<PipelineInfo>,
    selected_kind: PipelineKind,
    followed_pipeline: Option<u64>,
) -> Option<u64> {
    let kind = graph_kind_of(pinned, pipelines, selected_kind);
    if pinned matches Some(id) && pipeline_of_kind(pipelines, id, kind) {
        pinned
    } else if followed_pipeline matches Some(id) && pipeline_of_kind(pipelines, id, kind) {
        followed_pipeline
    } else {
        None
    }
}

/// The order in which selected cards are listed: input, local, shared, value nodes, output,
/// each group by id.
pub open spec fn target_class(target: GraphNodeTarget) -> nat {
    match target {
        GraphNodeTarget::Input => 0,
        GraphNodeTarget::Local(_) => 1,
        GraphNodeTarget::Shared(_) => 2,
        GraphNodeTarget::Value(_) => 3,
        GraphNodeTarget::Output => 4,
    }
}

pub open spec fn target_id(target: GraphNodeTarget) -> nat {
    match target {
        GraphNodeTarget::Local(id) => id as nat,
        GraphNodeTarget::Shared(id) => id as nat,
        GraphNodeTarget::Value(id) => id as nat,
        _ => 0,
    }
}

/// `a` is listed before `b`.
pub open spec fn target_before(a: GraphNodeTarget, b: GraphNodeTarget) -> bool {
    target_class(a) < target_class(b) || (target_class(a) == target_class(b) && target_id(a) < target_id(b))
}

/// `list` holds the members of `set` once each, in listing order.
pub open spec fn lists_in_order(list: Seq<GraphNodeTarget>, set: Set<GraphNodeTarget>) -> bool {
    &&& list.to_set() == set
    &&& forall|a: int, b: int| 0 <= a < b < list.len() ==> target_before(#[trigger] list[a], #[trigger] list[b])
}

/// A card that a delete can remove: any but the graph's input and output.
pub open spec fn removable(target: GraphNodeTarget) -> bool {
    !(target is Input || target is Output)
}

/// The entries of a graph context menu.
pub open spec fn context_items_of(target: GraphContextTarget, has_pipeline: bool, input_is_override: bool) -> Seq<ContextMenuItem> {
    match target {
        GraphContextTarget::PipelineSelector => seq![
            menu_item("Rename Pipeline", Some(AppIcon::Rename), has_pipeline),
            menu_item("New Pipeline", Some(AppIcon::New), true),
            menu_item("Remove Pipeline", Some(AppIcon::Remove), has_pipeline),
        ],
        GraphContextTarget::Property(key) => if key.target is Shared {
            if input_is_override {
                seq![menu_item("Use Shared Value", None, true)]
            } else {
                seq![menu_item("Make Unique", None, true)]
            }
        } else {
            Seq::empty()
        },
        GraphContextTarget::Node(node) => if node is Input || node is Output {
            Seq::empty()
        } else {
            seq![menu_item("Delete Node", Some(AppIcon::Delete), true)]
        },
        GraphContextTarget::Wire(_) => seq![menu_item("Delete Connection", Some(AppIcon::Delete), true)],
    }
}

/// The action that choosing entry `index` of a graph context menu asks for.
pub open spec fn context_action_of(
    target: GraphContextTarget,
    index: usize,
    pipeline_id: Option<u64>,
    input_is_override: bool,
) -> PipelineGraphAction {
    match target {
        GraphContextTarget::PipelineSelector => if index == 1 {
            PipelineGraphAction::Create
        } else if index == 2 && pipeline_id is Some {
            PipelineGraphAction::RemovePipeline(pipeline_id->0)
        } else {
            PipelineGraphAction::Nothing
        },
        GraphContextTarget::Property(key) => if index == 0 && key.target is Shared {
            if input_is_override {
                PipelineGraphAction::UseSharedInput { node: key.target->Shared_0, input: key.input }
            } else {
                PipelineGraphAction::MakeInputUnique { node: key.target->Shared_0, input: key.input }
            }
        } else {
            PipelineGraphAction::Nothing
        },
        GraphContextTarget::Node(node) => if index == 0 && !(node is Input || node is Output) {
            PipelineGraphAction::Remove(node)
        } else {
            PipelineGraphAction::Nothing
        },
        GraphContextTarget::Wire(wire) => if index == 0 {
            PipelineGraphAction::DeleteWire(wire)
        } else {
            PipelineGraphAction::Nothing
        },
    }
}

/// The entry the pipeline chooser shows: 0 to follow the clip, else one more than the pinned
/// pipeline's place (0 when it no longer exists).
pub open spec fn chooser_index_of(pinned: Option<u64>, pipelines: Seq<PipelineInfo>) -> usize {
    match pinned {
        Some(id) => match pipeline_position(pipelines, id) {
            Some(p) => (p + 1) as usize,
            None => 0,
        },
        None => 0,
    }
}

/// `new` and `action` are what deleting the selection of `old` gives: the selected wire if
/// there is one (taken out of the selection when `take_wire`), else the selected cards other
/// than the graph's input and output, which are then no longer selected.
pub open spec fn delete_outcome(
    old: PipelineGraphState,
    new: PipelineGraphState,
    action: PipelineGraphAction,
    take_wire: bool,
) -> bool {
    match old.selected_wire {
        Some(wire) => {
            &&& action == PipelineGraphAction::DeleteWire(wire)
            &&& new == if take_wire {
                PipelineGraphState { selected_wire: None, ..old }
            } else {
                old
            }
        },
        None => {
            let doomed = old.selected_nodes@.to_set().filter(|t: GraphNodeTarget| removable(t));
            &&& match action {
                PipelineGraphAction::Nothing => doomed == Set::<GraphNodeTarget>::empty(),
                PipelineGraphAction::Remove(t) => doomed == set![t],
                PipelineGraphAction::RemoveMany(list) => list.len() >= 2 && lists_in_order(list@, doomed),
                _ => false,
            }
            &&& action is Nothing ==> new == old
            &&& !(action is Nothing) ==> new.selected_nodes@ == Seq::<GraphNodeTarget>::empty()
                && new == (PipelineGraphState {
                    selected_node: None,
                    selected_nodes: new.selected_nodes,
                    ..old
                })
        },
    }
}

/// Deleting selected cards leaves nothing more to delete: a second delete finds no removable
/// card and asks for nothing.
pub proof fn lemma_delete_leaves_nothing(
    first: PipelineGraphState,
    mid: PipelineGraphState,
    action: PipelineGraphAction,
    last: PipelineGraphState,
    again: PipelineGraphAction,
)
    requires
        first.selected_wire is None,
        !(action is Nothing),
        delete_outcome(first, mid, action, true),
        delete_outcome(mid, last, again, true),
    ensures
        again is Nothing,
        last == mid,
{
    let doomed = mid.selected_nodes@.to_set().filter(|t: GraphNodeTarget| removable(t));
    assert(mid.selected_nodes@.to_set() =~= Set::<GraphNodeTarget>::empty());
    assert(doomed =~= Set::<GraphNodeTarget>::empty());
    match again {
        PipelineGraphAction::Remove(t) => {
            assert(doomed.contains(t));
        },
        PipelineGraphAction::RemoveMany(list) => {
            assert(list@.to_set().contains(list@[0]));
        },
        _ => {},
    }
}

/// What lies under a right press on the graph panel, as the drawing layer found it.
#[derive(Clone, Debug)]
pub enum GraphRightPress {
    /// The toolbar's pipeline chooser.
    PipelineSelector,
    /// A point outside the canvas.
    OutsideCanvas,
    /// The topmost card under the pointer, with the property row under the pointer where that
    /// row's input can be made unique.
    Card { target: GraphNodeTarget, property: Option<GraphPropertyKey> },
    /// An editable wire under the pointer.
    Wire(GraphWire),
    /// The empty canvas.
    Empty,
}

/// The context menu a right press on a card opens: on the property row where one was hit,
/// else on the card, except that the graph's input and output get none.
pub open spec fn card_menu(target: GraphNodeTarget, property: Option<GraphPropertyKey>) -> Option<GraphContextTarget> {
    match property {
        Some(key) => Some(GraphContextTarget::Property(key)),
        None => if target is Input || target is Output {
            None
        } else {
            Some(GraphContextTarget::Node(target))
        },
    }
}

/// How a press on a card went.
#[derive(Clone, Copy, Debug, PartialEq, Eq, Structural)]
pub enum CardPress {
    /// The card left the selection.
    Deselected,
    /// The card is dragged alone.
    Dragging,
    /// The selected cards are dragged together.
    GroupDragging,
}

/// `t` is the first member of `set` in listing order.
pub open spec fn is_first_listed(t: GraphNodeTarget, set: Set<GraphNodeTarget>) -> bool {
    set.contains(t) && forall|u: GraphNodeTarget| #[trigger] set.contains(u) && u != t ==> target_before(t, u)
}

fn contains_target(list: &Vec<GraphNodeTarget>, target: GraphNodeTarget) -> (found: bool)
    ensures
        found == list@.contains(target),
{
    let mut i: usize = 0;
    while i < list.len()
        invariant
            i <= list.len(),
            forall|k: int| 0 <= k < i ==> list@[k] != target,
        decreases list.len() - i,
    {
        if list[i] == target {
            return true;
        }
        i = i + 1;
    }
    false
}

fn copy_targets(list: &Vec<GraphNodeTarget>) -> (copy: Vec<GraphNodeTarget>)
    ensures
        copy@ == list@,
{
    let mut copy: Vec<GraphNodeTarget> = Vec::new();
    let mut i: usize = 0;
    while i < list.len()
        invariant
            i <= list.len(),
            copy@ == list@.take(i as int),
        decreases list.len() - i,
    {
        copy.push(list[i]);
        assert(list@.take(i + 1) =~= list@.take(i as int).push(list@[i as int]));
        i = i + 1;
    }
    assert(list@.take(list.len() as int) =~= list@);
    copy
}

fn without_target(list: &Vec<GraphNodeTarget>, target: GraphNodeTarget) -> (kept: Vec<GraphNodeTarget>)
    requires
        list@.no_duplicates(),
    ensures
        kept@.no_duplicates(),
        kept@.to_set() == list@.to_set().remove(target),
{
    let mut kept: Vec<GraphNodeTarget> = Vec::new();
    let mut i: usize = 0;
    while i < list.len()
        invariant
            i <= list.len(),
            list@.no_duplicates(),
            kept@.no_duplicates(),
            forall|u: GraphNodeTarget| kept@.contains(u) <==> (exists|k: int| 0 <= k < i && #[trigger] list@[k] == u) && u != target,
        decreases list.len() - i,
    {
        let u = list[i];
        if u != target {
            proof {
                assert(!kept@.contains(u)) by {
                    if kept@.contains(u) {
                        let k = choose|k: int| 0 <= k < i && #[trigger] list@[k] == u;
                        assert(k != i);
                    }
                }
            }
            let ghost prev = kept@;
            kept.push(u);
            proof {
                assert forall|a: int, b: int| 0 <= a < kept@.len() && 0 <= b < kept@.len() && a != b implies kept@[a] != kept@[b] by {
                    if a == prev.len() {
                        assert(prev.contains(kept@[b]));
                    } else if b == prev.len() {
                        assert(prev.contains(kept@[a]));
                    } else {
                        assert(kept@[a] == prev[a] && kept@[b] == prev[b]);
                    }
                }
                assert forall|w: GraphNodeTarget| kept@.contains(w) <==> (exists|k: int| 0 <= k < i + 1 && #[trigger] list@[k] == w) && w != target by {
                    if kept@.contains(w) {
                        let q = choose|q: int| 0 <= q < kept@.len() && kept@[q] == w;
                        if q < prev.len() {
                            assert(prev[q] == w);
                            assert(prev.contains(w));
                        } else {
                            assert(list@[i as int] == w);
                        }
                    }
                    if (exists|k: int| 0 <= k < i + 1 && #[trigger] list@[k] == w) && w != target {
                        let k = choose|k: int| 0 <= k < i + 1 && #[trigger] list@[k] == w;
                        if k < i {
                            assert(prev.contains(w));
                            let q = choose|q: int| 0 <= q < prev.len() && prev[q] == w;
                            assert(kept@[q] == w);
                        } else {
                            assert(kept@[prev.len() as int] == w);
                        }
                    }
                }
            }
        }
        i = i + 1;
    }
    proof {
        assert forall|u: GraphNodeTarget| kept@.to_set().contains(u) <==> list@.to_set().remove(target).contains(u) by {
            if list@.contains(u) && u != target {
                let k = choose|k: int| 0 <= k < list@.len() && list@[k] == u;
                assert(exists|k: int| 0 <= k < i && #[trigger] list@[k] == u);
            }
        }
        assert(kept@.to_set() =~= list@.to_set().remove(target));
    }
    kept
}

fn with_target(list: &Vec<GraphNodeTarget>, target: GraphNodeTarget) -> (added: Vec<GraphNodeTarget>)
    requires
        list@.no_duplicates(),
    ensures
        added@.no_duplicates(),
        added@.to_set() == list@.to_set().insert(target),
{
    let mut added = copy_targets(list);
    if !contains_target(list, target) {
        let ghost prev = added@;
        added.push(target);
        proof {
            assert forall|a: int, b: int| 0 <= a < added@.len() && 0 <= b < added@.len() && a != b implies added@[a] != added@[b] by {
                if a == prev.len() {
                    assert(prev.contains(added@[b]));
                } else if b == prev.len() {
                    assert(prev.contains(added@[a]));
                } else {
                    assert(added@[a] == prev[a] && added@[b] == prev[b]);
                }
            }
            assert(added@.to_set() =~= list@.to_set().insert(target)) by {
                assert forall|u: GraphNodeTarget| added@.contains(u) <==> list@.contains(u) || u == target by {
                    if added@.contains(u) {
                        let q = choose|q: int| 0 <= q < added@.len() && added@[q] == u;
                        if q < prev.len() {
                            assert(prev[q] == u);
                        }
                    }
                    if list@.contains(u) {
                        let q = choose|q: int| 0 <= q < list@.len() && list@[q] == u;
                        assert(added@[q] == u);
                    }
                    if u == target {
                        assert(added@[prev.len() as int] == u);
                    }
                }
            }
        }
    } else {
        proof {
            assert(added@.to_set() =~= list@.to_set().insert(target));
        }
    }
    added
}

/// The cards among the first `n` that the rubber band touched.
pub open spec fn hit_set(cards: Seq<GraphNodeTarget>, hits: Seq<bool>, n: int) -> Set<GraphNodeTarget> {
    Set::new(|t: GraphNodeTarget| exists|k: int| 0 <= k < n && hits[k] && #[trigger] cards[k] == t)
}

proof fn lemma_hit_set_step(cards: Seq<GraphNodeTarget>, hits: Seq<bool>, n: int)
    requires
        0 <= n,
    ensures
        hit_set(cards, hits, n + 1) == if hits[n] {
            hit_set(cards, hits, n).insert(cards[n])
        } else {
            hit_set(cards, hits, n)
        },
{
    let next = hit_set(cards, hits, n + 1);
    let prev = hit_set(cards, hits, n);
    assert forall|t: GraphNodeTarget| next.contains(t) <==> prev.contains(t) || (hits[n] && cards[n] == t) by {
        if next.contains(t) {
            let k = choose|k: int| 0 <= k < n + 1 && hits[k] && #[trigger] cards[k] == t;
            if k < n {
                assert(prev.contains(t));
            }
        }
        if prev.contains(t) {
            let k = choose|k: int| 0 <= k < n && hits[k] && #[trigger] cards[k] == t;
            assert(0 <= k < n + 1 && hits[k] && cards[k] == t);
        }
        if hits[n] && cards[n] == t {
            assert(0 <= n < n + 1 && hits[n] && cards[n] == t);
        }
    }
    if hits[n] {
        assert(next =~= prev.insert(cards[n]));
    } else {
        assert(next =~= prev);
    }
}

/// Card `i` is in `sel` and, when `only_removable`, is neither the input nor the output.
pub open spec fn picks(sel: Set<GraphNodeTarget>, cards: Seq<GraphNodeTarget>, only_removable: bool, i: int) -> bool {
    sel.contains(cards[i]) && (only_removable ==> removable(cards[i]))
}

/// The cards that `picks` accepts.
pub open spec fn selection_pick(sel: Set<GraphNodeTarget>, cards: Seq<GraphNodeTarget>, only_removable: bool) -> spec_fn(int) -> bool {
    |k: int| picks(sel, cards, only_removable, k)
}

/// Which cards may become the selected card after a rubber-band selection: the selected ones
/// other than the input and output if there are any, else all selected ones.
pub open spec fn block_pick(sel: Set<GraphNodeTarget>, cards: Seq<GraphNodeTarget>) -> spec_fn(int) -> bool {
    if exists|j: int| 0 <= j < cards.len() && #[trigger] picks(sel, cards, true, j) {
        selection_pick(sel, cards, true)
    } else {
        selection_pick(sel, cards, false)
    }
}

/// Card `i` accepts the pending wire at the pointer.
pub open spec fn accepts_wire(
    pending: PendingGraphWire,
    cards: Seq<GraphNodeTarget>,
    hits: Seq<InputHit>,
    followed_shared: bool,
    i: int,
) -> bool {
    connect_action_of(pending, cards[i], hits[i], followed_shared) is Some
}

/// The cards that accept the pending wire at the pointer.
pub open spec fn wire_acceptors(
    pending: PendingGraphWire,
    cards: Seq<GraphNodeTarget>,
    hits: Seq<InputHit>,
    followed_shared: bool,
) -> spec_fn(int) -> bool {
    |k: int| accepts_wire(pending, cards, hits, followed_shared, k)
}

/// Card `i` satisfies `p` and is drawn above every other card that does.
pub open spec fn is_topmost(
    cards: Seq<GraphNodeTarget>,
    z_order: Seq<GraphNodeTarget>,
    i: int,
    p: spec_fn(int) -> bool,
) -> bool {
    &&& 0 <= i < cards.len()
    &&& p(i)
    &&& forall|j: int| 0 <= j < cards.len() && j != i && #[trigger] p(j) ==> drawn_before(cards, z_order, j, i)
}

proof fn lemma_topmost_in_order(
    cards: Seq<GraphNodeTarget>,
    z_order: Seq<GraphNodeTarget>,
    order: Seq<usize>,
    k: int,
    p: spec_fn(int) -> bool,
)
    requires
        cards.len() <= usize::MAX,
        is_index_permutation(order, cards.len() as nat),
        forall|a: int, b: int|
            0 <= a < b < order.len() ==> drawn_before(cards, z_order, #[trigger] order[a] as int, #[trigger] order[b] as int),
        0 <= k < order.len(),
        p(order[k] as int),
        forall|q: int| k < q < order.len() ==> !p(#[trigger] order[q] as int),
    ensures
        is_topmost(cards, z_order, order[k] as int, p),
{
    let i = order[k] as int;
    assert forall|j: int| 0 <= j < cards.len() && j != i && #[trigger] p(j) implies drawn_before(cards, z_order, j, i) by {
        assert(order.contains(j as usize));
        let q = choose|q: int| 0 <= q < order.len() && order[q] == j as usize;
        if q > k {
            assert(!p(order[q] as int));
        } else if q < k {
            assert(drawn_before(cards, z_order, order[q] as int, order[k] as int));
        }
    }
}

/// The topmost card (by `order`, bottom first) that is in `selected` and, when
/// `only_removable`, is neither the input nor the output.
fn topmost_selected(
    cards: &[GraphNodeTarget],
    z_order: &Vec<GraphNodeTarget>,
    order: &Vec<usize>,
    selected: &Vec<GraphNodeTarget>,
    only_removable: bool,
) -> (found: Option<usize>)
    requires
        is_index_permutation(order@, cards.len() as nat),
        forall|a: int, b: int|
            0 <= a < b < order.len() ==> drawn_before(cards@, z_order@, #[trigger] order@[a] as int, #[trigger] order@[b] as int),
    ensures
        match found {
            Some(i) => is_topmost(cards@, z_order@, i as int, selection_pick(selected@.to_set(), cards@, only_removable)),
            None => forall|i: int| 0 <= i < cards.len() ==> !#[trigger] picks(selected@.to_set(), cards@, only_removable, i),
        },
{
    let ghost p = selection_pick(selected@.to_set(), cards@, only_removable);
    let mut k = order.len();
    while k > 0
        invariant
            k <= order.len(),
            is_index_permutation(order@, cards.len() as nat),
            forall|a: int, b: int|
                0 <= a < b < order.len() ==> drawn_before(cards@, z_order@, #[trigger] order@[a] as int, #[trigger] order@[b] as int),
            p == selection_pick(selected@.to_set(), cards@, only_removable),
            forall|q: int| k <= q < order.len() ==> !p(#[trigger] order@[q] as int),
        decreases k,
    {
        let i = order[k - 1];
        let t = cards[i];
        let in_selection = contains_target(selected, t);
        let eligible = match t {
            GraphNodeTarget::Input | GraphNodeTarget::Output => !only_removable,
            _ => true,
        };
        proof {
            assert(in_selection == selected@.to_set().contains(t)) by {
                if selected@.to_set().contains(t) {
                    assert(selected@.contains(t));
                }
            }
            assert(p(i as int) == (in_selection && eligible));
        }
        if in_selection && eligible {
            proof {
                lemma_topmost_in_order(cards@, z_order@, order@, k - 1, p);
            }
            return Some(i);
        }
        k = k - 1;
    }
    proof {
        assert forall|i: int| 0 <= i < cards.len() implies !#[trigger] picks(selected@.to_set(), cards@, only_removable, i) by {
            assert(order@.contains(i as usize));
            let q = choose|q: int| 0 <= q < order.len() && order@[q] == i as usize;
            assert(!p(order@[q] as int));
        }
    }
    None
}

/// What a text editor did with a key or with composed text.
#[derive(Clone, Copy, Debug, PartialEq, Eq, Structural)]
pub struct EditResponse {
    pub handled: bool,
    pub changed: bool,
}

/// A drag of any kind is under way: a card, a group of cards, a rubber band, the view, a wire,
/// or one of the value controls (`controls`).
pub open spec fn graph_dragging(s: PipelineGraphState, controls: ControlDrag) -> bool {
    s.drag is Some || s.group_drag || s.block_selection is Some || s.pan_drag || s.pending_wire is Some
        || !(controls is Idle)
}

/// The state after the panel lost focus: no wire being drawn, no context menu, no card drag
/// and no rubber band; the name editor has lost the keyboard, the pipeline chooser is closed
/// and no colour picker is open.
pub open spec fn graph_focus_lost(s: PipelineGraphState) -> PipelineGraphState {
    PipelineGraphState {
        pending_wire: None,
        context_menu: None,
        drag: None,
        group_drag: false,
        block_selection: None,
        name_focused: false,
        chooser_open: false,
        color_target: None,
        ..s
    }
}

/// The state once a rename began: the chooser and the colour picker are closed and the name
/// editor has the keyboard.
pub open spec fn renamed(s: PipelineGraphState) -> PipelineGraphState {
    PipelineGraphState { renaming: true, name_focused: true, chooser_open: false, color_target: None, ..s }
}

/// Losing focus ends every drag of the graph but a drag of the view; a value control's drag
/// is the controls' own.
pub proof fn lemma_focus_loss_ends_drags(s: PipelineGraphState, controls: ControlDrag)
    ensures
        graph_dragging(graph_focus_lost(s), controls) == (s.pan_drag || !(controls is Idle)),
{
}

/// `new` is `old` after a rubber band over `cards` ended: the selection is the band's base
/// and every card the band met (`hits`), the topmost selected card other than the input and
/// output (else the topmost selected card, else none) is the selected one, and no wire, card
/// drag or band remains.
pub open spec fn block_finished(
    old: PipelineGraphState,
    new: PipelineGraphState,
    cards: Seq<GraphNodeTarget>,
    hits: Seq<bool>,
) -> bool {
    let sel = new.selected_nodes@.to_set();
    &&& old.block_selection is Some
    &&& sel == old.block_selection->0@.to_set().union(hit_set(cards, hits, cards.len() as int))
    &&& match new.selected_node {
        Some(t) => exists|i: int| #[trigger] is_topmost(cards, old.z_order@, i, block_pick(sel, cards))
            && cards[i] == t,
        None => forall|i: int| 0 <= i < cards.len() ==> !#[trigger] picks(sel, cards, false, i),
    }
    &&& new == (PipelineGraphState {
        selected_node: new.selected_node,
        selected_nodes: new.selected_nodes,
        selected_wire: None,
        drag: None,
        group_drag: false,
        block_selection: None,
        ..old
    })
}

/// `new` is `old` after the wire being drawn was dropped over `cards`: the wire and the card
/// drag end, and `action` is what the topmost card that accepts the wire asks for, or nothing
/// where none accepts it.
pub open spec fn wire_released(
    old: PipelineGraphState,
    new: PipelineGraphState,
    action: PipelineGraphAction,
    cards: Seq<GraphNodeTarget>,
    hits: Seq<InputHit>,
    followed_shared: bool,
) -> bool {
    &&& old.pending_wire matches Some(pending)
    &&& new == (PipelineGraphState { pending_wire: None, drag: None, ..old })
    &&& if exists|i: int| 0 <= i < cards.len() && #[trigger] accepts_wire(pending, cards, hits, followed_shared, i) {
        exists|i: int| #[trigger] is_topmost(cards, old.z_order@, i, wire_acceptors(pending, cards, hits, followed_shared))
            && Some(action) == connect_action_of(pending, cards[i], hits[i], followed_shared)
    } else {
        action is Nothing
    }
}

/// The wire a card dropped on wires is inserted into: the first image wire of `crossing`
/// that neither starts nor ends at shared node `node`.
pub open spec fn insertion_wire(crossing: Seq<GraphWire>, node: u64) -> Option<int>
    decreases crossing.len(),
{
    if crossing.len() == 0 {
        None
    } else {
        match insertion_wire(crossing.drop_last(), node) {
            Some(i) => Some(i),
            None => match crossing.last() {
                GraphWire::Image { source, destination, .. } => if source != Some(node) && destination != Some(node) {
                    Some(crossing.len() - 1)
                } else {
                    None
                },
                _ => None,
            },
        }
    }
}

proof fn lemma_insertion_wire_prefix(crossing: Seq<GraphWire>, node: u64, n: int)
    requires
        0 < n <= crossing.len(),
        insertion_wire(crossing.take(n - 1), node) is None,
        insertion_wire(crossing.take(n), node) == Some(n - 1),
    ensures
        insertion_wire(crossing, node) == Some(n - 1),
    decreases crossing.len() - n,
{
    if n < crossing.len() {
        assert(crossing.take(n + 1).drop_last() =~= crossing.take(n));
        lemma_insertion_wire_prefix_keeps(crossing, node, n + 1, n - 1);
    } else {
        assert(crossing.take(n) =~= crossing);
    }
}

proof fn lemma_insertion_wire_prefix_keeps(crossing: Seq<GraphWire>, node: u64, n: int, k: int)
    requires
        0 < n <= crossing.len(),
        insertion_wire(crossing.take(n - 1), node) == Some(k),
    ensures
        insertion_wire(crossing, node) == Some(k),
    decreases crossing.len() - n,
{
    assert(crossing.take(n).drop_last() =~= crossing.take(n - 1));
    if n < crossing.len() {
        lemma_insertion_wire_prefix_keeps(crossing, node, n + 1, k);
    } else {
        assert(crossing.take(n) =~= crossing);
    }
}

proof fn lemma_insertion_wire_is_image(crossing: Seq<GraphWire>, node: u64)
    ensures
        insertion_wire(crossing, node) matches Some(k) ==> 0 <= k < crossing.len() && crossing[k] is Image,
    decreases crossing.len(),
{
    if crossing.len() > 0 {
        lemma_insertion_wire_is_image(crossing.drop_last(), node);
    }
}

/// `set` with `x` taken out where it was there and put in where it was not.
pub open spec fn flipped_key<A>(set: Set<A>, x: A) -> Set<A> {
    if set.contains(x) { set.remove(x) } else { set.insert(x) }
}

/// A drag that holds the pointer in place is a drag: whenever the graph reports a
/// pointer-holding drag of its value controls, it reports a drag.
pub proof fn lemma_cursor_lock_is_drag(s: PipelineGraphState, controls: ControlDrag)
    ensures
        graph_pointer_locked(controls) ==> graph_dragging(s, controls),
{
}

/// The value controls hold the pointer in place for their drag.
pub open spec fn graph_pointer_locked(controls: ControlDrag) -> bool {
    controls is PointerLocked
}

/// What the pipeline name editor's answer leads to.
#[derive(Clone, Copy, Debug, PartialEq, Eq, Structural)]
pub enum NameEditOutcome {
    /// The input was not the editor's.
    Ignored,
    /// The editor took the input without changing the name.
    Handled,
    /// The editor changed the name: the pipeline with this id takes the editor's text.
    Rename(u64),
}

/// What the pipeline name editor's answer leads to, given whether a rename is under way and
/// which pipeline is shown.
pub open spec fn name_edit_outcome(renaming: bool, pipeline: Option<u64>, response: EditResponse) -> NameEditOutcome {
    if !renaming || !response.handled {
        NameEditOutcome::Ignored
    } else if response.changed && pipeline is Some {
        NameEditOutcome::Rename(pipeline->0)
    } else {
        NameEditOutcome::Handled
    }
}

/// Which editor places the text input caret.
#[derive(Clone, Copy, Debug, PartialEq, Eq, Structural)]
pub enum CaretOwner {
    ColorPicker,
    PipelineName,
    Controls,
}

/// `new` and `press` are what a press on card `target` makes of `old` (see `press_card`).
pub open spec fn card_press(old: PipelineGraphState, new: PipelineGraphState, target: GraphNodeTarget, modifiers: Modifiers, press: CardPress) -> bool {
    let additive = modifiers.control || modifiers.super_key;
    let sel = old.selected_nodes@.to_set();
    if additive && sel.contains(target) {
        &&& press == CardPress::Deselected
        &&& new.selected_nodes@.to_set() == sel.remove(target)
        &&& match new.selected_node {
            Some(t) => is_first_listed(t, sel.remove(target)),
            None => sel.remove(target) == Set::<GraphNodeTarget>::empty(),
        }
        &&& new == (PipelineGraphState {
            selected_node: new.selected_node,
            selected_nodes: new.selected_nodes,
            selected_wire: None,
            drag: None,
            group_drag: false,
            ..old
        })
    } else {
        let new_sel = if additive || modifiers.shift {
            sel.insert(target)
        } else if !sel.contains(target) || old.selected_nodes.len() <= 1 {
            set![target]
        } else {
            sel
        };
        &&& new.selected_nodes@.to_set() == new_sel
        &&& new.z_order@ == old.z_order@.filter(other_than(target)).push(target)
        &&& if new.selected_nodes.len() > 1 {
            press == CardPress::GroupDragging && new.drag is None && new.group_drag
        } else {
            press == CardPress::Dragging && new.drag == Some(target) && !new.group_drag
        }
        &&& new == (PipelineGraphState {
            selected_node: Some(target),
            selected_nodes: new.selected_nodes,
            selected_wire: None,
            z_order: new.z_order,
            drag: new.drag,
            group_drag: new.group_drag,
            ..old
        })
    }
}

/// `new` is what a press on `wire` makes of `old`: the wire alone is selected and card drags end.
pub open spec fn wire_press(old: PipelineGraphState, new: PipelineGraphState, wire: GraphWire) -> bool {
    &&& new.selected_nodes@ == Seq::<GraphNodeTarget>::empty()
    &&& new == (PipelineGraphState {
        selected_wire: Some(wire),
        selected_node: None,
        selected_nodes: new.selected_nodes,
        drag: None,
        group_drag: false,
        ..old
    })
}

/// `new` is what a press on nothing makes of `old` (see `press_empty`).
pub open spec fn empty_press(old: PipelineGraphState, new: PipelineGraphState, inside_canvas: bool, modifiers: Modifiers) -> bool {
    let additive = modifiers.shift || modifiers.control || modifiers.super_key;
    &&& if inside_canvas {
        &&& new.block_selection matches Some(base)
            && base@ == if additive { old.selected_nodes@ } else { Seq::<GraphNodeTarget>::empty() }
        &&& if additive {
            new.selected_nodes == old.selected_nodes && new.selected_node == old.selected_node
        } else {
            new.selected_nodes@ == Seq::<GraphNodeTarget>::empty() && new.selected_node is None
        }
    } else {
        &&& new.block_selection == old.block_selection
        &&& new.selected_nodes@ == Seq::<GraphNodeTarget>::empty()
        &&& new.selected_node is None
    }
    &&& new == (PipelineGraphState {
        selected_node: new.selected_node,
        selected_nodes: new.selected_nodes,
        block_selection: new.block_selection,
        selected_wire: None,
        pending_wire: None,
        drag: None,
        group_drag: false,
        ..old
    })
}

/// `new` is `old` after the link of `control`'s components was switched on or off and its card
/// was selected alone and raised.
pub open spec fn link_toggled(old: PipelineGraphState, new: PipelineGraphState, control: GraphControlTarget) -> bool {
    &&& control_keys(new.property_links@).to_set()
        == flipped_key(control_keys(old.property_links@).to_set(), control_key(control))
    &&& new.selected_nodes@ == seq![control_node(control)]
    &&& new.z_order@ == raised(old.z_order@, control_node(control))
    &&& new == (PipelineGraphState {
        selected_node: Some(control_node(control)),
        selected_nodes: new.selected_nodes,
        selected_wire: None,
        z_order: new.z_order,
        property_links: new.property_links,
        ..old
    })
}

/// `new` is `old` after a press on the colour swatch of `control` (see `press_color_swatch`).
pub open spec fn swatch_pressed(old: PipelineGraphState, new: PipelineGraphState, control: GraphControlTarget) -> bool {
    &&& new.selected_nodes@ == seq![control_node(control)]
    &&& new.z_order@ == raised(old.z_order@, control_node(control))
    &&& new == (PipelineGraphState {
        selected_node: Some(control_node(control)),
        selected_nodes: new.selected_nodes,
        selected_wire: None,
        z_order: new.z_order,
        renaming: false,
        name_focused: false,
        color_target: Some(control),
        ..old
    })
}

/// `new` is `old` with `node` selected alone and raised.
pub open spec fn raised_alone(old: PipelineGraphState, new: PipelineGraphState, node: GraphNodeTarget) -> bool {
    &&& new.selected_nodes@ == seq![node]
    &&& new.z_order@ == raised(old.z_order@, node)
    &&& new == (PipelineGraphState {
        selected_node: Some(node),
        selected_nodes: new.selected_nodes,
        selected_wire: None,
        z_order: new.z_order,
        ..old
    })
}

/// What a press of the left button on the graph panel landed on, as the panel's hit tests
/// found it, in the order they run: the open context menu, the pipeline chooser's list, the
/// panel's bounds, the toolbar, the colour picker, the option lists, the angle knobs, the
/// colour swatches, the keyframe buttons, the link buttons and number fields, then the canvas:
/// a connected input, an output, the cards from the top down, the wires, and empty space.
pub enum GraphPress {
    /// Entry `index` of the open context menu; `enabled` tells whether it can be chosen, and
    /// `input_is_override` whether the property the menu was opened on overrides the shared
    /// value for the followed clip.
    MenuEntry { index: usize, enabled: bool, input_is_override: bool },
    /// Entry `index` of the pipeline chooser's open list.
    ChooserOption(usize),
    /// Outside the panel.
    Outside,
    /// The pipeline chooser, which is the name editor during a rename.
    Chooser,
    /// The open colour picker took the press; a colour it changed is the caller's to apply.
    ColorPicker,
    /// Option `index` of a property's open option list; `is_bool` for a switch.
    PropertyOption { key: GraphPropertyKey, index: usize, is_bool: bool },
    /// The button that opens the option list of a property of card `node`.
    ChoiceButton(GraphNodeTarget),
    /// An angle knob of card `node`; the value it sets is the caller's to apply.
    Angle(GraphNodeTarget),
    /// The colour swatch of a control.
    ColorSwatch(GraphControlTarget),
    /// The keyframe button of the band values of card `node`'s equaliser.
    HostKeyframe(GraphNodeTarget),
    /// The button that links the components of a vector control.
    PropertyLink(GraphControlTarget),
    /// A number field of card `node`; the value it sets is the caller's to apply.
    Number(GraphNodeTarget),
    /// The canvas while it shows no card.
    NoCards,
    /// An input that a wire enters: the wire is lifted off to be drawn again from `pending`.
    ConnectedInput { pending: PendingGraphWire, wire: GraphWire },
    /// An output, where a new wire starts.
    Output(PendingGraphWire),
    Card(GraphNodeTarget),
    Wire(GraphWire),
    /// Off every card and wire; `inside_canvas` tells whether the press is on the canvas.
    Empty { inside_canvas: bool },
}

/// `new` and `action` are what a press on `press` makes of `old`, with `modifiers` held and
/// `pipelines` listed in the chooser after its first entry. The
/// open context menu closes on any press; the chooser's list closes on any press after the
/// toolbar's, and the colour picker on any press after the swatches'.
pub open spec fn graph_press(
    old: PipelineGraphState,
    new: PipelineGraphState,
    press: GraphPress,
    modifiers: Modifiers,
    pipelines: Seq<PipelineInfo>,
    action: PipelineGraphAction,
) -> bool {
    let m = PipelineGraphState { context_menu: None, ..old };
    let c = PipelineGraphState { chooser_open: false, ..m };
    let k = PipelineGraphState { color_target: None, ..c };
    let unfocused = PipelineGraphState { renaming: false, name_focused: false, ..c };
    match press {
        GraphPress::MenuEntry { index, enabled, input_is_override } => match old.context_menu {
            Some(target) => if enabled {
                &&& action == context_action_of(target, index, old.pipeline_id, input_is_override)
                &&& new == if target is PipelineSelector && index == 0 && old.pipeline_id is Some { renamed(m) } else { m }
            } else {
                action is Nothing && new == m
            },
            None => action is Nothing && new == old,
        },
        GraphPress::ChooserOption(index) => if old.renaming {
            action is Nothing && new == m
        } else {
            &&& new == c
            &&& action matches PipelineGraphAction::SelectPipeline(p)
            &&& p == if index == 0 || index - 1 >= pipelines.len() { None } else { Some(pipelines[index - 1].id) }
        },
        GraphPress::Outside => action is Nothing && new == c,
        GraphPress::Chooser => action is Nothing && new == if old.renaming && old.pipeline_id is Some {
            m
        } else if !old.renaming {
            PipelineGraphState { chooser_open: !old.chooser_open, ..m }
        } else {
            c
        },
        GraphPress::ColorPicker => action is Nothing && new == c,
        GraphPress::PropertyOption { key, index, is_bool } => {
            &&& new == unfocused
            &&& action matches PipelineGraphAction::SetEffectChoice { target, input, value } && target == key.target
                && input@ == key.input@ && value == (if is_bool { ChoiceValue::Bool(index != 0) } else { ChoiceValue::Enum(index as u32) })
        },
        GraphPress::ChoiceButton(node) | GraphPress::Angle(node) => action is Nothing && raised_alone(unfocused, new, node),
        GraphPress::ColorSwatch(control) => action is Nothing && swatch_pressed(c, new, control),
        GraphPress::HostKeyframe(node) => {
            &&& raised_alone(k, new, node)
            &&& action matches PipelineGraphAction::ToggleHostKeyframe { target, input } && target == node && input@ == "band_values"@
        },
        GraphPress::PropertyLink(control) => action is Nothing && link_toggled(k, new, control),
        GraphPress::Number(node) => action is Nothing
            && raised_alone(PipelineGraphState { renaming: false, name_focused: false, ..k }, new, node),
        GraphPress::NoCards => action is Nothing && new == k,
        GraphPress::ConnectedInput { pending, wire } => action == PipelineGraphAction::DeleteWire(wire)
            && new == (PipelineGraphState { pending_wire: Some(pending), selected_wire: None, ..k }),
        GraphPress::Output(pending) => action is Nothing
            && new == (PipelineGraphState { pending_wire: Some(pending), selected_wire: None, ..k }),
        GraphPress::Card(target) => action is Nothing && exists|p: CardPress| #[trigger] card_press(k, new, target, modifiers, p),
        GraphPress::Wire(wire) => action is Nothing && wire_press(k, new, wire),
        GraphPress::Empty { inside_canvas } => action is Nothing && empty_press(k, new, inside_canvas, modifiers),
    }
}

/// No press of the right button changes the pipeline the graph is pinned to, or lets it
/// follow the clip again.
pub proof fn lemma_right_press_keeps_pin(old: PipelineGraphState, new: PipelineGraphState, hit: GraphRightPress, action: PipelineGraphAction)
    requires
        right_press(old, new, hit, action),
    ensures
        new.pinned_pipeline == old.pinned_pipeline,
{
}

/// No release of the pointer changes the pipeline the graph is pinned to, or lets it follow
/// the clip again.
pub proof fn lemma_release_keeps_pin(
    old: PipelineGraphState,
    new: PipelineGraphState,
    cards: Seq<GraphNodeTarget>,
    band_hits: Seq<bool>,
    input_hits: Seq<InputHit>,
    followed_shared: bool,
    crossing: Seq<GraphWire>,
    action: PipelineGraphAction,
)
    requires
        graph_release(old, new, cards, band_hits, input_hits, followed_shared, crossing, action),
    ensures
        new.pinned_pipeline == old.pinned_pipeline,
{
}

/// Deleting the selection, from the Delete or Backspace key or the context menu, changes
/// neither the pipeline the graph is pinned to nor whether it follows the clip.
pub proof fn lemma_delete_keeps_pin(old: PipelineGraphState, new: PipelineGraphState, action: PipelineGraphAction, take_wire: bool)
    requires
        delete_outcome(old, new, action, take_wire),
    ensures
        new.pinned_pipeline == old.pinned_pipeline,
{
}

/// No press of the left button pins the graph to a pipeline or lets it follow the clip again,
/// nor changes the pipeline it shows: a pick from the chooser is handed out as an action.
pub proof fn lemma_press_keeps_pin(
    old: PipelineGraphState,
    new: PipelineGraphState,
    press: GraphPress,
    modifiers: Modifiers,
    pipelines: Seq<PipelineInfo>,
    action: PipelineGraphAction,
)
    requires
        graph_press(old, new, press, modifiers, pipelines, action),
    ensures
        new.pinned_pipeline == old.pinned_pipeline,
        new.pipeline_id == old.pipeline_id,
{
}

/// `new` and `action` are what a press of the right button on `hit` makes of `old` (see
/// `pointer_right_pressed`).
pub open spec fn right_press(old: PipelineGraphState, new: PipelineGraphState, hit: GraphRightPress, action: PipelineGraphAction) -> bool {
    match hit {
        GraphRightPress::PipelineSelector => {
            &&& action is Nothing
            &&& new == (PipelineGraphState {
                context_menu: Some(GraphContextTarget::PipelineSelector),
                ..old
            })
        },
        GraphRightPress::OutsideCanvas => {
            &&& action is Nothing
            &&& new == (PipelineGraphState { context_menu: None, ..old })
        },
        GraphRightPress::Card { target, property } => {
            &&& action is Nothing
            &&& new.selected_nodes@ == seq![target]
            &&& new.z_order@ == raised(old.z_order@, target)
            &&& new == (PipelineGraphState {
                selected_node: Some(target),
                selected_nodes: new.selected_nodes,
                selected_wire: None,
                z_order: new.z_order,
                context_menu: card_menu(target, property),
                ..old
            })
        },
        GraphRightPress::Wire(wire) => {
            &&& action is Nothing
            &&& new.selected_nodes@ == Seq::<GraphNodeTarget>::empty()
            &&& new == (PipelineGraphState {
                selected_node: None,
                selected_nodes: new.selected_nodes,
                selected_wire: Some(wire),
                context_menu: Some(GraphContextTarget::Wire(wire)),
                ..old
            })
        },
        GraphRightPress::Empty => {
            &&& action is InsertNode
            &&& new.selected_nodes@ == Seq::<GraphNodeTarget>::empty()
            &&& new == (PipelineGraphState {
                selected_node: None,
                selected_nodes: new.selected_nodes,
                selected_wire: None,
                context_menu: None,
                ..old
            })
        },
    }
}

/// `new` and `action` are what a release of the pointer makes of `old` (see `pointer_released`).
pub open spec fn graph_release(old: PipelineGraphState, new: PipelineGraphState, cards: Seq<GraphNodeTarget>, band_hits: Seq<bool>, input_hits: Seq<InputHit>, followed_shared: bool, crossing: Seq<GraphWire>, action: PipelineGraphAction) -> bool {
    &&& !new.pan_drag
    &&& ({
        let start = PipelineGraphState { pan_drag: false, ..old };
        if old.block_selection is Some {
            action is Nothing && block_finished(start, new, cards, band_hits)
        } else if old.pending_wire is Some {
            wire_released(start, new, action, cards, input_hits, followed_shared)
        } else if old.group_drag {
            action is Nothing && new == (PipelineGraphState { group_drag: false, drag: None, ..start })
        } else {
            &&& new == (PipelineGraphState { drag: None, ..start })
            &&& match old.drag {
                Some(GraphNodeTarget::Shared(node)) => match insertion_wire(crossing, node) {
                    Some(k) => match crossing[k] {
                        GraphWire::Image { source, destination, input } => action matches PipelineGraphAction::InsertNodeOnWire {
                            node: n,
                            source: s,
                            destination: d,
                            destination_input: di,
                        } && n == node && s == source && d == destination && opt_text(di) == opt_text(input),
                        _ => false,
                    },
                    None => action is Nothing,
                },
                _ => action is Nothing,
            }
        }
    })
}

impl PipelineGraphState {
    /// The state's own invariant: each selected card and each raised card is listed once.
    pub open spec fn wf(&self) -> bool {
        &&& self.selected_nodes@.no_duplicates()
        &&& self.z_order@.no_duplicates()
        &&& self.block_selection matches Some(base) ==> base@.no_duplicates()
        &&& control_keys(self.property_links@).no_duplicates()
    }

    /// A graph with nothing selected that follows the selected clip.
    pub fn new() -> (state: Self)
        ensures
            state.wf(),
            state.selected_node is None,
            state.selected_nodes@ == Seq::<GraphNodeTarget>::empty(),
            state.selected_wire is None,
            state.pinned_pipeline is None,
            state.pending_wire is None,
            state.pending_action is None,
            state.pipeline_id is None,
            !state.renaming,
            state.context_menu is None,
            state.drag is None,
            !state.group_drag,
            state.block_selection is None,
            !state.pan_drag,
            state.z_order@ == Seq::<GraphNodeTarget>::empty(),
            state.property_links@ == Seq::<GraphControlTarget>::empty(),
            !state.name_focused,
            !state.chooser_open,
            state.color_target is None,
    {
        let state = PipelineGraphState {
            selected_node: None,
            selected_nodes: Vec::new(),
            selected_wire: None,
            pinned_pipeline: None,
            pending_wire: None,
            pending_action: None,
            pipeline_id: None,
            renaming: false,
            context_menu: None,
            drag: None,
            group_drag: false,
            block_selection: None,
            pan_drag: false,
            z_order: Vec::new(),
            property_links: Vec::new(),
            name_focused: false,
            chooser_open: false,
            color_target: None,
        };
        assert(control_keys(state.property_links@) =~= Seq::empty());
        state
    }

    /// What the monitor shows of the selection. `followed_pipeline` is the pipeline of the
    /// selected clip.
    pub fn monitor_selection(&self, followed_pipeline: Option<u64>) -> (selection: Option<GraphMonitorSelection>)
        ensures
            selection == monitor_of(self.selected_node, self.pinned_pipeline, followed_pipeline),
    {
        match self.selected_node {
            Some(GraphNodeTarget::Local(node)) => if self.pinned_pipeline.is_none() {
                Some(GraphMonitorSelection::Local { node })
            } else {
                None
            },
            Some(GraphNodeTarget::Shared(node)) => {
                let pipeline = if self.pinned_pipeline.is_some() {
                    self.pinned_pipeline
                } else {
                    followed_pipeline
                };
                match pipeline {
                    Some(pipeline) => Some(
                        GraphMonitorSelection::Shared {
                            pipeline,
                            node,
                            follows_clip: self.pinned_pipeline.is_none(),
                        },
                    ),
                    None => None,
                }
            },
            _ => None,
        }
    }

    /// The panel animates while its pipeline name, its pipeline chooser or one of its value
    /// controls does.
    pub fn is_animating(&self, name_animating: bool, chooser_animating: bool, controls_animating: bool) -> (animating: bool)
        ensures
            animating == (name_animating || chooser_animating || controls_animating),
    {
        name_animating || chooser_animating || controls_animating
    }

    /// A drag of any kind is under way: a card, a group of cards, a rubber band, the view, a
    /// wire, or one of the value controls (`controls`).
    pub fn is_dragging(&self, controls: ControlDrag) -> (dragging: bool)
        ensures
            dragging == graph_dragging(*self, controls),
    {
        let controls_dragging = match controls {
            ControlDrag::Idle => false,
            _ => true,
        };
        self.drag.is_some() || self.group_drag || self.block_selection.is_some() || self.pan_drag
            || self.pending_wire.is_some() || controls_dragging
    }

    /// Losing focus drops the wire being drawn, the context menu and every drag but the view's,
    /// takes the keyboard from the name editor, closes the pipeline chooser and the colour
    /// picker.
    pub fn set_focused(&mut self, focused: bool)
        ensures
            focused ==> *final(self) == *old(self),
            !focused ==> *final(self) == graph_focus_lost(*old(self)),
    {
        if focused {
            return;
        }
        self.pending_wire = None;
        self.context_menu = None;
        self.drag = None;
        self.group_drag = false;
        self.block_selection = None;
        self.name_focused = false;
        self.chooser_open = false;
        self.color_target = None;
    }

    /// Makes `target` the only selected card and drops the selected wire.
    pub fn select_single_node(&mut self, target: GraphNodeTarget)
        requires
            old(self).wf(),
        ensures
            final(self).wf(),
            *final(self) == (PipelineGraphState {
                selected_node: Some(target),
                selected_nodes: final(self).selected_nodes,
                selected_wire: None,
                ..*old(self)
            }),
            final(self).selected_nodes@ == seq![target],
    {
        self.selected_node = Some(target);
        let mut nodes: Vec<GraphNodeTarget> = Vec::new();
        nodes.push(target);
        self.selected_nodes = nodes;
        self.selected_wire = None;
    }

    /// Selects no card.
    pub fn clear_node_selection(&mut self)
        requires
            old(self).wf(),
        ensures
            final(self).wf(),
            *final(self) == (PipelineGraphState {
                selected_node: None,
                selected_nodes: final(self).selected_nodes,
                ..*old(self)
            }),
            final(self).selected_nodes@ == Seq::<GraphNodeTarget>::empty(),
    {
        self.selected_node = None;
        self.selected_nodes = Vec::new();
    }

    /// The selected cards in listing order.
    pub fn selected_targets(&self) -> (targets: Vec<GraphNodeTarget>)
        requires
            self.wf(),
        ensures
            lists_in_order(targets@, self.selected_nodes@.to_set()),
            targets.len() == self.selected_nodes.len(),
    {
        let n = self.selected_nodes.len();
        let mut keys: Vec<SortKey> = Vec::new();
        let mut i: usize = 0;
        while i < n
            invariant
                n == self.selected_nodes.len(),
                i <= n,
                keys.len() == i,
                forall|k: int| 0 <= k < i ==> (#[trigger] keys@[k]).rank == target_class(self.selected_nodes@[k])
                    && keys@[k].text@ == Seq::<char>::empty()
                    && keys@[k].minor == target_id(self.selected_nodes@[k]),
            decreases n - i,
        {
            let target = self.selected_nodes[i];
            let (rank, minor): (u64, u64) = match target {
                GraphNodeTarget::Input => (0, 0),
                GraphNodeTarget::Local(id) => (1, id),
                GraphNodeTarget::Shared(id) => (2, id),
                GraphNodeTarget::Value(id) => (3, id),
                GraphNodeTarget::Output => (4, 0),
            };
            keys.push(SortKey { rank, text: Vec::new(), minor });
            i = i + 1;
        }
        let order = sorted_order(&keys);
        let mut targets: Vec<GraphNodeTarget> = Vec::new();
        let mut j: usize = 0;
        while j < n
            invariant
                n == self.selected_nodes.len(),
                order.len() == n,
                forall|q: int| 0 <= q < order.len() ==> #[trigger] order@[q] < n,
                j <= n,
                targets.len() == j,
                forall|q: int| 0 <= q < j ==> #[trigger] targets@[q] == self.selected_nodes@[order@[q] as int],
            decreases n - j,
        {
            targets.push(self.selected_nodes[order[j]]);
            j = j + 1;
        }
        proof {
            let sel = self.selected_nodes@;
            assert forall|a: int, b: int| 0 <= a < b < targets@.len() implies target_before(#[trigger] targets@[a], #[trigger] targets@[b]) by {
                let x = order@[a] as int;
                let y = order@[b] as int;
                assert(key_before(keys@, x, y));
                if x == y {
                    assert(order@.no_duplicates()) by {
                        lemma_sorted_no_duplicates(keys@, order@);
                    }
                }
                if target_class(sel[x]) == target_class(sel[y]) && target_id(sel[x]) == target_id(sel[y]) {
                    assert(sel[x] == sel[y]);
                    lemma_sorted_no_duplicates(keys@, order@);
                    assert(x != y);
                }
            }
            assert forall|t: GraphNodeTarget| targets@.to_set().contains(t) <==> sel.to_set().contains(t) by {
                if targets@.to_set().contains(t) {
                    assert(targets@.contains(t));
                    let q = choose|q: int| 0 <= q < targets@.len() && targets@[q] == t;
                    assert(sel[order@[q] as int] == t);
                }
                if sel.to_set().contains(t) {
                    assert(sel.contains(t));
                    let k = choose|k: int| 0 <= k < sel.len() && sel[k] == t;
                    assert(order@.contains(k as usize));
                    let q = choose|q: int| 0 <= q < order@.len() && order@[q] == k as usize;
                    assert(targets@[q] == t);
                }
            }
            assert(targets@.to_set() =~= sel.to_set());
        }
        targets
    }

    /// The action that deleting the selection asks for: the selected wire if there is one
    /// (taken out of the selection when `take_wire`), else the selected cards other than the
    /// graph's input and output, which are then no longer selected.
    pub fn delete_selection_action(&mut self, take_wire: bool) -> (action: PipelineGraphAction)
        requires
            old(self).wf(),
        ensures
            final(self).wf(),
            delete_outcome(*old(self), *final(self), action, take_wire),
    {
        if take_wire {
            let taken = self.selected_wire.take();
            if let Some(wire) = taken {
                return PipelineGraphAction::DeleteWire(wire);
            }
        } else if let Some(wire) = &self.selected_wire {
            return PipelineGraphAction::DeleteWire(copy_wire(wire));
        }
        let sorted = self.selected_targets();
        let mut targets: Vec<GraphNodeTarget> = Vec::new();
        let ghost mut idx: Seq<int> = Seq::empty();
        let mut i: usize = 0;
        while i < sorted.len()
            invariant
                i <= sorted.len(),
                lists_in_order(sorted@, self.selected_nodes@.to_set()),
                idx.len() == targets@.len(),
                forall|q: int| 0 <= q < idx.len() ==> 0 <= #[trigger] idx[q] < i && sorted@[idx[q]] == targets@[q],
                forall|a: int, b: int| 0 <= a < b < idx.len() ==> #[trigger] idx[a] < #[trigger] idx[b],
                forall|t: GraphNodeTarget| targets@.contains(t) <==> exists|k: int| 0 <= k < i && #[trigger] sorted@[k] == t && removable(t),
            decreases sorted.len() - i,
        {
            let t = sorted[i];
            let removable_now = match t {
                GraphNodeTarget::Input | GraphNodeTarget::Output => false,
                _ => true,
            };
            if removable_now {
                let ghost prev = targets@;
                targets.push(t);
                proof {
                    idx = idx.push(i as int);
                    assert forall|u: GraphNodeTarget| targets@.contains(u) <==> exists|k: int| 0 <= k < i + 1 && #[trigger] sorted@[k] == u && removable(u) by {
                        if targets@.contains(u) {
                            let q = choose|q: int| 0 <= q < targets@.len() && targets@[q] == u;
                            if q < targets@.len() - 1 {
                                assert(targets@[q] == prev[q]);
                                assert(prev.contains(u));
                            }
                        }
                        if exists|k: int| 0 <= k < i + 1 && #[trigger] sorted@[k] == u && removable(u) {
                            let k = choose|k: int| 0 <= k < i + 1 && #[trigger] sorted@[k] == u && removable(u);
                            if k < i {
                                assert(prev.contains(u));
                                let q = choose|q: int| 0 <= q < prev.len() && prev[q] == u;
                                assert(targets@[q] == u);
                            } else {
                                assert(targets@[targets@.len() - 1] == u);
                            }
                        }
                    }
                }
            }
            i = i + 1;
        }
        proof {
            assert forall|a: int, b: int| 0 <= a < b < targets@.len() implies target_before(#[trigger] targets@[a], #[trigger] targets@[b]) by {
                assert(idx[a] < idx[b]);
            }
        }
        let ghost doomed = self.selected_nodes@.to_set().filter(|t: GraphNodeTarget| removable(t));
        proof {
            assert forall|t: GraphNodeTarget| targets@.to_set().contains(t) <==> doomed.contains(t) by {
                if targets@.to_set().contains(t) {
                    assert(targets@.contains(t));
                    let k = choose|k: int| 0 <= k < i && #[trigger] sorted@[k] == t && removable(t);
                    assert(sorted@.to_set().contains(t));
                }
                if doomed.contains(t) {
                    assert(sorted@.to_set().contains(t));
                    assert(sorted@.contains(t));
                    let k = choose|k: int| 0 <= k < sorted@.len() && sorted@[k] == t;
                    assert(exists|k: int| 0 <= k < i && #[trigger] sorted@[k] == t && removable(t));
                }
            }
            assert(targets@.to_set() =~= doomed);
        }
        let nothing = targets.len() == 0;
        let action = if targets.len() == 0 {
            proof {
                assert forall|t: GraphNodeTarget| !doomed.contains(t) by {
                    assert(!targets@.contains(t));
                    assert(!targets@.to_set().contains(t));
                }
                assert(doomed =~= Set::<GraphNodeTarget>::empty());
            }
            PipelineGraphAction::Nothing
        } else if targets.len() == 1 {
            let only = targets[0];
            proof {
                assert forall|t: GraphNodeTarget| doomed.contains(t) <==> t == only by {
                    assert(targets@.to_set().contains(t) <==> targets@.contains(t));
                    if targets@.contains(t) {
                        let q = choose|q: int| 0 <= q < targets@.len() && targets@[q] == t;
                        assert(q == 0);
                    }
                    if t == only {
                        assert(targets@.contains(targets@[0]));
                    }
                }
                assert(doomed =~= set![only]);
            }
            PipelineGraphAction::Remove(only)
        } else {
            PipelineGraphAction::RemoveMany(targets)
        };
        if !nothing {
            self.clear_node_selection();
        }
        action
    }

    /// Starts renaming the shown pipeline: the chooser and any colour picker close and the
    /// name editor takes the keyboard. Nothing happens when no pipeline is shown.
    pub fn begin_pipeline_rename(&mut self) -> (began: bool)
        ensures
            began == old(self).pipeline_id is Some,
            began ==> *final(self) == renamed(*old(self)),
            !began ==> *final(self) == *old(self),
    {
        if self.pipeline_id.is_none() {
            return false;
        }
        self.chooser_open = false;
        self.color_target = None;
        self.renaming = true;
        self.name_focused = true;
        true
    }

    /// A press on the pipeline chooser: while no rename is under way its list opens or
    /// closes; during a rename the press belongs to the name editor.
    pub fn press_pipeline_chooser(&mut self) -> (toggled: bool)
        ensures
            toggled == !old(self).renaming,
            toggled ==> *final(self) == (PipelineGraphState { chooser_open: !old(self).chooser_open, ..*old(self) }),
            !toggled ==> *final(self) == *old(self),
    {
        if self.renaming {
            return false;
        }
        self.chooser_open = !self.chooser_open;
        true
    }

    /// A press on the colour swatch of `control`: a rename ends, the name editor loses the
    /// keyboard, the control's picker opens, and its card becomes the only selected one and is
    /// raised.
    pub fn press_color_swatch(&mut self, control: GraphControlTarget)
        requires
            old(self).wf(),
        ensures
            final(self).wf(),
            swatch_pressed(*old(self), *final(self), control),
    {
        let node = control.node();
        self.renaming = false;
        self.name_focused = false;
        self.color_target = Some(control);
        self.select_single_node(node);
        self.bring_to_front(node);
    }

    /// A press of the left button on the panel, at what the panel's hit tests found (see
    /// `graph_press`). `pipelines` are the chooser's entries after its first.
    pub fn pointer_pressed(&mut self, press: GraphPress, modifiers: Modifiers, pipelines: &[PipelineInfo]) -> (action: PipelineGraphAction)
        requires
            old(self).wf(),
        ensures
            final(self).wf(),
            graph_press(*old(self), *final(self), press, modifiers, pipelines@, action),
    {
        let mut menu: Option<GraphContextTarget> = None;
        std::mem::swap(&mut menu, &mut self.context_menu);
        match press {
            GraphPress::MenuEntry { index, enabled, input_is_override } => match menu {
                Some(target) => if enabled {
                    self.graph_context_action(target, index, input_is_override)
                } else {
                    PipelineGraphAction::Nothing
                },
                None => PipelineGraphAction::Nothing,
            },
            GraphPress::ChooserOption(index) => match self.choose_pipeline_option(index, pipelines) {
                Some(action) => action,
                None => PipelineGraphAction::Nothing,
            },
            GraphPress::Outside => {
                self.chooser_open = false;
                PipelineGraphAction::Nothing
            },
            GraphPress::Chooser => {
                if self.renaming && self.pipeline_id.is_some() {
                } else if !self.renaming {
                    self.press_pipeline_chooser();
                } else {
                    self.chooser_open = false;
                }
                PipelineGraphAction::Nothing
            },
            GraphPress::ColorPicker => {
                self.chooser_open = false;
                PipelineGraphAction::Nothing
            },
            GraphPress::PropertyOption { key, index, is_bool } => {
                self.chooser_open = false;
                self.choose_property_option(key, index, is_bool)
            },
            GraphPress::ChoiceButton(node) | GraphPress::Angle(node) => {
                self.chooser_open = false;
                self.renaming = false;
                self.name_focused = false;
                self.select_single_node(node);
                self.bring_to_front(node);
                PipelineGraphAction::Nothing
            },
            GraphPress::ColorSwatch(control) => {
                self.chooser_open = false;
                self.press_color_swatch(control);
                PipelineGraphAction::Nothing
            },
            GraphPress::HostKeyframe(node) => {
                self.chooser_open = false;
                self.color_target = None;
                self.select_single_node(node);
                self.bring_to_front(node);
                PipelineGraphAction::ToggleHostKeyframe { target: node, input: String::from_str("band_values") }
            },
            GraphPress::PropertyLink(control) => {
                self.chooser_open = false;
                self.color_target = None;
                self.toggle_property_link(control);
                PipelineGraphAction::Nothing
            },
            GraphPress::Number(node) => {
                self.chooser_open = false;
                self.color_target = None;
                self.renaming = false;
                self.name_focused = false;
                self.select_single_node(node);
                self.bring_to_front(node);
                PipelineGraphAction::Nothing
            },
            GraphPress::NoCards => {
                self.chooser_open = false;
                self.color_target = None;
                PipelineGraphAction::Nothing
            },
            GraphPress::ConnectedInput { pending, wire } => {
                self.chooser_open = false;
                self.color_target = None;
                self.begin_wire(pending);
                PipelineGraphAction::DeleteWire(wire)
            },
            GraphPress::Output(pending) => {
                self.chooser_open = false;
                self.color_target = None;
                self.begin_wire(pending);
                PipelineGraphAction::Nothing
            },
            GraphPress::Card(target) => {
                self.chooser_open = false;
                self.color_target = None;
                let _ = self.press_card(target, modifiers);
                PipelineGraphAction::Nothing
            },
            GraphPress::Wire(wire) => {
                self.chooser_open = false;
                self.color_target = None;
                self.press_wire(wire);
                PipelineGraphAction::Nothing
            },
            GraphPress::Empty { inside_canvas } => {
                self.chooser_open = false;
                self.color_target = None;
                self.press_empty(inside_canvas, modifiers);
                PipelineGraphAction::Nothing
            },
        }
    }

    /// The entries of the context menu opened on `target`. `has_pipeline` tells whether a
    /// pipeline is shown; `input_is_override` whether the property the menu was opened on
    /// overrides the shared value for the followed clip.
    pub fn graph_context_items(&self, target: &GraphContextTarget, input_is_override: bool) -> (items: Vec<ContextMenuItem>)
        ensures
            items@ == context_items_of(*target, self.pipeline_id is Some, input_is_override),
    {
        let mut items: Vec<ContextMenuItem> = Vec::new();
        match target {
            GraphContextTarget::PipelineSelector => {
                let has_pipeline = self.pipeline_id.is_some();
                items.push(item("Rename Pipeline", Some(AppIcon::Rename), has_pipeline));
                items.push(item("New Pipeline", Some(AppIcon::New), true));
                items.push(item("Remove Pipeline", Some(AppIcon::Remove), has_pipeline));
            },
            GraphContextTarget::Property(key) => {
                if let GraphNodeTarget::Shared(_) = key.target {
                    if input_is_override {
                        items.push(item("Use Shared Value", None, true));
                    } else {
                        items.push(item("Make Unique", None, true));
                    }
                }
            },
            GraphContextTarget::Node(GraphNodeTarget::Input) | GraphContextTarget::Node(GraphNodeTarget::Output) => {},
            GraphContextTarget::Node(_) => {
                items.push(item("Delete Node", Some(AppIcon::Delete), true));
            },
            GraphContextTarget::Wire(_) => {
                items.push(item("Delete Connection", Some(AppIcon::Delete), true));
            },
        }
        proof {
            assert(items@ =~= context_items_of(*target, self.pipeline_id is Some, input_is_override));
        }
        items
    }

    /// The action that choosing entry `index` of the menu opened on `target` asks for. The
    /// first entry of the pipeline chooser's menu starts renaming instead.
    pub fn graph_context_action(&mut self, target: GraphContextTarget, index: usize, input_is_override: bool) -> (action: PipelineGraphAction)
        ensures
            action == context_action_of(target, index, old(self).pipeline_id, input_is_override),
            (target is PipelineSelector && index == 0 && old(self).pipeline_id is Some)
                ==> *final(self) == renamed(*old(self)),
            !(target is PipelineSelector && index == 0 && old(self).pipeline_id is Some) ==> *final(self) == *old(self),
    {
        match target {
            GraphContextTarget::PipelineSelector => if index == 0 {
                self.begin_pipeline_rename();
                PipelineGraphAction::Nothing
            } else if index == 1 {
                PipelineGraphAction::Create
            } else if index == 2 {
                match self.pipeline_id {
                    Some(id) => PipelineGraphAction::RemovePipeline(id),
                    None => PipelineGraphAction::Nothing,
                }
            } else {
                PipelineGraphAction::Nothing
            },
            GraphContextTarget::Property(key) => {
                if index != 0 {
                    return PipelineGraphAction::Nothing;
                }
                match key.target {
                    GraphNodeTarget::Shared(node) => if input_is_override {
                        PipelineGraphAction::UseSharedInput { node, input: key.input }
                    } else {
                        PipelineGraphAction::MakeInputUnique { node, input: key.input }
                    },
                    _ => PipelineGraphAction::Nothing,
                }
            },
            GraphContextTarget::Node(GraphNodeTarget::Input) | GraphContextTarget::Node(GraphNodeTarget::Output) => {
                PipelineGraphAction::Nothing
            },
            GraphContextTarget::Node(node) => if index == 0 {
                PipelineGraphAction::Remove(node)
            } else {
                PipelineGraphAction::Nothing
            },
            GraphContextTarget::Wire(wire) => if index == 0 {
                PipelineGraphAction::DeleteWire(wire)
            } else {
                PipelineGraphAction::Nothing
            },
        }
    }

    /// Drops the selection, the wire being drawn, the context menu and group and rubber-band
    /// drags; with `reset_view` also the raising order and a rename under way.
    pub fn reset_interaction(&mut self, reset_view: bool)
        requires
            old(self).wf(),
        ensures
            final(self).wf(),
            final(self).selected_nodes@ == Seq::<GraphNodeTarget>::empty(),
            reset_view ==> final(self).z_order@ == Seq::<GraphNodeTarget>::empty(),
            *final(self) == (PipelineGraphState {
                selected_node: None,
                selected_nodes: final(self).selected_nodes,
                selected_wire: None,
                pending_wire: None,
                context_menu: None,
                group_drag: false,
                block_selection: None,
                z_order: if reset_view { final(self).z_order } else { old(self).z_order },
                renaming: if reset_view { false } else { old(self).renaming },
                ..*old(self)
            }),
    {
        self.clear_node_selection();
        self.selected_wire = None;
        self.pending_wire = None;
        self.context_menu = None;
        self.group_drag = false;
        self.block_selection = None;
        if reset_view {
            self.z_order = Vec::new();
            self.renaming = false;
        }
    }

    /// Drops the selection and the interactions under way, keeping the view.
    pub fn clear_selection(&mut self)
        requires
            old(self).wf(),
        ensures
            final(self).wf(),
            final(self).selected_nodes@ == Seq::<GraphNodeTarget>::empty(),
            *final(self) == (PipelineGraphState {
                selected_node: None,
                selected_nodes: final(self).selected_nodes,
                selected_wire: None,
                pending_wire: None,
                context_menu: None,
                group_drag: false,
                block_selection: None,
                ..*old(self)
            }),
    {
        self.reset_interaction(false);
    }

    /// Shows the pipeline of the selected clip again, with a fresh view.
    pub fn follow_selection(&mut self)
        requires
            old(self).wf(),
        ensures
            final(self).wf(),
            final(self).pinned_pipeline is None,
            final(self).selected_node is None,
            final(self).selected_nodes@ == Seq::<GraphNodeTarget>::empty(),
            final(self).z_order@ == Seq::<GraphNodeTarget>::empty(),
            *final(self) == (PipelineGraphState {
                pinned_pipeline: None,
                selected_node: None,
                selected_nodes: final(self).selected_nodes,
                selected_wire: None,
                pending_wire: None,
                context_menu: None,
                group_drag: false,
                block_selection: None,
                z_order: final(self).z_order,
                renaming: false,
                ..*old(self)
            }),
    {
        self.pinned_pipeline = None;
        self.reset_interaction(true);
    }

    /// Shows `pipeline` whatever clip is selected, with a fresh view.
    pub fn open_pipeline(&mut self, pipeline: u64)
        requires
            old(self).wf(),
        ensures
            final(self).wf(),
            final(self).pinned_pipeline == Some(pipeline),
            final(self).selected_nodes@ == Seq::<GraphNodeTarget>::empty(),
            final(self).z_order@ == Seq::<GraphNodeTarget>::empty(),
            *final(self) == (PipelineGraphState {
                pinned_pipeline: Some(pipeline),
                selected_node: None,
                selected_nodes: final(self).selected_nodes,
                selected_wire: None,
                pending_wire: None,
                context_menu: None,
                group_drag: false,
                block_selection: None,
                z_order: final(self).z_order,
                renaming: false,
                ..*old(self)
            }),
    {
        self.pinned_pipeline = Some(pipeline);
        self.reset_interaction(true);
    }

    /// The kind of pipeline the graph shows. `selected_kind` is the kind of the selected clip's
    /// pipeline.
    pub fn graph_kind(&self, pipelines: &[PipelineInfo], selected_kind: PipelineKind) -> (kind: PipelineKind)
        ensures
            kind == graph_kind_of(self.pinned_pipeline, pipelines@, selected_kind),
    {
        match self.pinned_pipeline {
            Some(id) => match pipeline_kind(pipelines, id) {
                Some(kind) => kind,
                None => selected_kind,
            },
            None => selected_kind,
        }
    }

    /// The pipeline the graph edits. `followed_pipeline` is the selected clip's pipeline.
    pub fn target_pipeline(
        &self,
        pipelines: &[PipelineInfo],
        selected_kind: PipelineKind,
        followed_pipeline: Option<u64>,
    ) -> (target: Option<u64>)
        ensures
            target == target_pipeline_of(self.pinned_pipeline, pipelines@, selected_kind, followed_pipeline),
    {
        let kind = self.graph_kind(pipelines, selected_kind);
        if let Some(id) = self.pinned_pipeline {
            if pipeline_kind(pipelines, id) == Some(kind) {
                return self.pinned_pipeline;
            }
        }
        if let Some(id) = followed_pipeline {
            if pipeline_kind(pipelines, id) == Some(kind) {
                return followed_pipeline;
            }
        }
        None
    }

    /// A pipeline is shown instead of the selected clip's.
    pub fn is_pinned(&self) -> (pinned: bool)
        ensures
            pinned == self.pinned_pipeline is Some,
    {
        self.pinned_pipeline.is_some()
    }

    /// Follows a change of the edited pipeline: a new pipeline ends a rename under way. Returns
    /// whether the pipeline changed and which entry the pipeline chooser shows (0 for
    /// following the clip, else one more than the pinned pipeline's place).
    pub fn sync_pipeline_name(
        &mut self,
        pipelines: &[PipelineInfo],
        selected_kind: PipelineKind,
        followed_pipeline: Option<u64>,
    ) -> (sync: (bool, usize))
        ensures
            ({
                let target = target_pipeline_of(old(self).pinned_pipeline, pipelines@, selected_kind, followed_pipeline);
                let changed = old(self).pipeline_id != target;
                &&& sync.0 == changed
                &&& sync.1 == chooser_index_of(old(self).pinned_pipeline, pipelines@)
                &&& *final(self) == if changed {
                    PipelineGraphState { pipeline_id: target, renaming: false, ..*old(self) }
                } else {
                    *old(self)
                }
            }),
    {
        let target = self.target_pipeline(pipelines, selected_kind, followed_pipeline);
        let changed = self.pipeline_id != target;
        if changed {
            self.pipeline_id = target;
            self.renaming = false;
        }
        let index = match self.pinned_pipeline {
            Some(id) => match find_pipeline_position(pipelines, id) {
                Some(p) => p + 1,
                None => 0,
            },
            None => 0,
        };
        (changed, index)
    }

    /// Handles a key the text and value editors left alone: Delete and Backspace queue the
    /// deletion of the selection, unless a rename is under way or nothing can be deleted.
    pub fn handle_key(&mut self, key: PanelKey) -> (handled: bool)
        requires
            old(self).wf(),
        ensures
            final(self).wf(),
            !(key is Delete || key is Backspace) || old(self).renaming ==> !handled && *final(self) == *old(self),
            (key is Delete || key is Backspace) && !old(self).renaming ==> exists|action: PipelineGraphAction, mid: PipelineGraphState|
                #[trigger] delete_outcome(*old(self), mid, action, true) && if action is Nothing {
                    !handled && *final(self) == mid
                } else {
                    handled && *final(self) == (PipelineGraphState { pending_action: Some(action), ..mid })
                },
    {
        if self.renaming {
            return false;
        }
        match key {
            PanelKey::Delete | PanelKey::Backspace => {
                let ghost before = *self;
                let action = self.delete_selection_action(true);
                let ghost mid = *self;
                assert(delete_outcome(before, mid, action, true));
                match action {
                    PipelineGraphAction::Nothing => false,
                    _ => {
                        self.pending_action = Some(action);
                        true
                    },
                }
            },
            _ => false,
        }
    }

    /// Hands out the action queued by a key.
    pub fn take_action(&mut self) -> (action: Option<PipelineGraphAction>)
        ensures
            action == old(self).pending_action,
            *final(self) == (PipelineGraphState { pending_action: None, ..*old(self) }),
    {
        self.pending_action.take()
    }

    /// Starts drawing `wire`; no wire stays selected.
    pub fn begin_wire(&mut self, wire: PendingGraphWire)
        ensures
            *final(self) == (PipelineGraphState { pending_wire: Some(wire), selected_wire: None, ..*old(self) }),
    {
        self.pending_wire = Some(wire);
        self.selected_wire = None;
    }

    /// A press on card `target`: with Control or Super on a selected card it leaves the
    /// selection (the first listed remaining card becomes the selected one); otherwise the card
    /// becomes the selected one (added to the selection with Control, Super or Shift; made the
    /// only one unless it is part of a larger selection), is raised, and the selection starts
    /// to be dragged, as a group when it holds several cards.
    pub fn press_card(&mut self, target: GraphNodeTarget, modifiers: Modifiers) -> (press: CardPress)
        requires
            old(self).wf(),
        ensures
            final(self).wf(),
            card_press(*old(self), *final(self), target, modifiers, press),
    {
        let additive = modifiers.control || modifiers.super_key;
        let contained = contains_target(&self.selected_nodes, target);
        if additive && contained {
            let remaining = without_target(&self.selected_nodes, target);
            self.selected_nodes = remaining;
            let listed = self.selected_targets();
            if listed.len() > 0 {
                proof {
                    assert forall|u: GraphNodeTarget| #[trigger] self.selected_nodes@.to_set().contains(u) && u != listed@[0]
                        implies target_before(listed@[0], u) by {
                        assert(listed@.to_set().contains(u));
                        assert(listed@.contains(u));
                        let q = choose|q: int| 0 <= q < listed@.len() && listed@[q] == u;
                        assert(q != 0);
                    }
                    assert(listed@.to_set().contains(listed@[0]));
                }
                self.selected_node = Some(listed[0]);
            } else {
                proof {
                    assert forall|u: GraphNodeTarget| !self.selected_nodes@.to_set().contains(u) by {
                        if self.selected_nodes@.to_set().contains(u) {
                            assert(self.selected_nodes@.contains(u));
                        }
                    }
                    assert(self.selected_nodes@.to_set() =~= Set::<GraphNodeTarget>::empty());
                }
                self.selected_node = None;
            }
            self.selected_wire = None;
            self.drag = None;
            self.group_drag = false;
            return CardPress::Deselected;
        }
        if additive || modifiers.shift {
            let added = with_target(&self.selected_nodes, target);
            self.selected_nodes = added;
            self.selected_node = Some(target);
            self.selected_wire = None;
        } else if !contained || self.selected_nodes.len() <= 1 {
            self.select_single_node(target);
            proof {
                assert(self.selected_nodes@.to_set() =~= set![target]) by {
                    assert(self.selected_nodes@.contains(target) ==> true);
                    assert forall|u: GraphNodeTarget| self.selected_nodes@.to_set().contains(u) <==> u == target by {
                        if u == target {
                            assert(self.selected_nodes@[0] == target);
                        }
                    }
                }
            }
        } else {
            self.selected_node = Some(target);
            self.selected_wire = None;
        }
        self.bring_to_front(target);
        if self.selected_nodes.len() > 1 {
            self.drag = None;
            self.group_drag = true;
            CardPress::GroupDragging
        } else {
            self.group_drag = false;
            self.drag = Some(target);
            CardPress::Dragging
        }
    }

    /// A press on a wire selects it alone and ends card drags.
    pub fn press_wire(&mut self, wire: GraphWire)
        requires
            old(self).wf(),
        ensures
            final(self).wf(),
            wire_press(*old(self), *final(self), wire),
    {
        self.selected_wire = Some(wire);
        self.clear_node_selection();
        self.drag = None;
        self.group_drag = false;
    }

    /// A press on nothing: inside the canvas it starts a rubber-band selection that adds to the
    /// current selection with Shift, Control or Super and replaces it otherwise; outside it
    /// clears the selection. Either way no wire is selected or drawn and no card is dragged.
    pub fn press_empty(&mut self, inside_canvas: bool, modifiers: Modifiers)
        requires
            old(self).wf(),
        ensures
            final(self).wf(),
            empty_press(*old(self), *final(self), inside_canvas, modifiers),
    {
        if inside_canvas {
            let additive = modifiers.shift || modifiers.control || modifiers.super_key;
            let base = if additive {
                copy_targets(&self.selected_nodes)
            } else {
                Vec::new()
            };
            if !additive {
                self.clear_node_selection();
            }
            self.block_selection = Some(base);
        } else {
            self.clear_node_selection();
        }
        self.selected_wire = None;
        self.pending_wire = None;
        self.drag = None;
        self.group_drag = false;
    }

    /// Ends a rubber-band selection: the cards it touched (`hits[i]` for card `i`) join the
    /// selection it started from, and the topmost selected card other than the input and output
    /// (else the topmost selected card) becomes the selected one. Returns whether a rubber band
    /// was being drawn.
    pub fn finish_block_selection(&mut self, cards: &[GraphNodeTarget], hits: &[bool]) -> (finished: bool)
        requires
            old(self).wf(),
            hits.len() == cards.len(),
        ensures
            final(self).wf(),
            finished == old(self).block_selection is Some,
            !finished ==> *final(self) == *old(self),
            finished ==> block_finished(*old(self), *final(self), cards@, hits@),
    {
        let taken = self.block_selection.take();
        let base = match taken {
            Some(base) => base,
            None => {
                return false;
            },
        };
        let mut selected = base;
        let mut i: usize = 0;
        while i < cards.len()
            invariant
                i <= cards.len(),
                hits.len() == cards.len(),
                selected@.no_duplicates(),
                selected@.to_set() == old(self).block_selection->0@.to_set().union(hit_set(cards@, hits@, i as int)),
            decreases cards.len() - i,
        {
            if hits[i] {
                selected = with_target(&selected, cards[i]);
            }
            proof {
                lemma_hit_set_step(cards@, hits@, i as int);
                let b = old(self).block_selection->0@.to_set();
                assert(selected@.to_set() =~= b.union(hit_set(cards@, hits@, i + 1)));
            }
            i = i + 1;
        }
        self.selected_nodes = selected;
        let order = graph_card_draw_order(cards, &self.z_order);
        let ghost sel = self.selected_nodes@.to_set();
        let found_removable = topmost_selected(cards, &self.z_order, &order, &self.selected_nodes, true);
        let chosen = match found_removable {
            Some(i) => Some(i),
            None => topmost_selected(cards, &self.z_order, &order, &self.selected_nodes, false),
        };
        proof {
            if found_removable is None {
                assert(!exists|j: int| 0 <= j < cards.len() && #[trigger] picks(sel, cards@, true, j));
            }
        }
        match chosen {
            Some(i) => {
                proof {
                    if found_removable is Some {
                        assert(picks(sel, cards@, true, i as int));
                        assert(exists|j: int| 0 <= j < cards.len() && #[trigger] picks(sel, cards@, true, j));
                    }
                    assert(is_topmost(cards@, self.z_order@, i as int, block_pick(sel, cards@)));
                }
                self.selected_node = Some(cards[i]);
            },
            None => {
                self.selected_node = None;
            },
        }
        self.selected_wire = None;
        self.drag = None;
        self.group_drag = false;
        true
    }

    /// Ends the drawing of a wire: the topmost card that accepts it (`hits[i]` tells what is
    /// under the pointer on card `i`) gives the action, else nothing happens. Returns `None`
    /// when no wire was being drawn.
    pub fn release_pending_wire(
        &mut self,
        cards: &[GraphNodeTarget],
        hits: &[InputHit],
        followed_shared: bool,
    ) -> (released: Option<PipelineGraphAction>)
        requires
            hits.len() == cards.len(),
        ensures
            match old(self).pending_wire {
                None => released is None && *final(self) == *old(self),
                Some(pending) => released matches Some(action)
                    && wire_released(*old(self), *final(self), action, cards@, hits@, followed_shared),
            },
    {
        let pending = match self.pending_wire {
            Some(p) => p,
            None => {
                return None;
            },
        };
        self.pending_wire = None;
        self.drag = None;
        let ghost accepts = wire_acceptors(pending, cards@, hits@, followed_shared);
        let order = graph_card_draw_order(cards, &self.z_order);
        let mut k = order.len();
        while k > 0
            invariant
                k <= order.len(),
                order.len() == cards.len(),
                hits.len() == cards.len(),
                is_index_permutation(order@, cards.len() as nat),
                forall|a: int, b: int|
                    0 <= a < b < order.len() ==> drawn_before(cards@, self.z_order@, #[trigger] order@[a] as int, #[trigger] order@[b] as int),
                accepts == wire_acceptors(pending, cards@, hits@, followed_shared),
                old(self).pending_wire == Some(pending),
                *self == (PipelineGraphState { pending_wire: None, drag: None, ..*old(self) }),
                forall|q: int| k <= q < order.len() ==> !accepts(#[trigger] order@[q] as int),
            decreases k,
        {
            let i = order[k - 1];
            let action = graph_connect_action(pending, cards[i], &hits[i], followed_shared);
            proof {
                assert(accepts(i as int) == action.is_some());
            }
            if action.is_some() {
                proof {
                    lemma_topmost_in_order(cards@, self.z_order@, order@, k - 1, accepts);
                    assert(is_topmost(cards@, self.z_order@, i as int, wire_acceptors(pending, cards@, hits@, followed_shared)));
                    assert(action == connect_action_of(pending, cards@[i as int], hits@[i as int], followed_shared));
                    assert(self.z_order@ == old(self).z_order@);
                    assert(exists|j: int| 0 <= j < cards.len() && #[trigger] accepts_wire(pending, cards@, hits@, followed_shared, j)) by {
                        assert(accepts_wire(pending, cards@, hits@, followed_shared, i as int));
                    }
                }
                return action;
            }
            k = k - 1;
        }
        proof {
            assert forall|i: int| 0 <= i < cards.len() implies !#[trigger] accepts_wire(pending, cards@, hits@, followed_shared, i) by {
                assert(order@.contains(i as usize));
                let q = choose|q: int| 0 <= q < order.len() && order@[q] == i as usize;
                assert(!accepts(order@[q] as int));
            }
        }
        Some(PipelineGraphAction::Nothing)
    }

    /// Raises `target` above every other card.
    pub fn bring_to_front(&mut self, target: GraphNodeTarget)
        requires
            old(self).wf(),
        ensures
            final(self).wf(),
            final(self).z_order@ == raised(old(self).z_order@, target),
            *final(self) == (PipelineGraphState { z_order: final(self).z_order, ..*old(self) }),
    {
        let ghost old_z = self.z_order@;
        let mut kept: Vec<GraphNodeTarget> = Vec::new();
        let mut i: usize = 0;
        assert(old_z.take(0).filter(other_than(target)) =~= Seq::<GraphNodeTarget>::empty());
        while i < self.z_order.len()
            invariant
                self.z_order@ == old_z,
                i <= old_z.len(),
                kept@ == old_z.take(i as int).filter(other_than(target)),
            decreases old_z.len() - i,
        {
            let candidate = self.z_order[i];
            proof {
                assert(old_z.take(i + 1) =~= old_z.take(i as int).push(candidate));
                old_z.take(i as int).lemma_filter_push(candidate, other_than(target));
            }
            if candidate != target {
                kept.push(candidate);
            }
            i = i + 1;
        }
        assert(old_z.take(old_z.len() as int) =~= old_z);
        proof {
            lemma_filter_no_duplicates(old_z, target);
        }
        kept.push(target);
        self.z_order = kept;
        proof {
            broadcast use vstd::seq_lib::group_filter_ensures;
            let f = old_z.filter(other_than(target));
            assert(self.z_order@ == f.push(target));
            assert forall|k: int| 0 <= k < f.len() implies f[k] != target by {
                old_z.lemma_filter_pred(other_than(target), k);
            }
            assert forall|a: int, b: int| 0 <= a < self.z_order@.len() && 0 <= b < self.z_order@.len() && a != b
                implies self.z_order@[a] != self.z_order@[b] by {
                if a == f.len() as int {
                    assert(self.z_order@[b] == f[b]);
                } else if b == f.len() as int {
                    assert(self.z_order@[a] == f[a]);
                } else {
                    assert(self.z_order@[a] == f[a]);
                    assert(self.z_order@[b] == f[b]);
                }
            }
        }
    }
}

proof fn lemma_sorted_no_duplicates(keys: Seq<SortKey>, order: Seq<usize>)
    requires
        forall|a: int, b: int|
            0 <= a < b < order.len() ==> key_before(keys, #[trigger] order[a] as int, #[trigger] order[b] as int),
    ensures
        order.no_duplicates(),
{
    assert forall|a: int, b: int| 0 <= a < order.len() && 0 <= b < order.len() && a != b implies order[a] != order[b] by {
        lemma_key_before_order(keys, order[a] as int, order[a] as int, order[a] as int);
        if a < b {
            assert(key_before(keys, order[a] as int, order[b] as int));
        } else {
            assert(key_before(keys, order[b] as int, order[a] as int));
        }
    }
}

proof fn lemma_filter_no_duplicates(s: Seq<GraphNodeTarget>, target: GraphNodeTarget)
    requires
        s.no_duplicates(),
    ensures
        s.filter(other_than(target)).no_duplicates(),
    decreases s.len(),
{
    if s.len() > 0 {
        let init = s.drop_last();
        let x = s.last();
        assert(init.no_duplicates());
        lemma_filter_no_duplicates(init, target);
        assert(s =~= init.push(x));
        init.lemma_filter_push(x, other_than(target));
        let f = init.filter(other_than(target));
        if x != target {
            assert(!init.contains(x));
            if f.contains(x) {
                init.lemma_filter_contains_rev(other_than(target), x);
            }
            assert forall|a: int, b: int| 0 <= a < f.len() + 1 && 0 <= b < f.len() + 1 && a != b
                implies f.push(x)[a] != f.push(x)[b] by {
                if a == f.len() as int {
                    assert(f.contains(f[b]));
                } else if b == f.len() as int {
                    assert(f.contains(f[a]));
                }
            }
        }
    } else {
        assert(s.filter(other_than(target)) =~= Seq::<GraphNodeTarget>::empty()) by {
            reveal(Seq::filter);
        }
    }
}

impl PipelineGraphState {
    /// A value control is being dragged with the pointer hidden and held in place.
    pub fn is_cursor_lock_dragging(&self, controls: ControlDrag) -> (dragging: bool)
        ensures
            dragging == graph_pointer_locked(controls),
            dragging ==> graph_dragging(*self, controls),
    {
        match controls {
            ControlDrag::PointerLocked => true,
            _ => false,
        }
    }

    /// What the pipeline name editor's answer to a key or to composed text does, once the
    /// colour picker and the number fields have left it alone: nothing unless a rename is
    /// under way; an edit that changed the text renames the pipeline shown.
    pub fn handle_ime(&self, name_response: EditResponse) -> (outcome: NameEditOutcome)
        ensures
            outcome == name_edit_outcome(self.renaming, self.pipeline_id, name_response),
    {
        if !self.renaming {
            return NameEditOutcome::Ignored;
        }
        if !name_response.handled {
            return NameEditOutcome::Ignored;
        }
        if name_response.changed {
            match self.pipeline_id {
                Some(id) => NameEditOutcome::Rename(id),
                None => NameEditOutcome::Handled,
            }
        } else {
            NameEditOutcome::Handled
        }
    }

    /// Which editor places the text input caret: the colour picker where it shows one, else the
    /// pipeline name while it is renamed and focused, else the value controls.
    pub fn ime_area(&self, color_caret: bool, name_focused: bool) -> (owner: CaretOwner)
        ensures
            owner == (if color_caret {
                CaretOwner::ColorPicker
            } else if self.renaming && self.pipeline_id is Some && name_focused {
                CaretOwner::PipelineName
            } else {
                CaretOwner::Controls
            }),
    {
        if color_caret {
            CaretOwner::ColorPicker
        } else if self.renaming && self.pipeline_id.is_some() && name_focused {
            CaretOwner::PipelineName
        } else {
            CaretOwner::Controls
        }
    }

    /// A right press: on the pipeline chooser it opens the chooser's menu; outside the canvas
    /// it closes any menu; on a card it selects and raises the card and opens the card's menu;
    /// on a wire it selects the wire alone and opens its menu; on the empty canvas it clears
    /// the selection and asks for a node to be inserted.
    pub fn pointer_right_pressed(&mut self, hit: GraphRightPress) -> (action: PipelineGraphAction)
        requires
            old(self).wf(),
        ensures
            final(self).wf(),
            right_press(*old(self), *final(self), hit, action),
    {
        match hit {
            GraphRightPress::PipelineSelector => {
                self.context_menu = Some(GraphContextTarget::PipelineSelector);
                PipelineGraphAction::Nothing
            },
            GraphRightPress::OutsideCanvas => {
                self.context_menu = None;
                PipelineGraphAction::Nothing
            },
            GraphRightPress::Card { target, property } => {
                self.select_single_node(target);
                self.bring_to_front(target);
                self.context_menu = match property {
                    Some(key) => Some(GraphContextTarget::Property(key)),
                    None => match target {
                        GraphNodeTarget::Input | GraphNodeTarget::Output => None,
                        _ => Some(GraphContextTarget::Node(target)),
                    },
                };
                PipelineGraphAction::Nothing
            },
            GraphRightPress::Wire(wire) => {
                self.clear_node_selection();
                let shown = copy_wire(&wire);
                self.selected_wire = Some(wire);
                self.context_menu = Some(GraphContextTarget::Wire(shown));
                PipelineGraphAction::Nothing
            },
            GraphRightPress::Empty => {
                self.context_menu = None;
                self.clear_node_selection();
                self.selected_wire = None;
                PipelineGraphAction::InsertNode
            },
        }
    }

    /// The first image wire of `crossing` that neither starts nor ends at shared node `node`.
    fn find_insertion_wire(crossing: &[GraphWire], node: u64) -> (found: Option<usize>)
        ensures
            match found {
                Some(i) => insertion_wire(crossing@, node) == Some(i as int) && i < crossing.len(),
                None => insertion_wire(crossing@, node) is None,
            },
    {
        let mut i: usize = 0;
        while i < crossing.len()
            invariant
                i <= crossing.len(),
                insertion_wire(crossing@.take(i as int), node) is None,
            decreases crossing.len() - i,
        {
            proof {
                assert(crossing@.take(i + 1).drop_last() =~= crossing@.take(i as int));
                assert(crossing@.take(i + 1).last() == crossing@[i as int]);
            }
            let hit = match &crossing[i] {
                GraphWire::Image { source, destination, .. } => *source != Some(node) && *destination != Some(node),
                _ => false,
            };
            if hit {
                proof {
                    lemma_insertion_wire_prefix(crossing@, node, i as int + 1);
                }
                return Some(i);
            }
            i = i + 1;
        }
        assert(crossing@.take(crossing.len() as int) =~= crossing@);
        None
    }

    /// A release of the pointer. It always ends a drag of the view. Then it ends, in this
    /// order of precedence: a rubber band (`band_hits` tells which cards it met), the wire
    /// being drawn (`input_hits` tells what lies under the pointer on each card), a drag of
    /// several cards, or the drag of one card. A shared card dropped on wires (`crossing`: the
    /// editable wires that cross it, in drawing order) asks to be inserted into the first image
    /// wire that is not its own.
    pub fn pointer_released(
        &mut self,
        cards: &[GraphNodeTarget],
        band_hits: &[bool],
        input_hits: &[InputHit],
        followed_shared: bool,
        crossing: &[GraphWire],
    ) -> (action: PipelineGraphAction)
        requires
            old(self).wf(),
            band_hits.len() == cards.len(),
            input_hits.len() == cards.len(),
        ensures
            final(self).wf(),
            graph_release(*old(self), *final(self), cards@, band_hits@, input_hits@, followed_shared, crossing@, action),
    {
        self.pan_drag = false;
        if self.block_selection.is_some() {
            self.finish_block_selection(cards, band_hits);
            return PipelineGraphAction::Nothing;
        }
        if self.pending_wire.is_some() {
            let released = self.release_pending_wire(cards, input_hits, followed_shared);
            return match released {
                Some(action) => action,
                None => PipelineGraphAction::Nothing,
            };
        }
        if self.group_drag {
            self.group_drag = false;
            self.drag = None;
            return PipelineGraphAction::Nothing;
        }
        let dragged = self.drag;
        self.drag = None;
        if let Some(GraphNodeTarget::Shared(node)) = dragged {
            let found = Self::find_insertion_wire(crossing, node);
            if let Some(k) = found {
                match &crossing[k] {
                    GraphWire::Image { source, destination, input } => {
                        let destination_input = match input {
                            Some(name) => Some(name.clone()),
                            None => None,
                        };
                        return PipelineGraphAction::InsertNodeOnWire {
                            node,
                            source: *source,
                            destination: *destination,
                            destination_input,
                        };
                    },
                    _ => {
                        proof {
                            lemma_insertion_wire_is_image(crossing@, node);
                        }
                        return PipelineGraphAction::Nothing;
                    },
                }
            }
        }
        PipelineGraphAction::Nothing
    }

    /// A press on the link mark of a vector control: the control's components start or stop
    /// moving together, and the card that holds the control is selected alone and raised.
    pub fn toggle_property_link(&mut self, control: GraphControlTarget)
        requires
            old(self).wf(),
        ensures
            final(self).wf(),
            link_toggled(*old(self), *final(self), control),
    {
        let node = control.node();
        let ghost key = control_key(control);
        let ghost keys = control_keys(self.property_links@);
        let mut k: usize = 0;
        let mut found = false;
        while k < self.property_links.len()
            invariant_except_break
                !found,
                forall|q: int| 0 <= q < k ==> keys[q] != key,
            invariant
                k <= self.property_links.len(),
                *self == *old(self),
                keys.no_duplicates(),
                keys == control_keys(self.property_links@),
                key == control_key(control),
            ensures
                found ==> k < self.property_links.len() && keys[k as int] == key,
                !found ==> forall|q: int| 0 <= q < self.property_links.len() ==> keys[q] != key,
            decreases self.property_links.len() - k,
        {
            if same_control(&self.property_links[k], &control) {
                found = true;
                break;
            }
            k = k + 1;
        }
        if found {
            self.property_links.remove(k);
            proof {
                let after = control_keys(self.property_links@);
                assert(after =~= keys.remove(k as int));
                assert(keys[k as int] == key);
                assert forall|x: (int, GraphNodeTarget, Seq<char>, int)| after.contains(x) <==> keys.to_set().remove(key).contains(x) by {
                    if after.contains(x) {
                        let q = choose|q: int| 0 <= q < after.len() && after[q] == x;
                        let r = if q < k { q } else { q + 1 };
                        assert(keys[r] == x);
                        assert(r != k as int);
                    }
                    if keys.to_set().remove(key).contains(x) {
                        let r = choose|r: int| 0 <= r < keys.len() && keys[r] == x;
                        assert(r != k as int);
                        let q = if r < k { r } else { r - 1 };
                        assert(after[q] == x);
                    }
                }
                assert(after.to_set() =~= keys.to_set().remove(key));
                assert(keys.to_set().contains(key));
                assert forall|a: int, b: int| 0 <= a < b < after.len() implies after[a] != after[b] by {
                    let ra = if a < k { a } else { a + 1 };
                    let rb = if b < k { b } else { b + 1 };
                    assert(after[a] == keys[ra] && after[b] == keys[rb]);
                }
            }
        } else {
            self.property_links.push(control);
            proof {
                let after = control_keys(self.property_links@);
                assert(after =~= keys.push(key));
                assert(!keys.contains(key)) by {
                    if keys.contains(key) {
                        let q = choose|q: int| 0 <= q < keys.len() && keys[q] == key;
                        assert(keys[q] != key);
                    }
                }
                keys.lemma_push_to_set_commute(key);
                assert forall|a: int, b: int| 0 <= a < b < after.len() implies after[a] != after[b] by {
                    if b == keys.len() {
                        assert(after[a] == keys[a]);
                        assert(keys.contains(keys[a]));
                    } else {
                        assert(after[a] == keys[a] && after[b] == keys[b]);
                    }
                }
            }
        }
        let ghost links = self.property_links;
        self.select_single_node(node);
        self.bring_to_front(node);
        assert(self.property_links == links);
    }

    /// A pick from the pipeline chooser's list: the first entry follows the selected clip, entry
    /// `index` picks the pipeline listed before it (none where the list is shorter), and the
    /// list closes. While a rename is under way the list takes no pick.
    pub fn choose_pipeline_option(&mut self, index: usize, pipelines: &[PipelineInfo]) -> (action: Option<PipelineGraphAction>)
        ensures
            old(self).renaming ==> action is None && *final(self) == *old(self),
            !old(self).renaming ==> *final(self) == (PipelineGraphState { chooser_open: false, ..*old(self) })
                && (action matches Some(PipelineGraphAction::SelectPipeline(p))
                && p == if index == 0 || index - 1 >= pipelines.len() { None } else { Some(pipelines@[index - 1].id) }),
    {
        if self.renaming {
            return None;
        }
        self.chooser_open = false;
        if index == 0 {
            return Some(PipelineGraphAction::SelectPipeline(None));
        }
        if index - 1 < pipelines.len() {
            Some(PipelineGraphAction::SelectPipeline(Some(pipelines[index - 1].id)))
        } else {
            Some(PipelineGraphAction::SelectPipeline(None))
        }
    }

    /// A pick of option `index` from a property's option list: a switch (`is_bool`) is on for
    /// any option but the first, another list sets the option's index; a rename ends and the
    /// name editor loses the keyboard.
    pub fn choose_property_option(&mut self, key: GraphPropertyKey, index: usize, is_bool: bool) -> (action: PipelineGraphAction)
        ensures
            *final(self) == (PipelineGraphState { renaming: false, name_focused: false, ..*old(self) }),
            action matches PipelineGraphAction::SetEffectChoice { target, input, value } && target == key.target
                && input@ == key.input@ && value == (if is_bool { ChoiceValue::Bool(index != 0) } else { ChoiceValue::Enum(index as u32) }),
    {
        self.renaming = false;
        self.name_focused = false;
        let value = if is_bool { ChoiceValue::Bool(index != 0) } else { ChoiceValue::Enum(index as u32) };
        PipelineGraphAction::SetEffectChoice { target: key.target, input: key.input, value }
    }

    /// Whether framing the whole graph has anything to frame: the view is fitted to the cards
    /// only where there are cards.
    pub fn frame_all(&self, cards: &[GraphNodeTarget]) -> (framed: bool)
        ensures
            framed == (cards.len() > 0),
    {
        cards.len() > 0
    }
}

/// On a property of a shared node, the one entry of the context menu does what its label
/// says: "Use Shared Value" (shown while the followed clip overrides the shared value) asks to
/// go back to the shared value, "Make Unique" asks to give the clip its own value, each for
/// that node and that input.
pub proof fn lemma_property_entry_matches_label(key: GraphPropertyKey, has_pipeline: bool, pipeline_id: Option<u64>, input_is_override: bool)
    requires
        key.target is Shared,
    ensures
        ({
            let label = context_items_of(GraphContextTarget::Property(key), has_pipeline, input_is_override)[0].label@;
            let action = context_action_of(GraphContextTarget::Property(key), 0, pipeline_id, input_is_override);
            let node = key.target->Shared_0;
            &&& label == "Use Shared Value"@ ==> (action matches PipelineGraphAction::UseSharedInput { node: n, input }
                && n == node && input@ == key.input@)
            &&& label == "Make Unique"@ ==> (action matches PipelineGraphAction::MakeInputUnique { node: n, input }
                && n == node && input@ == key.input@)
            &&& (label == "Use Shared Value"@) == input_is_override
        }),
{
    reveal_strlit("Use Shared Value");
    reveal_strlit("Make Unique");
    assert("Use Shared Value"@ != "Make Unique"@) by {
        assert("Use Shared Value"@[0] != "Make Unique"@[0]);
    }
}

/// The other entries of the graph's context menus ask for what they name: "New Pipeline"
/// creates one, "Remove Pipeline" removes the pipeline shown, "Delete Node" removes the card's
/// node and "Delete Connection" deletes the wire the menu was opened on.
pub proof fn lemma_graph_entries_ask_for_what_they_name(
    target: GraphContextTarget,
    index: usize,
    pipeline_id: Option<u64>,
    input_is_override: bool,
)
    ensures
        ({
            let items = context_items_of(target, pipeline_id is Some, input_is_override);
            let action = context_action_of(target, index, pipeline_id, input_is_override);
            &&& index < items.len() && items[index as int].label@ == "New Pipeline"@ ==> action is Create
            &&& index < items.len() && items[index as int].label@ == "Remove Pipeline"@ && pipeline_id is Some
                ==> action == PipelineGraphAction::RemovePipeline(pipeline_id->0)
            &&& index < items.len() && items[index as int].label@ == "Delete Node"@ ==> (target matches GraphContextTarget::Node(n)
                && action == PipelineGraphAction::Remove(n))
            &&& index < items.len() && items[index as int].label@ == "Delete Connection"@ ==> (target matches GraphContextTarget::Wire(w)
                && action == PipelineGraphAction::DeleteWire(w))
        }),
{
    reveal_strlit("Rename Pipeline");
    reveal_strlit("New Pipeline");
    reveal_strlit("Remove Pipeline");
    reveal_strlit("Use Shared Value");
    reveal_strlit("Make Unique");
    reveal_strlit("Delete Node");
    reveal_strlit("Delete Connection");
    assert("Rename Pipeline"@ != "New Pipeline"@ && "Rename Pipeline"@ != "Remove Pipeline"@ && "New Pipeline"@ != "Remove Pipeline"@) by {
        assert("Rename Pipeline"@[2] != "New Pipeline"@[2]);
        assert("Rename Pipeline"@[2] != "Remove Pipeline"@[2]);
        assert("New Pipeline"@[0] != "Remove Pipeline"@[0]);
    }
    assert("Use Shared Value"@ != "New Pipeline"@ && "Use Shared Value"@ != "Remove Pipeline"@ && "Use Shared Value"@ != "Delete Node"@
        && "Use Shared Value"@ != "Delete Connection"@) by {
        assert("Use Shared Value"@[0] != "New Pipeline"@[0]);
        assert("Use Shared Value"@[0] != "Remove Pipeline"@[0]);
        assert("Use Shared Value"@[0] != "Delete Node"@[0]);
        assert("Use Shared Value"@[0] != "Delete Connection"@[0]);
    }
    assert("Make Unique"@ != "New Pipeline"@ && "Make Unique"@ != "Remove Pipeline"@ && "Make Unique"@ != "Delete Node"@
        && "Make Unique"@ != "Delete Connection"@) by {
        assert("Make Unique"@[0] != "New Pipeline"@[0]);
        assert("Make Unique"@[0] != "Remove Pipeline"@[0]);
        assert("Make Unique"@[0] != "Delete Node"@[0]);
        assert("Make Unique"@[0] != "Delete Connection"@[0]);
    }
    assert("Delete Node"@ != "Delete Connection"@ && "Delete Node"@ != "New Pipeline"@ && "Delete Node"@ != "Remove Pipeline"@
        && "Delete Connection"@ != "New Pipeline"@ && "Delete Connection"@ != "Remove Pipeline"@) by {
        assert("Delete Node"@[7] != "Delete Connection"@[7]);
        assert("Delete Node"@[0] != "New Pipeline"@[0]);
        assert("Delete Node"@[0] != "Remove Pipeline"@[0]);
        assert("Delete Connection"@[0] != "New Pipeline"@[0]);
        assert("Delete Connection"@[0] != "Remove Pipeline"@[0]);
    }
    let items = context_items_of(target, pipeline_id is Some, input_is_override);
    match target {
        GraphContextTarget::PipelineSelector => {
            assert(items[0].label@ == "Rename Pipeline"@);
            assert(items[1].label@ == "New Pipeline"@);
            assert(items[2].label@ == "Remove Pipeline"@);
        },
        GraphContextTarget::Property(key) => {
            if key.target is Shared {
                assert(items[0].label@ == "Use Shared Value"@ || items[0].label@ == "Make Unique"@);
            }
        },
        GraphContextTarget::Node(node) => {},
        GraphContextTarget::Wire(wire) => {},
    }
}

} // verus!
