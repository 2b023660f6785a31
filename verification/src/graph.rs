//! Nodes, wires and connection decisions of the pipeline graph.
use vstd::prelude::*;

use crate::order::{SortKey, sorted_order, is_index_permutation, key_before};

verus! {

/// A card of the pipeline graph.
#[derive(Clone, Copy, Debug, PartialEq, Eq, Hash, Structural)]
pub enum GraphNodeTarget {
    Input,
    Local(u64),
    Shared(u64),
    Value(u64),
    Output,
}

/// An opaque colour given as three 8-bit channels.
#[derive(Clone, Copy, Debug, PartialEq, Eq, Structural)]
pub struct Rgb8 {
    pub r: u8,
    pub g: u8,
    pub b: u8,
}

/// Where a card without a stored position is placed, in whole world units: inputs on the
/// left, shared cards in a column by id, local cards in another, the output on the right.
pub open spec fn stable_fallback_of(target: GraphNodeTarget) -> [u128; 2] {
    match target {
        GraphNodeTarget::Input => [24, 100],
        GraphNodeTarget::Output => [820, 100],
        GraphNodeTarget::Local(id) => [540, (100 + id * 132) as u128],
        GraphNodeTarget::Shared(id) => [292, (100 + (if id == 0 { 0 } else { id - 1 }) * 240) as u128],
        GraphNodeTarget::Value(id) => [44, (360 + (if id == 0 { 0 } else { id - 1 }) * 180) as u128],
    }
}

/// Where a card without a stored position is placed. It depends on the card alone, not on
/// where the card stands among the others.
pub fn graph_stable_fallback(target: GraphNodeTarget) -> (position: [u128; 2])
    ensures
        position == stable_fallback_of(target),
{
    match target {
        GraphNodeTarget::Input => [24, 100],
        GraphNodeTarget::Output => [820, 100],
        GraphNodeTarget::Local(id) => [540, 100 + id as u128 * 132],
        GraphNodeTarget::Shared(id) => [292, 100 + id.saturating_sub(1) as u128 * 240],
        GraphNodeTarget::Value(id) => [44, 360 + id.saturating_sub(1) as u128 * 180],
    }
}

/// The colour of a card's header for each kind of card.
pub open spec fn header_color_of(target: GraphNodeTarget) -> Rgb8 {
    match target {
        GraphNodeTarget::Input => Rgb8 { r: 0x2f, g: 0x45, b: 0x36 },
        GraphNodeTarget::Output => Rgb8 { r: 0x3a, g: 0x3a, b: 0x3a },
        GraphNodeTarget::Local(_) => Rgb8 { r: 0x2d, g: 0x3a, b: 0x48 },
        GraphNodeTarget::Shared(_) => Rgb8 { r: 0x4a, g: 0x36, b: 0x20 },
        GraphNodeTarget::Value(_) => Rgb8 { r: 0x35, g: 0x2d, b: 0x4a },
    }
}

impl GraphNodeTarget {
    /// The colour of this card's header.
    pub fn header_color(self) -> (color: Rgb8)
        ensures
            color == header_color_of(self),
    {
        match self {
            GraphNodeTarget::Input => Rgb8 { r: 0x2f, g: 0x45, b: 0x36 },
            GraphNodeTarget::Output => Rgb8 { r: 0x3a, g: 0x3a, b: 0x3a },
            GraphNodeTarget::Local(_) => Rgb8 { r: 0x2d, g: 0x3a, b: 0x48 },
            GraphNodeTarget::Shared(_) => Rgb8 { r: 0x4a, g: 0x36, b: 0x20 },
            GraphNodeTarget::Value(_) => Rgb8 { r: 0x35, g: 0x2d, b: 0x4a },
        }
    }
}

/// The node that the monitor shows, as the graph's selection determines it.
#[derive(Clone, Copy, Debug, PartialEq, Eq, Structural)]
pub enum GraphMonitorSelection {
    Local { node: u64 },
    Shared { pipeline: u64, node: u64, follows_clip: bool },
}

/// A connection drawn in the graph.
#[derive(Clone, Debug)]
#[allow(inconsistent_fields)]
pub enum GraphWire {
    LocalImage { source: Option<u64>, destination: Option<u64> },
    Image { source: Option<u64>, destination: Option<u64>, input: Option<String> },
    Value { source: u64, destination: u64, input: String },
}

/// The text of an optional string.
pub open spec fn opt_text(s: Option<String>) -> Option<Seq<char>> {
    match s {
        Some(s) => Some(s@),
        None => None,
    }
}

/// Two wires join the same endpoints through the same input.
pub open spec fn wire_same(a: GraphWire, b: GraphWire) -> bool {
    match (a, b) {
        (
            GraphWire::LocalImage { source: s1, destination: d1 },
            GraphWire::LocalImage { source: s2, destination: d2 },
        ) => s1 == s2 && d1 == d2,
        (
            GraphWire::Image { source: s1, destination: d1, input: i1 },
            GraphWire::Image { source: s2, destination: d2, input: i2 },
        ) => s1 == s2 && d1 == d2 && opt_text(i1) == opt_text(i2),
        (
            GraphWire::Value { source: s1, destination: d1, input: i1 },
            GraphWire::Value { source: s2, destination: d2, input: i2 },
        ) => s1 == s2 && d1 == d2 && i1@ == i2@,
        _ => false,
    }
}

fn opt_string_eq(a: &Option<String>, b: &Option<String>) -> (same: bool)
    ensures
        same == (opt_text(*a) == opt_text(*b)),
{
    match (a, b) {
        (Some(x), Some(y)) => x.eq(y),
        (None, None) => true,
        _ => false,
    }
}

impl PartialEq for GraphWire {
    fn eq(&self, other: &Self) -> (same: bool) {
        match (self, other) {
            (
                GraphWire::LocalImage { source: s1, destination: d1 },
                GraphWire::LocalImage { source: s2, destination: d2 },
            ) => *s1 == *s2 && *d1 == *d2,
            (
                GraphWire::Image { source: s1, destination: d1, input: i1 },
                GraphWire::Image { source: s2, destination: d2, input: i2 },
            ) => *s1 == *s2 && *d1 == *d2 && opt_string_eq(i1, i2),
            (
                GraphWire::Value { source: s1, destination: d1, input: i1 },
                GraphWire::Value { source: s2, destination: d2, input: i2 },
            ) => *s1 == *s2 && *d1 == *d2 && i1.eq(i2),
            _ => false,
        }
    }
}

impl vstd::std_specs::cmp::PartialEqSpecImpl for GraphWire {
    open spec fn obeys_eq_spec() -> bool {
        true
    }

    open spec fn eq_spec(&self, other: &GraphWire) -> bool {
        wire_same(*self, *other)
    }
}

/// A wire that is being drawn from an output.
#[derive(Clone, Copy, Debug, PartialEq, Eq, Structural)]
pub enum PendingGraphWire {
    LocalImage(Option<u64>),
    Image(Option<u64>),
    Value(u64),
}

/// The pending wire that picks up an existing wire from its source.
pub open spec fn pending_of(wire: GraphWire) -> PendingGraphWire {
    match wire {
        GraphWire::LocalImage { source, .. } => PendingGraphWire::LocalImage(source),
        GraphWire::Image { source, .. } => PendingGraphWire::Image(source),
        GraphWire::Value { source, .. } => PendingGraphWire::Value(source),
    }
}

/// The pending wire that picks up `wire` from its source.
pub fn pending_from_wire(wire: &GraphWire) -> (pending: PendingGraphWire)
    ensures
        pending == pending_of(*wire),
{
    match wire {
        GraphWire::LocalImage { source, .. } => PendingGraphWire::LocalImage(*source),
        GraphWire::Image { source, .. } => PendingGraphWire::Image(*source),
        GraphWire::Value { source, .. } => PendingGraphWire::Value(*source),
    }
}

/// A property row of a card.
#[derive(Clone, Debug)]
pub struct GraphPropertyKey {
    pub target: GraphNodeTarget,
    pub input: String,
}

/// A control of a card that edits a value.
#[derive(Clone, Debug)]
pub enum GraphControlTarget {
    Property(GraphPropertyKey),
    ValueNode(u64),
    HostGradientStop { target: GraphNodeTarget, input: String, index: usize },
}

/// The card that holds a control.
pub open spec fn control_node(control: GraphControlTarget) -> GraphNodeTarget {
    match control {
        GraphControlTarget::Property(key) => key.target,
        GraphControlTarget::ValueNode(node) => GraphNodeTarget::Value(node),
        GraphControlTarget::HostGradientStop { target, .. } => target,
    }
}

impl GraphControlTarget {
    /// The card that holds this control.
    pub fn node(&self) -> (node: GraphNodeTarget)
        ensures
            node == control_node(*self),
    {
        match self {
            GraphControlTarget::Property(key) => key.target,
            GraphControlTarget::ValueNode(node) => GraphNodeTarget::Value(*node),
            GraphControlTarget::HostGradientStop { target, .. } => *target,
        }
    }
}

/// An action that the graph asks the application to carry out.
#[derive(Clone, Debug)]
#[allow(inconsistent_fields)]
pub enum PipelineGraphAction {
    Nothing,
    SelectPipeline(Option<u64>),
    Create,
    RemovePipeline(u64),
    InsertNode,
    Remove(GraphNodeTarget),
    RemoveMany(Vec<GraphNodeTarget>),
    DeleteWire(GraphWire),
    ConnectLocalImage { node: u64, source: Option<u64> },
    SetLocalOutput { source: Option<u64> },
    ConnectSharedBoundary { source: Option<u64>, destination: Option<u64> },
    ConnectImage { node: u64, input: String, source: Option<u64> },
    SetOutput { source: Option<u64> },
    ConnectValue { node: u64, input: String, source: u64 },
    ToggleHostKeyframe { target: GraphNodeTarget, input: String },
    MakeInputUnique { node: u64, input: String },
    UseSharedInput { node: u64, input: String },
    InsertNodeOnWire {
        node: u64,
        source: Option<u64>,
        destination: Option<u64>,
        destination_input: Option<String>,
    },
    SetEffectChoice { target: GraphNodeTarget, input: String, value: ChoiceValue },
}

/// The value an option of a property's option list sets.
#[derive(Clone, Copy, Debug, PartialEq, Eq, Structural)]
pub enum ChoiceValue {
    Bool(bool),
    Enum(u32),
}

/// What tells two controls apart.
pub open spec fn control_key(control: GraphControlTarget) -> (int, GraphNodeTarget, Seq<char>, int) {
    match control {
        GraphControlTarget::Property(key) => (0, key.target, key.input@, 0),
        GraphControlTarget::ValueNode(node) => (1, GraphNodeTarget::Value(node), Seq::empty(), 0),
        GraphControlTarget::HostGradientStop { target, input, index } => (2, target, input@, index as int),
    }
}

/// The keys of `controls`, in order.
pub open spec fn control_keys(controls: Seq<GraphControlTarget>) -> Seq<(int, GraphNodeTarget, Seq<char>, int)> {
    controls.map_values(|c: GraphControlTarget| control_key(c))
}

/// Whether two controls are the same control.
pub fn same_control(a: &GraphControlTarget, b: &GraphControlTarget) -> (same: bool)
    ensures
        same == (control_key(*a) == control_key(*b)),
{
    match (a, b) {
        (GraphControlTarget::Property(x), GraphControlTarget::Property(y)) => x.target == y.target && x.input == y.input,
        (GraphControlTarget::ValueNode(x), GraphControlTarget::ValueNode(y)) => *x == *y,
        (
            GraphControlTarget::HostGradientStop { target: t, input: i, index: k },
            GraphControlTarget::HostGradientStop { target: u, input: j, index: l },
        ) => *t == *u && *i == *j && *k == *l,
        _ => false,
    }
}

/// The first index of `target` among `cards`.
pub open spec fn first_index_of(cards: Seq<GraphNodeTarget>, target: GraphNodeTarget) -> Option<int> {
    if exists|i: int| 0 <= i < cards.len() && cards[i] == target {
        Some(choose|i: int| 0 <= i < cards.len() && cards[i] == target
            && forall|j: int| 0 <= j < i ==> cards[j] != target)
    } else {
        None
    }
}

/// Where `target` stands among `cards`: the first index at which it occurs.
pub fn card_index(cards: &[GraphNodeTarget], target: GraphNodeTarget) -> (index: Option<usize>)
    ensures
        match index {
            Some(i) => i < cards.len() && cards@[i as int] == target
                && forall|j: int| 0 <= j < i ==> cards@[j] != target,
            None => forall|j: int| 0 <= j < cards.len() ==> cards@[j] != target,
        },
{
    let mut i: usize = 0;
    while i < cards.len()
        invariant
            i <= cards.len(),
            forall|j: int| 0 <= j < i ==> cards@[j] != target,
        decreases cards.len() - i,
    {
        if cards[i] == target {
            return Some(i);
        }
        i = i + 1;
    }
    None
}

/// How high a card is drawn: 0 when it was never raised, else one more than its place in
/// the raise order.
pub open spec fn draw_rank(z_order: Seq<GraphNodeTarget>, target: GraphNodeTarget) -> nat {
    if exists|i: int| 0 <= i < z_order.len() && z_order[i] == target {
        (choose|i: int| 0 <= i < z_order.len() && z_order[i] == target
            && forall|j: int| 0 <= j < i ==> z_order[j] != target) as nat + 1
    } else {
        0
    }
}

proof fn lemma_draw_rank(z_order: Seq<GraphNodeTarget>, target: GraphNodeTarget, i: int)
    requires
        0 <= i <= z_order.len(),
        forall|j: int| 0 <= j < i ==> z_order[j] != target,
        i < z_order.len() ==> z_order[i] == target,
    ensures
        draw_rank(z_order, target) == if i < z_order.len() { i + 1 } else { 0 },
{
    if i < z_order.len() {
        let w = choose|w: int| 0 <= w < z_order.len() && z_order[w] == target
            && forall|j: int| 0 <= j < w ==> z_order[j] != target;
        assert(exists|w: int| 0 <= w < z_order.len() && z_order[w] == target
            && forall|j: int| 0 <= j < w ==> z_order[j] != target) by {
            assert(0 <= i < z_order.len() && z_order[i] == target);
        }
        if w < i {
        } else if w > i {
        }
    }
}

fn draw_rank_exec(z_order: &[GraphNodeTarget], target: GraphNodeTarget) -> (rank: u64)
    ensures
        rank == draw_rank(z_order@, target),
{
    let mut i: usize = 0;
    while i < z_order.len()
        invariant
            i <= z_order.len(),
            forall|j: int| 0 <= j < i ==> z_order@[j] != target,
        decreases z_order.len() - i,
    {
        if z_order[i] == target {
            proof {
                lemma_draw_rank(z_order@, target, i as int);
            }
            return i as u64 + 1;
        }
        i = i + 1;
    }
    proof {
        lemma_draw_rank(z_order@, target, i as int);
    }
    0
}

/// Holds of every card but `target`.
pub open spec fn other_than(target: GraphNodeTarget) -> spec_fn(GraphNodeTarget) -> bool {
    |c: GraphNodeTarget| c != target
}

/// The raise order after `target` was raised: it leaves its place and goes last.
pub open spec fn raised(z_order: Seq<GraphNodeTarget>, target: GraphNodeTarget) -> Seq<GraphNodeTarget> {
    z_order.filter(other_than(target)).push(target)
}

/// A card just raised is drawn above every other card.
pub proof fn lemma_raised_card_on_top(z_order: Seq<GraphNodeTarget>, target: GraphNodeTarget, other: GraphNodeTarget)
    requires
        other != target,
    ensures
        draw_rank(raised(z_order, target), other) < draw_rank(raised(z_order, target), target),
{
    broadcast use vstd::seq_lib::group_filter_ensures;
    let f = z_order.filter(other_than(target));
    let z = raised(z_order, target);
    assert(z == f.push(target));
    assert forall|j: int| 0 <= j < f.len() implies z[j] != target by {
        z_order.lemma_filter_pred(other_than(target), j);
        assert(z[j] == f[j]);
    }
    lemma_draw_rank(z, target, f.len() as int);
    if exists|i: int| 0 <= i < z.len() && z[i] == other {
        let i = choose|i: int| 0 <= i < z.len() && z[i] == other
            && forall|j: int| 0 <= j < i ==> z[j] != other;
        assert(exists|i: int| 0 <= i < z.len() && z[i] == other
            && forall|j: int| 0 <= j < i ==> z[j] != other) by {
            let w = choose|w: int| 0 <= w < z.len() && z[w] == other;
            lemma_first_index(z, other, w);
        }
        lemma_draw_rank(z, other, i);
        assert(i < f.len());
    } else {
        assert forall|j: int| 0 <= j < z.len() implies z[j] != other by {}
        lemma_draw_rank(z, other, z.len() as int);
    }
}

proof fn lemma_first_index(z: Seq<GraphNodeTarget>, x: GraphNodeTarget, w: int)
    requires
        0 <= w < z.len(),
        z[w] == x,
    ensures
        exists|i: int| 0 <= i < z.len() && z[i] == x && forall|j: int| 0 <= j < i ==> z[j] != x,
    decreases w,
{
    if exists|j: int| 0 <= j < w && z[j] == x {
        let j = choose|j: int| 0 <= j < w && z[j] == x;
        lemma_first_index(z, x, j);
    } else {
        assert(0 <= w < z.len() && z[w] == x && forall|j: int| 0 <= j < w ==> z[j] != x);
    }
}

/// Card `a` is drawn before (below) card `b`: lower rank, or equal rank and earlier card.
pub open spec fn drawn_before(
    cards: Seq<GraphNodeTarget>,
    z_order: Seq<GraphNodeTarget>,
    a: int,
    b: int,
) -> bool {
    ||| draw_rank(z_order, cards[a]) < draw_rank(z_order, cards[b])
    ||| draw_rank(z_order, cards[a]) == draw_rank(z_order, cards[b]) && a < b
}

/// The card indices in drawing order: cards never raised first, then raised cards in the
/// order they were raised; cards of equal rank keep their order.
pub fn graph_card_draw_order(cards: &[GraphNodeTarget], z_order: &[GraphNodeTarget]) -> (order: Vec<usize>)
    ensures
        is_index_permutation(order@, cards.len() as nat),
        forall|a: int, b: int|
            0 <= a < b < order.len() ==> drawn_before(cards@, z_order@, #[trigger] order@[a] as int, #[trigger] order@[b] as int),
{
    let mut keys: Vec<SortKey> = Vec::new();
    let mut i: usize = 0;
    while i < cards.len()
        invariant
            i <= cards.len(),
            keys.len() == i,
            forall|k: int| 0 <= k < i ==> (#[trigger] keys@[k]).rank == draw_rank(z_order@, cards@[k])
                && keys@[k].text@ == Seq::<char>::empty() && keys@[k].minor == 0,
        decreases cards.len() - i,
    {
        let rank = draw_rank_exec(z_order, cards[i]);
        keys.push(SortKey { rank, text: Vec::new(), minor: 0 });
        i = i + 1;
    }
    let order = sorted_order(&keys);
    proof {
        assert forall|a: int, b: int|
            0 <= a < b < order.len() implies drawn_before(cards@, z_order@, #[trigger] order@[a] as int, #[trigger] order@[b] as int) by {
            let x = order@[a] as int;
            let y = order@[b] as int;
            assert(key_before(keys@, x, y));
            assert(keys@[x].text@ == Seq::<char>::empty());
            assert(keys@[y].text@ == Seq::<char>::empty());
        }
    }
    order
}

/// The wire a newly drawn output starts: what pressing on a card's output begins.
pub open spec fn output_pending(kind: GraphNodeTarget, shared_input: bool) -> Option<PendingGraphWire> {
    match kind {
        GraphNodeTarget::Input => Some(
            if shared_input {
                PendingGraphWire::Image(None)
            } else {
                PendingGraphWire::LocalImage(None)
            },
        ),
        GraphNodeTarget::Local(node) => Some(PendingGraphWire::LocalImage(Some(node))),
        GraphNodeTarget::Shared(node) => Some(PendingGraphWire::Image(Some(node))),
        GraphNodeTarget::Value(node) => Some(PendingGraphWire::Value(node)),
        GraphNodeTarget::Output => None,
    }
}

/// Card `i` is under the pointer with an output that can start a wire.
pub open spec fn output_candidate(
    cards: Seq<GraphNodeTarget>,
    hits: Seq<bool>,
    shared_input: bool,
    i: int,
) -> bool {
    hits[i] && output_pending(cards[i], shared_input) is Some
}

fn output_pending_exec(kind: GraphNodeTarget, shared_input: bool) -> (pending: Option<PendingGraphWire>)
    ensures
        pending == output_pending(kind, shared_input),
{
    match kind {
        GraphNodeTarget::Input => Some(
            if shared_input {
                PendingGraphWire::Image(None)
            } else {
                PendingGraphWire::LocalImage(None)
            },
        ),
        GraphNodeTarget::Local(node) => Some(PendingGraphWire::LocalImage(Some(node))),
        GraphNodeTarget::Shared(node) => Some(PendingGraphWire::Image(Some(node))),
        GraphNodeTarget::Value(node) => Some(PendingGraphWire::Value(node)),
        GraphNodeTarget::Output => None,
    }
}

/// The wire that pressing on an output starts. `output_hits[i]` tells whether the pointer is
/// on the output of card `i` (the value output for value cards, the image output otherwise);
/// of the cards that can start a wire there, the one drawn on top wins.
pub fn graph_output_at(
    cards: &[GraphNodeTarget],
    z_order: &[GraphNodeTarget],
    output_hits: &[bool],
    shared_input: bool,
) -> (pending: Option<PendingGraphWire>)
    requires
        output_hits.len() == cards.len(),
    ensures
        match pending {
            Some(p) => exists|i: int|
                0 <= i < cards.len() && output_candidate(cards@, output_hits@, shared_input, i)
                    && output_pending(cards@[i], shared_input) == Some(p)
                    && forall|j: int| 0 <= j < cards.len() && j != i
                        && output_candidate(cards@, output_hits@, shared_input, j)
                        ==> drawn_before(cards@, z_order@, j, i),
            None => forall|i: int| 0 <= i < cards.len() ==> !output_candidate(cards@, output_hits@, shared_input, i),
        },
{
    let order = graph_card_draw_order(cards, z_order);
    let mut k = order.len();
    while k > 0
        invariant
            k <= order.len(),
            order.len() == cards.len(),
            output_hits.len() == cards.len(),
            is_index_permutation(order@, cards.len() as nat),
            forall|a: int, b: int|
                0 <= a < b < order.len() ==> drawn_before(cards@, z_order@, #[trigger] order@[a] as int, #[trigger] order@[b] as int),
            forall|q: int| k <= q < order.len() ==> !output_candidate(cards@, output_hits@, shared_input, #[trigger] order@[q] as int),
        decreases k,
    {
        let i = order[k - 1];
        if output_hits[i] {
            let found = output_pending_exec(cards[i], shared_input);
            if found.is_some() {
                proof {
                    assert forall|j: int| 0 <= j < cards.len() && j != i
                        && output_candidate(cards@, output_hits@, shared_input, j)
                        implies drawn_before(cards@, z_order@, j, i as int) by {
                        assert(order@.contains(j as usize));
                        let q = choose|q: int| 0 <= q < order.len() && order@[q] == j as usize;
                        if q >= k {
                        } else if q == k - 1 {
                        } else {
                            assert(drawn_before(cards@, z_order@, order@[q] as int, order@[k - 1] as int));
                        }
                    }
                    assert(output_candidate(cards@, output_hits@, shared_input, i as int));
                }
                return found;
            }
        }
        k = k - 1;
    }
    proof {
        assert forall|i: int| 0 <= i < cards.len() implies !output_candidate(cards@, output_hits@, shared_input, i) by {
            assert(order@.contains(i as usize));
            let q = choose|q: int| 0 <= q < order.len() && order@[q] == i as usize;
            assert(!output_candidate(cards@, output_hits@, shared_input, order@[q] as int));
        }
    }
    None
}

/// A copy of `wire`.
pub fn copy_wire(wire: &GraphWire) -> (copy: GraphWire)
    ensures
        copy == *wire,
{
    match wire {
        GraphWire::LocalImage { source, destination } => GraphWire::LocalImage {
            source: *source,
            destination: *destination,
        },
        GraphWire::Image { source, destination, input } => GraphWire::Image {
            source: *source,
            destination: *destination,
            input: match input {
                Some(name) => Some(name.clone()),
                None => None,
            },
        },
        GraphWire::Value { source, destination, input } => GraphWire::Value {
            source: *source,
            destination: *destination,
            input: input.clone(),
        },
    }
}

/// What lies under the pointer on a card's inputs.
#[derive(Clone, Debug)]
pub struct InputHit {
    /// The pointer is on the card's single image input.
    pub image_input: bool,
    /// The first of the card's named image inputs that is under the pointer.
    pub named_image_input: Option<String>,
    /// The first of the card's value inputs that is under the pointer.
    pub value_input: Option<String>,
}

/// Which wires feed an input.
#[derive(Clone, Debug)]
pub enum WireQuery {
    /// Wires into the image input of a local node (`None`: into the output).
    LocalInto(Option<u64>),
    /// Wires into the named image input of a shared node.
    ImageInto(u64, String),
    /// Wires into the named value input of a node.
    ValueInto(u64, String),
    /// Wires into the graph's output.
    OutputFeed,
}

/// `wire` feeds the input that `query` names.
pub open spec fn wire_feeds(wire: GraphWire, query: WireQuery) -> bool {
    match query {
        WireQuery::LocalInto(node) => wire matches GraphWire::LocalImage { destination, .. } && destination == node,
        WireQuery::ImageInto(node, name) => match wire {
            GraphWire::Image { destination, input, .. } => destination == Some(node) && opt_text(input) == Some(name@),
            _ => false,
        },
        WireQuery::ValueInto(node, name) => match wire {
            GraphWire::Value { destination, input, .. } => destination == node && input@ == name@,
            _ => false,
        },
        WireQuery::OutputFeed => match wire {
            GraphWire::LocalImage { destination, .. } => destination is None,
            GraphWire::Image { destination, .. } => destination is None,
            _ => false,
        },
    }
}

/// The first wire of `wires` that feeds the input `query` names.
pub open spec fn first_wire(wires: Seq<GraphWire>, query: WireQuery) -> Option<GraphWire>
    decreases wires.len(),
{
    if wires.len() == 0 {
        None
    } else if wire_feeds(wires[0], query) {
        Some(wires[0])
    } else {
        first_wire(wires.drop_first(), query)
    }
}

fn wire_feeds_exec(wire: &GraphWire, query: &WireQuery) -> (feeds: bool)
    ensures
        feeds == wire_feeds(*wire, *query),
{
    match query {
        WireQuery::LocalInto(node) => match wire {
            GraphWire::LocalImage { destination, .. } => *destination == *node,
            _ => false,
        },
        WireQuery::ImageInto(node, name) => match wire {
            GraphWire::Image { destination, input, .. } => {
                *destination == Some(*node) && match input {
                    Some(input) => input.eq(name),
                    None => false,
                }
            },
            _ => false,
        },
        WireQuery::ValueInto(node, name) => match wire {
            GraphWire::Value { destination, input, .. } => *destination == *node && input.eq(name),
            _ => false,
        },
        WireQuery::OutputFeed => match wire {
            GraphWire::LocalImage { destination, .. } => destination.is_none(),
            GraphWire::Image { destination, .. } => destination.is_none(),
            _ => false,
        },
    }
}

/// The first wire of `wires` that feeds the input `query` names.
pub fn find_wire(wires: &[GraphWire], query: &WireQuery) -> (found: Option<GraphWire>)
    ensures
        found == first_wire(wires@, *query),
{
    let mut i: usize = 0;
    assert(wires@.skip(0) =~= wires@);
    while i < wires.len()
        invariant
            i <= wires.len(),
            first_wire(wires@, *query) == first_wire(wires@.skip(i as int), *query),
        decreases wires.len() - i,
    {
        if wire_feeds_exec(&wires[i], query) {
            return Some(copy_wire(&wires[i]));
        }
        assert(wires@.skip(i as int).drop_first() =~= wires@.skip(i + 1));
        i = i + 1;
    }
    None
}

/// The wire occupying the input under the pointer on a card of the given kind.
pub open spec fn occupied_wire(kind: GraphNodeTarget, hit: InputHit, wires: Seq<GraphWire>) -> Option<GraphWire> {
    match kind {
        GraphNodeTarget::Local(node) => if hit.image_input {
            first_wire(wires, WireQuery::LocalInto(Some(node)))
        } else {
            None
        },
        GraphNodeTarget::Shared(node) => {
            let named = match hit.named_image_input {
                Some(name) => first_wire(wires, WireQuery::ImageInto(node, name)),
                None => None,
            };
            if named is Some {
                named
            } else {
                match hit.value_input {
                    Some(name) => first_wire(wires, WireQuery::ValueInto(node, name)),
                    None => None,
                }
            }
        },
        GraphNodeTarget::Value(node) => match hit.value_input {
            Some(name) => first_wire(wires, WireQuery::ValueInto(node, name)),
            None => None,
        },
        GraphNodeTarget::Output => if hit.image_input {
            first_wire(wires, WireQuery::OutputFeed)
        } else {
            None
        },
        GraphNodeTarget::Input => None,
    }
}

/// Card `top` is drawn above every other card.
pub open spec fn is_top_card(cards: Seq<GraphNodeTarget>, z_order: Seq<GraphNodeTarget>, top: int) -> bool {
    &&& 0 <= top < cards.len()
    &&& forall|j: int| 0 <= j < cards.len() && j != top ==> drawn_before(cards, z_order, j, top)
}

/// The wire that occupies the input under the pointer on the topmost card, and the pending
/// wire that picks it up again from its source. Only the card drawn on top is looked at.
pub fn occupied_graph_input(
    cards: &[GraphNodeTarget],
    z_order: &[GraphNodeTarget],
    hit: &InputHit,
    wires: &[GraphWire],
) -> (occupied: Option<(PendingGraphWire, GraphWire)>)
    ensures
        cards.len() == 0 ==> occupied is None,
        cards.len() > 0 ==> exists|top: int|
            #[trigger] is_top_card(cards@, z_order@, top)
                && occupied == match occupied_wire(cards@[top], *hit, wires@) {
                    Some(w) => Some((pending_of(w), w)),
                    None => None::<(PendingGraphWire, GraphWire)>,
                },
{
    let order = graph_card_draw_order(cards, z_order);
    if order.len() == 0 {
        return None;
    }
    let top = order[order.len() - 1];
    proof {
        assert forall|j: int| 0 <= j < cards.len() && j != top implies drawn_before(cards@, z_order@, j, top as int) by {
            assert(order@.contains(j as usize));
            let q = choose|q: int| 0 <= q < order.len() && order@[q] == j as usize;
            assert(q != order.len() - 1);
            assert(drawn_before(cards@, z_order@, order@[q] as int, order@[order.len() - 1] as int));
        }
    }
    assert(is_top_card(cards@, z_order@, top as int));
    let found = match cards[top] {
        GraphNodeTarget::Local(node) => if hit.image_input {
            find_wire(wires, &WireQuery::LocalInto(Some(node)))
        } else {
            None
        },
        GraphNodeTarget::Shared(node) => {
            let named = match &hit.named_image_input {
                Some(name) => find_wire(wires, &WireQuery::ImageInto(node, name.clone())),
                None => None,
            };
            if named.is_some() {
                named
            } else {
                match &hit.value_input {
                    Some(name) => find_wire(wires, &WireQuery::ValueInto(node, name.clone())),
                    None => None,
                }
            }
        },
        GraphNodeTarget::Value(node) => match &hit.value_input {
            Some(name) => find_wire(wires, &WireQuery::ValueInto(node, name.clone())),
            None => None,
        },
        GraphNodeTarget::Output => if hit.image_input {
            find_wire(wires, &WireQuery::OutputFeed)
        } else {
            None
        },
        GraphNodeTarget::Input => None,
    };
    match found {
        Some(wire) => {
            let pending = pending_from_wire(&wire);
            Some((pending, wire))
        },
        None => None,
    }
}

/// The action that dropping a pending wire on a card asks for, if any.
pub open spec fn connect_action_of(
    pending: PendingGraphWire,
    card: GraphNodeTarget,
    hit: InputHit,
    followed_shared: bool,
) -> Option<PipelineGraphAction> {
    match (pending, card) {
        (PendingGraphWire::LocalImage(source), GraphNodeTarget::Local(node)) => if source != Some(node)
            && hit.image_input {
            Some(PipelineGraphAction::ConnectLocalImage { node, source })
        } else {
            None
        },
        (PendingGraphWire::LocalImage(source), GraphNodeTarget::Output) => if !followed_shared
            && hit.image_input {
            Some(PipelineGraphAction::SetLocalOutput { source })
        } else {
            None
        },
        (PendingGraphWire::Image(source), GraphNodeTarget::Shared(node)) => match hit.named_image_input {
            Some(input) => Some(PipelineGraphAction::ConnectImage { node, input, source }),
            None => None,
        },
        (PendingGraphWire::Image(source), GraphNodeTarget::Local(node)) => if followed_shared
            && hit.image_input {
            Some(PipelineGraphAction::ConnectSharedBoundary { source, destination: Some(node) })
        } else {
            None
        },
        (PendingGraphWire::Image(source), GraphNodeTarget::Output) => if hit.image_input {
            Some(
                if followed_shared {
                    PipelineGraphAction::ConnectSharedBoundary { source, destination: None }
                } else {
                    PipelineGraphAction::SetOutput { source }
                },
            )
        } else {
            None
        },
        (PendingGraphWire::Value(source), GraphNodeTarget::Shared(node)) => match hit.value_input {
            Some(input) => Some(PipelineGraphAction::ConnectValue { node, input, source }),
            None => None,
        },
        (PendingGraphWire::Value(source), GraphNodeTarget::Value(node)) => if source != node {
            match hit.value_input {
                Some(input) => Some(PipelineGraphAction::ConnectValue { node, input, source }),
                None => None,
            }
        } else {
            None
        },
        _ => None,
    }
}

/// The action that dropping `pending` on a card of kind `card` asks for. `hit` tells which of
/// the card's inputs is under the pointer; `followed_shared` tells whether the graph shows the
/// shared pipeline of the followed clip.
pub fn graph_connect_action(
    pending: PendingGraphWire,
    card: GraphNodeTarget,
    hit: &InputHit,
    followed_shared: bool,
) -> (action: Option<PipelineGraphAction>)
    ensures
        action == connect_action_of(pending, card, *hit, followed_shared),
{
    match (pending, card) {
        (PendingGraphWire::LocalImage(source), GraphNodeTarget::Local(node)) => if source != Some(node)
            && hit.image_input {
            Some(PipelineGraphAction::ConnectLocalImage { node, source })
        } else {
            None
        },
        (PendingGraphWire::LocalImage(source), GraphNodeTarget::Output) => if !followed_shared
            && hit.image_input {
            Some(PipelineGraphAction::SetLocalOutput { source })
        } else {
            None
        },
        (PendingGraphWire::Image(source), GraphNodeTarget::Shared(node)) => match &hit.named_image_input {
            Some(input) => Some(PipelineGraphAction::ConnectImage { node, input: input.clone(), source }),
            None => None,
        },
        (PendingGraphWire::Image(source), GraphNodeTarget::Local(node)) => if followed_shared
            && hit.image_input {
            Some(PipelineGraphAction::ConnectSharedBoundary { source, destination: Some(node) })
        } else {
            None
        },
        (PendingGraphWire::Image(source), GraphNodeTarget::Output) => if hit.image_input {
            Some(
                if followed_shared {
                    PipelineGraphAction::ConnectSharedBoundary { source, destination: None }
                } else {
                    PipelineGraphAction::SetOutput { source }
                },
            )
        } else {
            None
        },
        (PendingGraphWire::Value(source), GraphNodeTarget::Shared(node)) => match &hit.value_input {
            Some(input) => Some(PipelineGraphAction::ConnectValue { node, input: input.clone(), source }),
            None => None,
        },
        (PendingGraphWire::Value(source), GraphNodeTarget::Value(node)) => if source != node {
            match &hit.value_input {
                Some(input) => Some(PipelineGraphAction::ConnectValue { node, input: input.clone(), source }),
                None => None,
            }
        } else {
            None
        },
        _ => None,
    }
}

/// A connection asked for by dropping a wire always joins the wire's own start to the card it
/// was dropped on: its destination node is that card's node (its output for an output
/// change), its source is where the wire being drawn started, and a named input is the one
/// under the pointer. A value wire dropped on a named value input of a shared node always
/// connects.
pub proof fn lemma_connect_joins_start_to_card(
    pending: PendingGraphWire,
    card: GraphNodeTarget,
    hit: InputHit,
    followed_shared: bool,
)
    ensures
        connect_action_of(pending, card, hit, followed_shared) matches Some(PipelineGraphAction::ConnectValue { node, input, source })
            ==> pending == PendingGraphWire::Value(source) && (card == GraphNodeTarget::Shared(node) || card == GraphNodeTarget::Value(node))
                && hit.value_input == Some(input),
        connect_action_of(pending, card, hit, followed_shared) matches Some(PipelineGraphAction::ConnectImage { node, input, source })
            ==> pending == PendingGraphWire::Image(source) && card == GraphNodeTarget::Shared(node) && hit.named_image_input == Some(input),
        connect_action_of(pending, card, hit, followed_shared) matches Some(PipelineGraphAction::ConnectLocalImage { node, source })
            ==> pending == PendingGraphWire::LocalImage(source) && card == GraphNodeTarget::Local(node) && source != Some(node),
        connect_action_of(pending, card, hit, followed_shared) matches Some(PipelineGraphAction::SetLocalOutput { source })
            ==> pending == PendingGraphWire::LocalImage(source) && card == GraphNodeTarget::Output,
        connect_action_of(pending, card, hit, followed_shared) matches Some(PipelineGraphAction::SetOutput { source })
            ==> pending == PendingGraphWire::Image(source) && card == GraphNodeTarget::Output,
        connect_action_of(pending, card, hit, followed_shared) matches Some(PipelineGraphAction::ConnectSharedBoundary { source, destination })
            ==> pending == PendingGraphWire::Image(source) && followed_shared && match destination {
                Some(n) => card == GraphNodeTarget::Local(n),
                None => card == GraphNodeTarget::Output,
            },
        pending is Value && card is Shared && hit.value_input is Some
            ==> connect_action_of(pending, card, hit, followed_shared) is Some,
{
}

} // verus!
