//! Which wires the pipeline graph shows, derived from how the pipeline's inputs are bound.
use vstd::prelude::*;

use crate::graph::{card_index, first_index_of, GraphNodeTarget, GraphWire};

verus! {

/// Where an image input takes its picture from.
#[derive(Clone, Copy, Debug, PartialEq, Eq, Structural)]
pub enum ImageBinding {
    Disconnected,
    /// The picture that comes into the pipeline.
    PipelineInput,
    /// The output of the node with this id.
    Node(u64),
}

/// Where a value input takes its value from.
#[derive(Clone, Copy, Debug, PartialEq, Eq, Structural)]
pub enum ValueBinding {
    /// The output of the value node with this id.
    Connection(u64),
    /// A constant, keyframes or anything else that is not a wire.
    Other,
}

/// A node of the shared pipeline: its image inputs and its value inputs, by name, in the
/// node's own order.
#[derive(Clone, Debug)]
pub struct SharedNodeWiring {
    pub id: u64,
    pub image_inputs: Vec<(String, ImageBinding)>,
    pub inputs: Vec<(String, ValueBinding)>,
}

/// A value node of the shared pipeline and its inputs by name.
#[derive(Clone, Debug)]
pub struct ValueNodeWiring {
    pub id: u64,
    pub inputs: Vec<(String, ValueBinding)>,
}

/// The shared pipeline the graph shows.
#[derive(Clone, Debug)]
pub struct PipelineWiring {
    /// The pipeline works on pictures (not on sound).
    pub is_video: bool,
    pub nodes: Vec<SharedNodeWiring>,
    pub value_nodes: Vec<ValueNodeWiring>,
    pub output: ImageBinding,
}

/// A node of the selected clip's own chain and where its picture comes from.
#[derive(Clone, Copy, Debug, PartialEq, Eq, Structural)]
pub struct LocalNodeWiring {
    pub id: u64,
    pub image: ImageBinding,
}

/// The selected clip's own chain of nodes after the shared pipeline.
#[derive(Clone, Debug)]
pub struct InstanceWiring {
    pub nodes: Vec<LocalNodeWiring>,
    pub output: ImageBinding,
}

/// A card of the graph and the names of its image and value inputs, in drawing order.
#[derive(Clone, Debug)]
pub struct CardPorts {
    pub kind: GraphNodeTarget,
    pub image_inputs: Vec<String>,
    pub value_inputs: Vec<String>,
}

/// The kinds of the cards, in order.
pub open spec fn kinds_of(cards: Seq<CardPorts>) -> Seq<GraphNodeTarget> {
    cards.map_values(|c: CardPorts| c.kind)
}

/// The binding of the first image input named `name`, disconnected where there is none.
pub open spec fn image_binding_of(bindings: Seq<(String, ImageBinding)>, name: Seq<char>) -> ImageBinding
    decreases bindings.len(),
{
    if bindings.len() == 0 {
        ImageBinding::Disconnected
    } else if bindings[0].0@ == name {
        bindings[0].1
    } else {
        image_binding_of(bindings.drop_first(), name)
    }
}

/// The binding of the first value input named `name`, if there is one.
pub open spec fn value_binding_of(bindings: Seq<(String, ValueBinding)>, name: Seq<char>) -> Option<ValueBinding>
    decreases bindings.len(),
{
    if bindings.len() == 0 {
        None
    } else if bindings[0].0@ == name {
        Some(bindings[0].1)
    } else {
        value_binding_of(bindings.drop_first(), name)
    }
}

/// Where a wire into an image input starts, if it is drawn: at the pipeline's input where
/// `input_shown`, or at a card of the node it names (a local card where `local`, else a
/// shared one). `Some(None)` stands for the pipeline's input.
pub open spec fn image_source(binding: ImageBinding, input_shown: bool, local: bool, kinds: Seq<GraphNodeTarget>) -> Option<Option<u64>> {
    match binding {
        ImageBinding::Disconnected => None,
        ImageBinding::PipelineInput => if input_shown { Some(None) } else { None },
        ImageBinding::Node(n) => if kinds.contains(if local { GraphNodeTarget::Local(n) } else { GraphNodeTarget::Shared(n) }) {
            Some(Some(n))
        } else {
            None
        },
    }
}

/// Where a wire into a value input starts, if it is drawn: at the card of the value node it
/// names.
pub open spec fn value_source(binding: ValueBinding, kinds: Seq<GraphNodeTarget>) -> Option<u64> {
    match binding {
        ValueBinding::Connection(n) => if kinds.contains(GraphNodeTarget::Value(n)) { Some(n) } else { None },
        ValueBinding::Other => None,
    }
}

/// The wires into the image inputs `names` of shared node `id`.
pub open spec fn image_wires(id: u64, bindings: Seq<(String, ImageBinding)>, names: Seq<String>, kinds: Seq<GraphNodeTarget>) -> Seq<GraphWire>
    decreases names.len(),
{
    if names.len() == 0 {
        Seq::empty()
    } else {
        image_wires(id, bindings, names.drop_last(), kinds) + match image_source(image_binding_of(bindings, names.last()@), true, false, kinds) {
            Some(source) => seq![GraphWire::Image { source, destination: Some(id), input: Some(names.last()) }],
            None => Seq::empty(),
        }
    }
}

/// The wires into the value inputs of shared node `id`, its switch "enabled" left out.
pub open spec fn value_wires(id: u64, inputs: Seq<(String, ValueBinding)>, kinds: Seq<GraphNodeTarget>) -> Seq<GraphWire>
    decreases inputs.len(),
{
    if inputs.len() == 0 {
        Seq::empty()
    } else {
        let last = inputs.last();
        value_wires(id, inputs.drop_last(), kinds) + if last.0@ != "enabled"@ && value_source(last.1, kinds) is Some {
            seq![GraphWire::Value { source: value_source(last.1, kinds)->0, destination: id, input: last.0 }]
        } else {
            Seq::empty()
        }
    }
}

/// The wires into the inputs `names` of value node `id`.
pub open spec fn value_node_input_wires(id: u64, inputs: Seq<(String, ValueBinding)>, names: Seq<String>, kinds: Seq<GraphNodeTarget>) -> Seq<GraphWire>
    decreases names.len(),
{
    if names.len() == 0 {
        Seq::empty()
    } else {
        let source = match value_binding_of(inputs, names.last()@) {
            Some(b) => value_source(b, kinds),
            None => None,
        };
        value_node_input_wires(id, inputs, names.drop_last(), kinds) + match source {
            Some(s) => seq![GraphWire::Value { source: s, destination: id, input: names.last() }],
            None => Seq::empty(),
        }
    }
}

/// The wires into the shared nodes that have a card.
pub open spec fn shared_node_wires(nodes: Seq<SharedNodeWiring>, cards: Seq<CardPorts>) -> Seq<GraphWire>
    decreases nodes.len(),
{
    if nodes.len() == 0 {
        Seq::empty()
    } else {
        let node = nodes.last();
        let kinds = kinds_of(cards);
        shared_node_wires(nodes.drop_last(), cards) + match first_index_of(kinds, GraphNodeTarget::Shared(node.id)) {
            Some(d) => image_wires(node.id, node.image_inputs@, cards[d].image_inputs@, kinds)
                + value_wires(node.id, node.inputs@, kinds),
            None => Seq::empty(),
        }
    }
}

/// The wires into the value nodes that have a card.
pub open spec fn value_node_wires(nodes: Seq<ValueNodeWiring>, cards: Seq<CardPorts>) -> Seq<GraphWire>
    decreases nodes.len(),
{
    if nodes.len() == 0 {
        Seq::empty()
    } else {
        let node = nodes.last();
        let kinds = kinds_of(cards);
        value_node_wires(nodes.drop_last(), cards) + match first_index_of(kinds, GraphNodeTarget::Value(node.id)) {
            Some(d) => value_node_input_wires(node.id, node.inputs@, cards[d].value_inputs@, kinds),
            None => Seq::empty(),
        }
    }
}

/// The wires into the local nodes that have a card.
pub open spec fn local_node_wires(nodes: Seq<LocalNodeWiring>, shared_output: bool, kinds: Seq<GraphNodeTarget>) -> Seq<GraphWire>
    decreases nodes.len(),
{
    if nodes.len() == 0 {
        Seq::empty()
    } else {
        let node = nodes.last();
        local_node_wires(nodes.drop_last(), shared_output, kinds) + if kinds.contains(GraphNodeTarget::Local(node.id)) {
            match image_source(node.image, shared_output, true, kinds) {
                Some(source) => seq![GraphWire::LocalImage { source, destination: Some(node.id) }],
                None => Seq::empty(),
            }
        } else {
            Seq::empty()
        }
    }
}

/// The wires the graph shows, in drawing order. None without both the input and the output
/// card. Then the wires into the shared pipeline's nodes and value nodes; then, where the
/// selected clip's own chain is shown (`instance`, when the graph follows the clip and the
/// pipeline, if any, works on pictures), the wires into its nodes and its output, else the
/// wire into the shared pipeline's output. `pipeline_named` tells whether a pipeline was
/// named at all (pinned, or the followed clip's), whether or not it exists. A graph pinned to
/// a pipeline follows no clip, so it shows no clip's chain.
pub open spec fn graph_wires_of(
    cards: Seq<CardPorts>,
    pipeline: Option<PipelineWiring>,
    pipeline_named: bool,
    pinned: bool,
    instance: Option<InstanceWiring>,
) -> Seq<GraphWire> {
    let kinds = kinds_of(cards);
    if !kinds.contains(GraphNodeTarget::Input) || !kinds.contains(GraphNodeTarget::Output) {
        Seq::empty()
    } else {
        let shared = match pipeline {
            Some(p) => shared_node_wires(p.nodes@, cards) + value_node_wires(p.value_nodes@, cards),
            None => Seq::empty(),
        };
        let shown_instance = match instance {
            Some(i) => if !pinned && (pipeline is None || pipeline->0.is_video) { Some(i) } else { None },
            None => None,
        };
        let shared_output = if !pipeline_named {
            true
        } else {
            match pipeline {
                Some(p) => image_source(p.output, true, false, kinds) is Some,
                None => false,
            }
        };
        shared + match shown_instance {
            Some(i) => local_node_wires(i.nodes@, shared_output, kinds) + match image_source(i.output, shared_output, true, kinds) {
                Some(source) => seq![GraphWire::LocalImage { source, destination: None }],
                None => Seq::empty(),
            },
            None => match pipeline {
                Some(p) => match image_source(p.output, true, false, kinds) {
                    Some(source) => seq![GraphWire::Image { source, destination: None, input: None }],
                    None => Seq::empty(),
                },
                None => Seq::empty(),
            },
        }
    }
}

proof fn lemma_first_index_is(kinds: Seq<GraphNodeTarget>, t: GraphNodeTarget, i: int)
    requires
        0 <= i < kinds.len(),
        kinds[i] == t,
        forall|j: int| 0 <= j < i ==> kinds[j] != t,
    ensures
        first_index_of(kinds, t) == Some(i),
{
    let w = choose|w: int| 0 <= w < kinds.len() && kinds[w] == t && forall|j: int| 0 <= j < w ==> kinds[j] != t;
    assert(exists|w: int| 0 <= w < kinds.len() && kinds[w] == t && forall|j: int| 0 <= j < w ==> kinds[j] != t);
    if w < i {
        assert(kinds[w] != t);
    }
    if i < w {
        assert(kinds[i] != t);
    }
}

proof fn lemma_first_index_none(kinds: Seq<GraphNodeTarget>, t: GraphNodeTarget)
    requires
        forall|j: int| 0 <= j < kinds.len() ==> kinds[j] != t,
    ensures
        first_index_of(kinds, t) is None,
        !kinds.contains(t),
{
}

fn kinds_vec(cards: &[CardPorts]) -> (kinds: Vec<GraphNodeTarget>)
    ensures
        kinds@ == kinds_of(cards@),
{
    let mut kinds: Vec<GraphNodeTarget> = Vec::new();
    let mut i: usize = 0;
    while i < cards.len()
        invariant
            i <= cards.len(),
            kinds@ == kinds_of(cards@.take(i as int)),
        decreases cards.len() - i,
    {
        kinds.push(cards[i].kind);
        assert(kinds_of(cards@.take(i + 1)) =~= kinds_of(cards@.take(i as int)).push(cards@[i as int].kind));
        i = i + 1;
    }
    assert(cards@.take(cards.len() as int) =~= cards@);
    kinds
}

fn has_kind(kinds: &Vec<GraphNodeTarget>, t: GraphNodeTarget) -> (found: bool)
    ensures
        found == kinds@.contains(t),
{
    let found = card_index(kinds.as_slice(), t);
    proof {
        if let Some(i) = found {
            assert(kinds@[i as int] == t);
        }
    }
    found.is_some()
}

fn find_image_binding(bindings: &Vec<(String, ImageBinding)>, name: &String) -> (binding: ImageBinding)
    ensures
        binding == image_binding_of(bindings@, name@),
{
    let mut i: usize = 0;
    assert(bindings@.skip(0) =~= bindings@);
    while i < bindings.len()
        invariant
            i <= bindings.len(),
            image_binding_of(bindings@, name@) == image_binding_of(bindings@.skip(i as int), name@),
        decreases bindings.len() - i,
    {
        if bindings[i].0 == *name {
            return bindings[i].1;
        }
        assert(bindings@.skip(i as int).drop_first() =~= bindings@.skip(i + 1));
        i = i + 1;
    }
    ImageBinding::Disconnected
}

fn find_value_binding(bindings: &Vec<(String, ValueBinding)>, name: &String) -> (binding: Option<ValueBinding>)
    ensures
        binding == value_binding_of(bindings@, name@),
{
    let mut i: usize = 0;
    assert(bindings@.skip(0) =~= bindings@);
    while i < bindings.len()
        invariant
            i <= bindings.len(),
            value_binding_of(bindings@, name@) == value_binding_of(bindings@.skip(i as int), name@),
        decreases bindings.len() - i,
    {
        if bindings[i].0 == *name {
            return Some(bindings[i].1);
        }
        assert(bindings@.skip(i as int).drop_first() =~= bindings@.skip(i + 1));
        i = i + 1;
    }
    None
}

fn source_of_image(binding: ImageBinding, input_shown: bool, local: bool, kinds: &Vec<GraphNodeTarget>) -> (source: Option<Option<u64>>)
    ensures
        source == image_source(binding, input_shown, local, kinds@),
{
    match binding {
        ImageBinding::Disconnected => None,
        ImageBinding::PipelineInput => if input_shown { Some(None) } else { None },
        ImageBinding::Node(n) => {
            let t = if local { GraphNodeTarget::Local(n) } else { GraphNodeTarget::Shared(n) };
            if has_kind(kinds, t) {
                Some(Some(n))
            } else {
                None
            }
        },
    }
}

fn source_of_value(binding: ValueBinding, kinds: &Vec<GraphNodeTarget>) -> (source: Option<u64>)
    ensures
        source == value_source(binding, kinds@),
{
    match binding {
        ValueBinding::Connection(n) => if has_kind(kinds, GraphNodeTarget::Value(n)) { Some(n) } else { None },
        ValueBinding::Other => None,
    }
}

fn push_shared_node_wires(wires: &mut Vec<GraphWire>, node: &SharedNodeWiring, card: &CardPorts, kinds: &Vec<GraphNodeTarget>)
    ensures
        final(wires)@ == old(wires)@ + image_wires(node.id, node.image_inputs@, card.image_inputs@, kinds@)
            + value_wires(node.id, node.inputs@, kinds@),
{
    let names = &card.image_inputs;
    let ghost start = wires@;
    let mut k: usize = 0;
    while k < names.len()
        invariant
            k <= names.len(),
            wires@ == start + image_wires(node.id, node.image_inputs@, names@.take(k as int), kinds@),
        decreases names.len() - k,
    {
        let binding = find_image_binding(&node.image_inputs, &names[k]);
        let source = source_of_image(binding, true, false, kinds);
        proof {
            assert(names@.take(k + 1).drop_last() =~= names@.take(k as int));
            assert(names@.take(k + 1).last() == names@[k as int]);
        }
        let ghost before = wires@;
        if let Some(s) = source {
            wires.push(GraphWire::Image { source: s, destination: Some(node.id), input: Some(names[k].clone()) });
        }
        assert(wires@ =~= start + image_wires(node.id, node.image_inputs@, names@.take(k + 1), kinds@));
        k = k + 1;
    }
    assert(names@.take(names.len() as int) =~= names@);
    let ghost mid = wires@;
    let enabled = String::from_str("enabled");
    let inputs = &node.inputs;
    let mut j: usize = 0;
    while j < inputs.len()
        invariant
            j <= inputs.len(),
            enabled@ == "enabled"@,
            wires@ == mid + value_wires(node.id, inputs@.take(j as int), kinds@),
        decreases inputs.len() - j,
    {
        proof {
            assert(inputs@.take(j + 1).drop_last() =~= inputs@.take(j as int));
            assert(inputs@.take(j + 1).last() == inputs@[j as int]);
        }
        let is_switch = inputs[j].0 == enabled;
        if !is_switch {
            let source = source_of_value(inputs[j].1, kinds);
            if let Some(s) = source {
                wires.push(GraphWire::Value { source: s, destination: node.id, input: inputs[j].0.clone() });
            }
        }
        assert(wires@ =~= mid + value_wires(node.id, inputs@.take(j + 1), kinds@));
        j = j + 1;
    }
    assert(inputs@.take(inputs.len() as int) =~= inputs@);
    assert(wires@ =~= start + image_wires(node.id, node.image_inputs@, card.image_inputs@, kinds@)
        + value_wires(node.id, node.inputs@, kinds@));
}

fn push_value_node_wires(wires: &mut Vec<GraphWire>, node: &ValueNodeWiring, card: &CardPorts, kinds: &Vec<GraphNodeTarget>)
    ensures
        final(wires)@ == old(wires)@ + value_node_input_wires(node.id, node.inputs@, card.value_inputs@, kinds@),
{
    let names = &card.value_inputs;
    let ghost start = wires@;
    let mut k: usize = 0;
    while k < names.len()
        invariant
            k <= names.len(),
            wires@ == start + value_node_input_wires(node.id, node.inputs@, names@.take(k as int), kinds@),
        decreases names.len() - k,
    {
        proof {
            assert(names@.take(k + 1).drop_last() =~= names@.take(k as int));
            assert(names@.take(k + 1).last() == names@[k as int]);
        }
        let binding = find_value_binding(&node.inputs, &names[k]);
        let source = match binding {
            Some(b) => source_of_value(b, kinds),
            None => None,
        };
        if let Some(s) = source {
            wires.push(GraphWire::Value { source: s, destination: node.id, input: names[k].clone() });
        }
        assert(wires@ =~= start + value_node_input_wires(node.id, node.inputs@, names@.take(k + 1), kinds@));
        k = k + 1;
    }
    assert(names@.take(names.len() as int) =~= names@);
}

/// No wire of `wires` belongs to a clip's own chain.
pub open spec fn no_local_image(wires: Seq<GraphWire>) -> bool {
    forall|i: int| 0 <= i < wires.len() ==> !(#[trigger] wires[i] is LocalImage)
}

proof fn lemma_no_local_concat(a: Seq<GraphWire>, b: Seq<GraphWire>)
    requires
        no_local_image(a),
        no_local_image(b),
    ensures
        no_local_image(a + b),
{
    assert forall|i: int| 0 <= i < (a + b).len() implies !(#[trigger] (a + b)[i] is LocalImage) by {
        if i < a.len() {
            assert((a + b)[i] == a[i]);
        } else {
            assert((a + b)[i] == b[i - a.len()]);
        }
    }
}

proof fn lemma_image_wires_not_local(id: u64, bindings: Seq<(String, ImageBinding)>, names: Seq<String>, kinds: Seq<GraphNodeTarget>)
    ensures
        no_local_image(image_wires(id, bindings, names, kinds)),
    decreases names.len(),
{
    if names.len() > 0 {
        lemma_image_wires_not_local(id, bindings, names.drop_last(), kinds);
        let tail = match image_source(image_binding_of(bindings, names.last()@), true, false, kinds) {
            Some(source) => seq![GraphWire::Image { source, destination: Some(id), input: Some(names.last()) }],
            None => Seq::empty(),
        };
        lemma_no_local_concat(image_wires(id, bindings, names.drop_last(), kinds), tail);
    }
}

proof fn lemma_value_wires_not_local(id: u64, inputs: Seq<(String, ValueBinding)>, kinds: Seq<GraphNodeTarget>)
    ensures
        no_local_image(value_wires(id, inputs, kinds)),
    decreases inputs.len(),
{
    if inputs.len() > 0 {
        let last = inputs.last();
        lemma_value_wires_not_local(id, inputs.drop_last(), kinds);
        let tail = if last.0@ != "enabled"@ && value_source(last.1, kinds) is Some {
            seq![GraphWire::Value { source: value_source(last.1, kinds)->0, destination: id, input: last.0 }]
        } else {
            Seq::empty()
        };
        lemma_no_local_concat(value_wires(id, inputs.drop_last(), kinds), tail);
    }
}

proof fn lemma_value_node_input_wires_not_local(id: u64, inputs: Seq<(String, ValueBinding)>, names: Seq<String>, kinds: Seq<GraphNodeTarget>)
    ensures
        no_local_image(value_node_input_wires(id, inputs, names, kinds)),
    decreases names.len(),
{
    if names.len() > 0 {
        lemma_value_node_input_wires_not_local(id, inputs, names.drop_last(), kinds);
        let source = match value_binding_of(inputs, names.last()@) {
            Some(b) => value_source(b, kinds),
            None => None,
        };
        let tail = match source {
            Some(s) => seq![GraphWire::Value { source: s, destination: id, input: names.last() }],
            None => Seq::empty(),
        };
        lemma_no_local_concat(value_node_input_wires(id, inputs, names.drop_last(), kinds), tail);
    }
}

proof fn lemma_shared_node_wires_not_local(nodes: Seq<SharedNodeWiring>, cards: Seq<CardPorts>)
    ensures
        no_local_image(shared_node_wires(nodes, cards)),
    decreases nodes.len(),
{
    if nodes.len() > 0 {
        let node = nodes.last();
        let kinds = kinds_of(cards);
        lemma_shared_node_wires_not_local(nodes.drop_last(), cards);
        let tail = match first_index_of(kinds, GraphNodeTarget::Shared(node.id)) {
            Some(d) => {
                lemma_image_wires_not_local(node.id, node.image_inputs@, cards[d].image_inputs@, kinds);
                lemma_value_wires_not_local(node.id, node.inputs@, kinds);
                lemma_no_local_concat(
                    image_wires(node.id, node.image_inputs@, cards[d].image_inputs@, kinds),
                    value_wires(node.id, node.inputs@, kinds),
                );
                image_wires(node.id, node.image_inputs@, cards[d].image_inputs@, kinds)
                    + value_wires(node.id, node.inputs@, kinds)
            },
            None => Seq::empty(),
        };
        lemma_no_local_concat(shared_node_wires(nodes.drop_last(), cards), tail);
    }
}

proof fn lemma_value_node_wires_not_local(nodes: Seq<ValueNodeWiring>, cards: Seq<CardPorts>)
    ensures
        no_local_image(value_node_wires(nodes, cards)),
    decreases nodes.len(),
{
    if nodes.len() > 0 {
        let node = nodes.last();
        let kinds = kinds_of(cards);
        lemma_value_node_wires_not_local(nodes.drop_last(), cards);
        let tail = match first_index_of(kinds, GraphNodeTarget::Value(node.id)) {
            Some(d) => {
                lemma_value_node_input_wires_not_local(node.id, node.inputs@, cards[d].value_inputs@, kinds);
                value_node_input_wires(node.id, node.inputs@, cards[d].value_inputs@, kinds)
            },
            None => Seq::empty(),
        };
        lemma_no_local_concat(value_node_wires(nodes.drop_last(), cards), tail);
    }
}

/// A graph pinned to a pipeline draws no wire of a clip's own chain, whatever chain it is
/// handed.
pub proof fn lemma_pinned_shows_no_local_image(
    cards: Seq<CardPorts>,
    pipeline: Option<PipelineWiring>,
    pipeline_named: bool,
    instance: Option<InstanceWiring>,
)
    ensures
        no_local_image(graph_wires_of(cards, pipeline, pipeline_named, true, instance)),
{
    let kinds = kinds_of(cards);
    if kinds.contains(GraphNodeTarget::Input) && kinds.contains(GraphNodeTarget::Output) {
        let shared = match pipeline {
            Some(p) => {
                lemma_shared_node_wires_not_local(p.nodes@, cards);
                lemma_value_node_wires_not_local(p.value_nodes@, cards);
                lemma_no_local_concat(shared_node_wires(p.nodes@, cards), value_node_wires(p.value_nodes@, cards));
                shared_node_wires(p.nodes@, cards) + value_node_wires(p.value_nodes@, cards)
            },
            None => Seq::empty(),
        };
        let tail: Seq<GraphWire> = match pipeline {
            Some(p) => match image_source(p.output, true, false, kinds) {
                Some(source) => seq![GraphWire::Image { source, destination: None, input: None }],
                None => Seq::empty(),
            },
            None => Seq::empty(),
        };
        lemma_no_local_concat(shared, tail);
        assert(graph_wires_of(cards, pipeline, pipeline_named, true, instance) == shared + tail);
    }
}

/// The wires the graph shows, in drawing order (see `graph_wires_of`). `instance` is the
/// selected clip's own chain; while the graph is `pinned` to a pipeline it is not shown, and
/// no wire of a clip's own chain is drawn.
pub fn graph_wires(
    cards: &[CardPorts],
    pipeline: Option<&PipelineWiring>,
    pipeline_named: bool,
    pinned: bool,
    instance: Option<&InstanceWiring>,
) -> (wires: Vec<GraphWire>)
    ensures
        wires@ == graph_wires_of(
            cards@,
            match pipeline { Some(p) => Some(*p), None => None },
            pipeline_named,
            pinned,
            match instance { Some(i) => Some(*i), None => None },
        ),
        pinned ==> no_local_image(wires@),
{
    let wires = collect_graph_wires(cards, pipeline, pipeline_named, pinned, instance);
    proof {
        lemma_pinned_shows_no_local_image(
            cards@,
            match pipeline { Some(p) => Some(*p), None => None },
            pipeline_named,
            match instance { Some(i) => Some(*i), None => None },
        );
    }
    wires
}

/// The wires the graph shows, built in drawing order.
fn collect_graph_wires(
    cards: &[CardPorts],
    pipeline: Option<&PipelineWiring>,
    pipeline_named: bool,
    pinned: bool,
    instance: Option<&InstanceWiring>,
) -> (wires: Vec<GraphWire>)
    ensures
        wires@ == graph_wires_of(
            cards@,
            match pipeline { Some(p) => Some(*p), None => None },
            pipeline_named,
            pinned,
            match instance { Some(i) => Some(*i), None => None },
        ),
{
    let kinds = kinds_vec(cards);
    let mut wires: Vec<GraphWire> = Vec::new();
    if !has_kind(&kinds, GraphNodeTarget::Input) || !has_kind(&kinds, GraphNodeTarget::Output) {
        return wires;
    }
    if let Some(p) = pipeline {
        let mut n: usize = 0;
        while n < p.nodes.len()
            invariant
                n <= p.nodes.len(),
                kinds@ == kinds_of(cards@),
                wires@ == shared_node_wires(p.nodes@.take(n as int), cards@),
            decreases p.nodes.len() - n,
        {
            let node = &p.nodes[n];
            let ghost before = wires@;
            proof {
                assert(p.nodes@.take(n + 1).drop_last() =~= p.nodes@.take(n as int));
                assert(p.nodes@.take(n + 1).last() == p.nodes@[n as int]);
            }
            let found = card_index(kinds.as_slice(), GraphNodeTarget::Shared(node.id));
            match found {
                Some(d) => {
                    proof {
                        lemma_first_index_is(kinds@, GraphNodeTarget::Shared(node.id), d as int);
                        assert(kinds@[d as int] == cards@[d as int].kind);
                    }
                    push_shared_node_wires(&mut wires, node, &cards[d], &kinds);
                },
                None => {
                    proof {
                        lemma_first_index_none(kinds@, GraphNodeTarget::Shared(node.id));
                    }
                },
            }
            assert(wires@ =~= shared_node_wires(p.nodes@.take(n + 1), cards@));
            n = n + 1;
        }
        assert(p.nodes@.take(p.nodes.len() as int) =~= p.nodes@);
        let ghost shared = wires@;
        let mut v: usize = 0;
        while v < p.value_nodes.len()
            invariant
                v <= p.value_nodes.len(),
                kinds@ == kinds_of(cards@),
                wires@ == shared + value_node_wires(p.value_nodes@.take(v as int), cards@),
            decreases p.value_nodes.len() - v,
        {
            let node = &p.value_nodes[v];
            proof {
                assert(p.value_nodes@.take(v + 1).drop_last() =~= p.value_nodes@.take(v as int));
                assert(p.value_nodes@.take(v + 1).last() == p.value_nodes@[v as int]);
            }
            let found = card_index(kinds.as_slice(), GraphNodeTarget::Value(node.id));
            match found {
                Some(d) => {
                    proof {
                        lemma_first_index_is(kinds@, GraphNodeTarget::Value(node.id), d as int);
                    }
                    push_value_node_wires(&mut wires, node, &cards[d], &kinds);
                },
                None => {
                    proof {
                        lemma_first_index_none(kinds@, GraphNodeTarget::Value(node.id));
                    }
                },
            }
            assert(wires@ =~= shared + value_node_wires(p.value_nodes@.take(v + 1), cards@));
            v = v + 1;
        }
        assert(p.value_nodes@.take(p.value_nodes.len() as int) =~= p.value_nodes@);
    }
    let ghost shared_part = wires@;
    let shown_instance = match instance {
        Some(i) => if pinned {
            None
        } else {
            match pipeline {
                Some(p) => if p.is_video { Some(i) } else { None },
                None => Some(i),
            }
        },
        None => None,
    };
    let shared_output = if !pipeline_named {
        true
    } else {
        match pipeline {
            Some(p) => source_of_image(p.output, true, false, &kinds).is_some(),
            None => false,
        }
    };
    match shown_instance {
        Some(i) => {
            let mut n: usize = 0;
            while n < i.nodes.len()
                invariant
                    n <= i.nodes.len(),
                    wires@ == shared_part + local_node_wires(i.nodes@.take(n as int), shared_output, kinds@),
                decreases i.nodes.len() - n,
            {
                let node = i.nodes[n];
                proof {
                    assert(i.nodes@.take(n + 1).drop_last() =~= i.nodes@.take(n as int));
                    assert(i.nodes@.take(n + 1).last() == i.nodes@[n as int]);
                }
                if has_kind(&kinds, GraphNodeTarget::Local(node.id)) {
                    let source = source_of_image(node.image, shared_output, true, &kinds);
                    if let Some(s) = source {
                        wires.push(GraphWire::LocalImage { source: s, destination: Some(node.id) });
                    }
                }
                assert(wires@ =~= shared_part + local_node_wires(i.nodes@.take(n + 1), shared_output, kinds@));
                n = n + 1;
            }
            assert(i.nodes@.take(i.nodes.len() as int) =~= i.nodes@);
            let source = source_of_image(i.output, shared_output, true, &kinds);
            if let Some(s) = source {
                wires.push(GraphWire::LocalImage { source: s, destination: None });
            }
        },
        None => {
            if let Some(p) = pipeline {
                let source = source_of_image(p.output, true, false, &kinds);
                if let Some(s) = source {
                    wires.push(GraphWire::Image { source: s, destination: None, input: None });
                }
            }
        },
    }
    wires
}

} // verus!
