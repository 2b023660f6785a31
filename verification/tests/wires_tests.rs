use kama_panels::graph::{GraphNodeTarget, GraphWire};
use kama_panels::graph_wires::{
    graph_wires, CardPorts, ImageBinding, InstanceWiring, LocalNodeWiring, PipelineWiring, SharedNodeWiring,
    ValueBinding, ValueNodeWiring,
};

fn card(kind: GraphNodeTarget, images: &[&str], values: &[&str]) -> CardPorts {
    CardPorts {
        kind,
        image_inputs: images.iter().map(|s| s.to_string()).collect(),
        value_inputs: values.iter().map(|s| s.to_string()).collect(),
    }
}

fn pipeline() -> PipelineWiring {
    PipelineWiring {
        is_video: true,
        nodes: vec![SharedNodeWiring {
            id: 1,
            image_inputs: vec![("image".to_string(), ImageBinding::PipelineInput), ("mask".to_string(), ImageBinding::Node(9))],
            inputs: vec![
                ("enabled".to_string(), ValueBinding::Connection(5)),
                ("amount".to_string(), ValueBinding::Connection(5)),
                ("gain".to_string(), ValueBinding::Other),
            ],
        }],
        value_nodes: vec![ValueNodeWiring { id: 5, inputs: vec![("x".to_string(), ValueBinding::Connection(6))] }],
        output: ImageBinding::Node(1),
    }
}

fn cards() -> Vec<CardPorts> {
    vec![
        card(GraphNodeTarget::Input, &[], &[]),
        card(GraphNodeTarget::Shared(1), &["image", "mask"], &["amount"]),
        card(GraphNodeTarget::Value(5), &[], &["x"]),
        card(GraphNodeTarget::Value(6), &[], &[]),
        card(GraphNodeTarget::Local(2), &["image"], &[]),
        card(GraphNodeTarget::Output, &[], &[]),
    ]
}

#[test]
fn wires_of_the_shared_pipeline() {
    let p = pipeline();
    let wires = graph_wires(&cards(), Some(&p), true, false, None);
    assert!(wires == vec![
        GraphWire::Image { source: None, destination: Some(1), input: Some("image".to_string()) },
        GraphWire::Value { source: 5, destination: 1, input: "amount".to_string() },
        GraphWire::Value { source: 6, destination: 5, input: "x".to_string() },
        GraphWire::Image { source: Some(1), destination: None, input: None },
    ]);
}

#[test]
fn wires_of_the_clip_chain() {
    let p = pipeline();
    let instance = InstanceWiring {
        nodes: vec![LocalNodeWiring { id: 2, image: ImageBinding::PipelineInput }, LocalNodeWiring { id: 3, image: ImageBinding::Node(2) }],
        output: ImageBinding::Node(2),
    };
    let wires = graph_wires(&cards(), Some(&p), true, false, Some(&instance));
    assert_eq!(wires.len(), 5);
    assert!(wires[3] == GraphWire::LocalImage { source: None, destination: Some(2) });
    assert!(wires[4] == GraphWire::LocalImage { source: Some(2), destination: None });
    let audio = PipelineWiring { is_video: false, ..pipeline() };
    let wires = graph_wires(&cards(), Some(&audio), true, false, Some(&instance));
    assert!(wires[wires.len() - 1] == GraphWire::Image { source: Some(1), destination: None, input: None });
    let wires = graph_wires(&cards(), None, true, false, Some(&instance));
    assert!(wires == vec![GraphWire::LocalImage { source: Some(2), destination: None }]);
    let wires = graph_wires(&cards(), None, false, false, Some(&instance));
    assert_eq!(wires.len(), 2);
}

#[test]
fn no_wires_without_input_and_output() {
    let p = pipeline();
    let mut c = cards();
    c.pop();
    assert!(graph_wires(&c, Some(&p), true, false, None).is_empty());
}

#[test]
fn pinned_graph_draws_no_clip_chain() {
    let p = pipeline();
    let instance = InstanceWiring {
        nodes: vec![LocalNodeWiring { id: 2, image: ImageBinding::PipelineInput }],
        output: ImageBinding::Node(2),
    };
    let wires = graph_wires(&cards(), Some(&p), true, true, Some(&instance));
    assert!(wires == graph_wires(&cards(), Some(&p), true, false, None));
    assert!(wires.iter().all(|w| !matches!(w, GraphWire::LocalImage { .. })));
}
