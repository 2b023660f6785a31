use kama_panels::node_names::{friendly_name, host_value_summary, plugin_node_name, HostValueShape};

#[test]
fn friendly_names_of_node_types() {
    assert_eq!(friendly_name("kama.blur_radius"), "Blur Radius");
    assert_eq!(friendly_name("color-grade"), "Color Grade");
    assert_eq!(friendly_name("a.b.c_d"), "C D");
    assert_eq!(friendly_name("plain"), "Plain");
    assert_eq!(friendly_name(""), "");
    assert_eq!(friendly_name("ends."), "");
    assert_eq!(friendly_name("__x"), "  X");
    assert_eq!(friendly_name("Already Up"), "Already Up");
    assert_eq!(friendly_name("straße_ß"), "Straße SS");
    assert_eq!(friendly_name("émile"), "Émile");
}

#[test]
fn summaries_of_host_values() {
    assert_eq!(host_value_summary(None, false, false), "-");
    assert_eq!(host_value_summary(Some(HostValueShape::Points(3)), false, false), "3 points");
    assert_eq!(host_value_summary(Some(HostValueShape::Points(3)), true, false), "3 pointsMonitor");
    assert_eq!(host_value_summary(Some(HostValueShape::Points(0)), true, true), "0 pointsPen");
    assert_eq!(host_value_summary(Some(HostValueShape::Values(12)), true, true), "12 values");
    assert_eq!(host_value_summary(Some(HostValueShape::Text("hi".to_string())), false, false), "hi");
    assert_eq!(host_value_summary(Some(HostValueShape::Bytes(1024)), false, false), "1024 bytes");
    assert_eq!(host_value_summary(Some(HostValueShape::Gpu), false, false), "host value");
}

#[test]
fn node_names_prefer_pipeline_then_registry() {
    assert_eq!(plugin_node_name("kama.pipeline", true, Some("Blur")), "Pipeline");
    assert_eq!(plugin_node_name("kama.blur", false, Some("Gaussian Blur")), "Gaussian Blur");
    assert_eq!(plugin_node_name("kama.blur_radius", false, None), "Blur Radius");
}
