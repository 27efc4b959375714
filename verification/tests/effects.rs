use eldiron::fx::{MaterialFXNode, MaterialFXNodeRole, MaterialFXObject, ModelFXColor, ModelFXTerminal, ModelFXTerminalRole, RegionFXNode, RegionFXNodeRole};

fn names(ts: Vec<eldiron::fx::NodeTerminal>) -> Vec<(String, String)> {
    ts.into_iter().map(|t| (t.name, t.role)).collect()
}

#[test]
fn material_node_names_and_terminals() {
    let brick = MaterialFXNode::new(MaterialFXNodeRole::Brick);
    assert_eq!(brick.name(), "Bricks");
    assert_eq!(names(brick.inputs()), vec![("in".to_string(), "Input".to_string()), ("displace".to_string(), "Displace".to_string())]);
    assert_eq!(names(brick.outputs()), vec![("brick".to_string(), "Brick".to_string()), ("mortar".to_string(), "Mortar".to_string())]);
    let uv = MaterialFXNode::new(MaterialFXNodeRole::UVSplitter);
    assert_eq!(uv.outputs().len(), 4);
    assert!(MaterialFXNode::new(MaterialFXNodeRole::Geometry).inputs().is_empty());
}

#[test]
fn material_node_flags() {
    let g = MaterialFXNode::new(MaterialFXNodeRole::Geometry);
    assert!(g.supports_preview && g.preview_is_open && !g.resolve_branches);
    let m = MaterialFXNode::new(MaterialFXNodeRole::MaterialMixer);
    assert!(!m.supports_preview && m.resolve_branches);
    assert_eq!(m.position, (10, 5));
}

#[test]
fn material_library_and_lookup_by_name() {
    let all = MaterialFXNode::nodes();
    assert_eq!(all.len(), 11);
    assert_eq!(all[8].role, MaterialFXNodeRole::Distance);
    assert_eq!(MaterialFXNode::new_from_name("Box Subdivision".to_string()).role, MaterialFXNodeRole::BoxSubdivision);
    assert_eq!(MaterialFXNode::new_from_name("nothing".to_string()).role, MaterialFXNodeRole::Geometry);
}

#[test]
fn material_connections() {
    let mut m = MaterialFXObject::new();
    assert_eq!(m.name, "New Material");
    m.nodes = vec![MaterialFXNode::new(MaterialFXNodeRole::Noise2D), MaterialFXNode::new(MaterialFXNodeRole::Geometry)];
    m.connections = vec![(1, 0, 0, 0), (1, 2, 0, 1)];
    assert_eq!(m.find_connected_input_node(1, 0), Some((0, 0)));
    assert_eq!(m.find_connected_input_node(1, 1), None);
    assert_eq!(m.find_connected_output_node(0, 1), Some(1));
    assert!(m.has_displacement());
    m.connections.pop();
    assert!(!m.has_displacement());
}

#[test]
fn connections_compare_truncated_indices() {
    let mut m = MaterialFXObject::new();
    m.connections = vec![(1, 2, 3, 4)];
    assert_eq!(m.find_connected_input_node(65537, 258), Some((3, 4)));
}

#[test]
fn region_fx_nodes() {
    let cam = RegionFXNode::new(RegionFXNodeRole::TopDownIsoCamera);
    assert!(cam.is_camera());
    assert_eq!(cam.name(), "Top Down Iso Camera");
    assert!(cam.inputs().is_empty());
    let r = RegionFXNode::new(RegionFXNodeRole::Renderer);
    assert!(!r.is_camera());
    assert_eq!(names(r.outputs()), vec![("2D FX".to_string(), "2D FX".to_string()), ("3D FX".to_string(), "3D FX".to_string())]);
    assert_eq!(RegionFXNode::nodes().len(), 4);
    assert_eq!(RegionFXNode::new_from_name("Saturation".to_string()).role, RegionFXNodeRole::Saturation);
    assert_eq!(RegionFXNode::new_from_name("Blur".to_string()).role, RegionFXNodeRole::Renderer);
}

#[test]
fn model_terminal_colors() {
    let t = ModelFXTerminal::new(ModelFXTerminalRole::Face, 2);
    assert_eq!(t.color.color(), "#2c34d6");
    let ModelFXColor::Color(c) = ModelFXColor::create(0);
    assert_eq!(c, "#cf0000");
    let ModelFXColor::Color(c) = ModelFXColor::create(200);
    assert_eq!(c, "#d1d1d1");
}

#[test]
fn material_trails_follow_connections() {
    let mut m = MaterialFXObject::new();
    assert_eq!(m.trail_start(), None);
    assert_eq!(m.displacement_node(), None);
    m.nodes = vec![
        MaterialFXNode::new(MaterialFXNodeRole::Noise2D),
        MaterialFXNode::new(MaterialFXNodeRole::Geometry),
        MaterialFXNode::new(MaterialFXNodeRole::Geometry),
        MaterialFXNode::new(MaterialFXNodeRole::Noise2D),
    ];
    m.connections = vec![(1, 0, 0, 0), (1, 0, 3, 0), (2, 2, 3, 1), (0, 0, 3, 0)];
    assert_eq!(m.trail_start(), Some(1));
    assert_eq!(m.displacement_node(), None);
    assert!(m.has_displacement());
    assert_eq!(m.trail_connections(1, 0), vec![(0, 0), (3, 0)]);
    assert_eq!(m.next_on_trail(1, 0, 1), Some(3));
    assert_eq!(m.next_on_trail(1, 0, 0), Some(0));
    assert_eq!(m.next_on_trail(1, 0, 2), None);
    assert_eq!(m.next_on_trail(0, 0, 7), Some(3));
    assert_eq!(m.next_on_trail(3, 0, 0), None);
    m.connections.push((1, 2, 0, 2));
    assert_eq!(m.displacement_node(), Some(0));
}
