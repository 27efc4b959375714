use eldiron::behavior::{
    get_node_integer, get_node_string, get_node_value2, BehaviorNode, BehaviorNodeConnector, BehaviorNodeType,
    BehaviorType, GameBehaviorData, NodeValue,
};
use eldiron::instance::{get_node_value, RegionInstance};
use eldiron::items::{check_and_create_item_state, get_item_sink, get_item_skill_tree, get_skill_script_id, item_state_settings};
use eldiron::region::GameRegionData;
use eldiron::setup::state_setting;
use eldiron::value::Value;
use eldiron::graph::{connected_nodes, node_plan, sequence_goes_on};

fn value(name: &str, v: Value) -> NodeValue {
    NodeValue { name: name.to_string(), value: v }
}

fn node(id: u128, name: &str, t: BehaviorNodeType, values: Vec<NodeValue>) -> BehaviorNode {
    BehaviorNode { id, name: name.to_string(), behavior_type: t, values }
}

fn behavior(id: u128, name: &str, nodes: Vec<BehaviorNode>) -> GameBehaviorData {
    GameBehaviorData { id, name: name.to_string(), nodes, connections: vec![], instances: None }
}

fn empty_region() -> GameRegionData {
    GameRegionData { id: 1, layer1: vec![], layer2: vec![], layer3: vec![], layer4: vec![], areas: vec![] }
}

fn instance() -> RegionInstance {
    RegionInstance {
        region_data: empty_region(),
        region_behavior: vec![],
        behaviors: vec![],
        systems: vec![],
        items: vec![],
        spells: vec![],
        game_data: behavior(0, "Game", vec![]),
        displacements: vec![],
        debug_behavior_id: None,
    }
}

fn sample_behaviors() -> Vec<GameBehaviorData> {
    vec![
        behavior(1, "Orc", vec![
            node(10, "Attack", BehaviorNodeType::Script, vec![
                value("damage", Value::Integer(12)),
                value("text", Value::String("grr".to_string())),
            ]),
        ]),
        behavior(2, "Elf", vec![node(20, "Talk", BehaviorNodeType::Message, vec![value("text", Value::String("hi".to_string()))])]),
    ]
}

#[test]
fn node_integer_is_found() {
    let nodes = sample_behaviors();
    assert_eq!(get_node_integer((1, 10), "damage", &nodes), Some(12));
}

#[test]
fn node_integer_of_text_is_none() {
    let nodes = sample_behaviors();
    assert_eq!(get_node_integer((1, 10), "text", &nodes), None);
    assert_eq!(get_node_integer((1, 11), "damage", &nodes), None);
    assert_eq!(get_node_integer((3, 10), "damage", &nodes), None);
}

#[test]
fn node_string_is_found() {
    let nodes = sample_behaviors();
    assert_eq!(get_node_string((2, 20), "text", &nodes), Some("hi".to_string()));
    assert_eq!(get_node_string((1, 10), "damage", &nodes), None);
    assert_eq!(get_node_string((1, 10), "missing", &nodes), None);
}

#[test]
fn node_value_is_cloned() {
    let nodes = sample_behaviors();
    assert!(matches!(get_node_value2((1, 10), "damage", &nodes), Some(Value::Integer(12))));
    assert!(get_node_value2((1, 10), "nothing", &nodes).is_none());
}

#[test]
fn node_value_by_behavior_type() {
    let mut ri = instance();
    ri.behaviors = sample_behaviors();
    ri.systems = vec![behavior(5, "Combat", vec![node(50, "Rules", BehaviorNodeType::Script, vec![value("level", Value::Integer(3))])])];
    ri.game_data = behavior(0, "Game", vec![node(70, "Start", BehaviorNodeType::Screen, vec![value("screen", Value::String("main".to_string()))])]);
    assert!(matches!(get_node_value((1, 10, "damage"), &ri, BehaviorType::Behaviors), Some(Value::Integer(12))));
    assert!(matches!(get_node_value((5, 50, "level"), &ri, BehaviorType::Systems), Some(Value::Integer(3))));
    assert!(get_node_value((1, 10, "damage"), &ri, BehaviorType::Systems).is_none());
    assert!(matches!(get_node_value((999, 70, "screen"), &ri, BehaviorType::GameLogic), Some(Value::String(_))));
    assert!(matches!(ri.get_game_node_value(70, "screen"), Some(Value::String(_))));
}

#[test]
fn region_node_values_search_all_region_behaviors() {
    let mut ri = instance();
    ri.region_behavior = vec![
        behavior(1, "Area A", vec![node(10, "Enter", BehaviorNodeType::EnterArea, vec![])]),
        behavior(2, "Area B", vec![node(10, "Enter", BehaviorNodeType::EnterArea, vec![value("text", Value::Integer(5))])]),
    ];
    // The behavior id is not looked at; the first behavior whose node has the value answers.
    assert!(matches!(get_node_value((77, 10, "text"), &ri, BehaviorType::Regions), Some(Value::Integer(5))));
}

#[test]
fn get_behavior_by_type() {
    let mut ri = instance();
    ri.behaviors = sample_behaviors();
    ri.spells = sample_behaviors();
    assert_eq!(ri.get_behavior(2, BehaviorType::Behaviors).map(|b| b.name.clone()), Some("Elf".to_string()));
    assert!(ri.get_behavior(3, BehaviorType::Behaviors).is_none());
    assert_eq!(ri.get_behavior(2, BehaviorType::Spells).map(|b| b.name.clone()), Some("Elf".to_string()));
    assert!(ri.get_behavior(3, BehaviorType::Spells).is_none());
    assert_eq!(ri.get_behavior(1234, BehaviorType::GameLogic).map(|b| b.id), Some(0));
}

#[test]
fn debug_behavior_id_is_set() {
    let mut ri = instance();
    ri.set_debug_behavior_id(42);
    assert_eq!(ri.debug_behavior_id, Some(42));
}

fn door() -> GameBehaviorData {
    let mut b = behavior(100, "Door", vec![
        node(1, "Door", BehaviorNodeType::BehaviorType, vec![value("settings", Value::String("state = true".to_string()))]),
        node(2, "Startup", BehaviorNodeType::BehaviorTree, vec![value("execute", Value::Integer(1))]),
        node(3, "Open", BehaviorNodeType::BehaviorTree, vec![value("execute", Value::Integer(0))]),
        node(4, "Lock", BehaviorNodeType::BehaviorTree, vec![]),
        node(5, "Lockpicking", BehaviorNodeType::SkillTree, vec![]),
        node(6, "Level 1", BehaviorNodeType::SkillLevel, vec![]),
        node(7, "Level 2", BehaviorNodeType::SkillLevel, vec![]),
    ]);
    b.connections = vec![
        (5, BehaviorNodeConnector::Bottom, 6, BehaviorNodeConnector::Top),
        (7, BehaviorNodeConnector::Top, 6, BehaviorNodeConnector::Bottom),
    ];
    b
}

#[test]
fn item_state_trees_with_state_on() {
    let items = vec![door()];
    assert_eq!(item_state_settings(&items, 100), Some("state = true".to_string()));
    assert_eq!(check_and_create_item_state(&items, 100, Some("Lock".to_string())), vec![(100, 2), (100, 4)]);
    assert_eq!(check_and_create_item_state(&items, 100, None), vec![(100, 2)]);
}

fn door_with(settings: &str) -> GameBehaviorData {
    let mut d = door();
    d.nodes[0] = node(1, "Door", BehaviorNodeType::BehaviorType, vec![value("settings", Value::String(settings.to_string()))]);
    d
}

#[test]
fn no_item_state_without_state_setting() {
    let off = vec![door_with("state = false")];
    assert!(check_and_create_item_state(&off, 100, Some("Lock".to_string())).is_empty());
    let none = vec![door_with("// state = true\nblocking = true")];
    assert!(check_and_create_item_state(&none, 100, None).is_empty());
    assert!(check_and_create_item_state(&vec![door()], 101, None).is_empty());
}

#[test]
fn item_state_settings_are_read_line_by_line() {
    use_state("light = true\r\n  state =  true  ", Some(true));
    use_state("state = maybe\nstate = true", None);
    use_state("// state = false\nstate=false", Some(false));
    use_state("stately = true", None);
    use_state("", None);
}

fn use_state(settings: &str, expected: Option<bool>) {
    assert_eq!(state_setting(&settings.to_string()), expected);
}

#[test]
fn item_sink_and_skill_tree() {
    let mut ri = instance();
    ri.items = vec![door()];
    assert_eq!(get_item_sink(&ri, 100), Some("state = true".to_string()));
    assert_eq!(get_item_sink(&ri, 5), None);
    assert_eq!(get_item_skill_tree(&ri, 100), Some("Lockpicking".to_string()));
}

#[test]
fn skill_script_walks_down_the_levels() {
    let mut ri = instance();
    ri.items = vec![door()];
    let first = get_skill_script_id(&ri, "Door".to_string(), "Lockpicking".to_string(), 0);
    assert!(matches!(first, Some((BehaviorType::Items, 100, 6, ref s)) if s == "script"));
    let second = get_skill_script_id(&ri, "Door".to_string(), "Lockpicking".to_string(), 1);
    assert!(matches!(second, Some((BehaviorType::Items, 100, 7, _))));
    // Past the last level the last node reached stays.
    let deep = get_skill_script_id(&ri, "Door".to_string(), "Lockpicking".to_string(), 5);
    assert!(matches!(deep, Some((BehaviorType::Items, 100, 7, _))));
    assert!(get_skill_script_id(&ri, "Door".to_string(), "Lockpicking".to_string(), -1).is_none());
    assert!(get_skill_script_id(&ri, "Chest".to_string(), "Lockpicking".to_string(), 0).is_none());
    assert!(get_skill_script_id(&ri, "Door".to_string(), "Swimming".to_string(), 0).is_none());
}

#[test]
fn trees_run_their_branches() {
    let p = node_plan(BehaviorType::Behaviors, BehaviorNodeType::BehaviorTree);
    assert!(!p.run_call && !p.sequence);
    assert_eq!(p.connectors, vec![
        BehaviorNodeConnector::Bottom1,
        BehaviorNodeConnector::Bottom2,
        BehaviorNodeConnector::Bottom,
        BehaviorNodeConnector::Bottom3,
        BehaviorNodeConnector::Bottom4,
    ]);
    let s = node_plan(BehaviorType::Systems, BehaviorNodeType::Linear);
    assert_eq!(s.connectors.len(), 3);
    let q = node_plan(BehaviorType::Items, BehaviorNodeType::Sequence);
    assert!(q.sequence && q.connectors.len() == 5);
    let c = node_plan(BehaviorType::Behaviors, BehaviorNodeType::Move);
    assert!(c.run_call && c.follow_call && c.connectors.is_empty());
    let screen = node_plan(BehaviorType::GameLogic, BehaviorNodeType::Screen);
    assert!(screen.run_call && !screen.follow_call && screen.connectors.len() == 5);
    let area = node_plan(BehaviorType::Regions, BehaviorNodeType::BehaviorTree);
    assert!(area.run_call && area.follow_call);
}

#[test]
fn connections_are_followed_by_connector_order() {
    let conns = vec![
        (1, BehaviorNodeConnector::Bottom, 3, BehaviorNodeConnector::Top),
        (1, BehaviorNodeConnector::Bottom1, 2, BehaviorNodeConnector::Top),
        (2, BehaviorNodeConnector::Bottom, 4, BehaviorNodeConnector::Top),
        (1, BehaviorNodeConnector::Bottom, 5, BehaviorNodeConnector::Top),
    ];
    let order = vec![BehaviorNodeConnector::Bottom1, BehaviorNodeConnector::Bottom2, BehaviorNodeConnector::Bottom];
    assert_eq!(connected_nodes(&conns, 1, &order), vec![
        (2, BehaviorNodeConnector::Bottom1),
        (3, BehaviorNodeConnector::Bottom),
        (5, BehaviorNodeConnector::Bottom),
    ]);
    assert!(connected_nodes(&conns, 9, &order).is_empty());
}

#[test]
fn sequences_stop_at_failure() {
    assert!(!sequence_goes_on(BehaviorNodeConnector::Fail));
    assert!(!sequence_goes_on(BehaviorNodeConnector::Right));
    assert!(sequence_goes_on(BehaviorNodeConnector::Success));
    assert!(sequence_goes_on(BehaviorNodeConnector::Bottom));
}

#[test]
fn behaviors_change_in_place() {
    let mut ri = instance();
    ri.behaviors = sample_behaviors();
    if let Some(b) = ri.get_mut_behavior(2, BehaviorType::Behaviors) {
        b.name = "High Elf".to_string();
    }
    assert_eq!(ri.behaviors[1].name, "High Elf");
    assert!(ri.get_mut_behavior(2, BehaviorType::Spells).is_none());
    ri.spells = sample_behaviors();
    if let Some(b) = ri.get_mut_behavior(2, BehaviorType::Spells) {
        b.name = "Frost".to_string();
    }
    assert_eq!(ri.spells[1].name, "Frost");
    if let Some(g) = ri.get_mut_behavior(0, BehaviorType::GameLogic) {
        g.name = "Logic".to_string();
    }
    assert_eq!(ri.game_data.name, "Logic");
}
