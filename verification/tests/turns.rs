use std::collections::HashMap;
use eldiron::behavior::{BehaviorNode, BehaviorNodeType, CharacterInstanceData, GameBehaviorData};
use eldiron::region::{BehaviorInstance, BehaviorInstanceState, BehaviorInstanceType, GameRegionArea, GameRegionData, RegionData, TileEntry};
use eldiron::turns::{
    begin_turn, inventory_action, region_handover, screen_changed, sends_update, start_area_pass, take_due_respawns, Respawn,
};
use eldiron::types::{Position, TileData, TileUsage};
use eldiron::setup::{apply_movement_setting, slot_list};

fn node(id: u128, name: &str, t: BehaviorNodeType) -> BehaviorNode {
    BehaviorNode { id, name: name.to_string(), behavior_type: t, values: vec![] }
}

fn behavior(id: u128, name: &str, nodes: Vec<BehaviorNode>) -> GameBehaviorData {
    GameBehaviorData { id, name: name.to_string(), nodes, connections: vec![], instances: None }
}

fn character(id: u128, position: Option<Position>) -> BehaviorInstance {
    BehaviorInstance {
        id,
        state: BehaviorInstanceState::Normal,
        name: String::new(),
        behavior_id: id,
        instance_type: BehaviorInstanceType::Player,
        position,
        old_position: None,
        max_transition_time: 0,
        curr_transition_time: 0,
        target_instance_index: None,
        node_values: vec![],
        communication: vec![],
        multi_choice_answer: None,
        multi_choice_data: vec![],
        sleep_cycles: 0,
        regions_send: vec![],
        tile: None,
        alignment: 1,
    }
}

fn data(chars: Vec<BehaviorInstance>) -> RegionData {
    RegionData {
        region_data: GameRegionData { id: 1, layer1: vec![], layer2: vec![], layer3: vec![], layer4: vec![], areas: vec![] },
        displacements: vec![],
        character_instances: chars,
        sheets: vec![],
        curr_index: 0,
        loot: vec![],
        pixel_based_movement: false,
        region_area_behavior: vec![],
        curr_action_character_index: None,
        player_uuid_indices: HashMap::new(),
    }
}

fn respawn(behavior_id: u128, tick: usize) -> Respawn {
    Respawn {
        behavior_id,
        tick,
        data: CharacterInstanceData { position: Position::new(1, 0, 0), tile: None, name: None, alignment: 1 },
    }
}

#[test]
fn due_respawns_are_taken_in_order() {
    let mut pending = vec![respawn(1, 5), respawn(2, 9), respawn(3, 3), respawn(4, 10)];
    let due = take_due_respawns(&mut pending, 5);
    assert_eq!(due.iter().map(|r| r.behavior_id).collect::<Vec<_>>(), vec![1, 3]);
    assert_eq!(pending.iter().map(|r| r.behavior_id).collect::<Vec<_>>(), vec![2, 4]);
    assert!(take_due_respawns(&mut pending, 8).is_empty());
    assert_eq!(take_due_respawns(&mut pending, 10).len(), 2);
    assert!(pending.is_empty());
}

#[test]
fn sleeping_instances_use_up_a_cycle() {
    let mut c = character(1, None);
    c.sleep_cycles = 2;
    let mut d = data(vec![character(0, None), c]);
    assert!(begin_turn(&mut d, 1));
    assert_eq!(d.curr_index, 1);
    assert_eq!(d.character_instances[1].sleep_cycles, 1);
    assert!(begin_turn(&mut d, 1));
    assert!(!begin_turn(&mut d, 1));
    assert_eq!(d.character_instances[1].sleep_cycles, 0);
    assert!(!begin_turn(&mut d, 0));
    assert_eq!(d.curr_index, 0);
}

#[test]
fn inventory_actions_fall_back_to_the_player() {
    let items = vec![behavior(7, "Torch", vec![node(70, "Use", BehaviorNodeType::BehaviorTree)])];
    let hero = vec![behavior(1, "Hero", vec![node(10, "Drop", BehaviorNodeType::BehaviorTree), node(11, "Use", BehaviorNodeType::BehaviorTree)])];
    let trees = vec![10, 11];
    assert_eq!(inventory_action(&items, 7, &hero, 1, &trees, &"Use".to_string()), (vec![(7, 70)], true));
    assert_eq!(inventory_action(&items, 7, &hero, 1, &trees, &"Drop".to_string()), (vec![(1, 10)], false));
    assert_eq!(inventory_action(&items, 7, &hero, 1, &trees, &"Eat".to_string()), (vec![], false));
}

#[test]
fn area_pass_lists_running_area_nodes() {
    let mut d = data(vec![]);
    d.region_data.areas = vec![
        GameRegionArea { name: "Town".to_string(), area: vec![(0, 0)], behavior: 5 },
        GameRegionArea { name: "Cave".to_string(), area: vec![(1, 1)], behavior: 6 },
    ];
    d.region_area_behavior = vec![
        behavior(5, "Town", vec![node(50, "Enter", BehaviorNodeType::EnterArea), node(51, "Msg", BehaviorNodeType::MessageArea)]),
        behavior(6, "Cave", vec![node(60, "Always", BehaviorNodeType::Always), node(61, "Leave", BehaviorNodeType::LeaveArea)]),
    ];
    let usage = TileData { tilemap: 1, x_off: 0, y_off: 0, usage: TileUsage::Environment };
    d.displacements = vec![TileEntry { x: 0, y: 0, tile: usage }];
    assert_eq!(start_area_pass(&mut d), vec![(1, 0, 50), (1, 1, 60), (1, 1, 61)]);
    assert!(d.displacements.is_empty());
}

#[test]
fn updates_go_to_players_or_the_debugged_instance() {
    assert!(sends_update(BehaviorInstanceType::Player, 3, None));
    assert!(!sends_update(BehaviorInstanceType::Player, 3, Some(4)));
    assert!(sends_update(BehaviorInstanceType::NonPlayerCharacter, 4, Some(4)));
    assert!(!sends_update(BehaviorInstanceType::NonPlayerCharacter, 4, None));
}

#[test]
fn new_screens_are_sent() {
    assert!(screen_changed(None, Some(1)));
    assert!(screen_changed(Some(1), Some(2)));
    assert!(!screen_changed(Some(1), Some(1)));
    assert!(!screen_changed(Some(1), None));
}

#[test]
fn regions_are_sent_once_and_left_characters_move() {
    let mut d = data(vec![character(1, Some(Position::new(1, 2, 2))), character(2, Some(Position::new(8, 0, 0))), character(3, None)]);
    let first = region_handover(&mut d, 0, false);
    assert!(first.send_region && first.transfer_to.is_none());
    assert_eq!(d.character_instances[0].regions_send, vec![1]);
    let second = region_handover(&mut d, 0, false);
    assert!(!second.send_region && second.transfer_to.is_none());
    let debugged = region_handover(&mut d, 0, true);
    assert!(debugged.send_region);
    assert_eq!(d.character_instances[0].regions_send, vec![1]);
    let moved = region_handover(&mut d, 1, false);
    assert_eq!(moved.transfer_to, Some(8));
    assert!(!moved.send_region);
    let nowhere = region_handover(&mut d, 2, true);
    assert!(nowhere.transfer_to.is_none() && !nowhere.send_region);
}

#[test]
fn tile_movement_switches_off_animation() {
    let mut d = data(vec![]);
    d.pixel_based_movement = true;
    apply_movement_setting(&mut d, Some("Pixel".to_string()));
    assert!(d.pixel_based_movement);
    apply_movement_setting(&mut d, None);
    assert!(d.pixel_based_movement);
    apply_movement_setting(&mut d, Some("TILE".to_string()));
    assert!(!d.pixel_based_movement);
}

#[test]
fn slot_settings_list_lowercase_trimmed_names() {
    assert_eq!(slot_list(&"Head, Chest ,LEGS".to_string()), vec!["head", "chest", "legs"]);
    assert_eq!(slot_list(&"main hand,,Off Hand ".to_string()), vec!["main hand", "", "off hand"]);
    assert_eq!(slot_list(&"".to_string()), vec![""]);
    assert_eq!(slot_list(&"Ärmel".to_string()), vec!["ärmel"]);
}
