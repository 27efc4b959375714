use std::collections::HashMap;
use eldiron::behavior::{BehaviorNode, BehaviorNodeConnector, BehaviorNodeType, GameBehaviorData, NodeValue};
use eldiron::instance::RegionInstance;
use eldiron::pathing::walk_towards;
use eldiron::region::{
    BehaviorInstance, BehaviorInstanceState, BehaviorInstanceType, GameRegionArea, GameRegionData, Item, ItemState,
    LootEntry, PlayerCommunication, RegionData, Sheet, Spell, Spells, TileEntry, WeaponSlot, Weapons,
};
use eldiron::targeted::{find_targeted_action, ActionTarget};
use eldiron::types::{Date, Position, TileData, TileUsage};
use eldiron::utilities::{
    compute_distance, drop_communication, get_instance_position, get_spell_distance, get_weapon_distance, wait_for,
    wait_start,
};
use eldiron::value::Value;

fn tile(usage: TileUsage) -> TileData {
    TileData { tilemap: 1, x_off: 0, y_off: 0, usage }
}

fn floor(w: isize, h: isize) -> Vec<TileEntry> {
    let mut v = vec![];
    for y in 0..h {
        for x in 0..w {
            v.push(TileEntry { x, y, tile: tile(TileUsage::Environment) });
        }
    }
    v
}

fn character(id: u128, pos: Option<Position>) -> BehaviorInstance {
    BehaviorInstance {
        id,
        state: BehaviorInstanceState::Normal,
        name: format!("c{}", id),
        behavior_id: id,
        instance_type: BehaviorInstanceType::NonPlayerCharacter,
        position: pos,
        old_position: None,
        max_transition_time: 0,
        curr_transition_time: 0,
        target_instance_index: None,
        node_values: vec![],
        communication: vec![],
        multi_choice_answer: None,
        multi_choice_data: vec![],
        sleep_cycles: 0,
        regions_send: vec![],
        tile: None,
        alignment: 1,
    }
}

fn sheet() -> Sheet {
    Sheet {
        name: "hero".to_string(),
        weapons: Weapons { slots: vec![] },
        spells: Spells { spells: vec![] },
    }
}

fn region(w: isize, h: isize, chars: Vec<BehaviorInstance>) -> RegionData {
    let n = chars.len();
    RegionData {
        region_data: GameRegionData { id: 1, layer1: floor(w, h), layer2: vec![], layer3: vec![], layer4: vec![], areas: vec![] },
        displacements: vec![],
        character_instances: chars,
        sheets: (0..n).map(|_| sheet()).collect(),
        curr_index: 0,
        loot: vec![],
        pixel_based_movement: false,
        region_area_behavior: vec![],
        curr_action_character_index: None,
        player_uuid_indices: HashMap::new(),
    }
}

#[test]
fn tiles_stack_by_layer() {
    let mut data = region(3, 3, vec![]);
    data.region_data.layer2 = vec![TileEntry { x: 1, y: 1, tile: tile(TileUsage::EnvBlocking) }];
    assert_eq!(data.get_tile_at((1, 1)), vec![tile(TileUsage::Environment), tile(TileUsage::EnvBlocking)]);
    assert_eq!(data.get_tile_at((5, 5)), vec![]);
}

#[test]
fn displacement_replaces_layers() {
    let mut data = region(3, 3, vec![]);
    data.displacements = vec![TileEntry { x: 1, y: 1, tile: tile(TileUsage::Water) }];
    assert_eq!(data.get_tile_at((1, 1)), vec![tile(TileUsage::Water)]);
    assert_eq!(data.region_data.layered_tiles_at((1, 1)), vec![tile(TileUsage::Environment)]);
}

#[test]
fn instance_tiles_with_and_without_displacements() {
    let mut ri = RegionInstance {
        region_data: GameRegionData { id: 1, layer1: floor(2, 2), layer2: vec![], layer3: vec![], layer4: vec![], areas: vec![] },
        region_behavior: vec![],
        behaviors: vec![],
        systems: vec![],
        items: vec![],
        spells: vec![],
        game_data: GameBehaviorData { id: 0, name: String::new(), nodes: vec![], connections: vec![], instances: None },
        displacements: vec![],
        debug_behavior_id: None,
    };
    ri.displacements = vec![TileEntry { x: 0, y: 0, tile: tile(TileUsage::Effect) }];
    assert_eq!(ri.get_tile_at((0, 0)), vec![tile(TileUsage::Effect)]);
    assert_eq!(ri.get_tile_without_displacements_at((0, 0)), vec![tile(TileUsage::Environment)]);
}

#[test]
fn walk_steps_towards_destination() {
    let start = Position::new(1, 0, 0);
    let mut data = region(5, 1, vec![character(1, Some(start))]);
    let r = walk_towards(Some(start), Some(Position::new(1, 4, 0)), false, &mut data);
    assert_eq!(r, BehaviorNodeConnector::Right);
    assert_eq!(data.character_instances[0].position, Some(Position::new(1, 1, 0)));
    assert_eq!(data.character_instances[0].old_position, None);
}

#[test]
fn walk_keeps_old_position_when_animated() {
    let start = Position::new(1, 0, 0);
    let mut data = region(5, 1, vec![character(1, Some(start))]);
    data.pixel_based_movement = true;
    let r = walk_towards(Some(start), Some(Position::new(1, 2, 0)), false, &mut data);
    assert_eq!(r, BehaviorNodeConnector::Right);
    assert_eq!(data.character_instances[0].old_position, Some(start));
}

#[test]
fn walk_at_destination_succeeds() {
    let start = Position::new(1, 2, 0);
    let mut data = region(5, 1, vec![character(1, Some(start))]);
    assert_eq!(walk_towards(Some(start), Some(start), false, &mut data), BehaviorNodeConnector::Success);
}

#[test]
fn walk_around_blocking_tiles_and_characters() {
    let start = Position::new(1, 0, 0);
    let mut data = region(3, 2, vec![character(1, Some(start)), character(2, Some(Position::new(1, 1, 0)))]);
    data.region_data.layer2 = vec![TileEntry { x: 1, y: 1, tile: tile(TileUsage::EnvBlocking) }];
    // The only way to (2, 0) passes (1, 0) or (1, 1): both are taken.
    let r = walk_towards(Some(start), Some(Position::new(1, 2, 0)), false, &mut data);
    assert_eq!(r, BehaviorNodeConnector::Fail);
    assert_eq!(data.character_instances[0].position, Some(start));
}

#[test]
fn walk_around_a_closed_door() {
    let start = Position::new(1, 0, 0);
    let mut data = region(3, 1, vec![character(1, Some(start))]);
    data.loot = vec![LootEntry {
        x: 1,
        y: 0,
        items: vec![Item { id: 5, name: "door".to_string(), state_blocking: true, state: Some(ItemState { state: true }), weapon_distance: 0 }],
    }];
    assert_eq!(walk_towards(Some(start), Some(Position::new(1, 2, 0)), false, &mut data), BehaviorNodeConnector::Fail);
    data.loot[0].items[0].state = Some(ItemState { state: false });
    assert_eq!(walk_towards(Some(start), Some(Position::new(1, 2, 0)), false, &mut data), BehaviorNodeConnector::Right);
}

#[test]
fn walk_without_positions_fails() {
    let mut data = region(3, 1, vec![character(1, None)]);
    assert_eq!(walk_towards(None, Some(Position::new(1, 2, 0)), false, &mut data), BehaviorNodeConnector::Fail);
    assert_eq!(walk_towards(Some(Position::new(1, 0, 0)), None, false, &mut data), BehaviorNodeConnector::Fail);
}

#[test]
fn distance_is_rounded_down() {
    let a = Position::new(1, 0, 0);
    assert_eq!(compute_distance(&a, &Position::new(1, 3, 4)), 5);
    assert_eq!(compute_distance(&a, &Position::new(1, 1, 1)), 1);
    assert_eq!(compute_distance(&a, &Position::new(1, 2, 2)), 2);
    assert_eq!(compute_distance(&a, &Position::new(1, -10, 0)), 10);
}

#[test]
fn distance_is_symmetric_and_zero_to_self() {
    let a = Position::new(1, 5, -3);
    let b = Position::new(1, -7, 8);
    assert_eq!(compute_distance(&a, &b), compute_distance(&b, &a));
    assert_eq!(compute_distance(&a, &a), 0);
}

#[test]
fn distance_matches_single_precision_root() {
    let a = Position::new(1, 0, 0);
    for (x, y) in [(1, 2), (7, 9), (100, 250), (2047, 3000), (4000, 1000)] {
        let b = Position::new(1, x, y);
        let expected = (((x * x + y * y) as f32).sqrt().floor()) as i32;
        assert_eq!(compute_distance(&a, &b), expected);
    }
}

#[test]
fn instance_position_prefers_old_position() {
    let mut c = character(1, Some(Position::new(1, 2, 2)));
    assert_eq!(get_instance_position(0, &vec![c.clone_shallow()]), Some(Position::new(1, 2, 2)));
    c.old_position = Some(Position::new(1, 1, 2));
    assert_eq!(get_instance_position(0, &vec![c]), Some(Position::new(1, 1, 2)));
}

trait CloneShallow {
    fn clone_shallow(&self) -> Self;
}

impl CloneShallow for BehaviorInstance {
    fn clone_shallow(&self) -> Self {
        let mut c = character(self.id, self.position);
        c.old_position = self.old_position;
        c
    }
}

fn talk(player: usize) -> PlayerCommunication {
    PlayerCommunication { player_index: player, npc_index: 1, npc_behavior_id: (1, 2), end_time: Date { day: 0, hours: 0, minutes: 0 } }
}

#[test]
fn dropping_communication_clears_both_sides() {
    let mut data = region(1, 1, vec![character(1, None), character(2, None)]);
    data.character_instances[0].communication = vec![talk(0)];
    data.character_instances[0].multi_choice_answer = Some(9);
    data.character_instances[1].communication = vec![talk(3), talk(0), talk(0)];
    drop_communication(0, 1, &mut data);
    assert!(data.character_instances[0].communication.is_empty());
    assert_eq!(data.character_instances[0].multi_choice_answer, None);
    let left: Vec<usize> = data.character_instances[1].communication.iter().map(|c| c.player_index).collect();
    assert_eq!(left, vec![3, 0]);
}

#[test]
fn dropping_communication_without_one_keeps_npc() {
    let mut data = region(1, 1, vec![character(1, None), character(2, None)]);
    data.character_instances[1].communication = vec![talk(3)];
    drop_communication(0, 1, &mut data);
    assert_eq!(data.character_instances[1].communication.len(), 1);
}

#[test]
fn waiting_holds_until_ticks_pass() {
    let mut data = region(1, 1, vec![character(1, None)]);
    let id = (7, 8);
    wait_start(0, 5, id, &mut data, 100);
    assert!(matches!(data.character_instances[0].node_values[0].value, Value::USize(105)));
    assert!(!wait_for(0, id, &mut data, 100));
    assert!(!wait_for(0, id, &mut data, 105));
    assert_eq!(data.character_instances[0].node_values.len(), 1);
    assert!(wait_for(0, id, &mut data, 106));
    assert!(data.character_instances[0].node_values.is_empty());
}

#[test]
fn waiting_without_start_returns_true() {
    let mut data = region(1, 1, vec![character(1, None)]);
    assert!(wait_for(0, (1, 1), &mut data, 3));
}

#[test]
fn restarting_a_wait_replaces_the_tick() {
    let mut data = region(1, 1, vec![character(1, None)]);
    wait_start(0, 5, (1, 1), &mut data, 0);
    wait_start(0, 2, (2, 2), &mut data, 0);
    wait_start(0, 9, (1, 1), &mut data, 1);
    assert_eq!(data.character_instances[0].node_values.len(), 2);
    assert!(matches!(data.character_instances[0].node_values[0].value, Value::USize(10)));
}

#[test]
fn weapon_distance_is_at_least_one() {
    let mut data = region(1, 1, vec![character(1, None)]);
    let bow = Item { id: 1, name: "bow".to_string(), state_blocking: false, state: None, weapon_distance: 6 };
    let dagger = Item { id: 2, name: "dagger".to_string(), state_blocking: false, state: None, weapon_distance: 0 };
    data.sheets[0].weapons.slots = vec![
        WeaponSlot { slot: "main hand".to_string(), weapon: bow },
        WeaponSlot { slot: "off hand".to_string(), weapon: dagger },
    ];
    assert_eq!(get_weapon_distance("main hand".to_string(), &data), 6);
    assert_eq!(get_weapon_distance("off hand".to_string(), &data), 1);
    assert_eq!(get_weapon_distance("feet".to_string(), &data), 1);
}

#[test]
fn spell_distance_of_known_and_unknown_spells() {
    let mut data = region(1, 1, vec![character(1, None)]);
    data.sheets[0].spells.spells = vec![Spell { name: "Fireball".to_string(), distance: 8 }];
    assert_eq!(get_spell_distance("Fireball".to_string(), &data), 8);
    assert_eq!(get_spell_distance("Frost".to_string(), &data), 3);
}

fn action_node(id: u128, action: &str) -> BehaviorNode {
    BehaviorNode {
        id,
        name: "Action".to_string(),
        behavior_type: BehaviorNodeType::ActionArea,
        values: vec![NodeValue { name: "action".to_string(), value: Value::String(action.to_string()) }],
    }
}

fn tree(id: u128, name: &str) -> BehaviorNode {
    BehaviorNode { id, name: name.to_string(), behavior_type: BehaviorNodeType::BehaviorTree, values: vec![] }
}

#[test]
fn targeted_action_finds_area_node() {
    let me = Position::new(1, 0, 0);
    let mut data = region(3, 1, vec![character(1, Some(me))]);
    data.region_data.areas = vec![GameRegionArea { name: "Well".to_string(), area: vec![(1, 0)], behavior: 50 }];
    data.region_area_behavior = vec![GameBehaviorData { id: 50, name: "Well".to_string(), nodes: vec![action_node(51, "Drink"), action_node(52, "Use")], connections: vec![], instances: None }];
    let r = find_targeted_action("Use".to_string(), Some(Position::new(1, 1, 0)), &vec![], &vec![], &mut data);
    assert_eq!(r, ActionTarget::Area(50, 0, 52));
    assert_eq!(data.curr_action_character_index, Some(0));
}

#[test]
fn targeted_action_finds_item_tree() {
    let me = Position::new(1, 0, 0);
    let mut data = region(3, 1, vec![character(1, Some(me))]);
    data.loot = vec![LootEntry {
        x: 1,
        y: 0,
        items: vec![
            Item { id: 70, name: "rock".to_string(), state_blocking: false, state: None, weapon_distance: 0 },
            Item { id: 71, name: "chest".to_string(), state_blocking: false, state: None, weapon_distance: 0 },
        ],
    }];
    let items = vec![
        GameBehaviorData { id: 70, name: "Rock".to_string(), nodes: vec![tree(1, "Look")], connections: vec![], instances: None },
        GameBehaviorData { id: 71, name: "Chest".to_string(), nodes: vec![tree(2, "Look"), tree(3, "Open")], connections: vec![], instances: None },
    ];
    let r = find_targeted_action("Open".to_string(), Some(Position::new(1, 1, 0)), &items, &vec![], &mut data);
    assert_eq!(r, ActionTarget::Item(0, 1, 71, 3));
    assert_eq!(data.curr_action_character_index, None);
}

#[test]
fn targeted_action_finds_character_tree() {
    let me = Position::new(1, 0, 0);
    let mut data = region(3, 1, vec![character(1, Some(me)), character(2, Some(Position::new(1, 1, 0)))]);
    let behaviors = vec![GameBehaviorData { id: 2, name: "Trader".to_string(), nodes: vec![tree(9, "Talk (P)")], connections: vec![], instances: None }];
    let r = find_targeted_action("Talk".to_string(), Some(Position::new(1, 1, 0)), &vec![], &behaviors, &mut data);
    assert_eq!(r, ActionTarget::Character(1, 2, 9));
    assert_eq!(data.character_instances[0].target_instance_index, Some(1));
}

#[test]
fn targeted_action_without_target_is_nothing() {
    let me = Position::new(1, 0, 0);
    let mut data = region(3, 1, vec![character(1, Some(me))]);
    assert_eq!(find_targeted_action("Talk".to_string(), Some(Position::new(1, 2, 0)), &vec![], &vec![], &mut data), ActionTarget::Nothing);
    assert_eq!(find_targeted_action("Talk".to_string(), None, &vec![], &vec![], &mut data), ActionTarget::Nothing);
}

fn level(id: u128, start: i32, message: &str) -> BehaviorNode {
    BehaviorNode {
        id,
        name: format!("Level {}", id),
        behavior_type: BehaviorNodeType::SkillLevel,
        values: vec![
            NodeValue { name: "start".to_string(), value: Value::Integer(start) },
            NodeValue { name: "message".to_string(), value: Value::String(message.to_string()) },
        ],
    }
}

#[test]
fn level_tree_collects_the_chain() {
    let root = BehaviorNode {
        id: 1,
        name: "Level Tree".to_string(),
        behavior_type: BehaviorNodeType::BehaviorTree,
        values: vec![NodeValue { name: "message".to_string(), value: Value::String("+{} xp".to_string()) }],
    };
    let system = GameBehaviorData {
        id: 10,
        name: "Warrior".to_string(),
        nodes: vec![root, level(2, 0, "Level 1"), level(3, 100, "Level 2")],
        connections: vec![
            (1, BehaviorNodeConnector::Bottom, 2, BehaviorNodeConnector::Top),
            (2, BehaviorNodeConnector::Bottom, 3, BehaviorNodeConnector::Top),
        ],
        instances: None,
    };
    let ri = RegionInstance {
        region_data: GameRegionData { id: 1, layer1: vec![], layer2: vec![], layer3: vec![], layer4: vec![], areas: vec![] },
        region_behavior: vec![],
        behaviors: vec![],
        systems: vec![system],
        items: vec![],
        spells: vec![],
        game_data: GameBehaviorData { id: 0, name: String::new(), nodes: vec![], connections: vec![], instances: None },
        displacements: vec![],
        debug_behavior_id: None,
    };
    let t = ri.set_level_tree("Warrior".to_string());
    assert_eq!(t.levels, vec![(0, "Level 1".to_string(), 2), (100, "Level 2".to_string(), 3)]);
    assert_eq!(t.experience_msg, "+{} xp");
    assert_eq!(t.level_tree_id, Some(1));
    let none = ri.set_level_tree("Mage".to_string());
    assert!(none.levels.is_empty());
    assert_eq!(none.experience_msg, "You gained {} experience.");
    assert_eq!(none.level_tree_id, None);
}

fn single_precision_distance(x: isize, y: isize) -> i32 {
    (((x * x + y * y) as f32).sqrt().floor()) as i32
}

#[test]
fn large_distances_match_single_precision_root() {
    let a = Position::new(1, 0, 0);
    let mut cases: Vec<(isize, isize)> = vec![
        (4096, 0), (4095, 1), (4097, 3), (8191, 8191), (16777215, 0), (16777216, 1), (16777217, 0),
        (46340, 46341), (1 << 20, 1 << 20), (3037000499, 0), (2147483647, 2147483647), (2147483648, 0),
        (3000000000, 10000000), (1234567, 7654321), (99999999, 1),
    ];
    let mut seed: u64 = 0x9e37_79b9_7f4a_7c15;
    for _ in 0..20000 {
        seed ^= seed << 13;
        seed ^= seed >> 7;
        seed ^= seed << 17;
        let bits = (seed % 31) as u32 + 1;
        let x = ((seed >> 8) % (1u64 << bits)) as isize;
        let y = ((seed >> 20) % (1u64 << (bits / 2 + 1))) as isize;
        cases.push((x, y));
        let r = (((seed >> 3) % 3037000499) as isize, 0);
        cases.push(r);
    }
    for k in 1..3037000499isize / 7919 {
        let s = k * 7919;
        cases.push((s, 0));
        cases.push((s - 1, 1));
    }
    for (x, y) in cases {
        let b = Position::new(1, x, y);
        assert_eq!(compute_distance(&a, &b), single_precision_distance(x, y), "{} {}", x, y);
    }
}
