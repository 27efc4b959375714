use eldiron::turns::{create_behavior_instance, create_due_respawns, create_player_instance, leave_region, make_player, Respawn};
use std::collections::HashMap;
use eldiron::behavior::{BehaviorNode, BehaviorNodeConnector, BehaviorNodeType, CharacterInstanceData, GameBehaviorData, NodeValue};
use eldiron::instance::{destroy_player_instance, instance_index_of, player_behavior_id, purge_instance, transfer_character_into};
use eldiron::creation::{behavior_defaults, game_instance_trees, game_startup_trees, instances_to_create, skill_trees, system_startup_trees};
use eldiron::region::{
    BehaviorInstance, BehaviorInstanceState, BehaviorInstanceType, GameRegionData, PlayerCommunication, RegionData, Sheet,
    Spells, Weapons,
};
use eldiron::ticking::{
    action_tree, advance_transition, answer_multi_choice, end_conversation, expire_communication, instance_acts,
    item_action_trees, npc_trees, spell_cast_tree,
};
use eldiron::types::{Date, Position, TileId};
use eldiron::value::Value;

fn value(name: &str, v: Value) -> NodeValue {
    NodeValue { name: name.to_string(), value: v }
}

fn node(id: u128, name: &str, t: BehaviorNodeType, values: Vec<NodeValue>) -> BehaviorNode {
    BehaviorNode { id, name: name.to_string(), behavior_type: t, values }
}

fn orc() -> GameBehaviorData {
    GameBehaviorData {
        id: 1,
        name: "Orc".to_string(),
        nodes: vec![
            node(10, "Startup", BehaviorNodeType::BehaviorTree, vec![value("execute", Value::Integer(1))]),
            node(11, "Patrol", BehaviorNodeType::BehaviorTree, vec![value("execute", Value::Integer(0))]),
            node(12, "Attack", BehaviorNodeType::BehaviorTree, vec![value("execute", Value::Integer(2))]),
            node(13, "Orc", BehaviorNodeType::BehaviorType, vec![
                value("position", Value::Position(Position::new(5, 1, 2))),
                value("tile", Value::TileId(TileId::new(3, 4, 5))),
                value("settings", Value::String("race = \"Orc\"".to_string())),
                value("alignment", Value::Integer(2)),
            ]),
        ],
        connections: vec![
            (10, BehaviorNodeConnector::Bottom, 20, BehaviorNodeConnector::Top),
            (11, BehaviorNodeConnector::Bottom, 21, BehaviorNodeConnector::Top),
            (11, BehaviorNodeConnector::Bottom1, 22, BehaviorNodeConnector::Top),
        ],
        instances: Some(vec![
            CharacterInstanceData { position: Position::new(5, 7, 7), tile: None, name: None, alignment: 0 },
            CharacterInstanceData { position: Position::new(6, 1, 1), tile: None, name: Some("Far".to_string()), alignment: 0 },
        ]),
    }
}

#[test]
fn behavior_defaults_collect_trees_and_settings() {
    let d = behavior_defaults(&orc());
    assert_eq!(d.startup_trees, vec![10]);
    assert_eq!(d.always_trees, vec![11, 11]);
    assert_eq!(d.position, Some(Position::new(5, 1, 2)));
    assert_eq!(d.tile, Some(TileId::new(3, 4, 5)));
    assert_eq!(d.settings, vec!["race = \"Orc\"".to_string()]);
    assert_eq!(d.alignment, -1);
}

#[test]
fn instances_in_the_region_are_created() {
    let b = orc();
    let d = behavior_defaults(&b);
    let made = instances_to_create(&b, &d, false, None, 5);
    assert_eq!(made.len(), 2);
    assert_eq!(made[0].position, Position::new(5, 1, 2));
    assert_eq!(made[0].name, Some("Orc".to_string()));
    assert_eq!(made[1].position, Position::new(5, 7, 7));
    assert_eq!(made[1].tile, Some(TileId::new(3, 4, 5)));
    assert_eq!(made[1].name, Some("Orc".to_string()));
    let elsewhere = instances_to_create(&b, &d, false, None, 6);
    assert_eq!(elsewhere.len(), 1);
    assert_eq!(elsewhere[0].name, Some("Far".to_string()));
}

#[test]
fn respawn_creates_only_the_given_instance() {
    let b = orc();
    let d = behavior_defaults(&b);
    let data = CharacterInstanceData { position: Position::new(5, 3, 3), tile: None, name: Some("Grunt".to_string()), alignment: 4 };
    let made = instances_to_create(&b, &d, false, Some(data), 5);
    assert_eq!(made.len(), 1);
    assert_eq!(made[0].alignment, 4);
}

#[test]
fn player_is_not_made_for_npcs_only() {
    let mut b = orc();
    b.name = "Player".to_string();
    let d = behavior_defaults(&b);
    assert!(instances_to_create(&b, &d, true, None, 5).is_empty());
    assert_eq!(instances_to_create(&b, &d, false, None, 5).len(), 2);
}

fn skills_system() -> GameBehaviorData {
    GameBehaviorData {
        id: 30,
        name: "SKILLS".to_string(),
        nodes: vec![
            node(1, "Sword", BehaviorNodeType::SkillTree, vec![]),
            node(2, "Novice", BehaviorNodeType::SkillLevel, vec![value("start", Value::Integer(0)), value("message", Value::String("You can fight.".to_string()))]),
            node(3, "Expert", BehaviorNodeType::SkillLevel, vec![value("start", Value::Integer(50))]),
        ],
        connections: vec![
            (1, BehaviorNodeConnector::Bottom, 2, BehaviorNodeConnector::Top),
            (3, BehaviorNodeConnector::Top, 2, BehaviorNodeConnector::Bottom),
        ],
        instances: None,
    }
}

#[test]
fn skill_trees_list_their_levels() {
    let trees = skill_trees(&vec![skills_system()]);
    assert_eq!(trees.len(), 1);
    assert_eq!(trees[0].0, "Sword");
    assert_eq!(trees[0].1, vec![
        (0, "Novice".to_string(), "You can fight.".to_string()),
        (50, "Expert".to_string(), String::new()),
    ]);
}

#[test]
fn class_and_race_startup_trees() {
    let mut warrior = orc();
    warrior.id = 40;
    warrior.name = "Warrior".to_string();
    let systems = vec![warrior, skills_system()];
    let known = vec!["Warrior".to_string(), "Elf".to_string()];
    assert_eq!(system_startup_trees(&systems, &known, &vec!["Warrior".to_string(), "Dwarf".to_string()]), vec![(40, 10)]);
    assert!(system_startup_trees(&systems, &vec![], &vec!["Warrior".to_string()]).is_empty());
}

fn character(id: u128) -> BehaviorInstance {
    BehaviorInstance {
        id,
        state: BehaviorInstanceState::Normal,
        name: String::new(),
        behavior_id: id,
        instance_type: BehaviorInstanceType::NonPlayerCharacter,
        position: Some(Position::new(1, 0, 0)),
        old_position: None,
        max_transition_time: 2,
        curr_transition_time: 0,
        target_instance_index: None,
        node_values: vec![],
        communication: vec![],
        multi_choice_answer: None,
        multi_choice_data: vec![],
        sleep_cycles: 0,
        regions_send: vec![],
        tile: None,
        alignment: 1,
    }
}

fn data(chars: Vec<BehaviorInstance>) -> RegionData {
    RegionData {
        region_data: GameRegionData { id: 1, layer1: vec![], layer2: vec![], layer3: vec![], layer4: vec![], areas: vec![] },
        displacements: vec![],
        character_instances: chars,
        sheets: vec![],
        curr_index: 0,
        loot: vec![],
        pixel_based_movement: true,
        region_area_behavior: vec![],
        curr_action_character_index: None,
        player_uuid_indices: HashMap::new(),
    }
}

#[test]
fn step_animation_ends_after_its_time() {
    let mut c = character(1);
    c.old_position = Some(Position::new(1, 1, 0));
    let mut d = data(vec![c]);
    advance_transition(&mut d, 0);
    assert_eq!(d.character_instances[0].curr_transition_time, 1);
    advance_transition(&mut d, 0);
    assert_eq!(d.character_instances[0].curr_transition_time, 2);
    advance_transition(&mut d, 0);
    assert_eq!(d.character_instances[0].old_position, None);
    assert_eq!(d.character_instances[0].curr_transition_time, 0);
}

fn date(day: u32, hours: u32, minutes: u32) -> Date {
    Date { day, hours, minutes }
}

#[test]
fn conversations_run_out() {
    let mut npc = character(1);
    npc.communication = vec![
        PlayerCommunication { player_index: 1, npc_index: 0, npc_behavior_id: (1, 2), end_time: date(0, 10, 30) },
    ];
    let mut player = character(2);
    player.communication = npc.communication.clone();
    let mut d = data(vec![npc, player]);
    assert!(!expire_communication(&mut d, 0, date(0, 10, 30)));
    assert_eq!(d.character_instances[0].communication.len(), 1);
    assert!(expire_communication(&mut d, 0, date(0, 10, 31)));
    assert!(d.character_instances[0].communication.is_empty());
    assert!(d.character_instances[1].communication.is_empty());
    assert!(expire_communication(&mut d, 0, date(1, 0, 0)));
}

fn actions() -> Vec<GameBehaviorData> {
    vec![GameBehaviorData {
        id: 1,
        name: "Hero".to_string(),
        nodes: vec![
            node(10, "Move", BehaviorNodeType::BehaviorTree, vec![]),
            node(11, "Look", BehaviorNodeType::BehaviorTree, vec![value("execute", Value::Integer(0))]),
            node(12, "Startup", BehaviorNodeType::BehaviorTree, vec![value("execute", Value::Integer(1))]),
        ],
        connections: vec![],
        instances: None,
    }]
}

#[test]
fn npcs_run_their_always_trees() {
    let behaviors = actions();
    assert_eq!(npc_trees(&behaviors, 1, &vec![10, 11, 12], None), vec![10, 11]);
    assert_eq!(npc_trees(&behaviors, 1, &vec![10, 11, 12], Some(12)), vec![12]);
}

#[test]
fn player_actions_find_their_tree() {
    let behaviors = actions();
    assert_eq!(action_tree(&behaviors, 1, &vec![10, 11], &"Look".to_string()), Some(11));
    assert_eq!(action_tree(&behaviors, 1, &vec![10], &"Look".to_string()), None);
    assert_eq!(action_tree(&behaviors, 2, &vec![10, 11], &"Look".to_string()), None);
}

#[test]
fn spells_are_cast_by_their_cast_tree() {
    let spells = vec![
        GameBehaviorData { id: 5, name: "Fireball".to_string(), nodes: vec![node(50, "Cast", BehaviorNodeType::BehaviorTree, vec![])], connections: vec![], instances: None },
        GameBehaviorData { id: 6, name: "Heal".to_string(), nodes: vec![node(60, "cast", BehaviorNodeType::BehaviorTree, vec![])], connections: vec![], instances: None },
    ];
    assert_eq!(spell_cast_tree(&spells, &"FIREBALL".to_string()), Some((5, 50)));
    assert_eq!(spell_cast_tree(&spells, &"heal".to_string()), Some((6, 60)));
    assert_eq!(spell_cast_tree(&spells, &"Frost".to_string()), None);
}

#[test]
fn players_are_made_from_the_last_player_behavior() {
    let mut a = orc();
    a.name = "Player".to_string();
    let mut b = orc();
    b.id = 2;
    b.name = "Player".to_string();
    assert_eq!(player_behavior_id(&vec![a, b]), Some(2));
    assert_eq!(player_behavior_id(&vec![orc()]), None);
}

#[test]
fn destroyed_players_are_purged() {
    let mut d = data(vec![character(1), character(2)]);
    let i = instance_index_of(&d.character_instances, 2);
    assert_eq!(i, Some(1));
    purge_instance(&mut d, 1);
    assert_eq!(d.character_instances[1].state, BehaviorInstanceState::Purged);
    assert_eq!(d.character_instances[0].state, BehaviorInstanceState::Normal);
    assert_eq!(instance_index_of(&d.character_instances, 9), None);
}

#[test]
fn game_instance_is_locked_to_its_startup_tree() {
    let game = GameBehaviorData {
        id: 0,
        name: "Game".to_string(),
        nodes: vec![
            node(1, "Game", BehaviorNodeType::BehaviorType, vec![value("startup", Value::String("Title".to_string()))]),
            node(2, "Title", BehaviorNodeType::BehaviorTree, vec![value("execute", Value::Integer(1))]),
            node(3, "Loop", BehaviorNodeType::BehaviorTree, vec![value("execute", Value::Integer(0))]),
            node(4, "Unused", BehaviorNodeType::BehaviorTree, vec![]),
        ],
        connections: vec![
            (2, BehaviorNodeConnector::Bottom, 5, BehaviorNodeConnector::Top),
            (3, BehaviorNodeConnector::Bottom, 6, BehaviorNodeConnector::Top),
        ],
        instances: None,
    };
    let (trees, locked) = game_instance_trees(&game);
    assert_eq!(trees, vec![2, 3]);
    assert_eq!(locked, Some(2));
    assert_eq!(game_startup_trees(&game, &trees), vec![2]);
}

#[test]
fn only_awake_living_instances_act() {
    assert!(instance_acts(BehaviorInstanceState::Normal, BehaviorInstanceType::NonPlayerCharacter, false));
    assert!(!instance_acts(BehaviorInstanceState::Normal, BehaviorInstanceType::NonPlayerCharacter, true));
    assert!(!instance_acts(BehaviorInstanceState::Purged, BehaviorInstanceType::Player, false));
    assert!(!instance_acts(BehaviorInstanceState::Killed, BehaviorInstanceType::NonPlayerCharacter, false));
    assert!(instance_acts(BehaviorInstanceState::Killed, BehaviorInstanceType::Player, false));
    assert!(instance_acts(BehaviorInstanceState::Hidden, BehaviorInstanceType::GameLogic, false));
}

#[test]
fn item_actions_run_all_trees_named_after_them() {
    let items = vec![GameBehaviorData {
        id: 7,
        name: "Torch".to_string(),
        nodes: vec![
            node(70, "Use", BehaviorNodeType::BehaviorTree, vec![]),
            node(71, "Drop", BehaviorNodeType::BehaviorTree, vec![]),
            node(72, "Use", BehaviorNodeType::BehaviorTree, vec![]),
            node(73, "Use", BehaviorNodeType::Expression, vec![]),
        ],
        connections: vec![],
        instances: None,
    }];
    assert_eq!(item_action_trees(&items, 7, &"Use".to_string()), vec![(7, 70), (7, 72)]);
    assert!(item_action_trees(&items, 7, &"Throw".to_string()).is_empty());
    assert!(item_action_trees(&items, 8, &"Use".to_string()).is_empty());
}

#[test]
fn answers_go_to_the_npc_of_the_conversation() {
    let npc = character(1);
    let mut player = character(2);
    player.target_instance_index = Some(0);
    player.communication = vec![
        PlayerCommunication { player_index: 1, npc_index: 0, npc_behavior_id: (1, 9), end_time: date(0, 10, 30) },
    ];
    let mut d = data(vec![npc, player]);
    assert_eq!(answer_multi_choice(&mut d, 1, 42), Some((1, 9)));
    assert_eq!(d.character_instances[1].multi_choice_answer, Some(42));
    end_conversation(&mut d, 1);
    assert!(d.character_instances[1].communication.is_empty());
    assert_eq!(d.character_instances[1].target_instance_index, None);
    assert_eq!(answer_multi_choice(&mut d, 1, 43), None);
    assert_eq!(d.character_instances[1].multi_choice_answer, Some(42));
}

fn sheet(name: &str) -> Sheet {
    Sheet { name: name.to_string(), weapons: Weapons { slots: vec![] }, spells: Spells { spells: vec![] } }
}

#[test]
fn transferred_players_are_indexed_at_their_new_place() {
    let mut d = data(vec![character(1)]);
    d.sheets = vec![sheet("Orc")];
    let mut hero = character(7);
    hero.instance_type = BehaviorInstanceType::Player;
    transfer_character_into(&mut d, hero, sheet("Hero"));
    assert_eq!(d.character_instances.len(), 2);
    assert_eq!(d.character_instances[1].id, 7);
    assert_eq!(d.sheets[1].name, "Hero");
    assert_eq!(d.player_uuid_indices.get(&7), Some(&1));
    destroy_player_instance(&mut d, 7);
    assert_eq!(d.character_instances[1].state, BehaviorInstanceState::Purged);
    assert!(d.player_uuid_indices.get(&7).is_none());
    destroy_player_instance(&mut d, 99);
    assert_eq!(d.character_instances[0].state, BehaviorInstanceState::Normal);
}

#[test]
fn behaviors_create_their_instances_in_the_region() {
    let behaviors = vec![orc()];
    let mut d = data(vec![character(9)]);
    d.region_data.id = 5;
    d.sheets = vec![sheet("Nine")];
    assert_eq!(create_behavior_instance(&mut d, &behaviors, 1, true, None), 2);
    assert_eq!(d.character_instances.len(), 3);
    assert_eq!(d.character_instances[0].id, 9);
    assert_eq!(d.character_instances[1].position, Some(Position::new(5, 1, 2)));
    assert_eq!(d.character_instances[1].tile, Some(TileId::new(3, 4, 5)));
    assert_eq!(d.character_instances[1].alignment, -1);
    assert_eq!(d.character_instances[2].alignment, 0);
    assert_eq!(d.character_instances[2].position, Some(Position::new(5, 7, 7)));
    assert_eq!(d.character_instances[2].name, "Orc");
    assert_eq!(d.character_instances[2].behavior_id, 1);
    assert_eq!(d.character_instances[2].instance_type, BehaviorInstanceType::NonPlayerCharacter);
    assert_eq!(d.character_instances[2].id >> 76 & 0xf, 4);
    assert_eq!(d.sheets.len(), 3);
    assert_eq!(d.sheets[2].name, "Orc");
    assert_eq!(d.curr_index, 2);
    assert_eq!(create_behavior_instance(&mut d, &behaviors, 77, false, None), 0);
    assert_eq!(d.character_instances.len(), 3);
}

#[test]
fn due_respawns_create_their_characters() {
    let behaviors = vec![orc()];
    let mut d = data(vec![]);
    d.region_data.id = 5;
    let back = CharacterInstanceData { position: Position::new(5, 3, 3), tile: Some(TileId::new(8, 1, 2)), name: None, alignment: -3 };
    let away = CharacterInstanceData { position: Position::new(6, 3, 3), tile: None, name: None, alignment: 0 };
    let later = CharacterInstanceData { position: Position::new(5, 4, 4), tile: None, name: None, alignment: 0 };
    let mut pending = vec![
        Respawn { behavior_id: 1, tick: 3, data: back },
        Respawn { behavior_id: 1, tick: 3, data: away },
        Respawn { behavior_id: 1, tick: 8, data: later },
    ];
    create_due_respawns(&mut d, &behaviors, &mut pending, 5);
    assert_eq!(d.character_instances.len(), 1);
    assert_eq!(d.character_instances[0].position, Some(Position::new(5, 3, 3)));
    assert_eq!(d.character_instances[0].tile, Some(TileId::new(8, 1, 2)));
    assert_eq!(d.character_instances[0].alignment, -3);
    assert_eq!(pending.len(), 1);
    assert_eq!(pending[0].tick, 8);
}

#[test]
fn characters_leaving_the_region_are_purged() {
    let mut gone = character(7);
    gone.position = Some(Position::new(4, 0, 0));
    let mut d = data(vec![character(1), gone]);
    d.player_uuid_indices.insert(7, 1);
    assert_eq!(leave_region(&mut d, 0), None);
    assert_eq!(d.character_instances[0].state, BehaviorInstanceState::Normal);
    assert_eq!(leave_region(&mut d, 1), Some(4));
    assert_eq!(d.character_instances[1].state, BehaviorInstanceState::Purged);
    assert!(d.player_uuid_indices.get(&7).is_none());
}

#[test]
fn new_players_are_made_from_the_player_behavior() {
    let mut hero = orc();
    hero.name = "Player".to_string();
    hero.id = 3;
    hero.instances = None;
    let behaviors = vec![orc(), hero];
    let mut d = data(vec![character(9)]);
    d.region_data.id = 5;
    d.sheets = vec![sheet("Nine")];
    let at = Position::new(5, 6, 6);
    assert_eq!(create_player_instance(&mut d, &behaviors, 77, at), Some(1));
    assert_eq!(d.character_instances.len(), 2);
    assert_eq!(d.character_instances[1].id, 77);
    assert_eq!(d.character_instances[1].instance_type, BehaviorInstanceType::Player);
    assert_eq!(d.character_instances[1].position, Some(at));
    assert_eq!(d.character_instances[1].name, "Player");
    assert_eq!(d.player_uuid_indices.get(&77), Some(&1));
    assert_eq!(d.character_instances[0].id, 9);
    let mut none = data(vec![character(9)]);
    assert_eq!(create_player_instance(&mut none, &vec![orc()], 77, at), None);
    assert_eq!(none.character_instances[0].instance_type, BehaviorInstanceType::NonPlayerCharacter);
}

#[test]
fn an_instance_becomes_the_player() {
    let mut d = data(vec![character(1), character(2)]);
    make_player(&mut d, 1, 40, Position::new(1, 3, 3));
    assert_eq!(d.character_instances[1].id, 40);
    assert_eq!(d.character_instances[1].instance_type, BehaviorInstanceType::Player);
    assert_eq!(d.player_uuid_indices.get(&40), Some(&1));
    assert_eq!(d.character_instances[0].id, 1);
}
