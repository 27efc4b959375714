use vstd::prelude::*;
use crate::types::TileData;
use crate::value::Value;
use crate::region::{GameRegionData, TileEntry, RegionData, BehaviorInstance, BehaviorInstanceState, Sheet, find_tile, layered_tiles, tiles_at};
use crate::utilities::{same_but_instances, same_but_players};
use crate::behavior::{
    BehaviorType, GameBehaviorData, find_value, find_node,
    find_behavior, node_value, value_index, node_index, behavior_index,
};

verus! {

broadcast use vstd::std_specs::hash::group_hash_axioms;

/// The behavior graphs and tiles a region runs with.
pub struct RegionInstance {
    pub region_data: GameRegionData,
    /// The behaviors of the region and its areas.
    pub region_behavior: Vec<GameBehaviorData>,
    /// Character behaviors, by id.
    pub behaviors: Vec<GameBehaviorData>,
    /// Systems, by id.
    pub systems: Vec<GameBehaviorData>,
    /// Item behaviors, by id.
    pub items: Vec<GameBehaviorData>,
    /// Spell behaviors, by id.
    pub spells: Vec<GameBehaviorData>,
    /// The game logic.
    pub game_data: GameBehaviorData,
    /// Tiles that temporarily replace all layers at their coordinate.
    pub displacements: Vec<TileEntry>,
    /// The behavior being debugged, if any.
    pub debug_behavior_id: Option<u128>,
}

/// The behavior of the given kind with the id (the first one with it); the game logic
/// for any id.
pub open spec fn behavior_of(ri: RegionInstance, id: u128, behavior_type: BehaviorType) -> Option<GameBehaviorData> {
    match behavior_type {
        BehaviorType::Regions => find_behavior(ri.region_behavior@, id),
        BehaviorType::Behaviors => find_behavior(ri.behaviors@, id),
        BehaviorType::Systems => find_behavior(ri.systems@, id),
        BehaviorType::Items => find_behavior(ri.items@, id),
        BehaviorType::Spells => find_behavior(ri.spells@, id),
        BehaviorType::GameLogic => Some(ri.game_data),
    }
}

/// Whether new holds the same behaviors as old but for the first one in `bs` with the id,
/// which is replaced by b.
pub open spec fn replaced_in(old: Seq<GameBehaviorData>, new: Seq<GameBehaviorData>, id: u128, b: GameBehaviorData) -> bool {
    exists|k: int| 0 <= k < old.len() && find_behavior(old, id) == Some(old[k])
        && new == old.update(k, b)
}

/// Whether new is old with the behavior of the kind with the id replaced by b.
pub open spec fn replaced(old: RegionInstance, new: RegionInstance, id: u128, behavior_type: BehaviorType, b: GameBehaviorData) -> bool {
    match behavior_type {
        BehaviorType::Regions => new == (RegionInstance { region_behavior: new.region_behavior, ..old })
            && replaced_in(old.region_behavior@, new.region_behavior@, id, b),
        BehaviorType::Behaviors => new == (RegionInstance { behaviors: new.behaviors, ..old })
            && replaced_in(old.behaviors@, new.behaviors@, id, b),
        BehaviorType::Systems => new == (RegionInstance { systems: new.systems, ..old })
            && replaced_in(old.systems@, new.systems@, id, b),
        BehaviorType::Items => new == (RegionInstance { items: new.items, ..old })
            && replaced_in(old.items@, new.items@, id, b),
        BehaviorType::Spells => new == (RegionInstance { spells: new.spells, ..old })
            && replaced_in(old.spells@, new.spells@, id, b),
        BehaviorType::GameLogic => new == (RegionInstance { game_data: b, ..old }),
    }
}

/// The value named `name` of node `node` in the first of the behaviors whose node has it.
pub open spec fn first_node_value(behaviors: Seq<GameBehaviorData>, node: u128, name: Seq<char>) -> Option<Value>
    decreases behaviors.len(),
{
    if behaviors.len() == 0 {
        None
    } else {
        match find_node(behaviors[0].nodes@, node) {
            Some(n) => match find_value(n.values@, name) {
                Some(v) => Some(v),
                None => first_node_value(behaviors.drop_first(), node, name),
            },
            None => first_node_value(behaviors.drop_first(), node, name),
        }
    }
}

/// The value named `name` of a node of the game logic.
pub open spec fn game_node_value(ri: RegionInstance, node: u128, name: Seq<char>) -> Option<Value> {
    match find_node(ri.game_data.nodes@, node) {
        Some(n) => find_value(n.values@, name),
        None => None,
    }
}

/// The value a node lookup of the given kind finds: region behaviors are searched by
/// node alone, the game logic by node, the others by behavior and node.
pub open spec fn instance_node_value(
    ri: RegionInstance,
    id: (u128, u128),
    name: Seq<char>,
    behavior_type: BehaviorType,
) -> Option<Value> {
    match behavior_type {
        BehaviorType::Regions => first_node_value(ri.region_behavior@, id.1, name),
        BehaviorType::Behaviors => node_value(ri.behaviors@, id, name),
        BehaviorType::Systems => node_value(ri.systems@, id, name),
        BehaviorType::Items => node_value(ri.items@, id, name),
        BehaviorType::Spells => node_value(ri.spells@, id, name),
        BehaviorType::GameLogic => game_node_value(ri, id.1, name),
    }
}

/// Finds the value named `name` of node `node` in one behavior.
fn value_in(b: &GameBehaviorData, node: u128, name: &String) -> (r: Option<Value>)
    ensures
        r == (match find_node(b.nodes@, node) {
            Some(n) => find_value(n.values@, name@),
            None => None,
        }),
{
    match node_index(&b.nodes, node) {
        Some(n) => match value_index(&b.nodes[n].values, name) {
            Some(v) => Some(b.nodes[n].values[v].value.clone()),
            None => None,
        },
        None => None,
    }
}

/// Finds the value in the behavior with the id.
fn value_in_behaviors(bs: &Vec<GameBehaviorData>, id: (u128, u128), name: &String) -> (r: Option<Value>)
    ensures
        r == node_value(bs@, id, name@),
{
    match behavior_index(bs, id.0) {
        Some(b) => value_in(&bs[b], id.1, name),
        None => None,
    }
}

/// Retrieves a node value from the behaviors of the given kind.
pub fn get_node_value(id: (u128, u128, &str), data: &RegionInstance, behavior_type: BehaviorType) -> (r: Option<Value>)
    ensures
        r == instance_node_value(*data, (id.0, id.1), id.2@, behavior_type),
{
    let name = String::from_str(id.2);
    match behavior_type {
        BehaviorType::Regions => {
            let bs = &data.region_behavior;
            let mut i: usize = 0;
            assert(bs@.skip(0) =~= bs@);
            while i < bs.len()
                invariant
                    i <= bs.len(),
                    name@ == id.2@,
                    behavior_type == BehaviorType::Regions,
                    bs@ == data.region_behavior@,
                    first_node_value(bs@, id.1, name@) == first_node_value(bs@.skip(i as int), id.1, name@),
                decreases bs.len() - i,
            {
                assert(bs@.skip(i as int).drop_first() =~= bs@.skip(i + 1));
                assert(bs@.skip(i as int)[0] == bs@[i as int]);
                match value_in(&bs[i], id.1, &name) {
                    Some(v) => return Some(v),
                    None => {},
                }
                i = i + 1;
            }
            None
        },
        BehaviorType::Behaviors => value_in_behaviors(&data.behaviors, (id.0, id.1), &name),
        BehaviorType::Systems => value_in_behaviors(&data.systems, (id.0, id.1), &name),
        BehaviorType::Items => value_in_behaviors(&data.items, (id.0, id.1), &name),
        BehaviorType::Spells => value_in_behaviors(&data.spells, (id.0, id.1), &name),
        BehaviorType::GameLogic => value_in(&data.game_data, id.1, &name),
    }
}

impl RegionInstance {
    /// Returns a value of a node of the game logic.
    pub fn get_game_node_value(&self, node_id: u128, node_property: &str) -> (r: Option<Value>)
        ensures
            r == game_node_value(*self, node_id, node_property@),
    {
        let name = String::from_str(node_property);
        value_in(&self.game_data, node_id, &name)
    }

    /// Returns the layered tiles at the given position; a displacement there replaces them.
    pub fn get_tile_at(&self, pos: (isize, isize)) -> (r: Vec<TileData>)
        ensures
            r@ == tiles_at(self.region_data, self.displacements@, pos.0 as int, pos.1 as int),
    {
        match find_tile(&self.displacements, pos.0, pos.1) {
            Some(t) => {
                let mut rc: Vec<TileData> = Vec::new();
                rc.push(t);
                assert(rc@ =~= seq![t]);
                rc
            },
            None => self.region_data.layered_tiles_at(pos),
        }
    }

    /// Returns the layered tiles at the given position, ignoring displacements.
    pub fn get_tile_without_displacements_at(&self, pos: (isize, isize)) -> (r: Vec<TileData>)
        ensures
            r@ == layered_tiles(self.region_data, pos.0 as int, pos.1 as int),
    {
        self.region_data.layered_tiles_at(pos)
    }

    /// Gets the behavior of the given kind with the id; the game logic for any id.
    pub fn get_behavior(&self, id: u128, behavior_type: BehaviorType) -> (r: Option<&GameBehaviorData>)
        ensures
            match r {
                Some(b) => behavior_of(*self, id, behavior_type) == Some(*b),
                None => behavior_of(*self, id, behavior_type) is None,
            },
    {
        match behavior_type {
            BehaviorType::Regions => match behavior_index(&self.region_behavior, id) {
                Some(i) => Some(&self.region_behavior[i]),
                None => None,
            },
            BehaviorType::Behaviors => match behavior_index(&self.behaviors, id) {
                Some(i) => Some(&self.behaviors[i]),
                None => None,
            },
            BehaviorType::Systems => match behavior_index(&self.systems, id) {
                Some(i) => Some(&self.systems[i]),
                None => None,
            },
            BehaviorType::Items => match behavior_index(&self.items, id) {
                Some(i) => Some(&self.items[i]),
                None => None,
            },
            BehaviorType::Spells => match behavior_index(&self.spells, id) {
                Some(i) => Some(&self.spells[i]),
                None => None,
            },
            BehaviorType::GameLogic => Some(&self.game_data),
        }
    }

    /// Gets the behavior of the given kind with the id to change it in place; the game
    /// logic for any id.
    pub fn get_mut_behavior(&mut self, id: u128, behavior_type: BehaviorType) -> (r: Option<&mut GameBehaviorData>)
        ensures
            r is None ==> behavior_of(*old(self), id, behavior_type) is None && *final(self) == *old(self),
            r matches Some(b) ==> behavior_of(*old(self), id, behavior_type) == Some(*b)
                && replaced(*old(self), *final(self), id, behavior_type, *final(b)),
    {
        match behavior_type {
            BehaviorType::Regions => match behavior_index(&self.region_behavior, id) {
                Some(i) => Some(&mut self.region_behavior[i]),
                None => None,
            },
            BehaviorType::Behaviors => match behavior_index(&self.behaviors, id) {
                Some(i) => Some(&mut self.behaviors[i]),
                None => None,
            },
            BehaviorType::Systems => match behavior_index(&self.systems, id) {
                Some(i) => Some(&mut self.systems[i]),
                None => None,
            },
            BehaviorType::Items => match behavior_index(&self.items, id) {
                Some(i) => Some(&mut self.items[i]),
                None => None,
            },
            BehaviorType::Spells => match behavior_index(&self.spells, id) {
                Some(i) => Some(&mut self.spells[i]),
                None => None,
            },
            BehaviorType::GameLogic => Some(&mut self.game_data),
        }
    }

    /// Sets the behavior being debugged.
    pub fn set_debug_behavior_id(&mut self, behavior_id: u128)
        ensures
            *final(self) == (RegionInstance { debug_behavior_id: Some(behavior_id), ..*old(self) }),
    {
        self.debug_behavior_id = Some(behavior_id);
    }
}

} // verus!

verus! {

/// The last behavior named "Player" among the first k.
pub open spec fn player_behavior_of(behaviors: Seq<GameBehaviorData>, k: nat) -> Option<u128>
    decreases k,
{
    if k == 0 {
        None
    } else if behaviors[k - 1].name@ == "Player"@ {
        Some(behaviors[k - 1].id)
    } else {
        player_behavior_of(behaviors, (k - 1) as nat)
    }
}

/// Finds the behavior player instances are made from: the last one named "Player".
pub fn player_behavior_id(behaviors: &Vec<GameBehaviorData>) -> (r: Option<u128>)
    ensures
        r == player_behavior_of(behaviors@, behaviors@.len()),
{
    let player = String::from_str("Player");
    let mut r: Option<u128> = None;
    let mut i: usize = 0;
    while i < behaviors.len()
        invariant
            i <= behaviors.len(),
            player@ == "Player"@,
            r == player_behavior_of(behaviors@, i as nat),
        decreases behaviors.len() - i,
    {
        if behaviors[i].name == player {
            r = Some(behaviors[i].id);
        }
        i = i + 1;
    }
    r
}

/// Finds the index of the first instance with the id, the one a destroyed player leaves.
pub fn instance_index_of(instances: &Vec<BehaviorInstance>, id: u128) -> (r: Option<usize>)
    ensures
        match r {
            Some(i) => i < instances@.len() && instances@[i as int].id == id
                && forall|k: int| 0 <= k < i ==> instances@[k].id != id,
            None => forall|k: int| 0 <= k < instances@.len() ==> instances@[k].id != id,
        },
{
    let mut i: usize = 0;
    while i < instances.len()
        invariant
            i <= instances.len(),
            forall|k: int| 0 <= k < i ==> instances@[k].id != id,
        decreases instances.len() - i,
    {
        if instances[i].id == id {
            return Some(i);
        }
        i = i + 1;
    }
    None
}

/// Purges the instance, voiding it: it is skipped from then on, and its id no longer
/// indexes a player.
pub fn purge_instance(data: &mut RegionData, inst_index: usize)
    requires
        inst_index < old(data).character_instances.len(),
    ensures
        same_but_players(*old(data), *final(data)),
        final(data).sheets == old(data).sheets,
        final(data).character_instances@ == old(data).character_instances@.update(inst_index as int, BehaviorInstance {
            state: BehaviorInstanceState::Purged,
            ..old(data).character_instances@[inst_index as int]
        }),
        final(data).player_uuid_indices@
            == old(data).player_uuid_indices@.remove(old(data).character_instances@[inst_index as int].id),
{
    let mut inst = data.character_instances.remove(inst_index);
    inst.state = BehaviorInstanceState::Purged;
    let id = inst.id;
    data.character_instances.insert(inst_index, inst);
    data.player_uuid_indices.remove(&id);
    assert(data.character_instances@ =~= old(data).character_instances@.update(inst_index as int, inst));
}

/// Destroys the instance of a player: the first instance with its id is purged; without
/// one nothing happens.
pub fn destroy_player_instance(data: &mut RegionData, uuid: u128)
    ensures
        same_but_players(*old(data), *final(data)),
        final(data).sheets == old(data).sheets,
        match first_with_id(old(data).character_instances@, uuid) {
            Some(i) => {
                &&& final(data).character_instances@ == old(data).character_instances@.update(i, BehaviorInstance {
                    state: BehaviorInstanceState::Purged,
                    ..old(data).character_instances@[i]
                })
                &&& final(data).player_uuid_indices@ == old(data).player_uuid_indices@.remove(uuid)
            },
            None => *final(data) == *old(data),
        },
{
    match instance_index_of(&data.character_instances, uuid) {
        Some(i) => {
            proof {
                lemma_first_with_id(old(data).character_instances@, uuid, i as int);
            }
            purge_instance(data, i);
        },
        None => {
            proof {
                lemma_first_with_id_none(old(data).character_instances@, uuid);
            }
        },
    }
}

/// The index of the first instance with the id.
pub open spec fn first_with_id(instances: Seq<BehaviorInstance>, id: u128) -> Option<int> {
    if exists|i: int| 0 <= i < instances.len() && instances[i].id == id {
        Some(choose|i: int| 0 <= i < instances.len() && instances[i].id == id
            && forall|k: int| 0 <= k < i ==> instances[k].id != id)
    } else {
        None
    }
}

proof fn lemma_first_with_id(instances: Seq<BehaviorInstance>, id: u128, i: int)
    requires
        0 <= i < instances.len(),
        instances[i].id == id,
        forall|k: int| 0 <= k < i ==> instances[k].id != id,
    ensures
        first_with_id(instances, id) == Some(i),
{
    assert(instances[i].id == id);
    let c = first_with_id(instances, id)->0;
    assert(0 <= c < instances.len() && instances[c].id == id);
    if c < i {
        assert(instances[c].id != id);
    } else if c > i {
        assert(instances[i].id != id);
    }
}

proof fn lemma_first_with_id_none(instances: Seq<BehaviorInstance>, id: u128)
    requires
        forall|k: int| 0 <= k < instances.len() ==> instances[k].id != id,
    ensures
        first_with_id(instances, id) is None,
{
}

/// Brings a character moved from another region into this one: its instance and sheet
/// are added last, and a player is indexed at its new place.
pub fn transfer_character_into(data: &mut RegionData, instance: BehaviorInstance, sheet: Sheet)
    ensures
        same_but_players(*old(data), *final(data)),
        final(data).character_instances@ == old(data).character_instances@.push(instance),
        final(data).sheets@ == old(data).sheets@.push(sheet),
        final(data).player_uuid_indices@
            == old(data).player_uuid_indices@.insert(instance.id, old(data).character_instances@.len() as usize),
{
    let index = data.character_instances.len();
    data.player_uuid_indices.insert(instance.id, index);
    data.character_instances.push(instance);
    data.sheets.push(sheet);
}

} // verus!
