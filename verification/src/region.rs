use vstd::prelude::*;
use std::collections::HashMap;
use crate::types::{Position, TileData, TileId, Date};
use crate::value::Value;

verus! {

/// A tile placed at a coordinate of a region layer.
#[derive(PartialEq, Eq, Structural, Clone, Copy, Debug)]
pub struct TileEntry {
    pub x: isize,
    pub y: isize,
    pub tile: TileData,
}

/// An area of a region: its cells and the behavior that runs for it.
pub struct GameRegionArea {
    pub name: String,
    pub area: Vec<(isize, isize)>,
    pub behavior: u128,
}

/// The static data of a region: its id, its four tile layers and its areas. Each layer
/// holds at most one tile per coordinate; a lookup takes the first entry at the coordinate.
pub struct GameRegionData {
    pub id: u128,
    pub layer1: Vec<TileEntry>,
    pub layer2: Vec<TileEntry>,
    pub layer3: Vec<TileEntry>,
    pub layer4: Vec<TileEntry>,
    pub areas: Vec<GameRegionArea>,
}

/// The life state of a character instance.
#[derive(PartialEq, Eq, Structural, Clone, Copy, Debug)]
pub enum BehaviorInstanceState {
    Normal,
    Hidden,
    Killed,
    Purged,
}

/// Whether an instance is a non player character, a player or the game logic.
#[derive(PartialEq, Eq, Structural, Clone, Copy, Debug)]
pub enum BehaviorInstanceType {
    NonPlayerCharacter,
    Player,
    GameLogic,
}

/// The state of an item: whether it is switched on (a door closed, a light lit ...).
#[derive(PartialEq, Eq, Structural, Clone, Copy, Debug)]
pub struct ItemState {
    pub state: bool,
}

/// An item lying in the region or held by a character.
pub struct Item {
    pub id: u128,
    pub name: String,
    /// Whether the item blocks movement while its state is on.
    pub state_blocking: bool,
    pub state: Option<ItemState>,
    /// How far a weapon reaches.
    pub weapon_distance: i32,
}

/// The items lying on one tile.
pub struct LootEntry {
    pub x: isize,
    pub y: isize,
    pub items: Vec<Item>,
}

/// An ongoing conversation of a non player character with a player.
#[derive(Clone, Copy, Debug)]
pub struct PlayerCommunication {
    pub player_index: usize,
    pub npc_index: usize,
    pub npc_behavior_id: (u128, u128),
    pub end_time: Date,
}

/// One answer a player can choose in a conversation.
pub struct MultiChoiceData {
    pub id: u128,
    pub header: String,
    pub text: String,
    pub answer: String,
}

/// A value stored by a node for one instance, keyed by (behavior id, node id).
pub struct NodeValueEntry {
    pub id: (u128, u128),
    pub value: Value,
}

/// A running character (or the game logic) inside a region.
pub struct BehaviorInstance {
    pub id: u128,
    pub state: BehaviorInstanceState,
    pub name: String,
    pub behavior_id: u128,
    pub instance_type: BehaviorInstanceType,
    pub position: Option<Position>,
    /// The position before the last step, kept while the step is animated.
    pub old_position: Option<Position>,
    pub max_transition_time: usize,
    pub curr_transition_time: usize,
    pub target_instance_index: Option<usize>,
    /// Per node values; a lookup takes the first entry with the id.
    pub node_values: Vec<NodeValueEntry>,
    pub communication: Vec<PlayerCommunication>,
    pub multi_choice_answer: Option<u128>,
    pub multi_choice_data: Vec<MultiChoiceData>,
    /// The ticks the instance still sleeps through.
    pub sleep_cycles: usize,
    /// The regions whose data its client was sent.
    pub regions_send: Vec<u128>,
    /// The tile the character is drawn with.
    pub tile: Option<TileId>,
    /// Its alignment: positive for the good, negative for the evil.
    pub alignment: i32,
}

/// A weapon in a named slot.
pub struct WeaponSlot {
    pub slot: String,
    pub weapon: Item,
}

/// The weapons a character wields, by slot; a lookup takes the first matching slot.
pub struct Weapons {
    pub slots: Vec<WeaponSlot>,
}

/// A spell a character knows.
pub struct Spell {
    pub name: String,
    pub distance: i32,
}

/// The spells a character knows.
pub struct Spells {
    pub spells: Vec<Spell>,
}

/// The character sheet of an instance.
pub struct Sheet {
    pub name: String,
    pub weapons: Weapons,
    pub spells: Spells,
}

/// The mutable data of a region while it is ticked.
pub struct RegionData {
    pub region_data: GameRegionData,
    /// Tiles that temporarily replace all layers at their coordinate.
    pub displacements: Vec<TileEntry>,
    pub character_instances: Vec<BehaviorInstance>,
    pub sheets: Vec<Sheet>,
    /// The index of the instance being executed.
    pub curr_index: usize,
    pub loot: Vec<LootEntry>,
    /// Whether steps are animated between tiles.
    pub pixel_based_movement: bool,
    /// The behaviors of the region's areas, by area index.
    pub region_area_behavior: Vec<crate::behavior::GameBehaviorData>,
    /// The character whose action an area node is running, if any.
    pub curr_action_character_index: Option<usize>,
    /// The index of each player's instance, by the player's id.
    pub player_uuid_indices: HashMap<u128, usize>,
}

// ---------------------------------------------------------------------------
// Sheet lookups

/// The item in the first slot with the name.
pub open spec fn find_slot(slots: Seq<WeaponSlot>, slot: Seq<char>) -> Option<Item>
    decreases slots.len(),
{
    if slots.len() == 0 {
        None
    } else if slots[0].slot@ == slot {
        Some(slots[0].weapon)
    } else {
        find_slot(slots.drop_first(), slot)
    }
}

/// The first spell with the name.
pub open spec fn find_spell(spells: Seq<Spell>, name: Seq<char>) -> Option<Spell>
    decreases spells.len(),
{
    if spells.len() == 0 {
        None
    } else if spells[0].name@ == name {
        Some(spells[0])
    } else {
        find_spell(spells.drop_first(), name)
    }
}

/// The distance a spell reaches when its name is unknown.
pub const DEFAULT_SPELL_DISTANCE: i32 = 3;

impl Spell {
    /// A spell without a name that reaches the default distance.
    pub fn new() -> (s: Self)
        ensures
            s.name@.len() == 0,
            s.distance == DEFAULT_SPELL_DISTANCE,
    {
        Spell { name: String::new(), distance: DEFAULT_SPELL_DISTANCE }
    }
}

impl Weapons {
    /// Finds the index of the first slot with the name.
    pub fn slot_index(&self, slot: &String) -> (r: Option<usize>)
        ensures
            match r {
                Some(i) => i < self.slots.len() && find_slot(self.slots@, slot@) == Some(self.slots@[i as int].weapon),
                None => find_slot(self.slots@, slot@) is None,
            },
    {
        let mut i: usize = 0;
        assert(self.slots@.skip(0) =~= self.slots@);
        while i < self.slots.len()
            invariant
                i <= self.slots.len(),
                find_slot(self.slots@, slot@) == find_slot(self.slots@.skip(i as int), slot@),
            decreases self.slots.len() - i,
        {
            assert(self.slots@.skip(i as int).drop_first() =~= self.slots@.skip(i + 1));
            if self.slots[i].slot == *slot {
                return Some(i);
            }
            i = i + 1;
        }
        None
    }
}

impl Spells {
    /// Returns the spell with the name; an unnamed spell of the default distance where
    /// there is none.
    pub fn get_spell(&self, name: &String) -> (s: Spell)
        ensures
            match find_spell(self.spells@, name@) {
                Some(sp) => s == sp,
                None => s.name@.len() == 0 && s.distance == DEFAULT_SPELL_DISTANCE,
            },
    {
        let mut i: usize = 0;
        assert(self.spells@.skip(0) =~= self.spells@);
        while i < self.spells.len()
            invariant
                i <= self.spells.len(),
                find_spell(self.spells@, name@) == find_spell(self.spells@.skip(i as int), name@),
            decreases self.spells.len() - i,
        {
            assert(self.spells@.skip(i as int).drop_first() =~= self.spells@.skip(i + 1));
            if self.spells[i].name == *name {
                return Spell { name: self.spells[i].name.clone(), distance: self.spells[i].distance };
            }
            i = i + 1;
        }
        Spell::new()
    }
}

// ---------------------------------------------------------------------------
// Node values of an instance

/// The index of the first entry with the id.
pub open spec fn entry_index(entries: Seq<NodeValueEntry>, id: (u128, u128)) -> Option<int>
    decreases entries.len(),
{
    if entries.len() == 0 {
        None
    } else if entries[0].id == id {
        Some(0)
    } else {
        match entry_index(entries.drop_first(), id) {
            Some(j) => Some(j + 1),
            None => None,
        }
    }
}

/// The entries after storing a value under the id: the first entry with the id gets
/// the value, or a new entry is appended.
pub open spec fn stored(entries: Seq<NodeValueEntry>, id: (u128, u128), v: Value) -> Seq<NodeValueEntry> {
    match entry_index(entries, id) {
        Some(i) => entries.update(i, NodeValueEntry { id, value: v }),
        None => entries.push(NodeValueEntry { id, value: v }),
    }
}

/// Finds the index of the first entry with the id.
pub fn find_entry(entries: &Vec<NodeValueEntry>, id: (u128, u128)) -> (r: Option<usize>)
    ensures
        match r {
            Some(i) => i < entries.len() && entry_index(entries@, id) == Some(i as int),
            None => entry_index(entries@, id) is None,
        },
{
    let mut i: usize = 0;
    assert(entries@.skip(0) =~= entries@);
    while i < entries.len()
        invariant
            i <= entries.len(),
            entry_index(entries@, id) == (match entry_index(entries@.skip(i as int), id) {
                Some(j) => Some(j + i),
                None => None,
            }),
        decreases entries.len() - i,
    {
        assert(entries@.skip(i as int).drop_first() =~= entries@.skip(i + 1));
        if entries[i].id.0 == id.0 && entries[i].id.1 == id.1 {
            return Some(i);
        }
        i = i + 1;
    }
    None
}

/// Stores a value under the id.
pub fn store_entry(entries: &mut Vec<NodeValueEntry>, id: (u128, u128), v: Value)
    ensures
        final(entries)@ == stored(old(entries)@, id, v),
{
    match find_entry(entries, id) {
        Some(i) => entries.set(i, NodeValueEntry { id, value: v }),
        None => entries.push(NodeValueEntry { id, value: v }),
    }
}

// ---------------------------------------------------------------------------
// Tile lookup

/// The tile of the first entry at (x, y).
pub open spec fn layer_tile(layer: Seq<TileEntry>, x: int, y: int) -> Option<TileData>
    decreases layer.len(),
{
    if layer.len() == 0 {
        None
    } else if layer[0].x == x && layer[0].y == y {
        Some(layer[0].tile)
    } else {
        layer_tile(layer.drop_first(), x, y)
    }
}

/// Appends the tile of a lookup, if any.
pub open spec fn push_opt(s: Seq<TileData>, t: Option<TileData>) -> Seq<TileData> {
    match t {
        Some(t) => s.push(t),
        None => s,
    }
}

/// The tiles of the four layers at (x, y), bottom layer first.
pub open spec fn layered_tiles(r: GameRegionData, x: int, y: int) -> Seq<TileData> {
    push_opt(push_opt(push_opt(push_opt(Seq::empty(), layer_tile(r.layer1@, x, y)),
        layer_tile(r.layer2@, x, y)), layer_tile(r.layer3@, x, y)), layer_tile(r.layer4@, x, y))
}

/// The tiles at (x, y): a displacement replaces all layers.
pub open spec fn tiles_at(r: GameRegionData, displacements: Seq<TileEntry>, x: int, y: int) -> Seq<TileData> {
    match layer_tile(displacements, x, y) {
        Some(t) => seq![t],
        None => layered_tiles(r, x, y),
    }
}

/// Looks up the tile at (x, y) in a layer.
pub fn find_tile(layer: &Vec<TileEntry>, x: isize, y: isize) -> (r: Option<TileData>)
    ensures
        r == layer_tile(layer@, x as int, y as int),
{
    let mut i: usize = 0;
    assert(layer@.skip(0) =~= layer@);
    while i < layer.len()
        invariant
            i <= layer.len(),
            layer_tile(layer@, x as int, y as int) == layer_tile(layer@.skip(i as int), x as int, y as int),
        decreases layer.len() - i,
    {
        assert(layer@.skip(i as int).drop_first() =~= layer@.skip(i + 1));
        if layer[i].x == x && layer[i].y == y {
            return Some(layer[i].tile);
        }
        i = i + 1;
    }
    None
}

fn push_found(v: &mut Vec<TileData>, t: Option<TileData>)
    ensures
        final(v)@ == push_opt(old(v)@, t),
{
    match t {
        Some(t) => v.push(t),
        None => {},
    }
}

impl GameRegionData {
    /// The tiles of the four layers at the position, bottom layer first.
    pub fn layered_tiles_at(&self, pos: (isize, isize)) -> (r: Vec<TileData>)
        ensures
            r@ == layered_tiles(*self, pos.0 as int, pos.1 as int),
    {
        let mut rc: Vec<TileData> = Vec::new();
        push_found(&mut rc, find_tile(&self.layer1, pos.0, pos.1));
        push_found(&mut rc, find_tile(&self.layer2, pos.0, pos.1));
        push_found(&mut rc, find_tile(&self.layer3, pos.0, pos.1));
        push_found(&mut rc, find_tile(&self.layer4, pos.0, pos.1));
        rc
    }
}

impl RegionData {
    /// Returns the layered tiles at the given position; a displacement there replaces them.
    pub fn get_tile_at(&self, pos: (isize, isize)) -> (r: Vec<TileData>)
        ensures
            r@ == tiles_at(self.region_data, self.displacements@, pos.0 as int, pos.1 as int),
    {
        match find_tile(&self.displacements, pos.0, pos.1) {
            Some(t) => {
                let mut rc: Vec<TileData> = Vec::new();
                rc.push(t);
                assert(rc@ =~= seq![t]);
                rc
            },
            None => self.region_data.layered_tiles_at(pos),
        }
    }
}

} // verus!
