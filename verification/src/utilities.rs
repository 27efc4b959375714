use vstd::prelude::*;
use crate::types::Position;
use crate::value::Value;
use crate::region::{RegionData, BehaviorInstance, PlayerCommunication, entry_index, stored, find_entry, store_entry, find_slot, find_spell, DEFAULT_SPELL_DISTANCE};

verus! {

// ---------------------------------------------------------------------------
// Distance

/// The squared euclidean distance between two positions.
pub open spec fn squared_distance(p0: Position, p1: Position) -> int {
    (p0.x - p1.x) * (p0.x - p1.x) + (p0.y - p1.y) * (p0.y - p1.y)
}

/// Whether r is the integer square root of n: the largest r with r * r <= n.
pub open spec fn is_floor_sqrt(r: int, n: int) -> bool {
    0 <= r && r * r <= n && n < (r + 1) * (r + 1)
}

/// Whether the distance between two positions can be computed without overflowing
/// `isize`: the coordinate differences and the squared distance fit.
pub open spec fn distance_fits(p0: Position, p1: Position) -> bool {
    &&& isize::MIN <= p0.x - p1.x <= isize::MAX
    &&& isize::MIN <= p0.y - p1.y <= isize::MAX
    &&& squared_distance(p0, p1) <= isize::MAX
}

/// The distance between two locations as the game takes it: the square root of the
/// squared euclidean distance in single precision, rounded down (see
/// [`crate::roots::f32_distance`]). Below 2^24 this is the integer square root.
pub fn compute_distance(p0: &Position, p1: &Position) -> (d: i32)
    requires
        distance_fits(*p0, *p1),
    ensures
        d == crate::roots::f32_distance(squared_distance(*p0, *p1) as nat),
        squared_distance(*p0, *p1) < 0x100_0000 ==> is_floor_sqrt(d as int, squared_distance(*p0, *p1)),
{
    let dx: isize = p0.x - p1.x;
    let dy: isize = p0.y - p1.y;
    proof {
        assert(0 <= dx * dx && 0 <= dy * dy) by (nonlinear_arith);
    }
    let n: u64 = (dx * dx + dy * dy) as u64;
    assert(n as int == squared_distance(*p0, *p1));
    let d = crate::roots::f32_distance_of(n);
    proof {
        if n < 0x100_0000 {
            crate::roots::lemma_small_distance(n as nat);
            crate::roots::lemma_isqrt_is_root(n as nat);
        }
    }
    d
}

// ---------------------------------------------------------------------------
// Instances

/// Returns the current position of the instance; during an animated step, the position
/// it comes from.
pub fn get_instance_position(inst_index: usize, instances: &Vec<BehaviorInstance>) -> (r: Option<Position>)
    requires
        inst_index < instances.len(),
    ensures
        r == (match instances@[inst_index as int].old_position {
            Some(p) => Some(p),
            None => instances@[inst_index as int].position,
        }),
{
    match instances[inst_index].old_position {
        Some(p) => Some(p),
        None => instances[inst_index].position,
    }
}

/// The conversations with the first one of the player removed.
pub open spec fn without_first_of(comms: Seq<PlayerCommunication>, player: usize) -> Seq<PlayerCommunication>
    decreases comms.len(),
{
    if comms.len() == 0 {
        comms
    } else if comms[0].player_index == player {
        comms.drop_first()
    } else {
        seq![comms[0]] + without_first_of(comms.drop_first(), player)
    }
}

/// Whether two instances agree on everything but their conversation state (the
/// conversations, the chosen answer and the offered answers).
pub open spec fn same_but_conversation(a: BehaviorInstance, b: BehaviorInstance) -> bool {
    &&& a.id == b.id
    &&& a.state == b.state
    &&& a.name == b.name
    &&& a.behavior_id == b.behavior_id
    &&& a.instance_type == b.instance_type
    &&& a.position == b.position
    &&& a.old_position == b.old_position
    &&& a.max_transition_time == b.max_transition_time
    &&& a.curr_transition_time == b.curr_transition_time
    &&& a.target_instance_index == b.target_instance_index
    &&& a.node_values == b.node_values
    &&& a.sleep_cycles == b.sleep_cycles
    &&& a.regions_send == b.regions_send
    &&& a.tile == b.tile
    &&& a.alignment == b.alignment
}

/// Finds the first conversation of the player.
fn first_of_player(comms: &Vec<PlayerCommunication>, player: usize) -> (r: Option<usize>)
    ensures
        match r {
            Some(i) => i < comms.len() && without_first_of(comms@, player)
                == comms@.take(i as int) + comms@.skip(i + 1),
            None => without_first_of(comms@, player) == comms@,
        },
{
    let mut i: usize = 0;
    assert(comms@.skip(0) =~= comms@);
    assert(comms@.take(0) =~= Seq::<PlayerCommunication>::empty());
    while i < comms.len()
        invariant
            i <= comms.len(),
            forall|k: int| 0 <= k < i ==> comms@[k].player_index != player,
            without_first_of(comms@, player) == comms@.take(i as int) + without_first_of(comms@.skip(i as int), player),
        decreases comms.len() - i,
    {
        let ghost rest = comms@.skip(i as int);
        assert(rest.drop_first() =~= comms@.skip(i + 1));
        if comms[i].player_index == player {
            return Some(i);
        }
        assert(comms@.take(i + 1) =~= comms@.take(i as int) + seq![comms@[i as int]]);
        assert(comms@.take(i as int) + without_first_of(rest, player)
            =~= comms@.take(i + 1) + without_first_of(comms@.skip(i + 1), player));
        i = i + 1;
    }
    assert(comms@.take(i as int) =~= comms@);
    assert(comms@.skip(i as int) =~= Seq::<PlayerCommunication>::empty());
    None
}

/// Removes the first conversation of the player from the list.
fn drop_first_of(comms: &mut Vec<PlayerCommunication>, player: usize)
    ensures
        final(comms)@ == without_first_of(old(comms)@, player),
{
    match first_of_player(comms, player) {
        Some(i) => {
            let ghost before = comms@;
            comms.remove(i);
            assert(comms@ =~= before.take(i as int) + before.skip(i + 1));
        },
        None => {},
    }
}

/// Drops the communication between a player and an NPC: the player's conversation
/// state is cleared and the NPC's first conversation with the player is removed.
pub fn drop_communication(instance_index: usize, npc_index: usize, data: &mut RegionData)
    requires
        instance_index < old(data).character_instances.len(),
        npc_index < old(data).character_instances.len(),
    ensures
        final(data).character_instances.len() == old(data).character_instances.len(),
        forall|k: int| 0 <= k < old(data).character_instances.len() && k != instance_index && k != npc_index
            ==> final(data).character_instances@[k] == old(data).character_instances@[k],
        ({
            let p = final(data).character_instances@[instance_index as int];
            &&& same_but_conversation(p, old(data).character_instances@[instance_index as int])
            &&& p.multi_choice_answer is None
            &&& p.communication@.len() == 0
            &&& p.multi_choice_data@.len() == 0
        }),
        npc_index != instance_index ==> ({
            let n = final(data).character_instances@[npc_index as int];
            let o = old(data).character_instances@[npc_index as int];
            &&& same_but_conversation(n, o)
            &&& n.multi_choice_answer == o.multi_choice_answer
            &&& n.multi_choice_data == o.multi_choice_data
            &&& n.communication@ == without_first_of(o.communication@, instance_index)
        }),
        same_but_instances(*old(data), *final(data)),
{
    let mut player = data.character_instances.remove(instance_index);
    player.multi_choice_answer = None;
    player.communication = Vec::new();
    player.multi_choice_data = Vec::new();
    data.character_instances.insert(instance_index, player);

    let mut npc = data.character_instances.remove(npc_index);
    drop_first_of(&mut npc.communication, instance_index);
    data.character_instances.insert(npc_index, npc);
}

/// Whether two region states agree on everything but their character instances.
pub open spec fn same_but_instances(a: RegionData, b: RegionData) -> bool {
    &&& same_but_players(a, b)
    &&& a.sheets == b.sheets
    &&& a.player_uuid_indices@ == b.player_uuid_indices@
}

/// Whether two region states agree on everything but their character instances, their
/// sheets and the index of the players.
pub open spec fn same_but_players(a: RegionData, b: RegionData) -> bool {
    &&& a.region_data == b.region_data
    &&& a.displacements == b.displacements
    &&& a.curr_index == b.curr_index
    &&& a.loot == b.loot
    &&& a.pixel_based_movement == b.pixel_based_movement
    &&& a.region_area_behavior == b.region_area_behavior
    &&& a.curr_action_character_index == b.curr_action_character_index
}

/// Whether two instances agree on everything but their node values.
pub open spec fn same_but_node_values(a: BehaviorInstance, b: BehaviorInstance) -> bool {
    &&& a.id == b.id
    &&& a.state == b.state
    &&& a.name == b.name
    &&& a.behavior_id == b.behavior_id
    &&& a.instance_type == b.instance_type
    &&& a.position == b.position
    &&& a.old_position == b.old_position
    &&& a.max_transition_time == b.max_transition_time
    &&& a.curr_transition_time == b.curr_transition_time
    &&& a.target_instance_index == b.target_instance_index
    &&& a.communication == b.communication
    &&& a.multi_choice_answer == b.multi_choice_answer
    &&& a.multi_choice_data == b.multi_choice_data
    &&& a.sleep_cycles == b.sleep_cycles
    &&& a.regions_send == b.regions_send
    &&& a.tile == b.tile
    &&& a.alignment == b.alignment
}

/// Whether `new` is `old` with the node values of instance i replaced by `values`.
pub open spec fn node_values_set(old: RegionData, new: RegionData, i: int, values: Seq<crate::region::NodeValueEntry>) -> bool {
    &&& same_but_instances(old, new)
    &&& new.character_instances.len() == old.character_instances.len()
    &&& forall|k: int| 0 <= k < old.character_instances.len() && k != i
            ==> new.character_instances@[k] == old.character_instances@[k]
    &&& same_but_node_values(new.character_instances@[i], old.character_instances@[i])
    &&& new.character_instances@[i].node_values@ == values
}

// ---------------------------------------------------------------------------
// Waiting

/// Starts to wait for the given amount of ticks: the node `id` of the instance stores
/// the tick until which it waits, `ticks` after the current tick count.
pub fn wait_start(instance_index: usize, ticks: usize, id: (u128, u128), data: &mut RegionData, tick_count: usize)
    requires
        instance_index < old(data).character_instances.len(),
        ticks + tick_count <= usize::MAX,
    ensures
        node_values_set(*old(data), *final(data), instance_index as int, stored(
            old(data).character_instances@[instance_index as int].node_values@,
            id,
            Value::USize((ticks + tick_count) as usize),
        )),
{
    let mut inst = data.character_instances.remove(instance_index);
    store_entry(&mut inst.node_values, id, Value::USize(ticks + tick_count));
    data.character_instances.insert(instance_index, inst);
}

/// The value stored under the id, if any.
pub open spec fn entry_value(entries: Seq<crate::region::NodeValueEntry>, id: (u128, u128)) -> Option<Value> {
    match entry_index(entries, id) {
        Some(i) => Some(entries[i].value),
        None => None,
    }
}

/// Waits for the ticks set by [`wait_start`] to pass. While the stored tick has not been
/// passed it returns false and changes nothing; once it has, all node values of the
/// instance are cleared and it returns true. Without a stored tick it returns true.
pub fn wait_for(instance_index: usize, id: (u128, u128), data: &mut RegionData, tick_count: usize) -> (r: bool)
    requires
        instance_index < old(data).character_instances.len(),
    ensures
        match entry_value(old(data).character_instances@[instance_index as int].node_values@, id) {
            Some(Value::USize(until)) => if until >= tick_count {
                !r && *final(data) == *old(data)
            } else {
                r && node_values_set(*old(data), *final(data), instance_index as int, Seq::empty())
            },
            _ => r && *final(data) == *old(data),
        },
{
    let found = find_entry(&data.character_instances[instance_index].node_values, id);
    match found {
        Some(i) => {
            let until: Option<usize> = match &data.character_instances[instance_index].node_values[i].value {
                Value::USize(u) => Some(*u),
                _ => None,
            };
            match until {
                Some(u) => {
                    if u >= tick_count {
                        false
                    } else {
                        let mut inst = data.character_instances.remove(instance_index);
                        inst.node_values.clear();
                        data.character_instances.insert(instance_index, inst);
                        true
                    }
                },
                None => true,
            }
        },
        None => true,
    }
}

// ---------------------------------------------------------------------------
// Reach of weapons and spells

/// Returns the distance the weapon in the slot of the current character reaches: at
/// least one tile.
pub fn get_weapon_distance(slot: String, data: &RegionData) -> (d: i32)
    requires
        data.curr_index < data.sheets.len(),
    ensures
        d == (match find_slot(data.sheets@[data.curr_index as int].weapons.slots@, slot@) {
            Some(w) => if w.weapon_distance > 1 { w.weapon_distance } else { 1 },
            None => 1,
        }),
{
    let mut weapon_distance: i32 = 1;
    let weapons = &data.sheets[data.curr_index].weapons;
    match weapons.slot_index(&slot) {
        Some(i) => {
            if weapons.slots[i].weapon.weapon_distance > weapon_distance {
                weapon_distance = weapons.slots[i].weapon.weapon_distance;
            }
        },
        None => {},
    }
    weapon_distance
}

/// Returns the distance the named spell of the current character reaches; the default
/// distance for a spell it does not know.
pub fn get_spell_distance(name: String, data: &RegionData) -> (d: i32)
    requires
        data.curr_index < data.sheets.len(),
    ensures
        d == (match find_spell(data.sheets@[data.curr_index as int].spells.spells@, name@) {
            Some(sp) => sp.distance,
            None => DEFAULT_SPELL_DISTANCE,
        }),
{
    let spell = data.sheets[data.curr_index].spells.get_spell(&name);
    spell.distance
}

} // verus!
