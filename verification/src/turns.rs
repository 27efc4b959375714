use vstd::prelude::*;
use crate::types::Position;
use crate::region::{RegionData, BehaviorInstance, BehaviorInstanceType};
use crate::behavior::{BehaviorNode, BehaviorNodeType, CharacterInstanceData, GameBehaviorData};
use crate::utilities::{same_but_instances, same_but_players};
use crate::region::BehaviorInstanceState;
use crate::instance::purge_instance;
use crate::region::{Sheet, Weapons, Spells};
use crate::behavior::behavior_index;
use crate::creation::{behavior_defaults, instances_to_create, planned_instances, defaults_after, alignments_fit, instance_view};
use crate::ids::{is_v4_id, new_uuid};
use crate::targeted::first_index;
use crate::ticking::{action_tree, item_action_trees, item_trees_named, names_action};

verus! {

// ---------------------------------------------------------------------------
// Respawns

/// A character waiting to be created again: its behavior, the tick from which on it is
/// due, and the data it is created from.
pub struct Respawn {
    pub behavior_id: u128,
    pub tick: usize,
    pub data: CharacterInstanceData,
}

/// The respawns among the first k that are due at the tick, in order.
pub open spec fn due_respawns(s: Seq<Respawn>, now: usize, k: nat) -> Seq<Respawn>
    decreases k,
{
    if k == 0 {
        Seq::empty()
    } else {
        due_respawns(s, now, (k - 1) as nat) + if s[k - 1].tick <= now { seq![s[k - 1]] } else { Seq::empty() }
    }
}

/// The respawns among the first k that are not yet due at the tick, in order.
pub open spec fn waiting_respawns(s: Seq<Respawn>, now: usize, k: nat) -> Seq<Respawn>
    decreases k,
{
    if k == 0 {
        Seq::empty()
    } else {
        waiting_respawns(s, now, (k - 1) as nat) + if s[k - 1].tick <= now { Seq::empty() } else { seq![s[k - 1]] }
    }
}

/// Takes the respawns that are due at the tick out of the waiting ones, keeping the
/// order of both: the due ones are created this tick, the others keep waiting.
pub fn take_due_respawns(pending: &mut Vec<Respawn>, now: usize) -> (due: Vec<Respawn>)
    ensures
        due@ == due_respawns(old(pending)@, now, old(pending)@.len()),
        final(pending)@ == waiting_respawns(old(pending)@, now, old(pending)@.len()),
{
    let ghost all = pending@;
    let mut rest: Vec<Respawn> = Vec::new();
    std::mem::swap(pending, &mut rest);
    let mut due: Vec<Respawn> = Vec::new();
    let ghost mut j: nat = 0;
    while rest.len() > 0
        invariant
            j <= all.len(),
            rest@ == all.subrange(j as int, all.len() as int),
            due@ == due_respawns(all, now, j),
            pending@ == waiting_respawns(all, now, j),
        decreases rest.len(),
    {
        let e = rest.remove(0);
        assert(e == all[j as int]);
        if e.tick <= now {
            due.push(e);
        } else {
            pending.push(e);
        }
        proof {
            j = j + 1;
        }
        assert(rest@ =~= all.subrange(j as int, all.len() as int));
        assert(due@ =~= due_respawns(all, now, j));
        assert(pending@ =~= waiting_respawns(all, now, j));
    }
    due
}

// ---------------------------------------------------------------------------
// Creating the instances of a behavior

/// The instances a behavior with the id creates in the region; none for an unknown id.
pub open spec fn planned_for(
    behaviors: Seq<GameBehaviorData>,
    id: u128,
    npc_only: bool,
    respawn: Option<CharacterInstanceData>,
    region: u128,
) -> Seq<(Position, Option<crate::types::TileId>, Option<Seq<char>>, i32)> {
    match crate::behavior::find_behavior(behaviors, id) {
        Some(b) => planned_instances(
            b,
            defaults_after(b, b.nodes@.len()),
            npc_only,
            match respawn { Some(c) => Some(instance_view(c)), None => None },
            region,
        ),
        None => Seq::empty(),
    }
}

/// Whether the behaviors' alignments fit the instances made from them.
pub open spec fn creatable(behaviors: Seq<GameBehaviorData>, id: u128) -> bool {
    match crate::behavior::find_behavior(behaviors, id) {
        Some(b) => alignments_fit(b),
        None => true,
    }
}

/// Whether the instance is a new non player character of the behavior made from the
/// planned instance (position, tile, name, alignment): a fresh random id, the behavior's
/// name, the planned position, tile and alignment, and nothing done yet.
pub open spec fn is_new_character(
    inst: BehaviorInstance,
    b: GameBehaviorData,
    c: (Position, Option<crate::types::TileId>, Option<Seq<char>>, i32),
) -> bool {
    &&& is_v4_id(inst.id)
    &&& inst.tile == c.1
    &&& inst.alignment == c.3
    &&& inst.state == BehaviorInstanceState::Normal
    &&& inst.name@ == b.name@
    &&& inst.behavior_id == b.id
    &&& inst.instance_type == BehaviorInstanceType::NonPlayerCharacter
    &&& inst.position == Some(c.0)
    &&& inst.old_position is None
    &&& inst.max_transition_time == 0
    &&& inst.curr_transition_time == 0
    &&& inst.target_instance_index is None
    &&& inst.node_values@.len() == 0
    &&& inst.communication@.len() == 0
    &&& inst.multi_choice_answer is None
    &&& inst.multi_choice_data@.len() == 0
    &&& inst.sleep_cycles == 0
    &&& inst.regions_send@.len() == 0
}

/// Creates the instances of the behavior with the id in the region (see
/// [`planned_instances`]): each is appended with a sheet carrying the behavior's name and
/// becomes the current instance. Returns the index of the last one created, or 0 where
/// none was. Filling the sheet's spells, skills and level tree and running the startup
/// trees is the caller's part.
pub fn create_behavior_instance(
    data: &mut RegionData,
    behaviors: &Vec<GameBehaviorData>,
    id: u128,
    npc_only: bool,
    respawn: Option<CharacterInstanceData>,
) -> (index: usize)
    requires
        creatable(behaviors@, id),
    ensures
        ({
            let planned = planned_for(behaviors@, id, npc_only, respawn, old(data).region_data.id);
            let n0 = old(data).character_instances@.len();
            let s0 = old(data).sheets@.len();
            let k = planned.len();
            &&& same_but_players(RegionData { curr_index: old(data).curr_index, ..*final(data) }, *old(data))
            &&& final(data).player_uuid_indices@ == old(data).player_uuid_indices@
            &&& final(data).character_instances@.len() == n0 + k
            &&& final(data).sheets@.len() == s0 + k
            &&& final(data).character_instances@.subrange(0, n0 as int) == old(data).character_instances@
            &&& final(data).sheets@.subrange(0, s0 as int) == old(data).sheets@
            &&& forall|j: int| 0 <= j < k ==> {
                let b = crate::behavior::find_behavior(behaviors@, id).unwrap();
                &&& is_new_character(#[trigger] final(data).character_instances@[n0 + j], b, planned[j])
                &&& final(data).sheets@[s0 + j].name@ == b.name@
                &&& final(data).sheets@[s0 + j].weapons.slots@.len() == 0
                &&& final(data).sheets@[s0 + j].spells.spells@.len() == 0
            }
            &&& index == if k > 0 { (n0 + k - 1) as usize } else { 0 }
            &&& final(data).curr_index == if k > 0 { index } else { old(data).curr_index }
        }),
{
    let i = match behavior_index(behaviors, id) {
        Some(i) => i,
        None => return 0,
    };
    let b = &behaviors[i];
    let defaults = behavior_defaults(b);
    let planned = instances_to_create(b, &defaults, npc_only, respawn, data.region_data.id);
    let ghost pv = planned@.map_values(|c: CharacterInstanceData| instance_view(c));
    let ghost n0 = data.character_instances@.len();
    let ghost s0 = data.sheets@.len();
    let mut index: usize = 0;
    let mut j: usize = 0;
    while j < planned.len()
        invariant
            j <= planned.len(),
            pv == planned@.map_values(|c: CharacterInstanceData| instance_view(c)),
            n0 == old(data).character_instances@.len(),
            s0 == old(data).sheets@.len(),
            same_but_players(RegionData { curr_index: old(data).curr_index, ..*data }, *old(data)),
            data.player_uuid_indices@ == old(data).player_uuid_indices@,
            data.character_instances@.len() == n0 + j,
            data.sheets@.len() == s0 + j,
            data.character_instances@.subrange(0, n0 as int) == old(data).character_instances@,
            data.sheets@.subrange(0, s0 as int) == old(data).sheets@,
            forall|m: int| 0 <= m < j ==> {
                &&& is_new_character(#[trigger] data.character_instances@[n0 + m], *b, pv[m])
                &&& data.sheets@[s0 + m].name@ == b.name@
                &&& data.sheets@[s0 + m].weapons.slots@.len() == 0
                &&& data.sheets@[s0 + m].spells.spells@.len() == 0
            },
            index == if j > 0 { (n0 + j - 1) as usize } else { 0 },
            data.curr_index == if j > 0 { index } else { old(data).curr_index },
        decreases planned.len() - j,
    {
        let c = &planned[j];
        let ghost before = data.character_instances@;
        let ghost sheets_before = data.sheets@;
        assert(pv[j as int] == instance_view(*c));
        let instance = BehaviorInstance {
            id: new_uuid(),
            state: BehaviorInstanceState::Normal,
            name: b.name.clone(),
            behavior_id: b.id,
            instance_type: BehaviorInstanceType::NonPlayerCharacter,
            position: Some(c.position),
            old_position: None,
            max_transition_time: 0,
            curr_transition_time: 0,
            target_instance_index: None,
            node_values: Vec::new(),
            communication: Vec::new(),
            multi_choice_answer: None,
            multi_choice_data: Vec::new(),
            sleep_cycles: 0,
            regions_send: Vec::new(),
            tile: c.tile,
            alignment: c.alignment,
        };
        index = data.character_instances.len();
        let sheet = Sheet { name: b.name.clone(), weapons: Weapons { slots: Vec::new() }, spells: Spells { spells: Vec::new() } };
        data.character_instances.push(instance);
        data.sheets.push(sheet);
        data.curr_index = index;
        j = j + 1;
        assert(data.character_instances@.subrange(0, n0 as int) =~= before.subrange(0, n0 as int));
        assert(data.sheets@.subrange(0, s0 as int) =~= sheets_before.subrange(0, s0 as int));
        assert forall|m: int| 0 <= m < j implies {
            &&& is_new_character(#[trigger] data.character_instances@[n0 + m], *b, pv[m])
            &&& data.sheets@[s0 + m].name@ == b.name@
            &&& data.sheets@[s0 + m].weapons.slots@.len() == 0
            &&& data.sheets@[s0 + m].spells.spells@.len() == 0
        } by {
            if m < j - 1 {
                assert(data.character_instances@[n0 + m] == before[n0 + m]);
                assert(data.sheets@[s0 + m] == sheets_before[s0 + m]);
            }
        }
    }
    index
}

/// The instance as the player with the id at the position.
pub open spec fn as_player(m: BehaviorInstance, uuid: u128, position: Position) -> BehaviorInstance {
    BehaviorInstance { instance_type: BehaviorInstanceType::Player, id: uuid, position: Some(position), ..m }
}

/// Makes the instance at the index the player with the id at the position, and indexes
/// the player there.
pub fn make_player(data: &mut RegionData, index: usize, uuid: u128, position: Position)
    requires
        index < old(data).character_instances.len(),
    ensures
        same_but_players(*old(data), *final(data)),
        final(data).sheets == old(data).sheets,
        final(data).character_instances@ == old(data).character_instances@.update(
            index as int,
            as_player(old(data).character_instances@[index as int], uuid, position),
        ),
        final(data).player_uuid_indices@ == old(data).player_uuid_indices@.insert(uuid, index),
{
    let mut inst = data.character_instances.remove(index);
    inst.instance_type = BehaviorInstanceType::Player;
    inst.id = uuid;
    inst.position = Some(position);
    data.character_instances.insert(index, inst);
    data.player_uuid_indices.insert(uuid, index);
    assert(data.character_instances@ =~= old(data).character_instances@.update(
        index as int,
        as_player(old(data).character_instances@[index as int], uuid, position),
    ));
}

/// The player behavior's instances in the region, made for a new player.
pub open spec fn player_plan(data: RegionData, behaviors: Seq<GameBehaviorData>) -> Seq<(Position, Option<crate::types::TileId>, Option<Seq<char>>, i32)> {
    match crate::instance::player_behavior_of(behaviors, behaviors.len()) {
        Some(pid) => planned_for(behaviors, pid, false, None, data.region_data.id),
        None => Seq::empty(),
    }
}

/// Creates the instance of a new player with the id at the position: the instances of
/// the last behavior named "Player" are created (see [`create_behavior_instance`]) and
/// the one at the returned index, the last one created, becomes the player. Where none
/// was created the first instance of the region is the one made the player. Without a
/// player behavior nothing happens.
pub fn create_player_instance(data: &mut RegionData, behaviors: &Vec<GameBehaviorData>, uuid: u128, position: Position) -> (r: Option<usize>)
    requires
        forall|i: int| 0 <= i < behaviors@.len() ==> creatable(behaviors@, #[trigger] behaviors@[i].id),
        crate::instance::player_behavior_of(behaviors@, behaviors@.len()) is Some
            ==> old(data).character_instances@.len() > 0 || player_plan(*old(data), behaviors@).len() > 0,
    ensures
        ({
            let n0 = old(data).character_instances@.len();
            let planned = player_plan(*old(data), behaviors@);
            let k = planned.len();
            match crate::instance::player_behavior_of(behaviors@, behaviors@.len()) {
                None => r is None && *final(data) == *old(data),
                Some(pid) => {
                    let b = crate::behavior::find_behavior(behaviors@, pid).unwrap();
                    let idx: int = if k > 0 { n0 + k - 1 } else { 0 };
                    &&& r == Some(idx as usize)
                    &&& final(data).character_instances@.len() == n0 + k
                    &&& final(data).player_uuid_indices@ == old(data).player_uuid_indices@.insert(uuid, idx as usize)
                    &&& forall|i: int| 0 <= i < n0 && i != idx ==> final(data).character_instances@[i] == old(data).character_instances@[i]
                    &&& forall|j: int| 0 <= j < k && n0 + j != idx
                        ==> is_new_character(#[trigger] final(data).character_instances@[n0 + j], b, planned[j])
                    &&& exists|m: BehaviorInstance| final(data).character_instances@[idx] == as_player(m, uuid, position)
                        && if k > 0 { is_new_character(m, b, planned[k - 1]) } else { m == old(data).character_instances@[0] }
                },
            }
        }),
{
    let pid = match crate::instance::player_behavior_id(behaviors) {
        Some(pid) => pid,
        None => return None,
    };
    proof {
        lemma_player_found(behaviors@, behaviors@.len());
    }
    let ghost before = data.character_instances@;
    let index = create_behavior_instance(data, behaviors, pid, false, None);
    let ghost mid = data.character_instances@;
    let count = data.character_instances.len();
    assert(mid.len() == count);
    make_player(data, index, uuid, position);
    proof {
        let m = mid[index as int];
        let planned = player_plan(*old(data), behaviors@);
        let k = planned.len();
        let n0 = before.len();
        let b = crate::behavior::find_behavior(behaviors@, pid).unwrap();
        assert(planned == planned_for(behaviors@, pid, false, None, old(data).region_data.id));
        if k > 0 {
            assert(is_new_character(mid[n0 + (k - 1)], b, planned[k - 1]));
            assert(index as int == n0 + k - 1);
        } else {
            assert(index == 0);
            assert(mid.subrange(0, n0 as int)[0] == mid[0]);
        }
        assert(data.character_instances@[index as int] == as_player(m, uuid, position));
        assert forall|j: int| 0 <= j < k && n0 + j != index as int
            implies is_new_character(#[trigger] data.character_instances@[n0 + j], b, planned[j]) by {
            assert(data.character_instances@[n0 + j] == mid[n0 + j]);
        }
        assert forall|i: int| 0 <= i < before.len() && i != index implies data.character_instances@[i] == before[i] by {
            assert(mid.subrange(0, before.len() as int)[i] == mid[i]);
        }
    }
    Some(index)
}

proof fn lemma_player_found(behaviors: Seq<GameBehaviorData>, k: nat)
    requires
        k <= behaviors.len(),
    ensures
        crate::instance::player_behavior_of(behaviors, k) matches Some(pid)
            ==> exists|i: int| 0 <= i < k && #[trigger] behaviors[i].id == pid,
    decreases k,
{
    if k > 0 {
        lemma_player_found(behaviors, (k - 1) as nat);
    }
}

/// The instances the first k respawns create in the region, in order, each with the
/// behavior it is made of and its planned position, tile, name and alignment.
pub open spec fn respawn_plans(behaviors: Seq<GameBehaviorData>, due: Seq<Respawn>, region: u128, k: nat)
    -> Seq<(GameBehaviorData, (Position, Option<crate::types::TileId>, Option<Seq<char>>, i32))>
    decreases k,
{
    if k == 0 {
        Seq::empty()
    } else {
        let r = due[k - 1];
        let b = crate::behavior::find_behavior(behaviors, r.behavior_id).unwrap();
        respawn_plans(behaviors, due, region, (k - 1) as nat)
            + planned_for(behaviors, r.behavior_id, false, Some(r.data), region).map_values(
                |c: (Position, Option<crate::types::TileId>, Option<Seq<char>>, i32)| (b, c))
    }
}

/// Creates again the characters whose respawn is due at the tick, each once and in the
/// order they wait, each from its saved data (see [`create_behavior_instance`]); the
/// others keep waiting (see [`take_due_respawns`]). The existing instances stay as they
/// are, and the new ones follow them.
pub fn create_due_respawns(
    data: &mut RegionData,
    behaviors: &Vec<GameBehaviorData>,
    pending: &mut Vec<Respawn>,
    now: usize,
)
    requires
        forall|i: int| 0 <= i < old(pending)@.len() ==> creatable(behaviors@, #[trigger] old(pending)@[i].behavior_id),
    ensures
        final(pending)@ == waiting_respawns(old(pending)@, now, old(pending)@.len()),
        ({
            let due = due_respawns(old(pending)@, now, old(pending)@.len());
            let plans = respawn_plans(behaviors@, due, old(data).region_data.id, due.len());
            let n0 = old(data).character_instances@.len();
            &&& final(data).character_instances@.len() == n0 + plans.len()
            &&& final(data).character_instances@.subrange(0, n0 as int) == old(data).character_instances@
            &&& forall|j: int| 0 <= j < plans.len()
                ==> is_new_character(#[trigger] final(data).character_instances@[n0 + j], plans[j].0, plans[j].1)
        }),
        final(data).region_data == old(data).region_data,
        final(data).player_uuid_indices@ == old(data).player_uuid_indices@,
{
    let ghost all = pending@;
    proof {
        lemma_due_from(all, now, all.len());
    }
    let mut due = take_due_respawns(pending, now);
    let ghost ds = due@;
    let ghost n0 = data.character_instances@.len();
    let ghost region = data.region_data.id;
    let mut j: usize = 0;
    let total = due.len();
    while due.len() > 0
        invariant
            j <= total,
            total == ds.len(),
            due@ == ds.subrange(j as int, total as int),
            forall|i: int| 0 <= i < ds.len() ==> creatable(behaviors@, #[trigger] ds[i].behavior_id),
            data.region_data.id == region,
            region == old(data).region_data.id,
            data.region_data == old(data).region_data,
            data.player_uuid_indices@ == old(data).player_uuid_indices@,
            data.character_instances@.len() == n0 + respawn_plans(behaviors@, ds, region, j as nat).len(),
            data.character_instances@.subrange(0, n0 as int) == old(data).character_instances@,
            n0 == old(data).character_instances@.len(),
            forall|m: int| 0 <= m < respawn_plans(behaviors@, ds, region, j as nat).len()
                ==> is_new_character(#[trigger] data.character_instances@[n0 + m],
                    respawn_plans(behaviors@, ds, region, j as nat)[m].0,
                    respawn_plans(behaviors@, ds, region, j as nat)[m].1),
        decreases due.len(),
    {
        let r = due.remove(0);
        assert(r == ds[j as int]);
        let ghost before = data.character_instances@;
        let ghost prev = respawn_plans(behaviors@, ds, region, j as nat);
        let ghost made = planned_for(behaviors@, r.behavior_id, false, Some(r.data), region);
        let ghost b = crate::behavior::find_behavior(behaviors@, r.behavior_id).unwrap();
        create_behavior_instance(data, behaviors, r.behavior_id, false, Some(r.data));
        assert(data.character_instances@.subrange(0, n0 as int) =~= before.subrange(0, n0 as int));
        j = j + 1;
        let ghost next = respawn_plans(behaviors@, ds, region, j as nat);
        assert(next == prev + made.map_values(
            |c: (Position, Option<crate::types::TileId>, Option<Seq<char>>, i32)| (b, c)));
        assert forall|m: int| 0 <= m < next.len() implies is_new_character(
            #[trigger] data.character_instances@[n0 + m], next[m].0, next[m].1) by {
            if m < prev.len() {
                assert(data.character_instances@[n0 + m] == before[n0 + m]);
                assert(next[m] == prev[m]);
            } else {
                let t = m - prev.len();
                assert(next[m] == (b, made[t]));
                assert(data.character_instances@[before.len() + t] == data.character_instances@[n0 + m]);
            }
        }
        assert(due@ =~= ds.subrange(j as int, total as int));
    }
}

proof fn lemma_due_from(s: Seq<Respawn>, now: usize, k: nat)
    requires
        k <= s.len(),
    ensures
        forall|i: int| 0 <= i < due_respawns(s, now, k).len()
            ==> exists|m: int| 0 <= m < k && #[trigger] due_respawns(s, now, k)[i] == s[m],
    decreases k,
{
    if k > 0 {
        lemma_due_from(s, now, (k - 1) as nat);
        let d = due_respawns(s, now, (k - 1) as nat);
        assert forall|i: int| 0 <= i < due_respawns(s, now, k).len()
            implies exists|m: int| 0 <= m < k && #[trigger] due_respawns(s, now, k)[i] == s[m] by {
            if i < d.len() {
                assert(due_respawns(s, now, k)[i] == d[i]);
                let m = choose|m: int| 0 <= m < k - 1 && d[i] == s[m];
                assert(0 <= m < k && due_respawns(s, now, k)[i] == s[m]);
            } else {
                assert(due_respawns(s, now, k)[i] == s[k - 1]);
            }
        }
    }
}

// ---------------------------------------------------------------------------
// The start of an instance's turn

/// Starts the turn of an instance in a tick: it becomes the current instance and loses
/// the answers it was offered, and a sleeping instance uses up one of its sleep cycles.
/// Returns whether it sleeps through this tick.
pub fn begin_turn(data: &mut RegionData, inst_index: usize) -> (sleeping: bool)
    requires
        inst_index < old(data).character_instances.len(),
    ensures
        same_but_instances(*old(data), RegionData { curr_index: old(data).curr_index, ..*final(data) }),
        final(data).curr_index == inst_index,
        final(data).character_instances@.len() == old(data).character_instances@.len(),
        forall|k: int| 0 <= k < old(data).character_instances@.len() && k != inst_index
            ==> final(data).character_instances@[k] == old(data).character_instances@[k],
        ({
            let o = old(data).character_instances@[inst_index as int];
            let n = final(data).character_instances@[inst_index as int];
            &&& sleeping == (o.sleep_cycles > 0)
            &&& n.multi_choice_data@.len() == 0
            &&& n == (BehaviorInstance {
                multi_choice_data: n.multi_choice_data,
                sleep_cycles: if o.sleep_cycles > 0 { (o.sleep_cycles - 1) as usize } else { 0 },
                ..o
            })
        }),
{
    data.curr_index = inst_index;
    let mut inst = data.character_instances.remove(inst_index);
    inst.multi_choice_data = Vec::new();
    let sleeping = inst.sleep_cycles > 0;
    if sleeping {
        inst.sleep_cycles = inst.sleep_cycles - 1;
    }
    data.character_instances.insert(inst_index, inst);
    sleeping
}

// ---------------------------------------------------------------------------
// A player's action on an inventory item

/// The trees the player's own behavior runs for an action: its first tree named after
/// the action, as (behavior, tree).
pub open spec fn own_action_trees(behaviors: Seq<GameBehaviorData>, behavior_id: u128, tree_ids: Seq<u128>, action: Seq<char>) -> Seq<(u128, u128)> {
    match first_index(tree_ids, names_action(behaviors, behavior_id, action), 0) {
        Some(k) => seq![(behavior_id, tree_ids[k])],
        None => Seq::empty(),
    }
}

/// The trees an action on an inventory item runs: those of the item named after the
/// action; where the item has none, the player's own tree for the action.
pub open spec fn inventory_trees(
    items: Seq<GameBehaviorData>,
    item_id: u128,
    behaviors: Seq<GameBehaviorData>,
    behavior_id: u128,
    tree_ids: Seq<u128>,
    action: Seq<char>,
) -> Seq<(u128, u128)> {
    let on_item = match crate::behavior::find_behavior(items, item_id) {
        Some(b) => item_trees_named(b, action, b.nodes@.len()),
        None => Seq::empty(),
    };
    if on_item.len() > 0 { on_item } else { own_action_trees(behaviors, behavior_id, tree_ids, action) }
}

/// Decides what an action of a player on an inventory item runs (see
/// [`inventory_trees`]), and whether the item's state is then switched, which it is
/// when the item's own trees ran.
pub fn inventory_action(
    items: &Vec<GameBehaviorData>,
    item_id: u128,
    behaviors: &Vec<GameBehaviorData>,
    behavior_id: u128,
    tree_ids: &Vec<u128>,
    action: &String,
) -> (r: (Vec<(u128, u128)>, bool))
    ensures
        r.0@ == inventory_trees(items@, item_id, behaviors@, behavior_id, tree_ids@, action@),
        r.1 == (match crate::behavior::find_behavior(items@, item_id) {
            Some(b) => item_trees_named(b, action@, b.nodes@.len()),
            None => Seq::empty(),
        }.len() > 0),
{
    let on_item = item_action_trees(items, item_id, action);
    if on_item.len() > 0 {
        (on_item, true)
    } else {
        let mut own: Vec<(u128, u128)> = Vec::new();
        match action_tree(behaviors, behavior_id, tree_ids, action) {
            Some(t) => own.push((behavior_id, t)),
            None => {},
        }
        assert(own@ =~= own_action_trees(behaviors@, behavior_id, tree_ids@, action@));
        (own, false)
    }
}

// ---------------------------------------------------------------------------
// Area behaviors

/// Whether an area node runs every tick: the area's entering, leaving, inside and always
/// nodes do.
pub open spec fn is_area_trigger(t: BehaviorNodeType) -> bool {
    t == BehaviorNodeType::InsideArea || t == BehaviorNodeType::EnterArea
        || t == BehaviorNodeType::LeaveArea || t == BehaviorNodeType::Always
}

/// The area nodes among the first k of an area's behavior that run, as (region, area,
/// node).
pub open spec fn area_triggers(nodes: Seq<BehaviorNode>, region: u128, area: usize, k: nat) -> Seq<(u128, usize, u128)>
    decreases k,
{
    if k == 0 {
        Seq::empty()
    } else {
        area_triggers(nodes, region, area, (k - 1) as nat) + if is_area_trigger(nodes[k - 1].behavior_type) {
            seq![(region, area, nodes[k - 1].id)]
        } else {
            Seq::empty()
        }
    }
}

/// The running area nodes of the first a areas of the region, area by area.
pub open spec fn region_triggers(data: RegionData, a: nat) -> Seq<(u128, usize, u128)>
    decreases a,
{
    if a == 0 {
        Seq::empty()
    } else {
        let b = data.region_area_behavior@[a - 1];
        region_triggers(data, (a - 1) as nat) + area_triggers(b.nodes@, data.region_data.id, (a - 1) as usize, b.nodes@.len())
    }
}

/// Starts the pass over the region's areas after the instances moved: the displaced
/// tiles of the last tick are cleared, and the area nodes to run are returned.
pub fn start_area_pass(data: &mut RegionData) -> (r: Vec<(u128, usize, u128)>)
    requires
        old(data).region_area_behavior.len() >= old(data).region_data.areas.len(),
    ensures
        same_but_instances(RegionData { displacements: old(data).displacements, ..*final(data) }, *old(data)),
        final(data).displacements@.len() == 0,
        final(data).character_instances == old(data).character_instances,
        r@ == region_triggers(*old(data), old(data).region_data.areas@.len()),
{
    data.displacements = Vec::new();
    let mut r: Vec<(u128, usize, u128)> = Vec::new();
    let mut a: usize = 0;
    while a < data.region_data.areas.len()
        invariant
            a <= data.region_data.areas.len(),
            data.region_area_behavior.len() >= data.region_data.areas.len(),
            data.region_data == old(data).region_data,
            data.region_area_behavior == old(data).region_area_behavior,
            r@ == region_triggers(*old(data), a as nat),
        decreases data.region_data.areas.len() - a,
    {
        let nodes = &data.region_area_behavior[a].nodes;
        let ghost before = r@;
        let mut k: usize = 0;
        while k < nodes.len()
            invariant
                k <= nodes.len(),
                a < data.region_area_behavior.len(),
                *nodes == data.region_area_behavior@[a as int].nodes,
                r@ == before + area_triggers(nodes@, data.region_data.id, a, k as nat),
            decreases nodes.len() - k,
        {
            let t = nodes[k].behavior_type;
            if t == BehaviorNodeType::InsideArea || t == BehaviorNodeType::EnterArea
                || t == BehaviorNodeType::LeaveArea || t == BehaviorNodeType::Always {
                r.push((data.region_data.id, a, nodes[k].id));
            }
            k = k + 1;
            assert(r@ =~= before + area_triggers(nodes@, data.region_data.id, a, k as nat));
        }
        a = a + 1;
        assert(r@ =~= region_triggers(*old(data), a as nat));
    }
    r
}

// ---------------------------------------------------------------------------
// Updates for the clients

/// Whether an instance's client gets an update: a player's does while nothing is being
/// debugged, and the instance being debugged in the editor always does.
pub open spec fn gets_update(instance_type: BehaviorInstanceType, behavior_id: u128, debug_behavior_id: Option<u128>) -> bool {
    (instance_type == BehaviorInstanceType::Player && debug_behavior_id is None) || debug_behavior_id == Some(behavior_id)
}

/// Decides whether an instance's client gets an update; see [`gets_update`].
pub fn sends_update(instance_type: BehaviorInstanceType, behavior_id: u128, debug_behavior_id: Option<u128>) -> (r: bool)
    ensures
        r == gets_update(instance_type, behavior_id, debug_behavior_id),
{
    (instance_type == BehaviorInstanceType::Player && debug_behavior_id.is_none()) || debug_behavior_id == Some(behavior_id)
}

/// Whether a player's client is sent the name and widgets of its screen: when it has a
/// screen now that differs from the one it had, or had none.
pub open spec fn screen_is_new(old_screen: Option<u128>, new_screen: Option<u128>) -> bool {
    match new_screen {
        Some(n) => match old_screen {
            Some(o) => n != o,
            None => true,
        },
        None => false,
    }
}

/// Decides whether a player's client is sent its screen; see [`screen_is_new`].
pub fn screen_changed(old_screen: Option<u128>, new_screen: Option<u128>) -> (r: bool)
    ensures
        r == screen_is_new(old_screen, new_screen),
{
    match new_screen {
        Some(n) => match old_screen {
            Some(o) => n != o,
            None => true,
        },
        None => false,
    }
}

/// What an update does about regions: the region a character moved to, which takes it
/// over, and whether the client is sent the data of the region it is in.
pub struct RegionHandover {
    pub transfer_to: Option<u128>,
    pub send_region: bool,
}

/// Decides the region part of an instance's update: a character whose position lies in
/// another region moves there; otherwise its client is sent the region's data once, or
/// on every update while the editor debugs, and the region is then noted as sent.
pub fn region_handover(data: &mut RegionData, inst_index: usize, debugging: bool) -> (r: RegionHandover)
    requires
        inst_index < old(data).character_instances.len(),
    ensures
        same_but_instances(*old(data), *final(data)),
        final(data).character_instances@.len() == old(data).character_instances@.len(),
        forall|k: int| 0 <= k < old(data).character_instances@.len() && k != inst_index
            ==> final(data).character_instances@[k] == old(data).character_instances@[k],
        ({
            let o = old(data).character_instances@[inst_index as int];
            let n = final(data).character_instances@[inst_index as int];
            let here = old(data).region_data.id;
            match o.position {
                Some(p) => if p.region != here {
                    r.transfer_to == Some(p.region) && !r.send_region && n == o
                } else if !o.regions_send@.contains(p.region) || debugging {
                    &&& r.transfer_to is None && r.send_region
                    &&& n == (BehaviorInstance { regions_send: n.regions_send, ..o })
                    &&& n.regions_send@ == if o.regions_send@.contains(p.region) { o.regions_send@ } else { o.regions_send@.push(p.region) }
                } else {
                    r.transfer_to is None && !r.send_region && n == o
                },
                None => r.transfer_to is None && !r.send_region && n == o,
            }
        }),
{
    match data.character_instances[inst_index].position {
        Some(p) => {
            if p.region != data.region_data.id {
                RegionHandover { transfer_to: Some(p.region), send_region: false }
            } else {
                let sent = contains_region(&data.character_instances[inst_index].regions_send, p.region);
                if !sent || debugging {
                    if !sent {
                        let mut inst = data.character_instances.remove(inst_index);
                        inst.regions_send.push(p.region);
                        data.character_instances.insert(inst_index, inst);
                    }
                    RegionHandover { transfer_to: None, send_region: true }
                } else {
                    RegionHandover { transfer_to: None, send_region: false }
                }
            }
        },
        None => RegionHandover { transfer_to: None, send_region: false },
    }
}

/// Lets a character that moved to another region leave this one, once its update and
/// its transfer were sent: its instance is purged and its id no longer indexes a player.
/// Returns the region it went to; a character inside this region, or without a position,
/// stays as it is.
pub fn leave_region(data: &mut RegionData, inst_index: usize) -> (r: Option<u128>)
    requires
        inst_index < old(data).character_instances.len(),
    ensures
        ({
            let o = old(data).character_instances@[inst_index as int];
            match o.position {
                Some(p) => if p.region != old(data).region_data.id {
                    &&& r == Some(p.region)
                    &&& same_but_players(*old(data), *final(data))
                    &&& final(data).sheets == old(data).sheets
                    &&& final(data).character_instances@ == old(data).character_instances@.update(
                        inst_index as int,
                        BehaviorInstance { state: BehaviorInstanceState::Purged, ..o },
                    )
                    &&& final(data).player_uuid_indices@ == old(data).player_uuid_indices@.remove(o.id)
                } else {
                    r is None && *final(data) == *old(data)
                },
                None => r is None && *final(data) == *old(data),
            }
        }),
{
    match data.character_instances[inst_index].position {
        Some(p) => {
            if p.region != data.region_data.id {
                purge_instance(data, inst_index);
                Some(p.region)
            } else {
                None
            }
        },
        None => None,
    }
}

fn contains_region(regions: &Vec<u128>, region: u128) -> (r: bool)
    ensures
        r == regions@.contains(region),
{
    let mut i: usize = 0;
    while i < regions.len()
        invariant
            i <= regions.len(),
            forall|k: int| 0 <= k < i ==> regions@[k] != region,
        decreases regions.len() - i,
    {
        if regions[i] == region {
            return true;
        }
        i = i + 1;
    }
    false
}

} // verus!
