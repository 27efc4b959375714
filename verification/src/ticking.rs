use vstd::prelude::*;
use crate::types::Date;
use crate::value::spec_integer;
use crate::region::{RegionData, BehaviorInstance, PlayerCommunication, BehaviorInstanceState, BehaviorInstanceType};
use crate::behavior::{BehaviorNodeType, BehaviorNode, GameBehaviorData, find_node, node_value, behavior_index, node_index, get_node_value2};
use crate::utilities::{same_but_instances, same_but_conversation};
use crate::targeted::first_index;
use crate::scan::{lowercase, to_lowercase};

verus! {

// ---------------------------------------------------------------------------
// Animated steps

/// Whether the instance is like the other but for its step animation.
pub open spec fn same_but_animation(a: BehaviorInstance, b: BehaviorInstance) -> bool {
    a == BehaviorInstance { old_position: a.old_position, curr_transition_time: a.curr_transition_time, ..b }
}

/// Advances the step animation of the instance by one tick: while it comes from an old
/// position its transition time grows, and once it passes the maximum the step ends.
pub fn advance_transition(data: &mut RegionData, inst_index: usize)
    requires
        inst_index < old(data).character_instances.len(),
        old(data).character_instances@[inst_index as int].curr_transition_time < usize::MAX,
    ensures
        same_but_instances(*old(data), *final(data)),
        final(data).character_instances@.len() == old(data).character_instances@.len(),
        forall|k: int| 0 <= k < old(data).character_instances@.len() && k != inst_index
            ==> final(data).character_instances@[k] == old(data).character_instances@[k],
        ({
            let o = old(data).character_instances@[inst_index as int];
            let n = final(data).character_instances@[inst_index as int];
            &&& same_but_animation(n, o)
            &&& if old(data).pixel_based_movement && o.old_position is Some {
                if o.curr_transition_time + 1 > o.max_transition_time {
                    n.old_position is None && n.curr_transition_time == 0
                } else {
                    n.old_position == o.old_position && n.curr_transition_time == o.curr_transition_time + 1
                }
            } else {
                n == o
            }
        }),
{
    if data.pixel_based_movement && data.character_instances[inst_index].old_position.is_some() {
        let mut inst = data.character_instances.remove(inst_index);
        inst.curr_transition_time = inst.curr_transition_time + 1;
        if inst.curr_transition_time > inst.max_transition_time {
            inst.old_position = None;
            inst.curr_transition_time = 0;
        }
        data.character_instances.insert(inst_index, inst);
    }
}

// ---------------------------------------------------------------------------
// Conversations running out

/// Whether the first date lies before the second: dates compare by day, then hours, then
/// minutes.
pub open spec fn date_before(a: Date, b: Date) -> bool {
    a.day < b.day || (a.day == b.day && (a.hours < b.hours || (a.hours == b.hours && a.minutes < b.minutes)))
}

/// Whether a conversation has run out at the date.
pub open spec fn ran_out(now: Date) -> spec_fn(PlayerCommunication, int) -> bool {
    |c: PlayerCommunication, k: int| date_before(c.end_time, now)
}

/// Whether every conversation of every instance is with an existing instance.
pub open spec fn partners_exist(data: RegionData) -> bool {
    forall|i: int, k: int| 0 <= i < data.character_instances@.len()
        && 0 <= k < data.character_instances@[i].communication@.len()
        ==> (#[trigger] data.character_instances@[i].communication@[k]).player_index < data.character_instances@.len()
}

fn earlier(a: Date, b: Date) -> (r: bool)
    ensures
        r == date_before(a, b),
{
    a.day < b.day || (a.day == b.day && (a.hours < b.hours || (a.hours == b.hours && a.minutes < b.minutes)))
}

/// Ends the first conversation of an NPC that has run out at the date: the player loses
/// its conversation and offered answers, and the NPC the conversation. Returns whether
/// the NPC's trees run this tick, which they do when no conversation goes on. A
/// conversation that has run out is never one of the NPC with itself.
pub fn expire_communication(data: &mut RegionData, inst_index: usize, now: Date) -> (run_trees: bool)
    requires
        inst_index < old(data).character_instances.len(),
        partners_exist(*old(data)),
        ({
            let comms = old(data).character_instances@[inst_index as int].communication@;
            first_index(comms, ran_out(now), 0) matches Some(c) ==> comms[c].player_index != inst_index
        }),
    ensures
        same_but_instances(*old(data), *final(data)),
        final(data).character_instances@.len() == old(data).character_instances@.len(),
        ({
            let comms = old(data).character_instances@[inst_index as int].communication@;
            match first_index(comms, ran_out(now), 0) {
                None => *final(data) == *old(data) && run_trees == (comms.len() == 0),
                Some(c) => {
                    let p = comms[c].player_index as int;
                    let after = final(data).character_instances@;
                    &&& forall|k: int| 0 <= k < after.len() && k != p && k != inst_index
                        ==> after[k] == old(data).character_instances@[k]
                    &&& {
                        &&& same_but_conversation(after[p], old(data).character_instances@[p])
                        &&& after[p].communication@.len() == 0
                        &&& after[p].multi_choice_data@.len() == 0
                        &&& after[p].multi_choice_answer == old(data).character_instances@[p].multi_choice_answer
                        &&& after[inst_index as int] == (BehaviorInstance {
                            communication: after[inst_index as int].communication,
                            ..old(data).character_instances@[inst_index as int]
                        })
                        &&& after[inst_index as int].communication@ == comms.remove(c)
                        &&& run_trees == (comms.len() == 1)
                    }
                },
            }
        }),
{
    let ghost comms = data.character_instances@[inst_index as int].communication@;
    let ghost pr = ran_out(now);
    let n = data.character_instances[inst_index].communication.len();
    let mut c: usize = 0;
    let mut found: Option<usize> = None;
    while c < n
        invariant
            c <= n,
            inst_index < data.character_instances.len(),
            comms == data.character_instances@[inst_index as int].communication@,
            n == comms.len(),
            pr == ran_out(now),
            found is None ==> first_index(comms, pr, 0) == first_index(comms, pr, c as nat),
            found matches Some(f) ==> f < c && first_index(comms, pr, 0) == Some(f as int),
        decreases n - c,
    {
        if found.is_none() && earlier(data.character_instances[inst_index].communication[c].end_time, now) {
            found = Some(c);
        }
        c = c + 1;
    }
    match found {
        Some(f) => {
            let player = data.character_instances[inst_index].communication[f].player_index;
            proof {
                assert(comms[f as int] == data.character_instances@[inst_index as int].communication@[f as int]);
            }
            let mut p = data.character_instances.remove(player);
            p.communication = Vec::new();
            p.multi_choice_data = Vec::new();
            data.character_instances.insert(player, p);
            let mut npc = data.character_instances.remove(inst_index);
            npc.communication.remove(f);
            let goes_on = npc.communication.len() > 0;
            data.character_instances.insert(inst_index, npc);
            !goes_on
        },
        None => n == 0,
    }
}

// ---------------------------------------------------------------------------
// Trees an instance runs

/// Whether an NPC runs the tree every tick: its "execute" setting is missing, not a
/// number, or 0.
pub open spec fn runs_always(behaviors: Seq<GameBehaviorData>, behavior_id: u128, tree: u128) -> bool {
    match node_value(behaviors, (behavior_id, tree), "execute"@) {
        Some(v) => match spec_integer(v) {
            Some(i) => i == 0,
            None => true,
        },
        None => true,
    }
}

/// The first k trees of an NPC that run every tick.
pub open spec fn always_trees(behaviors: Seq<GameBehaviorData>, behavior_id: u128, trees: Seq<u128>, k: nat) -> Seq<u128>
    decreases k,
{
    if k == 0 {
        Seq::empty()
    } else {
        always_trees(behaviors, behavior_id, trees, (k - 1) as nat) + if runs_always(behaviors, behavior_id, trees[k - 1]) {
            seq![trees[k - 1]]
        } else {
            Seq::empty()
        }
    }
}

/// Decides which trees an NPC runs this tick: a locked tree alone, else each of its
/// trees that runs every tick.
pub fn npc_trees(behaviors: &Vec<GameBehaviorData>, behavior_id: u128, tree_ids: &Vec<u128>, locked_tree: Option<u128>) -> (r: Vec<u128>)
    ensures
        r@ == match locked_tree {
            Some(t) => seq![t],
            None => always_trees(behaviors@, behavior_id, tree_ids@, tree_ids@.len()),
        },
{
    let mut r: Vec<u128> = Vec::new();
    match locked_tree {
        Some(t) => {
            r.push(t);
            assert(r@ =~= seq![t]);
            r
        },
        None => {
            let mut k: usize = 0;
            while k < tree_ids.len()
                invariant
                    k <= tree_ids.len(),
                    r@ == always_trees(behaviors@, behavior_id, tree_ids@, k as nat),
                decreases tree_ids.len() - k,
            {
                let runs = match get_node_value2((behavior_id, tree_ids[k]), "execute", behaviors) {
                    Some(v) => match v.to_integer() {
                        Some(i) => i == 0,
                        None => true,
                    },
                    None => true,
                };
                if runs {
                    r.push(tree_ids[k]);
                }
                k = k + 1;
                assert(r@ =~= always_trees(behaviors@, behavior_id, tree_ids@, k as nat));
            }
            r
        },
    }
}

/// Whether a tree's node in the behavior has the action's name.
pub open spec fn names_action(behaviors: Seq<GameBehaviorData>, behavior_id: u128, action: Seq<char>) -> spec_fn(u128, int) -> bool {
    |t: u128, k: int| match crate::behavior::find_behavior(behaviors, behavior_id) {
        Some(b) => match find_node(b.nodes@, t) {
            Some(n) => n.name@ == action,
            None => false,
        },
        None => false,
    }
}

/// Finds the tree a player's directed action runs: the first of its trees named after
/// the action.
pub fn action_tree(behaviors: &Vec<GameBehaviorData>, behavior_id: u128, tree_ids: &Vec<u128>, action: &String) -> (r: Option<u128>)
    ensures
        r == match first_index(tree_ids@, names_action(behaviors@, behavior_id, action@), 0) {
            Some(k) => Some(tree_ids@[k]),
            None => None,
        },
{
    let ghost p = names_action(behaviors@, behavior_id, action@);
    let b = behavior_index(behaviors, behavior_id);
    let mut k: usize = 0;
    while k < tree_ids.len()
        invariant
            k <= tree_ids.len(),
            p == names_action(behaviors@, behavior_id, action@),
            match b {
                Some(i) => i < behaviors.len() && crate::behavior::find_behavior(behaviors@, behavior_id) == Some(behaviors@[i as int]),
                None => crate::behavior::find_behavior(behaviors@, behavior_id) is None,
            },
            first_index(tree_ids@, p, 0) == first_index(tree_ids@, p, k as nat),
        decreases tree_ids.len() - k,
    {
        let hit = match b {
            Some(i) => match node_index(&behaviors[i].nodes, tree_ids[k]) {
                Some(n) => behaviors[i].nodes[n].name == *action,
                None => false,
            },
            None => false,
        };
        if hit {
            return Some(tree_ids[k]);
        }
        k = k + 1;
    }
    None
}

/// Whether a node is a tree named "cast" in any case.
pub open spec fn is_cast_tree(n: BehaviorNode) -> bool {
    n.behavior_type == BehaviorNodeType::BehaviorTree && lowercase(n.name@) == "cast"@
}

/// The last cast tree among the first k nodes of a spell, as (spell, tree), after `found`.
pub open spec fn last_cast_in(b: GameBehaviorData, found: Option<(u128, u128)>, k: nat) -> Option<(u128, u128)>
    decreases k,
{
    if k == 0 {
        found
    } else {
        let n = b.nodes@[k - 1];
        if is_cast_tree(n) {
            Some((b.id, n.id))
        } else {
            last_cast_in(b, found, (k - 1) as nat)
        }
    }
}

/// The cast tree of the last of the first k spells with the name (in any case) that has
/// one.
pub open spec fn cast_tree_of(spells: Seq<GameBehaviorData>, name: Seq<char>, k: nat) -> Option<(u128, u128)>
    decreases k,
{
    if k == 0 {
        None
    } else {
        let b = spells[k - 1];
        let before = cast_tree_of(spells, name, (k - 1) as nat);
        if lowercase(b.name@) == lowercase(name) {
            last_cast_in(b, before, b.nodes@.len())
        } else {
            before
        }
    }
}

/// Finds the tree a cast of the named spell runs: the "cast" tree (in any case) of the
/// spells with the name (in any case), the last one found.
pub fn spell_cast_tree(spells: &Vec<GameBehaviorData>, spell_name: &String) -> (r: Option<(u128, u128)>)
    ensures
        r == cast_tree_of(spells@, spell_name@, spells@.len()),
{
    let name = to_lowercase(spell_name.as_str());
    let cast = String::from_str("cast");
    let mut found: Option<(u128, u128)> = None;
    let mut i: usize = 0;
    while i < spells.len()
        invariant
            i <= spells.len(),
            name@ == lowercase(spell_name@),
            cast@ == "cast"@,
            found == cast_tree_of(spells@, spell_name@, i as nat),
        decreases spells.len() - i,
    {
        let b = &spells[i];
        if to_lowercase(b.name.as_str()) == name {
            let ghost before = found;
            let mut j: usize = 0;
            while j < b.nodes.len()
                invariant
                    j <= b.nodes.len(),
                    cast@ == "cast"@,
                    found == last_cast_in(*b, before, j as nat),
                decreases b.nodes.len() - j,
            {
                let n = &b.nodes[j];
                if n.behavior_type == BehaviorNodeType::BehaviorTree && to_lowercase(n.name.as_str()) == cast {
                    found = Some((b.id, n.id));
                }
                j = j + 1;
            }
        }
        i = i + 1;
    }
    found
}

} // verus!

verus! {

// ---------------------------------------------------------------------------
// Which instances act

/// Whether an instance acts this tick: a sleeping one does not, nor a purged one, nor a
/// killed non player character.
pub open spec fn acts(state: BehaviorInstanceState, instance_type: BehaviorInstanceType, sleeping: bool) -> bool {
    !sleeping && state != BehaviorInstanceState::Purged
        && !(state == BehaviorInstanceState::Killed && instance_type == BehaviorInstanceType::NonPlayerCharacter)
}

/// Decides whether an instance acts this tick; see [`acts`].
pub fn instance_acts(state: BehaviorInstanceState, instance_type: BehaviorInstanceType, sleeping: bool) -> (r: bool)
    ensures
        r == acts(state, instance_type, sleeping),
{
    !sleeping && state != BehaviorInstanceState::Purged
        && !(state == BehaviorInstanceState::Killed && instance_type == BehaviorInstanceType::NonPlayerCharacter)
}

// ---------------------------------------------------------------------------
// Player actions on inventory items and conversations

/// The trees among the first k nodes of an item named after the action.
pub open spec fn item_trees_named(b: GameBehaviorData, action: Seq<char>, k: nat) -> Seq<(u128, u128)>
    decreases k,
{
    if k == 0 {
        Seq::empty()
    } else {
        let n = b.nodes@[k - 1];
        item_trees_named(b, action, (k - 1) as nat) + if n.behavior_type == BehaviorNodeType::BehaviorTree && n.name@ == action {
            seq![(b.id, n.id)]
        } else {
            Seq::empty()
        }
    }
}

/// Finds the trees an action on an inventory item runs: all trees of the item's
/// behavior named after the action, in order.
pub fn item_action_trees(items: &Vec<GameBehaviorData>, item_id: u128, action: &String) -> (r: Vec<(u128, u128)>)
    ensures
        r@ == match crate::behavior::find_behavior(items@, item_id) {
            Some(b) => item_trees_named(b, action@, b.nodes@.len()),
            None => Seq::empty(),
        },
{
    let mut r: Vec<(u128, u128)> = Vec::new();
    match behavior_index(items, item_id) {
        Some(i) => {
            let b = &items[i];
            let mut k: usize = 0;
            while k < b.nodes.len()
                invariant
                    k <= b.nodes.len(),
                    r@ == item_trees_named(*b, action@, k as nat),
                decreases b.nodes.len() - k,
            {
                if b.nodes[k].behavior_type == BehaviorNodeType::BehaviorTree && b.nodes[k].name == *action {
                    r.push((b.id, b.nodes[k].id));
                }
                k = k + 1;
                assert(r@ =~= item_trees_named(*b, action@, k as nat));
            }
            r
        },
        None => r,
    }
}

/// Records a player's answer in a conversation: with a conversation going on, the
/// answer is kept and the tree of the NPC the conversation belongs to is returned, to be
/// run before [`end_conversation`].
pub fn answer_multi_choice(data: &mut RegionData, inst_index: usize, answer: u128) -> (r: Option<(u128, u128)>)
    requires
        inst_index < old(data).character_instances.len(),
    ensures
        same_but_instances(*old(data), *final(data)),
        ({
            let o = old(data).character_instances@[inst_index as int];
            if o.communication@.len() > 0 {
                &&& r == Some(o.communication@[0].npc_behavior_id)
                &&& final(data).character_instances@ == old(data).character_instances@.update(
                    inst_index as int,
                    BehaviorInstance { multi_choice_answer: Some(answer), ..o },
                )
            } else {
                r is None && *final(data) == *old(data)
            }
        }),
{
    if data.character_instances[inst_index].communication.len() > 0 {
        let tree = data.character_instances[inst_index].communication[0].npc_behavior_id;
        let mut inst = data.character_instances.remove(inst_index);
        inst.multi_choice_answer = Some(answer);
        data.character_instances.insert(inst_index, inst);
        assert(data.character_instances@ =~= old(data).character_instances@.update(inst_index as int, inst));
        Some(tree)
    } else {
        None
    }
}

/// Ends the player's conversation after its answer: the conversation and the target go.
pub fn end_conversation(data: &mut RegionData, inst_index: usize)
    requires
        inst_index < old(data).character_instances.len(),
    ensures
        same_but_instances(*old(data), *final(data)),
        final(data).character_instances@.len() == old(data).character_instances@.len(),
        forall|k: int| 0 <= k < old(data).character_instances@.len() && k != inst_index
            ==> final(data).character_instances@[k] == old(data).character_instances@[k],
        ({
            let n = final(data).character_instances@[inst_index as int];
            let o = old(data).character_instances@[inst_index as int];
            &&& n.communication@.len() == 0
            &&& n.target_instance_index is None
            &&& n == (BehaviorInstance { communication: n.communication, target_instance_index: None, ..o })
        }),
{
    let mut inst = data.character_instances.remove(inst_index);
    inst.communication = Vec::new();
    inst.target_instance_index = None;
    data.character_instances.insert(inst_index, inst);
}

} // verus!
