use vstd::prelude::*;
use crate::types::Position;
use crate::value::spec_text;
use crate::region::{RegionData, GameRegionArea, BehaviorInstance, BehaviorInstanceState, Item};
use crate::behavior::{
    BehaviorNodeType, BehaviorNode, GameBehaviorData, find_value, find_node, find_behavior,
    value_index, node_index, behavior_index,
};

verus! {

/// The first index from i on whose element satisfies the predicate.
pub open spec fn first_index<A>(s: Seq<A>, p: spec_fn(A, int) -> bool, i: nat) -> Option<int>
    decreases s.len() - i,
{
    if i >= s.len() {
        None
    } else if p(s[i as int], i as int) {
        Some(i as int)
    } else {
        first_index(s, p, i + 1)
    }
}

/// What a targeted action runs.
#[derive(PartialEq, Eq, Structural, Clone, Copy, Debug)]
pub enum ActionTarget {
    /// The action node of an area: the area's behavior, the area's index and the node.
    Area(u128, usize, u128),
    /// A tree of an item lying there: the loot entry, the item's index in it, the item's
    /// behavior and the tree.
    Item(usize, usize, u128, u128),
    /// A tree of a character standing there: its instance, its behavior and the tree.
    Character(usize, u128, u128),
    /// Nothing answers the action.
    Nothing,
}

// ---------------------------------------------------------------------------
// Areas

/// The action-area nodes among the first k nodes of an area's behavior.
pub open spec fn action_nodes(nodes: Seq<BehaviorNode>, bid: u128, idx: usize, k: nat) -> Seq<(u128, usize, u128)>
    decreases k,
{
    if k == 0 {
        Seq::empty()
    } else {
        action_nodes(nodes, bid, idx, (k - 1) as nat) + if nodes[k - 1].behavior_type == BehaviorNodeType::ActionArea {
            seq![(bid, idx, nodes[k - 1].id)]
        } else {
            Seq::empty()
        }
    }
}

/// The action nodes of an area, once for each of its first c cells at (x, y).
pub open spec fn cell_candidates(
    area: GameRegionArea,
    idx: usize,
    behaviors: Seq<GameBehaviorData>,
    x: isize,
    y: isize,
    c: nat,
) -> Seq<(u128, usize, u128)>
    decreases c,
{
    if c == 0 {
        Seq::empty()
    } else {
        cell_candidates(area, idx, behaviors, x, y, (c - 1) as nat) + if area.area@[c - 1] == (x, y) && idx < behaviors.len() {
            action_nodes(behaviors[idx as int].nodes@, area.behavior, idx, behaviors[idx as int].nodes@.len())
        } else {
            Seq::empty()
        }
    }
}

/// The action nodes of the first a areas at (x, y).
pub open spec fn area_candidates(
    areas: Seq<GameRegionArea>,
    behaviors: Seq<GameBehaviorData>,
    x: isize,
    y: isize,
    a: nat,
) -> Seq<(u128, usize, u128)>
    decreases a,
{
    if a == 0 {
        Seq::empty()
    } else {
        let area = areas[a - 1];
        area_candidates(areas, behaviors, x, y, (a - 1) as nat)
            + cell_candidates(area, (a - 1) as usize, behaviors, x, y, area.area@.len())
    }
}

/// The "action" text of a node of an area's behavior.
pub open spec fn area_action(behaviors: Seq<GameBehaviorData>, c: (u128, usize, u128)) -> Option<Seq<char>> {
    match find_node(behaviors[c.1 as int].nodes@, c.2) {
        Some(n) => match find_value(n.values@, "action"@) {
            Some(v) => spec_text(v),
            None => None,
        },
        None => None,
    }
}

/// Whether a candidate's action is the given one.
pub open spec fn has_action(behaviors: Seq<GameBehaviorData>, action: Seq<char>) -> spec_fn((u128, usize, u128), int) -> bool {
    |c: (u128, usize, u128), k: int| area_action(behaviors, c) == Some(action)
}

/// The first candidate whose action is the given one.
pub open spec fn area_target(
    areas: Seq<GameRegionArea>,
    behaviors: Seq<GameBehaviorData>,
    dp: Position,
    action: Seq<char>,
) -> Option<(u128, usize, u128)> {
    let cands = area_candidates(areas, behaviors, dp.x, dp.y, areas.len());
    match first_index(cands, has_action(behaviors, action), 0) {
        Some(k) => Some(cands[k]),
        None => None,
    }
}

fn push_action_nodes(v: &mut Vec<(u128, usize, u128)>, b: &GameBehaviorData, bid: u128, idx: usize)
    ensures
        final(v)@ == old(v)@ + action_nodes(b.nodes@, bid, idx, b.nodes@.len()),
        forall|k: int| old(v)@.len() <= k < final(v)@.len() ==> final(v)@[k].1 == idx,
{
    let ghost start = v@;
    let mut k: usize = 0;
    assert(v@ =~= start + action_nodes(b.nodes@, bid, idx, 0));
    while k < b.nodes.len()
        invariant
            k <= b.nodes.len(),
            v@ == start + action_nodes(b.nodes@, bid, idx, k as nat),
            start == old(v)@,
            forall|j: int| start.len() <= j < v@.len() ==> v@[j].1 == idx,
        decreases b.nodes.len() - k,
    {
        if b.nodes[k].behavior_type == BehaviorNodeType::ActionArea {
            v.push((bid, idx, b.nodes[k].id));
        }
        k = k + 1;
        assert(v@ =~= start + action_nodes(b.nodes@, bid, idx, k as nat));
    }
}

fn collect_area_candidates(areas: &Vec<GameRegionArea>, behaviors: &Vec<GameBehaviorData>, x: isize, y: isize) -> (v: Vec<(u128, usize, u128)>)
    ensures
        v@ == area_candidates(areas@, behaviors@, x, y, areas@.len()),
        forall|k: int| 0 <= k < v@.len() ==> v@[k].1 < behaviors@.len(),
{
    let mut v: Vec<(u128, usize, u128)> = Vec::new();
    let mut a: usize = 0;
    while a < areas.len()
        invariant
            a <= areas.len(),
            v@ == area_candidates(areas@, behaviors@, x, y, a as nat),
            forall|k: int| 0 <= k < v@.len() ==> v@[k].1 < behaviors@.len(),
        decreases areas.len() - a,
    {
        let area = &areas[a];
        let ghost start = v@;
        let mut c: usize = 0;
        assert(v@ =~= start + cell_candidates(*area, a, behaviors@, x, y, 0));
        while c < area.area.len()
            invariant
                a < areas.len(),
                *area == areas@[a as int],
                c <= area.area.len(),
                v@ == start + cell_candidates(*area, a, behaviors@, x, y, c as nat),
                forall|k: int| 0 <= k < v@.len() ==> v@[k].1 < behaviors@.len(),
            decreases area.area.len() - c,
        {
            let cell = area.area[c];
            if cell.0 == x && cell.1 == y && a < behaviors.len() {
                push_action_nodes(&mut v, &behaviors[a], area.behavior, a);
            }
            c = c + 1;
            assert(v@ =~= start + cell_candidates(*area, a, behaviors@, x, y, c as nat));
        }
        a = a + 1;
        assert(v@ =~= area_candidates(areas@, behaviors@, x, y, a as nat));
    }
    v
}

/// Reads the action of a candidate node.
fn read_area_action(behaviors: &Vec<GameBehaviorData>, c: (u128, usize, u128)) -> (r: Option<String>)
    requires
        c.1 < behaviors.len(),
    ensures
        match r {
            Some(s) => area_action(behaviors@, c) == Some(s@),
            None => area_action(behaviors@, c) is None,
        },
{
    let key = String::from_str("action");
    match node_index(&behaviors[c.1].nodes, c.2) {
        Some(n) => match value_index(&behaviors[c.1].nodes[n].values, &key) {
            Some(i) => behaviors[c.1].nodes[n].values[i].value.to_string(),
            None => None,
        },
        None => None,
    }
}

// ---------------------------------------------------------------------------
// Items and characters

/// Whether a node is a tree with the name.
pub open spec fn is_tree_named(name: Seq<char>) -> spec_fn(BehaviorNode, int) -> bool {
    |n: BehaviorNode, k: int| n.behavior_type == BehaviorNodeType::BehaviorTree && n.name@ == name
}

/// The first tree node with the name.
pub open spec fn named_tree(nodes: Seq<BehaviorNode>, name: Seq<char>) -> Option<u128> {
    match first_index(nodes, is_tree_named(name), 0) {
        Some(k) => Some(nodes[k].id),
        None => None,
    }
}

/// The tree of an item's behavior with the name.
pub open spec fn item_tree(behaviors: Seq<GameBehaviorData>, it: Item, name: Seq<char>) -> Option<(u128, u128)> {
    match find_behavior(behaviors, it.id) {
        Some(b) => match named_tree(b.nodes@, name) {
            Some(t) => Some((b.id, t)),
            None => None,
        },
        None => None,
    }
}

/// Whether the instance is another character standing at the position.
pub open spec fn stands_at(curr: usize, dp: Position) -> spec_fn(BehaviorInstance, int) -> bool {
    |inst: BehaviorInstance, k: int| k != curr && inst.state == BehaviorInstanceState::Normal && inst.position == Some(dp)
}

/// Whether a loot entry lies at the position.
pub open spec fn lies_at(dp: Position) -> spec_fn(crate::region::LootEntry, int) -> bool {
    |e: crate::region::LootEntry, k: int| e.x == dp.x && e.y == dp.y
}

/// Whether an item's behavior has a tree with the name.
pub open spec fn has_tree(items: Seq<GameBehaviorData>, name: Seq<char>) -> spec_fn(Item, int) -> bool {
    |it: Item, k: int| item_tree(items, it, name) is Some
}

/// Finds the first tree node with the name.
fn find_named_tree(nodes: &Vec<BehaviorNode>, name: &String) -> (r: Option<u128>)
    ensures
        r == named_tree(nodes@, name@),
{
    let ghost p = is_tree_named(name@);
    let mut i: usize = 0;
    while i < nodes.len()
        invariant
            i <= nodes.len(),
            p == is_tree_named(name@),
            first_index(nodes@, p, 0) == first_index(nodes@, p, i as nat),
        decreases nodes.len() - i,
    {
        if nodes[i].behavior_type == BehaviorNodeType::BehaviorTree && nodes[i].name == *name {
            return Some(nodes[i].id);
        }
        i = i + 1;
    }
    None
}

/// Finds the tree of an item's behavior with the name.
fn find_item_tree(behaviors: &Vec<GameBehaviorData>, it: &Item, name: &String) -> (r: Option<(u128, u128)>)
    ensures
        r == item_tree(behaviors@, *it, name@),
{
    match behavior_index(behaviors, it.id) {
        Some(b) => match find_named_tree(&behaviors[b].nodes, name) {
            Some(t) => Some((behaviors[b].id, t)),
            None => None,
        },
        None => None,
    }
}

/// What a targeted action at dp runs: the first action-area node at dp whose action is
/// the one given; else the first tree with the action's name of an item lying at dp;
/// else the tree named after the action with " (P)" of the first other character
/// standing at dp.
pub open spec fn targeted_action(
    data: RegionData,
    items: Seq<GameBehaviorData>,
    behaviors: Seq<GameBehaviorData>,
    action: Seq<char>,
    dp: Position,
) -> ActionTarget {
    match area_target(data.region_data.areas@, data.region_area_behavior@, dp, action) {
        Some(c) => ActionTarget::Area(c.0, c.1, c.2),
        None => {
            let loot = data.loot@;
            let li = first_index(loot, lies_at(dp), 0);
            let from_items = match li {
                Some(li) => {
                    let its = loot[li].items@;
                    match first_index(its, has_tree(items, action), 0) {
                        Some(ii) => {
                            let t = item_tree(items, its[ii], action).unwrap();
                            Some(ActionTarget::Item(li as usize, ii as usize, t.0, t.1))
                        },
                        None => None,
                    }
                },
                None => None,
            };
            match from_items {
                Some(t) => t,
                None => {
                    let insts = data.character_instances@;
                    match first_index(insts, stands_at(data.curr_index, dp), 0) {
                        Some(k) => match find_behavior(behaviors, insts[k].behavior_id) {
                            Some(b) => match named_tree(b.nodes@, action + " (P)"@) {
                                Some(t) => ActionTarget::Character(k as usize, b.id, t),
                                None => ActionTarget::Nothing,
                            },
                            None => ActionTarget::Nothing,
                        },
                        None => ActionTarget::Nothing,
                    }
                },
            }
        },
    }
}

/// Finds what an action of the current character in the direction of dp runs (see
/// [`targeted_action`]), checking areas, lying items and characters in that order.
/// For an area node the current character becomes the one whose action the area runs;
/// for a character's tree that character becomes the current character's target. The
/// caller runs the node and answers `Success`, or `Fail` where nothing answers.
pub fn find_targeted_action(
    action_name: String,
    dp: Option<Position>,
    items: &Vec<GameBehaviorData>,
    behaviors: &Vec<GameBehaviorData>,
    data: &mut RegionData,
) -> (r: ActionTarget)
    requires
        old(data).curr_index < old(data).character_instances.len(),
    ensures
        dp is None ==> r == ActionTarget::Nothing && *final(data) == *old(data),
        dp matches Some(p) ==> r == targeted_action(*old(data), items@, behaviors@, action_name@, p),
        r matches ActionTarget::Area(_, _, _) ==> *final(data) == (RegionData {
            curr_action_character_index: Some(old(data).curr_index),
            ..*old(data)
        }),
        r matches ActionTarget::Character(k, _, _) ==> {
            let ci = old(data).curr_index as int;
            &&& *final(data) == (RegionData { character_instances: final(data).character_instances, ..*old(data) })
            &&& final(data).character_instances@ == old(data).character_instances@.update(ci, BehaviorInstance {
                target_instance_index: Some(k),
                ..old(data).character_instances@[ci]
            })
        },
        (r is Item || r is Nothing) ==> *final(data) == *old(data),
{
    let dpos = match dp {
        Some(p) => p,
        None => return ActionTarget::Nothing,
    };

    // Areas
    let cands = collect_area_candidates(&data.region_data.areas, &data.region_area_behavior, dpos.x, dpos.y);
    let ghost pa = has_action(data.region_area_behavior@, action_name@);
    let mut i: usize = 0;
    while i < cands.len()
        invariant
            i <= cands.len(),
            *data == *old(data),
            dp == Some(dpos),
            data.curr_index < data.character_instances.len(),
            cands@ == area_candidates(data.region_data.areas@, data.region_area_behavior@, dpos.x, dpos.y, data.region_data.areas@.len()),
            pa == has_action(data.region_area_behavior@, action_name@),
            first_index(cands@, pa, 0) == first_index(cands@, pa, i as nat),
            forall|k: int| 0 <= k < cands@.len() ==> cands@[k].1 < data.region_area_behavior@.len(),
        decreases cands.len() - i,
    {
        let c = cands[i];
        let matched = match read_area_action(&data.region_area_behavior, c) {
            Some(a) => a == action_name,
            None => false,
        };
        if matched {
            assert(pa(cands@[i as int], i as int));
            assert(first_index(cands@, pa, i as nat) == Some(i as int));
            assert(area_target(data.region_data.areas@, data.region_area_behavior@, dpos, action_name@) == Some(c));
            assert(targeted_action(*data, items@, behaviors@, action_name@, dpos) == ActionTarget::Area(c.0, c.1, c.2));
            let ghost before = *data;
            data.curr_action_character_index = Some(data.curr_index);
            assert(*data == (RegionData { curr_action_character_index: Some(before.curr_index), ..before }));
            return ActionTarget::Area(c.0, c.1, c.2);
        }
        assert(!pa(cands@[i as int], i as int));
        i = i + 1;
    }
    assert(first_index(cands@, pa, cands@.len() as nat) is None);
    assert(area_target(data.region_data.areas@, data.region_area_behavior@, dpos, action_name@) is None);

    // Lying items
    let ghost pl = lies_at(dpos);
    let mut li: usize = 0;
    let mut found_loot: Option<usize> = None;
    while li < data.loot.len()
        invariant
            li <= data.loot.len(),
            *data == *old(data),
            dp == Some(dpos),
            data.curr_index < data.character_instances.len(),
            pl == lies_at(dpos),
            found_loot is None ==> first_index(data.loot@, pl, 0) == first_index(data.loot@, pl, li as nat),
            found_loot matches Some(l) ==> l < li && first_index(data.loot@, pl, 0) == Some(l as int),
        decreases data.loot.len() - li,
    {
        if found_loot.is_none() && data.loot[li].x == dpos.x && data.loot[li].y == dpos.y {
            found_loot = Some(li);
        }
        li = li + 1;
    }
    match found_loot {
        Some(l) => {
            let its = &data.loot[l].items;
            let ghost pi = has_tree(items@, action_name@);
            let mut ii: usize = 0;
            while ii < its.len()
                invariant
                    l < data.loot.len(),
                    *data == *old(data),
                    dp == Some(dpos),
            dp == Some(dpos),
                    data.curr_index < data.character_instances.len(),
                    first_index(data.loot@, pl, 0) == Some(l as int),
                    area_target(data.region_data.areas@, data.region_area_behavior@, dpos, action_name@) is None,
                    pl == lies_at(dpos),
                    *its == data.loot@[l as int].items,
                    ii <= its.len(),
                    pi == has_tree(items@, action_name@),
                    first_index(its@, pi, 0) == first_index(its@, pi, ii as nat),
                decreases its.len() - ii,
            {
                match find_item_tree(items, &its[ii], &action_name) {
                    Some(t) => {
                        assert(pi(its@[ii as int], ii as int));
                        assert(first_index(its@, pi, ii as nat) == Some(ii as int));
                        assert(targeted_action(*data, items@, behaviors@, action_name@, dpos) == ActionTarget::Item(l, ii, t.0, t.1));
                        return ActionTarget::Item(l, ii, t.0, t.1);
                    },
                    None => {},
                }
                ii = ii + 1;
            }
            assert(first_index(its@, pi, its@.len() as nat) is None);
        },
        None => {},
    }

    // Characters
    let curr = data.curr_index;
    let ghost pc = stands_at(curr, dpos);
    let mut k: usize = 0;
    let mut at: Option<usize> = None;
    while k < data.character_instances.len()
        invariant
            k <= data.character_instances.len(),
            *data == *old(data),
            dp == Some(dpos),
            curr == data.curr_index,
            curr < data.character_instances.len(),
            pc == stands_at(curr, dpos),
            at is None ==> first_index(data.character_instances@, pc, 0) == first_index(data.character_instances@, pc, k as nat),
            at matches Some(a) ==> a < k && first_index(data.character_instances@, pc, 0) == Some(a as int),
        decreases data.character_instances.len() - k,
    {
        let inst = &data.character_instances[k];
        let here = match inst.position {
            Some(pos) => pos == dpos,
            None => false,
        };
        if at.is_none() && k != curr && inst.state == BehaviorInstanceState::Normal && here {
            at = Some(k);
        }
        k = k + 1;
    }
    assert(at is None ==> first_index(data.character_instances@, pc, data.character_instances@.len() as nat) is None);
    match at {
        Some(a) => {
            match behavior_index(behaviors, data.character_instances[a].behavior_id) {
                Some(b) => {
                    let mut name = action_name.clone();
                    name.append(" (P)");
                    match find_named_tree(&behaviors[b].nodes, &name) {
                        Some(t) => {
                            let mut me = data.character_instances.remove(curr);
                            me.target_instance_index = Some(a);
                            data.character_instances.insert(curr, me);
                            ActionTarget::Character(a, behaviors[b].id, t)
                        },
                        None => ActionTarget::Nothing,
                    }
                },
                None => ActionTarget::Nothing,
            }
        },
        None => ActionTarget::Nothing,
    }
}

} // verus!
