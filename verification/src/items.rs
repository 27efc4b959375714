use vstd::prelude::*;
use crate::value::{spec_integer, spec_text};
use crate::behavior::{
    BehaviorType, BehaviorNodeType, BehaviorNodeConnector, BehaviorNode, GameBehaviorData,
    find_value, find_node, find_behavior, value_index, node_index, behavior_index,
};
use crate::instance::RegionInstance;

verus! {

/// The text of an optional string.
pub open spec fn opt_text(s: Option<String>) -> Option<Seq<char>> {
    match s {
        Some(s) => Some(s@),
        None => None,
    }
}

/// The settings text of a node: the "settings" string of a behavior-type node.
pub open spec fn settings_of(n: BehaviorNode) -> Option<Seq<char>> {
    if n.behavior_type == BehaviorNodeType::BehaviorType {
        match find_value(n.values@, "settings"@) {
            Some(v) => spec_text(v),
            None => None,
        }
    } else {
        None
    }
}

/// The settings text of the first node that has one.
pub open spec fn first_settings(nodes: Seq<BehaviorNode>) -> Option<Seq<char>>
    decreases nodes.len(),
{
    if nodes.len() == 0 {
        None
    } else {
        match settings_of(nodes[0]) {
            Some(t) => Some(t),
            None => first_settings(nodes.drop_first()),
        }
    }
}

/// The settings text of the last of the first n nodes that has one.
pub open spec fn last_settings(nodes: Seq<BehaviorNode>, n: nat) -> Option<Seq<char>>
    decreases n,
{
    if n == 0 {
        None
    } else {
        match settings_of(nodes[n - 1]) {
            Some(t) => Some(t),
            None => last_settings(nodes, (n - 1) as nat),
        }
    }
}

/// Reads the settings text of a node.
fn node_settings(n: &BehaviorNode) -> (r: Option<String>)
    ensures
        opt_text(r) == settings_of(*n),
{
    if n.behavior_type == BehaviorNodeType::BehaviorType {
        let key = String::from_str("settings");
        match value_index(&n.values, &key) {
            Some(i) => n.values[i].value.to_string(),
            None => None,
        }
    } else {
        None
    }
}

/// Returns the settings text of the item with the id, from which its property sink is
/// loaded: that of the first behavior-type node.
pub fn get_item_sink(data: &RegionInstance, id: u128) -> (r: Option<String>)
    ensures
        opt_text(r) == (match find_behavior(data.items@, id) {
            Some(b) => first_settings(b.nodes@),
            None => None,
        }),
{
    match behavior_index(&data.items, id) {
        Some(b) => {
            let nodes = &data.items[b].nodes;
            let mut i: usize = 0;
            assert(nodes@.skip(0) =~= nodes@);
            while i < nodes.len()
                invariant
                    i <= nodes.len(),
                    b < data.items.len(),
                    find_behavior(data.items@, id) == Some(data.items@[b as int]),
                    nodes@ == data.items@[b as int].nodes@,
                    first_settings(nodes@) == first_settings(nodes@.skip(i as int)),
                decreases nodes.len() - i,
            {
                assert(nodes@.skip(i as int).drop_first() =~= nodes@.skip(i + 1));
                assert(nodes@.skip(i as int)[0] == nodes@[i as int]);
                let s = node_settings(&nodes[i]);
                if s.is_some() {
                    return s;
                }
                i = i + 1;
            }
            None
        },
        None => None,
    }
}

/// The settings text an item's state is created from: that of the last behavior-type node.
pub open spec fn item_state_settings_of(items: Seq<GameBehaviorData>, id: u128) -> Option<Seq<char>> {
    match find_behavior(items, id) {
        Some(b) => last_settings(b.nodes@, b.nodes@.len()),
        None => None,
    }
}

/// Returns the settings text from which the state of the item is created: that of its
/// last behavior-type node.
pub fn item_state_settings(items: &Vec<GameBehaviorData>, item_behavior_id: u128) -> (r: Option<String>)
    ensures
        opt_text(r) == item_state_settings_of(items@, item_behavior_id),
{
    match behavior_index(items, item_behavior_id) {
        Some(b) => {
            let nodes = &items[b].nodes;
            let mut rc: Option<String> = None;
            let mut i: usize = 0;
            while i < nodes.len()
                invariant
                    i <= nodes.len(),
                    opt_text(rc) == last_settings(nodes@, i as nat),
                decreases nodes.len() - i,
            {
                let s = node_settings(&nodes[i]);
                if s.is_some() {
                    rc = s;
                }
                i = i + 1;
            }
            rc
        },
        None => None,
    }
}

/// The startup marks of a tree node: one per "execute" value that equals one.
pub open spec fn execute_marks(values: Seq<crate::behavior::NodeValue>, tree: (u128, u128), n: nat) -> Seq<(u128, u128)>
    decreases n,
{
    if n == 0 {
        Seq::empty()
    } else {
        execute_marks(values, tree, (n - 1) as nat) + if values[n - 1].name@ == "execute"@
            && spec_integer(values[n - 1].value) == Some(1i32) {
            seq![tree]
        } else {
            Seq::empty()
        }
    }
}

/// The startup trees among the first n nodes of the behavior.
pub open spec fn startup_trees(b: GameBehaviorData, n: nat) -> Seq<(u128, u128)>
    decreases n,
{
    if n == 0 {
        Seq::empty()
    } else {
        let node = b.nodes@[n - 1];
        startup_trees(b, (n - 1) as nat) + if node.behavior_type == BehaviorNodeType::BehaviorTree {
            execute_marks(node.values@, (b.id, node.id), node.values@.len())
        } else {
            Seq::empty()
        }
    }
}

/// The nodes among the first n whose name is the given one.
pub open spec fn named_trees(b: GameBehaviorData, name: Option<Seq<char>>, n: nat) -> Seq<(u128, u128)>
    decreases n,
{
    if n == 0 {
        Seq::empty()
    } else {
        let node = b.nodes@[n - 1];
        named_trees(b, name, (n - 1) as nat) + if name == Some(node.name@) {
            seq![(b.id, node.id)]
        } else {
            Seq::empty()
        }
    }
}

/// The trees run to create an item's state: with the state setting on, the startup
/// trees and then the trees named by the item's startup entry; else none.
pub open spec fn state_trees(
    items: Seq<GameBehaviorData>,
    id: u128,
    state_setting: Option<bool>,
    execute_on_startup: Option<Seq<char>>,
) -> Seq<(u128, u128)> {
    match find_behavior(items, id) {
        Some(b) => if state_setting == Some(true) {
            startup_trees(b, b.nodes@.len()) + named_trees(b, execute_on_startup, b.nodes@.len())
        } else {
            Seq::empty()
        },
        None => Seq::empty(),
    }
}

/// Collects the startup marks of a tree node.
fn push_execute_marks(v: &mut Vec<(u128, u128)>, node: &BehaviorNode, bid: u128)
    ensures
        final(v)@ == old(v)@ + execute_marks(node.values@, (bid, node.id), node.values@.len()),
{
    let key = String::from_str("execute");
    let ghost start = v@;
    let mut j: usize = 0;
    assert(v@ =~= start + execute_marks(node.values@, (bid, node.id), 0));
    while j < node.values.len()
        invariant
            j <= node.values.len(),
            key@ == "execute"@,
            v@ == start + execute_marks(node.values@, (bid, node.id), j as nat),
        decreases node.values.len() - j,
    {
        let ghost before = v@;
        if node.values[j].name == key {
            match node.values[j].value.to_integer() {
                Some(x) => {
                    if x == 1 {
                        v.push((bid, node.id));
                    }
                },
                None => {},
            }
        }
        j = j + 1;
        assert(v@ =~= start + execute_marks(node.values@, (bid, node.id), j as nat));
    }
}

/// The `state` property of an item's settings (see [`item_state_settings`]), if it has
/// settings.
pub open spec fn item_state_of(items: Seq<GameBehaviorData>, id: u128) -> Option<bool> {
    match item_state_settings_of(items, id) {
        Some(t) => crate::setup::state_of(t),
        None => None,
    }
}

/// Decides whether the state of an item has to be created and by which trees. The
/// state is created when the item's settings turn `state` on (see [`item_state_of`]):
/// then its startup trees run, then the trees named `execute_on_startup`. Returns the
/// (behavior, tree) pairs to run, in order; none means the item gets no state.
pub fn check_and_create_item_state(
    items: &Vec<GameBehaviorData>,
    item_behavior_id: u128,
    execute_on_startup: Option<String>,
) -> (r: Vec<(u128, u128)>)
    ensures
        r@ == state_trees(items@, item_behavior_id, item_state_of(items@, item_behavior_id), opt_text(execute_on_startup)),
{
    let state_setting = match item_state_settings(items, item_behavior_id) {
        Some(t) => crate::setup::state_setting(&t),
        None => None,
    };
    let mut rc: Vec<(u128, u128)> = Vec::new();
    match behavior_index(items, item_behavior_id) {
        Some(b) => {
            let behavior = &items[b];
            let on = match state_setting {
                Some(s) => s,
                None => false,
            };
            if on {
                let mut i: usize = 0;
                while i < behavior.nodes.len()
                    invariant
                        i <= behavior.nodes.len(),
                        rc@ == startup_trees(*behavior, i as nat),
                    decreases behavior.nodes.len() - i,
                {
                    if behavior.nodes[i].behavior_type == BehaviorNodeType::BehaviorTree {
                        push_execute_marks(&mut rc, &behavior.nodes[i], behavior.id);
                    }
                    i = i + 1;
                    assert(rc@ =~= startup_trees(*behavior, i as nat));
                }
                let ghost first = rc@;
                let mut k: usize = 0;
                assert(rc@ =~= first + named_trees(*behavior, opt_text(execute_on_startup), 0));
                while k < behavior.nodes.len()
                    invariant
                        k <= behavior.nodes.len(),
                        rc@ == first + named_trees(*behavior, opt_text(execute_on_startup), k as nat),
                    decreases behavior.nodes.len() - k,
                {
                    let matches = match &execute_on_startup {
                        Some(name) => behavior.nodes[k].name == *name,
                        None => false,
                    };
                    if matches {
                        rc.push((behavior.id, behavior.nodes[k].id));
                    }
                    k = k + 1;
                    assert(rc@ =~= first + named_trees(*behavior, opt_text(execute_on_startup), k as nat));
                }
            }
            rc
        },
        None => rc,
    }
}

/// The first node of the type.
pub open spec fn first_of_type(nodes: Seq<BehaviorNode>, t: BehaviorNodeType) -> Option<BehaviorNode>
    decreases nodes.len(),
{
    if nodes.len() == 0 {
        None
    } else if nodes[0].behavior_type == t {
        Some(nodes[0])
    } else {
        first_of_type(nodes.drop_first(), t)
    }
}

/// Finds the index of the first node of the type.
pub fn type_index(nodes: &Vec<BehaviorNode>, t: BehaviorNodeType) -> (r: Option<usize>)
    ensures
        match r {
            Some(i) => i < nodes.len() && first_of_type(nodes@, t) == Some(nodes@[i as int]),
            None => first_of_type(nodes@, t) is None,
        },
{
    let mut i: usize = 0;
    assert(nodes@.skip(0) =~= nodes@);
    while i < nodes.len()
        invariant
            i <= nodes.len(),
            first_of_type(nodes@, t) == first_of_type(nodes@.skip(i as int), t),
        decreases nodes.len() - i,
    {
        assert(nodes@.skip(i as int).drop_first() =~= nodes@.skip(i + 1));
        if nodes[i].behavior_type == t {
            return Some(i);
        }
        i = i + 1;
    }
    None
}

/// Returns the name of the skill tree of the item with the id.
pub fn get_item_skill_tree(data: &RegionInstance, id: u128) -> (r: Option<String>)
    ensures
        opt_text(r) == (match find_behavior(data.items@, id) {
            Some(b) => match first_of_type(b.nodes@, BehaviorNodeType::SkillTree) {
                Some(n) => Some(n.name@),
                None => None,
            },
            None => None,
        }),
{
    match behavior_index(&data.items, id) {
        Some(b) => match type_index(&data.items[b].nodes, BehaviorNodeType::SkillTree) {
            Some(n) => Some(data.items[b].nodes[n].name.clone()),
            None => None,
        },
        None => None,
    }
}

// ---------------------------------------------------------------------------
// Skill trees

/// The other end of the first connection that links the node through a bottom connector
/// on its side.
pub open spec fn bottom_link(
    conns: Seq<(u128, BehaviorNodeConnector, u128, BehaviorNodeConnector)>,
    parent: u128,
) -> Option<u128>
    decreases conns.len(),
{
    if conns.len() == 0 {
        None
    } else if conns[0].0 == parent && conns[0].1 == BehaviorNodeConnector::Bottom {
        Some(conns[0].2)
    } else if conns[0].2 == parent && conns[0].3 == BehaviorNodeConnector::Bottom {
        Some(conns[0].0)
    } else {
        bottom_link(conns.drop_first(), parent)
    }
}

/// Finds the other end of the first connection linking the node through a bottom connector.
pub fn find_bottom_link(
    conns: &Vec<(u128, BehaviorNodeConnector, u128, BehaviorNodeConnector)>,
    parent: u128,
) -> (r: Option<u128>)
    ensures
        r == bottom_link(conns@, parent),
{
    let mut i: usize = 0;
    assert(conns@.skip(0) =~= conns@);
    while i < conns.len()
        invariant
            i <= conns.len(),
            bottom_link(conns@, parent) == bottom_link(conns@.skip(i as int), parent),
        decreases conns.len() - i,
    {
        assert(conns@.skip(i as int).drop_first() =~= conns@.skip(i + 1));
        assert(conns@.skip(i as int)[0] == conns@[i as int]);
        let c = conns[i];
        if c.0 == parent && c.1 == BehaviorNodeConnector::Bottom {
            return Some(c.2);
        } else if c.2 == parent && c.3 == BehaviorNodeConnector::Bottom {
            return Some(c.0);
        }
        i = i + 1;
    }
    None
}

/// One step down a skill tree: the node linked below the parent, if it exists.
pub open spec fn skill_step(b: GameBehaviorData, parent: u128) -> Option<u128> {
    match bottom_link(b.connections@, parent) {
        Some(o) => match find_node(b.nodes@, o) {
            Some(n) => Some(n.id),
            None => None,
        },
        None => None,
    }
}

/// The node reached after k steps down from the parent: the last one a step reached,
/// or `rc` where no step did.
pub open spec fn skill_walk(b: GameBehaviorData, parent: u128, k: nat, rc: Option<u128>) -> Option<u128>
    decreases k,
{
    if k == 0 {
        rc
    } else {
        match skill_step(b, parent) {
            Some(o) => skill_walk(b, o, (k - 1) as nat, Some(o)),
            None => skill_walk(b, parent, (k - 1) as nat, rc),
        }
    }
}

/// The number of steps for a skill level: one more than the level, none below zero.
pub open spec fn level_steps(skill_level: i32) -> nat {
    if skill_level < 0 { 0 } else { (skill_level + 1) as nat }
}

/// The first skill tree node with the skill's name.
pub open spec fn skill_tree_named(nodes: Seq<BehaviorNode>, skill: Seq<char>) -> Option<BehaviorNode>
    decreases nodes.len(),
{
    if nodes.len() == 0 {
        None
    } else if nodes[0].behavior_type == BehaviorNodeType::SkillTree && nodes[0].name@ == skill {
        Some(nodes[0])
    } else {
        skill_tree_named(nodes.drop_first(), skill)
    }
}

/// The first item with the name that has a skill tree for the skill.
pub open spec fn skill_item(items: Seq<GameBehaviorData>, name: Seq<char>, skill: Seq<char>) -> Option<GameBehaviorData>
    decreases items.len(),
{
    if items.len() == 0 {
        None
    } else if items[0].name@ == name && skill_tree_named(items[0].nodes@, skill) is Some {
        Some(items[0])
    } else {
        skill_item(items.drop_first(), name, skill)
    }
}

/// The script node for a skill level: walking the item's skill tree for the skill one
/// step per level, plus one, from its root.
pub open spec fn skill_script_node(items: Seq<GameBehaviorData>, item_name: Seq<char>, skill: Seq<char>, skill_level: i32) -> Option<(u128, u128)> {
    match skill_item(items, item_name, skill) {
        Some(b) => match skill_tree_named(b.nodes@, skill) {
            Some(tree) => match skill_walk(b, tree.id, level_steps(skill_level), None) {
                Some(n) => Some((b.id, n)),
                None => None,
            },
            None => None,
        },
        None => None,
    }
}

/// Finds the index of the first skill tree node with the skill's name.
fn skill_tree_index(nodes: &Vec<BehaviorNode>, skill: &String) -> (r: Option<usize>)
    ensures
        match r {
            Some(i) => i < nodes.len() && skill_tree_named(nodes@, skill@) == Some(nodes@[i as int]),
            None => skill_tree_named(nodes@, skill@) is None,
        },
{
    let mut i: usize = 0;
    assert(nodes@.skip(0) =~= nodes@);
    while i < nodes.len()
        invariant
            i <= nodes.len(),
            skill_tree_named(nodes@, skill@) == skill_tree_named(nodes@.skip(i as int), skill@),
        decreases nodes.len() - i,
    {
        assert(nodes@.skip(i as int).drop_first() =~= nodes@.skip(i + 1));
        if nodes[i].behavior_type == BehaviorNodeType::SkillTree && nodes[i].name == *skill {
            return Some(i);
        }
        i = i + 1;
    }
    None
}

/// Walks a skill tree down from its root.
fn walk_skill_tree(b: &GameBehaviorData, root: u128, skill_level: i32) -> (r: Option<u128>)
    ensures
        r == skill_walk(*b, root, level_steps(skill_level), None),
{
    let total: u64 = if skill_level < 0 { 0 } else { skill_level as u64 + 1 };
    let mut parent = root;
    let mut rc: Option<u128> = None;
    let mut k: u64 = 0;
    while k < total
        invariant
            k <= total,
            total == level_steps(skill_level),
            skill_walk(*b, root, total as nat, None) == skill_walk(*b, parent, (total - k) as nat, rc),
        decreases total - k,
    {
        match find_bottom_link(&b.connections, parent) {
            Some(o) => match node_index(&b.nodes, o) {
                Some(n) => {
                    rc = Some(b.nodes[n].id);
                    parent = b.nodes[n].id;
                },
                None => {},
            },
            None => {},
        }
        k = k + 1;
    }
    rc
}

/// Returns the script of a skill at a level: the "script" value of the node reached
/// walking the named item's skill tree for the named skill down one step per level,
/// plus one.
pub fn get_skill_script_id(
    data: &RegionInstance,
    item_name: String,
    skill_name: String,
    skill_level: i32,
) -> (r: Option<(BehaviorType, u128, u128, String)>)
    ensures
        match skill_script_node(data.items@, item_name@, skill_name@, skill_level) {
            Some(found) => r matches Some(t) && t.0 == BehaviorType::Items && t.1 == found.0 && t.2 == found.1
                && t.3@ == "script"@,
            None => r is None,
        },
{
    let items = &data.items;
    let mut i: usize = 0;
    assert(items@.skip(0) =~= items@);
    while i < items.len()
        invariant
            i <= items.len(),
            items@ == data.items@,
            skill_item(items@, item_name@, skill_name@) == skill_item(items@.skip(i as int), item_name@, skill_name@),
        decreases items.len() - i,
    {
        assert(items@.skip(i as int).drop_first() =~= items@.skip(i + 1));
        assert(items@.skip(i as int)[0] == items@[i as int]);
        if items[i].name == item_name {
            match skill_tree_index(&items[i].nodes, &skill_name) {
                Some(t) => {
                    let found = walk_skill_tree(&items[i], items[i].nodes[t].id, skill_level);
                    return match found {
                        Some(n) => Some((BehaviorType::Items, items[i].id, n, String::from_str("script"))),
                        None => None,
                    };
                },
                None => {},
            }
        }
        i = i + 1;
    }
    None
}

} // verus!
