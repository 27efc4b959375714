use vstd::prelude::*;
use crate::value::{spec_integer, spec_text};
use crate::behavior::{
    BehaviorNodeConnector, BehaviorNode, GameBehaviorData, find_value, find_node, value_index,
    node_index,
};
use crate::instance::RegionInstance;
use crate::items::opt_text;

verus! {

/// A level of a level tree: the experience it starts at, its message and its node.
pub type LevelView = (i32, Seq<char>, u128);

/// The level tree set for a character: its levels in order, the message shown when
/// experience is gained and the id of the tree node (`None` where the system has no
/// level tree, and a fresh id is to be made).
pub struct LevelTree {
    pub levels: Vec<(i32, String, u128)>,
    pub experience_msg: String,
    pub level_tree_id: Option<u128>,
}

/// The levels as plain values.
pub open spec fn level_views(levels: Seq<(i32, String, u128)>) -> Seq<LevelView> {
    levels.map_values(|l: (i32, String, u128)| (l.0, l.1@, l.2))
}

/// The "start" integer of a level node, zero where it has none.
pub open spec fn level_start(n: BehaviorNode) -> i32 {
    match find_value(n.values@, "start"@) {
        Some(v) => match spec_integer(v) {
            Some(i) => i,
            None => 0,
        },
        None => 0,
    }
}

/// The "message" text of a node, if it has one.
pub open spec fn node_message(n: BehaviorNode) -> Option<Seq<char>> {
    match find_value(n.values@, "message"@) {
        Some(v) => spec_text(v),
        None => None,
    }
}

/// The level a node stands for.
pub open spec fn level_of(n: BehaviorNode) -> LevelView {
    (level_start(n), match node_message(n) {
        Some(m) => m,
        None => Seq::empty(),
    }, n.id)
}

/// One pass over the connections (the rest of them from here): each connection that links
/// the current parent through a bottom connector on its side to an existing node appends
/// that node and makes it the parent. Gives the parent, whether a node was appended and
/// the nodes.
pub open spec fn chain_pass(
    nodes: Seq<BehaviorNode>,
    conns: Seq<(u128, BehaviorNodeConnector, u128, BehaviorNodeConnector)>,
    parent: u128,
    found: bool,
    acc: Seq<u128>,
) -> (u128, bool, Seq<u128>)
    decreases conns.len(),
{
    if conns.len() == 0 {
        (parent, found, acc)
    } else {
        let c = conns[0];
        let other = if c.0 == parent && c.1 == BehaviorNodeConnector::Bottom {
            Some(c.2)
        } else if c.2 == parent && c.3 == BehaviorNodeConnector::Bottom {
            Some(c.0)
        } else {
            None
        };
        match other {
            Some(o) => match find_node(nodes, o) {
                Some(n) => chain_pass(nodes, conns.drop_first(), n.id, true, acc.push(n.id)),
                None => chain_pass(nodes, conns.drop_first(), parent, found, acc),
            },
            None => chain_pass(nodes, conns.drop_first(), parent, found, acc),
        }
    }
}

/// Repeats passes until one appends nothing; `None` where that takes more than `fuel`
/// passes.
pub open spec fn chain_walk(b: GameBehaviorData, parent: u128, acc: Seq<u128>, fuel: nat) -> Option<Seq<u128>>
    decreases fuel,
{
    if fuel == 0 {
        None
    } else {
        let (p, found, next) = chain_pass(b.nodes@, b.connections@, parent, false, acc);
        if !found {
            Some(next)
        } else {
            chain_walk(b, p, next, (fuel - 1) as nat)
        }
    }
}

/// Whether the walk down the chain below the node comes to an end.
pub open spec fn walk_ends(b: GameBehaviorData, start: u128) -> bool {
    exists|fuel: nat| #[trigger] chain_walk(b, start, Seq::empty(), fuel) is Some
}

/// The nodes of the chain below the node, where the walk ends.
pub open spec fn chain_below(b: GameBehaviorData, start: u128) -> Seq<u128> {
    let fuel = choose|fuel: nat| #[trigger] chain_walk(b, start, Seq::empty(), fuel) is Some;
    match chain_walk(b, start, Seq::empty(), fuel) {
        Some(l) => l,
        None => Seq::empty(),
    }
}

/// The level the node with the id stands for.
pub open spec fn level_of_id(nodes: Seq<BehaviorNode>, id: u128) -> LevelView {
    match find_node(nodes, id) {
        Some(n) => level_of(n),
        None => (0, Seq::empty(), id),
    }
}

/// The levels below the node, where the walk ends.
pub open spec fn levels_below(b: GameBehaviorData, start: u128) -> Seq<LevelView> {
    chain_below(b, start).map_values(|id: u128| level_of_id(b.nodes@, id))
}

/// Whether a node is a level tree of a system with the name.
pub open spec fn is_level_tree(b: GameBehaviorData, n: BehaviorNode, system_name: Seq<char>) -> bool {
    b.name@ == system_name && n.name@ == "Level Tree"@
}

/// Whether the walk of every level tree of the named systems comes to an end.
pub open spec fn level_trees_end(systems: Seq<GameBehaviorData>, system_name: Seq<char>) -> bool {
    forall|i: int, j: int|
        0 <= i < systems.len() && 0 <= j < systems[i].nodes@.len()
            && is_level_tree(systems[i], #[trigger] systems[i].nodes@[j], system_name)
            ==> walk_ends(systems[i], systems[i].nodes@[j].id)
}

/// What the level trees found so far give: the message, the levels and the tree's id.
pub type LevelState = (Option<Seq<char>>, Seq<LevelView>, Option<u128>);

/// The state after one node: a level tree of the system sets the levels and the id, and
/// the message where it has one.
pub open spec fn level_step(st: LevelState, b: GameBehaviorData, n: BehaviorNode, system_name: Seq<char>) -> LevelState {
    if is_level_tree(b, n, system_name) {
        (match node_message(n) {
            Some(m) => Some(m),
            None => st.0,
        }, levels_below(b, n.id), Some(n.id))
    } else {
        st
    }
}

/// The state after the first k nodes of the system.
pub open spec fn level_nodes(st: LevelState, b: GameBehaviorData, system_name: Seq<char>, k: nat) -> LevelState
    decreases k,
{
    if k == 0 {
        st
    } else {
        level_step(level_nodes(st, b, system_name, (k - 1) as nat), b, b.nodes@[k - 1], system_name)
    }
}

/// The state after the first k systems.
pub open spec fn level_systems(systems: Seq<GameBehaviorData>, system_name: Seq<char>, k: nat) -> LevelState
    decreases k,
{
    if k == 0 {
        (None, Seq::empty(), None)
    } else {
        let b = systems[k - 1];
        level_nodes(level_systems(systems, system_name, (k - 1) as nat), b, system_name, b.nodes@.len())
    }
}

/// Reads the level a node stands for.
fn read_level(n: &BehaviorNode) -> (r: (i32, String, u128))
    ensures
        (r.0, r.1@, r.2) == level_of(*n),
{
    let start_key = String::from_str("start");
    let mut start: i32 = 0;
    match value_index(&n.values, &start_key) {
        Some(i) => match n.values[i].value.to_integer() {
            Some(v) => start = v,
            None => {},
        },
        None => {},
    }
    let message = match read_message(n) {
        Some(m) => m,
        None => String::new(),
    };
    (start, message, n.id)
}

/// Reads the message of a node.
fn read_message(n: &BehaviorNode) -> (r: Option<String>)
    ensures
        opt_text(r) == node_message(*n),
{
    let key = String::from_str("message");
    match value_index(&n.values, &key) {
        Some(i) => n.values[i].value.to_string(),
        None => None,
    }
}

proof fn lemma_views_push(levels: Seq<(i32, String, u128)>, l: (i32, String, u128))
    ensures
        level_views(levels.push(l)) == level_views(levels).push((l.0, l.1@, l.2)),
{
    assert(level_views(levels.push(l)) =~= level_views(levels).push((l.0, l.1@, l.2)));
}

/// One pass over the connections.
fn run_chain_pass(b: &GameBehaviorData, parent: u128, acc: &mut Vec<u128>) -> (r: (u128, bool))
    ensures
        chain_pass(b.nodes@, b.connections@, parent, false, old(acc)@) == (r.0, r.1, final(acc)@),
{
    let conns = &b.connections;
    let mut p = parent;
    let mut found = false;
    let mut i: usize = 0;
    assert(conns@.skip(0) =~= conns@);
    while i < conns.len()
        invariant
            i <= conns.len(),
            conns@ == b.connections@,
            chain_pass(b.nodes@, b.connections@, parent, false, old(acc)@)
                == chain_pass(b.nodes@, conns@.skip(i as int), p, found, acc@),
        decreases conns.len() - i,
    {
        assert(conns@.skip(i as int).drop_first() =~= conns@.skip(i + 1));
        assert(conns@.skip(i as int)[0] == conns@[i as int]);
        let c = conns[i];
        let other = if c.0 == p && c.1 == BehaviorNodeConnector::Bottom {
            Some(c.2)
        } else if c.2 == p && c.3 == BehaviorNodeConnector::Bottom {
            Some(c.0)
        } else {
            None
        };
        match other {
            Some(o) => match node_index(&b.nodes, o) {
                Some(k) => {
                    acc.push(b.nodes[k].id);
                    p = b.nodes[k].id;
                    found = true;
                },
                None => {},
            },
            None => {},
        }
        i = i + 1;
    }
    (p, found)
}

/// Walks the chain of nodes below a node, as long as each pass finds one more.
pub fn walk_chain(b: &GameBehaviorData, start: u128) -> (r: Vec<u128>)
    requires
        walk_ends(*b, start),
    ensures
        r@ == chain_below(*b, start),
{
    let ghost fuel = choose|fuel: nat| #[trigger] chain_walk(*b, start, Seq::empty(), fuel) is Some;
    let ghost mut left: nat = fuel;
    let mut acc: Vec<u128> = Vec::new();
    let mut parent = start;
    loop
        invariant
            chain_walk(*b, parent, acc@, left) is Some,
            chain_walk(*b, start, Seq::empty(), fuel) == chain_walk(*b, parent, acc@, left),
            chain_below(*b, start) == match chain_walk(*b, start, Seq::empty(), fuel) {
                Some(l) => l,
                None => Seq::empty(),
            },
        decreases left,
    {
        let (p, found) = run_chain_pass(b, parent, &mut acc);
        if !found {
            return acc;
        }
        parent = p;
        proof {
            left = (left - 1) as nat;
        }
    }
}

/// Reads the levels of the nodes with the ids.
fn read_levels(b: &GameBehaviorData, ids: &Vec<u128>) -> (r: Vec<(i32, String, u128)>)
    ensures
        level_views(r@) == ids@.map_values(|id: u128| level_of_id(b.nodes@, id)),
{
    let mut r: Vec<(i32, String, u128)> = Vec::new();
    let mut i: usize = 0;
    while i < ids.len()
        invariant
            i <= ids.len(),
            level_views(r@) == ids@.take(i as int).map_values(|id: u128| level_of_id(b.nodes@, id)),
        decreases ids.len() - i,
    {
        let level = match node_index(&b.nodes, ids[i]) {
            Some(k) => read_level(&b.nodes[k]),
            None => (0, String::new(), ids[i]),
        };
        proof {
            lemma_views_push(r@, level);
        }
        r.push(level);
        assert(ids@.take(i + 1) =~= ids@.take(i as int).push(ids@[i as int]));
        i = i + 1;
        assert(level_views(r@) =~= ids@.take(i as int).map_values(|id: u128| level_of_id(b.nodes@, id)));
    }
    assert(ids@.take(i as int) =~= ids@);
    r
}

/// Walks the chain of levels below a level tree node.
fn walk_levels(b: &GameBehaviorData, start: u128) -> (r: Vec<(i32, String, u128)>)
    requires
        walk_ends(*b, start),
    ensures
        level_views(r@) == levels_below(*b, start),
{
    let ids = walk_chain(b, start);
    read_levels(b, &ids)
}

impl RegionInstance {
    /// Builds the class based level tree set for a character of the named system: the
    /// levels found walking down from the system's "Level Tree" node, with the tree's
    /// message and id. Where several systems or nodes qualify, the last one found
    /// gives the levels and the id, and the last one with a message the message.
    pub fn set_level_tree(&self, system_name: String) -> (r: LevelTree)
        requires
            level_trees_end(self.systems@, system_name@),
        ensures
            ({
                let st = level_systems(self.systems@, system_name@, self.systems@.len());
                &&& level_views(r.levels@) == st.1
                &&& r.level_tree_id == st.2
                &&& r.experience_msg@ == match st.0 {
                    Some(m) => m,
                    None => "You gained {} experience."@,
                }
            }),
    {
        let tree_name = String::from_str("Level Tree");
        let mut levels: Vec<(i32, String, u128)> = Vec::new();
        let mut message: Option<String> = None;
        let mut level_tree_id: Option<u128> = None;
        let systems = &self.systems;
        let mut i: usize = 0;
        assert(level_views(levels@) =~= Seq::<LevelView>::empty());
        while i < systems.len()
            invariant
                i <= systems.len(),
                systems@ == self.systems@,
                tree_name@ == "Level Tree"@,
                level_trees_end(systems@, system_name@),
                (opt_text(message), level_views(levels@), level_tree_id) == level_systems(systems@, system_name@, i as nat),
            decreases systems.len() - i,
        {
            let b = &systems[i];
            let ghost st0 = level_systems(systems@, system_name@, i as nat);
            let mut j: usize = 0;
            while j < b.nodes.len()
                invariant
                    i < systems.len(),
                    j <= b.nodes.len(),
                    *b == systems@[i as int],
                    tree_name@ == "Level Tree"@,
                    level_trees_end(systems@, system_name@),
                    (opt_text(message), level_views(levels@), level_tree_id) == level_nodes(st0, *b, system_name@, j as nat),
                decreases b.nodes.len() - j,
            {
                let n = &b.nodes[j];
                if b.name == system_name && n.name == tree_name {
                    proof {
                        assert(is_level_tree(systems@[i as int], systems@[i as int].nodes@[j as int], system_name@));
                    }
                    match read_message(n) {
                        Some(m) => message = Some(m),
                        None => {},
                    }
                    levels = walk_levels(b, n.id);
                    level_tree_id = Some(n.id);
                }
                j = j + 1;
            }
            i = i + 1;
        }
        let experience_msg = match message {
            Some(m) => m,
            None => String::from_str("You gained {} experience."),
        };
        LevelTree { levels, experience_msg, level_tree_id }
    }
}

} // verus!
