use vstd::prelude::*;
use crate::value::{Value, spec_integer, spec_text};
use crate::types::{Position, TileId};

verus! {

/// The connectors through which behavior nodes are linked.
#[derive(PartialEq, Eq, Structural, Clone, Copy, Debug)]
pub enum BehaviorNodeConnector {
    Top,
    Right,
    Bottom,
    Left,
    Fail,
    Success,
    Bottom1,
    Bottom2,
    Bottom3,
    Bottom4,
}

/// The kinds of behavior graphs a region runs.
#[derive(PartialEq, Eq, Structural, Clone, Copy, Debug)]
pub enum BehaviorType {
    Regions,
    Behaviors,
    Systems,
    Items,
    Spells,
    GameLogic,
}

/// The kinds of nodes in a behavior graph.
#[derive(PartialEq, Eq, Structural, Clone, Copy, Debug)]
pub enum BehaviorNodeType {
    BehaviorType,
    BehaviorTree,
    Linear,
    Sequence,
    Expression,
    Script,
    VariableNumber,
    Pathfinder,
    Lookout,
    CloseIn,
    CallSystem,
    CallBehavior,
    HasTarget,
    Untarget,
    Target,
    DealDamage,
    TakeDamage,
    TakeHeal,
    MagicTarget,
    MagicDamage,
    Message,
    Move,
    RandomWalk,
    Teleport,
    Screen,
    Widget,
    Always,
    InsideArea,
    EnterArea,
    LeaveArea,
    ActionArea,
    TeleportArea,
    MessageArea,
    OverlayTiles,
    MultiChoice,
    Take,
    Sell,
    Schedule,
    Respawn,
    SetState,
    SetItemTile,
    SkillTree,
    SkillLevel,
    SetLevelTree,
    LockTree,
    UnlockTree,
}

/// A named value of a node.
pub struct NodeValue {
    pub name: String,
    pub value: Value,
}

/// A node of a behavior graph. Value names are unique within a node; a lookup takes
/// the first value with the name.
pub struct BehaviorNode {
    pub id: u128,
    pub name: String,
    pub behavior_type: BehaviorNodeType,
    pub values: Vec<NodeValue>,
}

/// The data a character instance is created from.
pub struct CharacterInstanceData {
    pub position: Position,
    pub tile: Option<TileId>,
    pub name: Option<String>,
    pub alignment: i32,
}

/// A behavior graph: its nodes, the connections between node connectors, each as
/// (from node, from connector, to node, to connector), and the further instances of
/// the character it describes. Node ids are unique; a lookup takes the first node with
/// the id.
pub struct GameBehaviorData {
    pub id: u128,
    pub name: String,
    pub nodes: Vec<BehaviorNode>,
    pub connections: Vec<(u128, BehaviorNodeConnector, u128, BehaviorNodeConnector)>,
    pub instances: Option<Vec<CharacterInstanceData>>,
}

// ---------------------------------------------------------------------------
// Lookups by key

/// The value of the first entry with the name.
pub open spec fn find_value(values: Seq<NodeValue>, name: Seq<char>) -> Option<Value>
    decreases values.len(),
{
    if values.len() == 0 {
        None
    } else if values[0].name@ == name {
        Some(values[0].value)
    } else {
        find_value(values.drop_first(), name)
    }
}

/// The first node with the id.
pub open spec fn find_node(nodes: Seq<BehaviorNode>, id: u128) -> Option<BehaviorNode>
    decreases nodes.len(),
{
    if nodes.len() == 0 {
        None
    } else if nodes[0].id == id {
        Some(nodes[0])
    } else {
        find_node(nodes.drop_first(), id)
    }
}

/// The first behavior with the id.
pub open spec fn find_behavior(behaviors: Seq<GameBehaviorData>, id: u128) -> Option<GameBehaviorData>
    decreases behaviors.len(),
{
    if behaviors.len() == 0 {
        None
    } else if behaviors[0].id == id {
        Some(behaviors[0])
    } else {
        find_behavior(behaviors.drop_first(), id)
    }
}

/// The value named `name` of node `id.1` of behavior `id.0`.
pub open spec fn node_value(
    behaviors: Seq<GameBehaviorData>,
    id: (u128, u128),
    name: Seq<char>,
) -> Option<Value> {
    match find_behavior(behaviors, id.0) {
        Some(b) => match find_node(b.nodes@, id.1) {
            Some(n) => find_value(n.values@, name),
            None => None,
        },
        None => None,
    }
}

/// Finds the index of the first value with the name.
pub fn value_index(values: &Vec<NodeValue>, name: &String) -> (r: Option<usize>)
    ensures
        match r {
            Some(i) => i < values.len() && find_value(values@, name@) == Some(values@[i as int].value),
            None => find_value(values@, name@) is None,
        },
{
    let mut i: usize = 0;
    assert(values@.skip(0) =~= values@);
    while i < values.len()
        invariant
            i <= values.len(),
            find_value(values@, name@) == find_value(values@.skip(i as int), name@),
        decreases values.len() - i,
    {
        assert(values@.skip(i as int).drop_first() =~= values@.skip(i + 1));
        if values[i].name == *name {
            return Some(i);
        }
        i = i + 1;
    }
    None
}

/// Finds the index of the first node with the id.
pub fn node_index(nodes: &Vec<BehaviorNode>, id: u128) -> (r: Option<usize>)
    ensures
        match r {
            Some(i) => i < nodes.len() && find_node(nodes@, id) == Some(nodes@[i as int]),
            None => find_node(nodes@, id) is None,
        },
{
    let mut i: usize = 0;
    assert(nodes@.skip(0) =~= nodes@);
    while i < nodes.len()
        invariant
            i <= nodes.len(),
            find_node(nodes@, id) == find_node(nodes@.skip(i as int), id),
        decreases nodes.len() - i,
    {
        assert(nodes@.skip(i as int).drop_first() =~= nodes@.skip(i + 1));
        if nodes[i].id == id {
            return Some(i);
        }
        i = i + 1;
    }
    None
}

/// Finds the index of the first behavior with the id.
pub fn behavior_index(behaviors: &Vec<GameBehaviorData>, id: u128) -> (r: Option<usize>)
    ensures
        match r {
            Some(i) => i < behaviors.len() && find_behavior(behaviors@, id) == Some(behaviors@[i as int]),
            None => find_behavior(behaviors@, id) is None,
        },
{
    let mut i: usize = 0;
    assert(behaviors@.skip(0) =~= behaviors@);
    while i < behaviors.len()
        invariant
            i <= behaviors.len(),
            find_behavior(behaviors@, id) == find_behavior(behaviors@.skip(i as int), id),
        decreases behaviors.len() - i,
    {
        assert(behaviors@.skip(i as int).drop_first() =~= behaviors@.skip(i + 1));
        if behaviors[i].id == id {
            return Some(i);
        }
        i = i + 1;
    }
    None
}

/// Returns the value named `value_name` of node `id.1` in behavior `id.0`.
pub fn get_node_value2(id: (u128, u128), value_name: &str, nodes: &Vec<GameBehaviorData>) -> (r: Option<Value>)
    ensures
        r == node_value(nodes@, id, value_name@),
{
    let key = String::from_str(value_name);
    match behavior_index(nodes, id.0) {
        Some(b) => match node_index(&nodes[b].nodes, id.1) {
            Some(n) => match value_index(&nodes[b].nodes[n].values, &key) {
                Some(v) => Some(nodes[b].nodes[n].values[v].value.clone()),
                None => None,
            },
            None => None,
        },
        None => None,
    }
}

/// Returns the integer value named `value_name` of node `id.1` in behavior `id.0`;
/// `None` where there is no such value or it is not a number.
pub fn get_node_integer(id: (u128, u128), value_name: &str, nodes: &Vec<GameBehaviorData>) -> (r: Option<i32>)
    ensures
        r == (match node_value(nodes@, id, value_name@) {
            Some(v) => spec_integer(v),
            None => None,
        }),
{
    match get_node_value2(id, value_name, nodes) {
        Some(v) => v.to_integer(),
        None => None,
    }
}

/// Returns the text value named `value_name` of node `id.1` in behavior `id.0`;
/// `None` where there is no such value or it is not a string.
pub fn get_node_string(id: (u128, u128), value_name: &str, nodes: &Vec<GameBehaviorData>) -> (r: Option<String>)
    ensures
        (match node_value(nodes@, id, value_name@) {
            Some(v) => spec_text(v),
            None => None,
        }) == (match r {
            Some(s) => Some(s@),
            None => None::<Seq<char>>,
        }),
{
    match get_node_value2(id, value_name, nodes) {
        Some(v) => v.to_string(),
        None => None,
    }
}

} // verus!
