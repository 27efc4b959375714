use vstd::prelude::*;
use crate::types::{Position, TileId};
use crate::value::{Value, spec_integer, spec_text, spec_tile_id};
use crate::behavior::{
    BehaviorNodeType, BehaviorNodeConnector, BehaviorNode, GameBehaviorData, CharacterInstanceData,
    find_value, find_node, value_index, node_index,
};
use crate::items::opt_text;
use crate::levels::{walk_ends, chain_below, walk_chain, level_start, node_message};
use crate::scan::{lowercase, to_lowercase};

verus! {

// ---------------------------------------------------------------------------
// Defaults of a behavior

/// What a behavior's nodes give the instances made from it: the trees that run once at
/// startup and those that always run, the default position and tile, the settings texts
/// in the order they are loaded and the alignment.
pub struct BehaviorDefaults {
    pub startup_trees: Vec<u128>,
    pub always_trees: Vec<u128>,
    pub position: Option<Position>,
    pub tile: Option<TileId>,
    pub settings: Vec<String>,
    pub alignment: i32,
}

/// The defaults as plain values.
pub struct DefaultsView {
    pub startup_trees: Seq<u128>,
    pub always_trees: Seq<u128>,
    pub position: Option<Position>,
    pub tile: Option<TileId>,
    pub settings: Seq<Seq<char>>,
    pub alignment: i32,
}

impl BehaviorDefaults {
    pub open spec fn view(&self) -> DefaultsView {
        DefaultsView {
            startup_trees: self.startup_trees@,
            always_trees: self.always_trees@,
            position: self.position,
            tile: self.tile,
            settings: self.settings@.map_values(|s: String| s@),
            alignment: self.alignment,
        }
    }
}

/// The tree once for each of the first k connections leaving it.
pub open spec fn outgoing(
    conns: Seq<(u128, BehaviorNodeConnector, u128, BehaviorNodeConnector)>,
    id: u128,
    k: nat,
) -> Seq<u128>
    decreases k,
{
    if k == 0 {
        Seq::empty()
    } else {
        outgoing(conns, id, (k - 1) as nat) + if conns[k - 1].0 == id { seq![id] } else { Seq::empty() }
    }
}

/// The "execute" setting of a tree node: 1 runs it once at startup, 0 always.
pub open spec fn execute_setting(n: BehaviorNode) -> Option<i32> {
    match find_value(n.values@, "execute"@) {
        Some(v) => spec_integer(v),
        None => None,
    }
}

/// The alignment a behavior-type node sets: 2 - a - 1 for its "alignment" a.
pub open spec fn node_alignment(n: BehaviorNode) -> Option<int> {
    match find_value(n.values@, "alignment"@) {
        Some(v) => match spec_integer(v) {
            Some(a) => Some(2 - a - 1),
            None => None,
        },
        None => None,
    }
}

/// Whether every alignment the behavior's nodes set fits an `i32` on the way.
pub open spec fn alignments_fit(b: GameBehaviorData) -> bool {
    forall|k: int| 0 <= k < b.nodes@.len() && b.nodes@[k].behavior_type == BehaviorNodeType::BehaviorType
        ==> (#[trigger] find_value(b.nodes@[k].values@, "alignment"@) matches Some(v)
            && spec_integer(v) matches Some(a) ==> 2 - a <= i32::MAX)
}

/// The defaults after the first k nodes of the behavior.
pub open spec fn defaults_after(b: GameBehaviorData, k: nat) -> DefaultsView
    decreases k,
{
    if k == 0 {
        DefaultsView {
            startup_trees: Seq::empty(),
            always_trees: Seq::empty(),
            position: None,
            tile: None,
            settings: Seq::empty(),
            alignment: 1,
        }
    } else {
        let d = defaults_after(b, (k - 1) as nat);
        let n = b.nodes@[k - 1];
        if n.behavior_type == BehaviorNodeType::BehaviorTree {
            let copies = outgoing(b.connections@, n.id, b.connections@.len());
            if execute_setting(n) == Some(1i32) {
                DefaultsView { startup_trees: d.startup_trees + copies, ..d }
            } else if execute_setting(n) == Some(0i32) {
                DefaultsView { always_trees: d.always_trees + copies, ..d }
            } else {
                d
            }
        } else if n.behavior_type == BehaviorNodeType::BehaviorType {
            DefaultsView {
                position: match find_value(n.values@, "position"@) {
                    Some(v) => match v {
                        Value::Position(p) => Some(p),
                        _ => None,
                    },
                    None => d.position,
                },
                tile: match find_value(n.values@, "tile"@) {
                    Some(v) => spec_tile_id(v),
                    None => d.tile,
                },
                settings: match find_value(n.values@, "settings"@) {
                    Some(v) => match spec_text(v) {
                        Some(t) => d.settings.push(t),
                        None => d.settings,
                    },
                    None => d.settings,
                },
                alignment: match node_alignment(n) {
                    Some(a) => a as i32,
                    None => d.alignment,
                },
                ..d
            }
        } else {
            d
        }
    }
}

/// Appends the tree once for each connection leaving it.
fn push_outgoing(v: &mut Vec<u128>, conns: &Vec<(u128, BehaviorNodeConnector, u128, BehaviorNodeConnector)>, id: u128)
    ensures
        final(v)@ == old(v)@ + outgoing(conns@, id, conns@.len()),
{
    let ghost start = v@;
    let mut i: usize = 0;
    assert(v@ =~= start + outgoing(conns@, id, 0));
    while i < conns.len()
        invariant
            i <= conns.len(),
            v@ == start + outgoing(conns@, id, i as nat),
        decreases conns.len() - i,
    {
        if conns[i].0 == id {
            v.push(id);
        }
        i = i + 1;
        assert(v@ =~= start + outgoing(conns@, id, i as nat));
    }
}

/// Looks up a named value of a node.
fn lookup<'a>(n: &'a BehaviorNode, name: &str) -> (r: Option<&'a Value>)
    ensures
        match r {
            Some(v) => find_value(n.values@, name@) == Some(*v),
            None => find_value(n.values@, name@) is None,
        },
{
    let key = String::from_str(name);
    match value_index(&n.values, &key) {
        Some(i) => Some(&n.values[i].value),
        None => None,
    }
}

/// Collects the defaults the behavior's nodes give its instances.
pub fn behavior_defaults(b: &GameBehaviorData) -> (r: BehaviorDefaults)
    requires
        alignments_fit(*b),
    ensures
        r.view() == defaults_after(*b, b.nodes@.len()),
{
    let mut d = BehaviorDefaults {
        startup_trees: Vec::new(),
        always_trees: Vec::new(),
        position: None,
        tile: None,
        settings: Vec::new(),
        alignment: 1,
    };
    assert(d.view().settings =~= Seq::<Seq<char>>::empty());
    let mut k: usize = 0;
    while k < b.nodes.len()
        invariant
            k <= b.nodes.len(),
            alignments_fit(*b),
            d.view() == defaults_after(*b, k as nat),
        decreases b.nodes.len() - k,
    {
        let n = &b.nodes[k];
        if n.behavior_type == BehaviorNodeType::BehaviorTree {
            let setting = match lookup(n, "execute") {
                Some(v) => v.to_integer(),
                None => None,
            };
            match setting {
                Some(1) => push_outgoing(&mut d.startup_trees, &b.connections, n.id),
                Some(0) => push_outgoing(&mut d.always_trees, &b.connections, n.id),
                _ => {},
            }
        } else if n.behavior_type == BehaviorNodeType::BehaviorType {
            match lookup(n, "position") {
                Some(v) => d.position = v.to_position(),
                None => {},
            }
            match lookup(n, "tile") {
                Some(v) => d.tile = v.to_tile_id(),
                None => {},
            }
            match lookup(n, "settings") {
                Some(v) => match v.to_string() {
                    Some(t) => {
                        let ghost before = d.settings@;
                        d.settings.push(t);
                        assert(d.settings@.map_values(|s: String| s@) =~= before.map_values(|s: String| s@).push(t@));
                    },
                    None => {},
                },
                None => {},
            }
            match lookup(n, "alignment") {
                Some(v) => match v.to_integer() {
                    Some(a) => {
                        assert(find_value(b.nodes@[k as int].values@, "alignment"@) matches Some(v)
                            && spec_integer(v) matches Some(a) ==> 2 - a <= i32::MAX);
                        d.alignment = 2 - a - 1;
                    },
                    None => {},
                },
                None => {},
            }
        }
        k = k + 1;
    }
    d
}

// ---------------------------------------------------------------------------
// Instances of a behavior

/// An instance's creation data as plain values.
pub open spec fn instance_view(c: CharacterInstanceData) -> (Position, Option<TileId>, Option<Seq<char>>, i32) {
    (c.position, c.tile, opt_text(c.name), c.alignment)
}

/// A listed instance with the behavior's name and default tile where it has none.
pub open spec fn filled(c: CharacterInstanceData, name: Seq<char>, tile: Option<TileId>) -> (Position, Option<TileId>, Option<Seq<char>>, i32) {
    (c.position, if c.tile is None { tile } else { c.tile }, if c.name is None { Some(name) } else { opt_text(c.name) }, c.alignment)
}

/// The instances of the first k listed ones, filled in.
pub open spec fn listed(list: Seq<CharacterInstanceData>, name: Seq<char>, tile: Option<TileId>, k: nat) -> Seq<(Position, Option<TileId>, Option<Seq<char>>, i32)>
    decreases k,
{
    if k == 0 {
        Seq::empty()
    } else {
        listed(list, name, tile, (k - 1) as nat).push(filled(list[k - 1], name, tile))
    }
}

/// The instances of the first k candidates that stand in the region.
pub open spec fn in_region(cands: Seq<(Position, Option<TileId>, Option<Seq<char>>, i32)>, region: u128, k: nat) -> Seq<(Position, Option<TileId>, Option<Seq<char>>, i32)>
    decreases k,
{
    if k == 0 {
        Seq::empty()
    } else {
        in_region(cands, region, (k - 1) as nat) + if cands[k - 1].0.region == region { seq![cands[k - 1]] } else { Seq::empty() }
    }
}

/// The instances a behavior creates in a region: none for the player where only
/// non player characters are made; else the main instance at the default position (with a
/// default tile, unless instance data is given), then the listed instances or, for a
/// respawn, just the given data, keeping those in the region.
pub open spec fn planned_instances(
    b: GameBehaviorData,
    d: DefaultsView,
    npc_only: bool,
    data: Option<(Position, Option<TileId>, Option<Seq<char>>, i32)>,
    region: u128,
) -> Seq<(Position, Option<TileId>, Option<Seq<char>>, i32)> {
    if npc_only && b.name@ == "Player"@ {
        Seq::empty()
    } else {
        let main = if d.position is Some && d.tile is Some && data is None {
            seq![(d.position.unwrap(), d.tile, Some(b.name@), d.alignment)]
        } else {
            Seq::empty()
        };
        let rest = match data {
            None => match b.instances {
                Some(list) => listed(list@, b.name@, d.tile, list@.len()),
                None => Seq::empty(),
            },
            Some(c) => seq![c],
        };
        let cands = main + rest;
        in_region(cands, region, cands.len())
    }
}

/// Copies the optional name.
fn copy_name(n: &Option<String>) -> (r: Option<String>)
    ensures
        opt_text(r) == opt_text(*n),
{
    match n {
        Some(s) => Some(s.clone()),
        None => None,
    }
}

/// Decides which instances of the behavior are created in the region; see
/// [`planned_instances`].
pub fn instances_to_create(
    b: &GameBehaviorData,
    defaults: &BehaviorDefaults,
    npc_only: bool,
    data: Option<CharacterInstanceData>,
    region: u128,
) -> (r: Vec<CharacterInstanceData>)
    ensures
        r@.map_values(|c: CharacterInstanceData| instance_view(c)) == planned_instances(
            *b,
            defaults.view(),
            npc_only,
            match data { Some(c) => Some(instance_view(c)), None => None },
            region,
        ),
{
    let mut r: Vec<CharacterInstanceData> = Vec::new();
    if npc_only && b.name == String::from_str("Player") {
        assert(r@.map_values(|c: CharacterInstanceData| instance_view(c)) =~= Seq::<(Position, Option<TileId>, Option<Seq<char>>, i32)>::empty());
        return r;
    }
    let mut cands: Vec<CharacterInstanceData> = Vec::new();
    let ghost main = if defaults.position is Some && defaults.tile is Some && data is None {
        seq![(defaults.position.unwrap(), defaults.tile, Some(b.name@), defaults.alignment)]
    } else {
        Seq::empty()
    };
    match (defaults.position, defaults.tile, &data) {
        (Some(p), Some(t), None) => {
            cands.push(CharacterInstanceData { position: p, tile: Some(t), name: Some(b.name.clone()), alignment: defaults.alignment });
        },
        _ => {},
    }
    assert(cands@.map_values(|c: CharacterInstanceData| instance_view(c)) =~= main);
    match data {
        None => match &b.instances {
            Some(list) => {
                let mut i: usize = 0;
                while i < list.len()
                    invariant
                        i <= list.len(),
                        cands@.map_values(|c: CharacterInstanceData| instance_view(c)) == main + listed(list@, b.name@, defaults.tile, i as nat),
                    decreases list.len() - i,
                {
                    let c = &list[i];
                    let name = match &c.name {
                        Some(n) => Some(n.clone()),
                        None => Some(b.name.clone()),
                    };
                    let tile = match c.tile {
                        Some(t) => Some(t),
                        None => defaults.tile,
                    };
                    let ghost before = cands@;
                    cands.push(CharacterInstanceData { position: c.position, tile, name, alignment: c.alignment });
                    assert(cands@.map_values(|c: CharacterInstanceData| instance_view(c))
                        =~= before.map_values(|c: CharacterInstanceData| instance_view(c)).push(filled(list@[i as int], b.name@, defaults.tile)));
                    i = i + 1;
                }
            },
            None => {},
        },
        Some(c) => {
            let ghost before = cands@;
            let ghost cv = instance_view(c);
            cands.push(c);
            assert(cands@.map_values(|c: CharacterInstanceData| instance_view(c)) =~= before.map_values(|c: CharacterInstanceData| instance_view(c)).push(cv));
        },
    }
    let ghost all = cands@.map_values(|c: CharacterInstanceData| instance_view(c));
    let mut k: usize = 0;
    let n = cands.len();
    assert(r@.map_values(|c: CharacterInstanceData| instance_view(c)) =~= in_region(all, region, 0));
    while k < n
        invariant
            k <= n,
            n == cands@.len(),
            all == cands@.map_values(|c: CharacterInstanceData| instance_view(c)),
            r@.map_values(|c: CharacterInstanceData| instance_view(c)) == in_region(all, region, k as nat),
        decreases n - k,
    {
        let ghost before = r@;
        if cands[k].position.region == region {
            let c = CharacterInstanceData {
                position: cands[k].position,
                tile: cands[k].tile,
                name: copy_name(&cands[k].name),
                alignment: cands[k].alignment,
            };
            r.push(c);
            assert(r@.map_values(|c: CharacterInstanceData| instance_view(c))
                =~= before.map_values(|c: CharacterInstanceData| instance_view(c)).push(all[k as int]));
        }
        k = k + 1;
        assert(r@.map_values(|c: CharacterInstanceData| instance_view(c)) =~= in_region(all, region, k as nat));
    }
    r
}

// ---------------------------------------------------------------------------
// Skill trees

/// A skill level as plain values: the experience it starts at, its name and its message.
pub type SkillLevelView = (i32, Seq<char>, Seq<char>);

/// The skill level the node with the id stands for.
pub open spec fn skill_level_of_id(nodes: Seq<BehaviorNode>, id: u128) -> SkillLevelView {
    match find_node(nodes, id) {
        Some(n) => (level_start(n), n.name@, match node_message(n) {
            Some(m) => m,
            None => Seq::empty(),
        }),
        None => (0, Seq::empty(), Seq::empty()),
    }
}

/// Whether a system holds the skill trees: its name is "skills" in any case.
pub open spec fn is_skills_system(b: GameBehaviorData) -> bool {
    lowercase(b.name@) == "skills"@
}

/// Whether the walk below every skill tree of the skills systems comes to an end.
pub open spec fn skill_trees_end(systems: Seq<GameBehaviorData>) -> bool {
    forall|i: int, j: int|
        0 <= i < systems.len() && 0 <= j < systems[i].nodes@.len() && is_skills_system(systems[i])
            && (#[trigger] systems[i].nodes@[j]).behavior_type == BehaviorNodeType::SkillTree
            ==> walk_ends(systems[i], systems[i].nodes@[j].id)
}

/// A skill tree: its name and its levels in order.
pub open spec fn skill_tree_of(b: GameBehaviorData, n: BehaviorNode) -> (Seq<char>, Seq<SkillLevelView>) {
    (n.name@, chain_below(b, n.id).map_values(|id: u128| skill_level_of_id(b.nodes@, id)))
}

/// The skill trees among the first k nodes of a skills system.
pub open spec fn skill_trees_in(b: GameBehaviorData, k: nat) -> Seq<(Seq<char>, Seq<SkillLevelView>)>
    decreases k,
{
    if k == 0 {
        Seq::empty()
    } else {
        let n = b.nodes@[k - 1];
        skill_trees_in(b, (k - 1) as nat) + if n.behavior_type == BehaviorNodeType::SkillTree {
            seq![skill_tree_of(b, n)]
        } else {
            Seq::empty()
        }
    }
}

/// The skill trees of the first k systems.
pub open spec fn skill_trees_of(systems: Seq<GameBehaviorData>, k: nat) -> Seq<(Seq<char>, Seq<SkillLevelView>)>
    decreases k,
{
    if k == 0 {
        Seq::empty()
    } else {
        let b = systems[k - 1];
        skill_trees_of(systems, (k - 1) as nat) + if is_skills_system(b) {
            skill_trees_in(b, b.nodes@.len())
        } else {
            Seq::empty()
        }
    }
}

/// A skill tree as plain values.
pub open spec fn skill_tree_view(t: (String, Vec<(i32, String, String)>)) -> (Seq<char>, Seq<SkillLevelView>) {
    (t.0@, t.1@.map_values(|l: (i32, String, String)| (l.0, l.1@, l.2@)))
}

/// Reads the skill levels of the nodes with the ids.
fn read_skill_levels(b: &GameBehaviorData, ids: &Vec<u128>) -> (r: Vec<(i32, String, String)>)
    ensures
        r@.map_values(|l: (i32, String, String)| (l.0, l.1@, l.2@)) == ids@.map_values(|id: u128| skill_level_of_id(b.nodes@, id)),
{
    let start_key = String::from_str("start");
    let message_key = String::from_str("message");
    let mut r: Vec<(i32, String, String)> = Vec::new();
    let mut i: usize = 0;
    while i < ids.len()
        invariant
            i <= ids.len(),
            start_key@ == "start"@,
            message_key@ == "message"@,
            r@.map_values(|l: (i32, String, String)| (l.0, l.1@, l.2@)) == ids@.take(i as int).map_values(|id: u128| skill_level_of_id(b.nodes@, id)),
        decreases ids.len() - i,
    {
        let entry = match node_index(&b.nodes, ids[i]) {
            Some(k) => {
                let n = &b.nodes[k];
                let mut start: i32 = 0;
                match value_index(&n.values, &start_key) {
                    Some(j) => match n.values[j].value.to_integer() {
                        Some(v) => start = v,
                        None => {},
                    },
                    None => {},
                }
                let message = match value_index(&n.values, &message_key) {
                    Some(j) => match n.values[j].value.to_string() {
                        Some(m) => m,
                        None => String::new(),
                    },
                    None => String::new(),
                };
                (start, n.name.clone(), message)
            },
            None => (0, String::new(), String::new()),
        };
        let ghost before = r@;
        r.push(entry);
        assert(r@.map_values(|l: (i32, String, String)| (l.0, l.1@, l.2@))
            =~= before.map_values(|l: (i32, String, String)| (l.0, l.1@, l.2@)).push((entry.0, entry.1@, entry.2@)));
        assert(ids@.take(i + 1) =~= ids@.take(i as int).push(ids@[i as int]));
        i = i + 1;
        assert(r@.map_values(|l: (i32, String, String)| (l.0, l.1@, l.2@))
            =~= ids@.take(i as int).map_values(|id: u128| skill_level_of_id(b.nodes@, id)));
    }
    assert(ids@.take(i as int) =~= ids@);
    r
}

/// Builds the skill trees of the skills systems: for each skill tree node its name and
/// the levels walking down from it, in order.
pub fn skill_trees(systems: &Vec<GameBehaviorData>) -> (r: Vec<(String, Vec<(i32, String, String)>)>)
    requires
        skill_trees_end(systems@),
    ensures
        r@.map_values(|t: (String, Vec<(i32, String, String)>)| skill_tree_view(t)) == skill_trees_of(systems@, systems@.len()),
{
    let skills = String::from_str("skills");
    let mut r: Vec<(String, Vec<(i32, String, String)>)> = Vec::new();
    let mut i: usize = 0;
    while i < systems.len()
        invariant
            i <= systems.len(),
            skills@ == "skills"@,
            skill_trees_end(systems@),
            r@.map_values(|t: (String, Vec<(i32, String, String)>)| skill_tree_view(t)) == skill_trees_of(systems@, i as nat),
        decreases systems.len() - i,
    {
        let b = &systems[i];
        let ghost start = r@.map_values(|t: (String, Vec<(i32, String, String)>)| skill_tree_view(t));
        if to_lowercase(b.name.as_str()) == skills {
            let mut j: usize = 0;
            assert(r@.map_values(|t: (String, Vec<(i32, String, String)>)| skill_tree_view(t)) =~= start + skill_trees_in(*b, 0));
            while j < b.nodes.len()
                invariant
                    i < systems.len(),
                    *b == systems@[i as int],
                    is_skills_system(*b),
                    j <= b.nodes.len(),
                    skill_trees_end(systems@),
                    r@.map_values(|t: (String, Vec<(i32, String, String)>)| skill_tree_view(t)) == start + skill_trees_in(*b, j as nat),
                decreases b.nodes.len() - j,
            {
                let n = &b.nodes[j];
                if n.behavior_type == BehaviorNodeType::SkillTree {
                    proof {
                        assert(walk_ends(systems@[i as int], systems@[i as int].nodes@[j as int].id));
                    }
                    let ids = walk_chain(b, n.id);
                    let levels = read_skill_levels(b, &ids);
                    let ghost before = r@;
                    r.push((n.name.clone(), levels));
                    assert(r@.map_values(|t: (String, Vec<(i32, String, String)>)| skill_tree_view(t))
                        =~= before.map_values(|t: (String, Vec<(i32, String, String)>)| skill_tree_view(t)).push(skill_tree_of(*b, *n)));
                }
                j = j + 1;
                assert(r@.map_values(|t: (String, Vec<(i32, String, String)>)| skill_tree_view(t)) =~= start + skill_trees_in(*b, j as nat));
            }
        }
        i = i + 1;
        assert(r@.map_values(|t: (String, Vec<(i32, String, String)>)| skill_tree_view(t)) =~= skill_trees_of(systems@, i as nat));
    }
    r
}

// ---------------------------------------------------------------------------
// Startup trees of class and race systems

/// The startup trees of the first k nodes of a system, once for each connection leaving
/// them, as (system, tree).
pub open spec fn system_startup_in(b: GameBehaviorData, k: nat) -> Seq<(u128, u128)>
    decreases k,
{
    if k == 0 {
        Seq::empty()
    } else {
        let n = b.nodes@[k - 1];
        system_startup_in(b, (k - 1) as nat) + if n.behavior_type == BehaviorNodeType::BehaviorTree && execute_setting(n) == Some(1i32) {
            outgoing(b.connections@, n.id, b.connections@.len()).map_values(|t: u128| (b.id, t))
        } else {
            Seq::empty()
        }
    }
}

/// The startup trees of the first k systems with the name.
pub open spec fn named_system_startup(systems: Seq<GameBehaviorData>, name: Seq<char>, k: nat) -> Seq<(u128, u128)>
    decreases k,
{
    if k == 0 {
        Seq::empty()
    } else {
        let b = systems[k - 1];
        named_system_startup(systems, name, (k - 1) as nat) + if b.name@ == name {
            system_startup_in(b, b.nodes@.len())
        } else {
            Seq::empty()
        }
    }
}

/// The startup trees for the first k wanted system names that are known systems.
pub open spec fn startup_system_trees_of(
    systems: Seq<GameBehaviorData>,
    known: Seq<Seq<char>>,
    wanted: Seq<Seq<char>>,
    k: nat,
) -> Seq<(u128, u128)>
    decreases k,
{
    if k == 0 {
        Seq::empty()
    } else {
        startup_system_trees_of(systems, known, wanted, (k - 1) as nat) + if known.contains(wanted[k - 1]) {
            named_system_startup(systems, wanted[k - 1], systems.len())
        } else {
            Seq::empty()
        }
    }
}

/// Collects the startup trees of a system.
fn push_system_startup(v: &mut Vec<(u128, u128)>, b: &GameBehaviorData)
    ensures
        final(v)@ == old(v)@ + system_startup_in(*b, b.nodes@.len()),
{
    let ghost start = v@;
    let mut k: usize = 0;
    assert(v@ =~= start + system_startup_in(*b, 0));
    while k < b.nodes.len()
        invariant
            k <= b.nodes.len(),
            v@ == start + system_startup_in(*b, k as nat),
        decreases b.nodes.len() - k,
    {
        let n = &b.nodes[k];
        if n.behavior_type == BehaviorNodeType::BehaviorTree {
            let setting = match lookup(n, "execute") {
                Some(val) => val.to_integer(),
                None => None,
            };
            if setting == Some(1i32) {
                let ghost before = v@;
                let mut i: usize = 0;
                assert(v@ =~= before + outgoing(b.connections@, n.id, 0).map_values(|t: u128| (b.id, t)));
                while i < b.connections.len()
                    invariant
                        i <= b.connections.len(),
                        v@ == before + outgoing(b.connections@, n.id, i as nat).map_values(|t: u128| (b.id, t)),
                    decreases b.connections.len() - i,
                {
                    if b.connections[i].0 == n.id {
                        v.push((b.id, n.id));
                    }
                    i = i + 1;
                    assert(v@ =~= before + outgoing(b.connections@, n.id, i as nat).map_values(|t: u128| (b.id, t)));
                }
            }
        }
        k = k + 1;
        assert(v@ =~= start + system_startup_in(*b, k as nat));
    }
}

/// Whether the list holds the name.
fn names_contain(names: &Vec<String>, name: &String) -> (r: bool)
    ensures
        r == names@.map_values(|s: String| s@).contains(name@),
{
    let ghost views = names@.map_values(|s: String| s@);
    let mut i: usize = 0;
    while i < names.len()
        invariant
            i <= names.len(),
            views == names@.map_values(|s: String| s@),
            forall|k: int| 0 <= k < i ==> views[k] != name@,
        decreases names.len() - i,
    {
        if names[i] == *name {
            assert(views[i as int] == name@);
            return true;
        }
        i = i + 1;
    }
    false
}

/// Collects the startup trees of the systems named after a character's class and race
/// (`wanted`, in that order) that are known systems.
pub fn system_startup_trees(systems: &Vec<GameBehaviorData>, known: &Vec<String>, wanted: &Vec<String>) -> (r: Vec<(u128, u128)>)
    ensures
        r@ == startup_system_trees_of(systems@, known@.map_values(|s: String| s@), wanted@.map_values(|s: String| s@), wanted@.len()),
{
    let ghost kv = known@.map_values(|s: String| s@);
    let ghost wv = wanted@.map_values(|s: String| s@);
    let mut r: Vec<(u128, u128)> = Vec::new();
    let mut w: usize = 0;
    while w < wanted.len()
        invariant
            w <= wanted.len(),
            kv == known@.map_values(|s: String| s@),
            wv == wanted@.map_values(|s: String| s@),
            r@ == startup_system_trees_of(systems@, kv, wv, w as nat),
        decreases wanted.len() - w,
    {
        let name = &wanted[w];
        let ghost start = r@;
        if names_contain(known, name) {
            let mut i: usize = 0;
            assert(r@ =~= start + named_system_startup(systems@, name@, 0));
            while i < systems.len()
                invariant
                    i <= systems.len(),
                    r@ == start + named_system_startup(systems@, name@, i as nat),
                decreases systems.len() - i,
            {
                if systems[i].name == *name {
                    push_system_startup(&mut r, &systems[i]);
                }
                i = i + 1;
                assert(r@ =~= start + named_system_startup(systems@, name@, i as nat));
            }
        }
        w = w + 1;
        assert(r@ =~= startup_system_trees_of(systems@, kv, wv, w as nat));
    }
    r
}

} // verus!

verus! {

// ---------------------------------------------------------------------------
// The game logic instance

/// The name of the tree the game starts with: the display text of the "startup" value of
/// the last of the first k behavior-type nodes that has one.
pub open spec fn startup_name_of(nodes: Seq<BehaviorNode>, k: nat) -> Option<Seq<char>>
    decreases k,
{
    if k == 0 {
        None
    } else {
        let n = nodes[k - 1];
        if n.behavior_type == BehaviorNodeType::BehaviorType && find_value(n.values@, "startup"@) is Some {
            Some(crate::value::spec_text_value(find_value(n.values@, "startup"@).unwrap()))
        } else {
            startup_name_of(nodes, (k - 1) as nat)
        }
    }
}

/// The trees of the game logic among its first k nodes, once for each connection leaving
/// them, and the last of them named like the startup tree, which the game instance is
/// locked to.
pub open spec fn game_trees_of(b: GameBehaviorData, startup: Option<Seq<char>>, k: nat) -> (Seq<u128>, Option<u128>)
    decreases k,
{
    if k == 0 {
        (Seq::empty(), None)
    } else {
        let (trees, locked) = game_trees_of(b, startup, (k - 1) as nat);
        let n = b.nodes@[k - 1];
        if n.behavior_type == BehaviorNodeType::BehaviorTree {
            let copies = outgoing(b.connections@, n.id, b.connections@.len());
            (trees + copies, if copies.len() > 0 && startup == Some(n.name@) { Some(n.id) } else { locked })
        } else {
            (trees, locked)
        }
    }
}

/// Finds the trees of the game logic and the tree the game instance is locked to: the
/// last tree named by the startup setting that leads somewhere.
pub fn game_instance_trees(game: &GameBehaviorData) -> (r: (Vec<u128>, Option<u128>))
    ensures
        (r.0@, r.1) == game_trees_of(*game, startup_name_of(game.nodes@, game.nodes@.len()), game.nodes@.len()),
{
    let mut startup: Option<String> = None;
    let mut i: usize = 0;
    while i < game.nodes.len()
        invariant
            i <= game.nodes.len(),
            opt_text(startup) == startup_name_of(game.nodes@, i as nat),
        decreases game.nodes.len() - i,
    {
        let n = &game.nodes[i];
        if n.behavior_type == BehaviorNodeType::BehaviorType {
            match lookup(n, "startup") {
                Some(v) => startup = Some(v.to_string_value()),
                None => {},
            }
        }
        i = i + 1;
    }
    let ghost sn = opt_text(startup);
    let mut trees: Vec<u128> = Vec::new();
    let mut locked: Option<u128> = None;
    let mut k: usize = 0;
    while k < game.nodes.len()
        invariant
            k <= game.nodes.len(),
            sn == opt_text(startup),
            (trees@, locked) == game_trees_of(*game, sn, k as nat),
        decreases game.nodes.len() - k,
    {
        let n = &game.nodes[k];
        if n.behavior_type == BehaviorNodeType::BehaviorTree {
            let before = trees.len();
            push_outgoing(&mut trees, &game.connections, n.id);
            let named = match &startup {
                Some(s) => n.name == *s,
                None => false,
            };
            if trees.len() > before && named {
                locked = Some(n.id);
            }
        }
        k = k + 1;
    }
    (trees, locked)
}

/// The first k trees that run once when the game starts: those whose "execute" setting
/// is 1.
pub open spec fn game_startup_of(b: GameBehaviorData, trees: Seq<u128>, k: nat) -> Seq<u128>
    decreases k,
{
    if k == 0 {
        Seq::empty()
    } else {
        let t = trees[k - 1];
        let runs = match find_node(b.nodes@, t) {
            Some(n) => execute_setting(n) == Some(1i32),
            None => false,
        };
        game_startup_of(b, trees, (k - 1) as nat) + if runs { seq![t] } else { Seq::empty() }
    }
}

/// Picks the trees of the game logic that run once when the game starts.
pub fn game_startup_trees(game: &GameBehaviorData, trees: &Vec<u128>) -> (r: Vec<u128>)
    ensures
        r@ == game_startup_of(*game, trees@, trees@.len()),
{
    let mut r: Vec<u128> = Vec::new();
    let mut k: usize = 0;
    while k < trees.len()
        invariant
            k <= trees.len(),
            r@ == game_startup_of(*game, trees@, k as nat),
        decreases trees.len() - k,
    {
        let runs = match node_index(&game.nodes, trees[k]) {
            Some(n) => match lookup(&game.nodes[n], "execute") {
                Some(v) => v.to_integer() == Some(1i32),
                None => false,
            },
            None => false,
        };
        if runs {
            r.push(trees[k]);
        }
        k = k + 1;
        assert(r@ =~= game_startup_of(*game, trees@, k as nat));
    }
    r
}

} // verus!
