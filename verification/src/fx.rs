use vstd::prelude::*;
use crate::ids::new_uuid;
use crate::targeted::first_index;

verus! {

/// A connector of a node in a node graph editor: its name and its role.
pub struct NodeTerminal {
    pub name: String,
    pub role: String,
}

/// A terminal as plain text.
pub open spec fn terminal_view(t: NodeTerminal) -> (Seq<char>, Seq<char>) {
    (t.name@, t.role@)
}

/// Terminals as plain text.
pub open spec fn terminal_views(ts: Seq<NodeTerminal>) -> Seq<(Seq<char>, Seq<char>)> {
    ts.map_values(|t: NodeTerminal| terminal_view(t))
}

fn terminal(name: &str, role: &str) -> (t: NodeTerminal)
    ensures
        terminal_view(t) == (name@, role@),
{
    NodeTerminal { name: String::from_str(name), role: String::from_str(role) }
}

/// Builds a list of terminals.
fn terminals(list: Vec<(&str, &str)>) -> (v: Vec<NodeTerminal>)
    ensures
        terminal_views(v@) == list@.map_values(|p: (&str, &str)| (p.0@, p.1@)),
{
    let mut v: Vec<NodeTerminal> = Vec::new();
    let mut i: usize = 0;
    while i < list.len()
        invariant
            i <= list.len(),
            terminal_views(v@) == list@.take(i as int).map_values(|p: (&str, &str)| (p.0@, p.1@)),
        decreases list.len() - i,
    {
        let t = terminal(list[i].0, list[i].1);
        let ghost old_v = v@;
        v.push(t);
        assert(terminal_views(v@) =~= terminal_views(old_v).push(terminal_view(t)));
        assert(list@.take(i + 1) =~= list@.take(i as int).push(list@[i as int]));
        i = i + 1;
        assert(terminal_views(v@) =~= list@.take(i as int).map_values(|p: (&str, &str)| (p.0@, p.1@)));
    }
    assert(list@.take(i as int) =~= list@);
    v
}

// ---------------------------------------------------------------------------
// Material nodes

/// The kinds of nodes of a material graph.
#[derive(PartialEq, Eq, Structural, Clone, Copy, Debug)]
pub enum MaterialFXNodeRole {
    Geometry,
    MaterialMixer,
    Material,
    Noise2D,
    Noise3D,
    Brick,
    UVSplitter,
    Subdivide,
    BoxSubdivision,
    Tiles,
    Distance,
}

/// A node of a material graph; its property values live in the editor's timeline.
pub struct MaterialFXNode {
    pub id: u128,
    pub role: MaterialFXNodeRole,
    pub position: (i32, i32),
    pub supports_preview: bool,
    pub preview_is_open: bool,
    pub resolve_branches: bool,
    pub texture_id: Option<u128>,
}

/// The name a material node shows.
pub open spec fn material_name(role: MaterialFXNodeRole) -> Seq<char> {
    match role {
        MaterialFXNodeRole::Geometry => "Geometry"@,
        MaterialFXNodeRole::MaterialMixer => "Material Mixer"@,
        MaterialFXNodeRole::Material => "Material"@,
        MaterialFXNodeRole::Noise2D => "Noise2D"@,
        MaterialFXNodeRole::Noise3D => "Noise3D"@,
        MaterialFXNodeRole::Brick => "Bricks"@,
        MaterialFXNodeRole::UVSplitter => "UV Splitter"@,
        MaterialFXNodeRole::Subdivide => "Subdivide"@,
        MaterialFXNodeRole::Distance => "Distance"@,
        MaterialFXNodeRole::BoxSubdivision => "Box Subdivision"@,
        MaterialFXNodeRole::Tiles => "Tiles"@,
    }
}

/// The input terminals of a material node.
pub open spec fn material_inputs(role: MaterialFXNodeRole) -> Seq<(Seq<char>, Seq<char>)> {
    match role {
        MaterialFXNodeRole::Brick => seq![("in"@, "Input"@), ("displace"@, "Displace"@)],
        MaterialFXNodeRole::Noise3D | MaterialFXNodeRole::Noise2D | MaterialFXNodeRole::UVSplitter
        | MaterialFXNodeRole::Subdivide | MaterialFXNodeRole::Distance => seq![("in"@, "Input"@)],
        MaterialFXNodeRole::Material | MaterialFXNodeRole::MaterialMixer => seq![("in"@, "Input"@), ("noise"@, "Noise"@)],
        MaterialFXNodeRole::BoxSubdivision => seq![("geo"@, "Geometry"@)],
        MaterialFXNodeRole::Tiles => seq![("geo"@, "Geometry"@), ("noise"@, "Noise"@)],
        MaterialFXNodeRole::Geometry => Seq::empty(),
    }
}

/// The output terminals of a material node.
pub open spec fn material_outputs(role: MaterialFXNodeRole) -> Seq<(Seq<char>, Seq<char>)> {
    match role {
        MaterialFXNodeRole::Geometry => seq![("mat"@, "Material"@), ("geo"@, "Geometry"@)],
        MaterialFXNodeRole::MaterialMixer => seq![("mat1"@, "Material1"@), ("mat2"@, "Material2"@)],
        MaterialFXNodeRole::Brick => seq![("brick"@, "Brick"@), ("mortar"@, "Mortar"@)],
        MaterialFXNodeRole::Material | MaterialFXNodeRole::Noise3D | MaterialFXNodeRole::Noise2D
        | MaterialFXNodeRole::Distance => seq![("out"@, "Output"@)],
        MaterialFXNodeRole::UVSplitter => seq![("top"@, "Top"@), ("side"@, "Side"@), ("front"@, "Front"@), ("mapped"@, "Mapped"@)],
        MaterialFXNodeRole::Subdivide => seq![("mat1"@, "Material1"@), ("mat2"@, "Material2"@)],
        MaterialFXNodeRole::BoxSubdivision | MaterialFXNodeRole::Tiles => Seq::empty(),
    }
}

/// The roles in the order the node library lists them.
pub open spec fn material_roles() -> Seq<MaterialFXNodeRole> {
    seq![
        MaterialFXNodeRole::Geometry,
        MaterialFXNodeRole::MaterialMixer,
        MaterialFXNodeRole::Material,
        MaterialFXNodeRole::Noise2D,
        MaterialFXNodeRole::Noise3D,
        MaterialFXNodeRole::Brick,
        MaterialFXNodeRole::UVSplitter,
        MaterialFXNodeRole::Subdivide,
        MaterialFXNodeRole::Distance,
        MaterialFXNodeRole::BoxSubdivision,
        MaterialFXNodeRole::Tiles,
    ]
}

/// The role of the first library node with the name; geometry where none has it.
pub open spec fn material_role_named(name: Seq<char>) -> MaterialFXNodeRole {
    let roles = material_roles();
    match first_index(roles, |r: MaterialFXNodeRole, k: int| material_name(r) == name, 0) {
        Some(k) => roles[k],
        None => MaterialFXNodeRole::Geometry,
    }
}

/// Whether the node is a new one of the role: at (10, 5), geometry and noise nodes
/// showing an open preview, material mixers and distance nodes resolving their branches,
/// without a texture.
pub open spec fn is_new_material_node(n: MaterialFXNode, role: MaterialFXNodeRole) -> bool {
    &&& n.role == role
    &&& n.position == (10i32, 5i32)
    &&& n.supports_preview == (role == MaterialFXNodeRole::Geometry || role == MaterialFXNodeRole::Noise2D
        || role == MaterialFXNodeRole::Noise3D)
    &&& n.preview_is_open == n.supports_preview
    &&& n.resolve_branches == (role == MaterialFXNodeRole::MaterialMixer || role == MaterialFXNodeRole::Distance)
    &&& n.texture_id is None
}

impl MaterialFXNode {
    /// A new node of the role with a fresh id; see [`is_new_material_node`].
    pub fn new(role: MaterialFXNodeRole) -> (n: Self)
        ensures
            is_new_material_node(n, role),
            crate::ids::is_v4_id(n.id),
    {
        let preview = match role {
            MaterialFXNodeRole::Geometry | MaterialFXNodeRole::Noise2D | MaterialFXNodeRole::Noise3D => true,
            _ => false,
        };
        let resolve_branches = match role {
            MaterialFXNodeRole::MaterialMixer | MaterialFXNodeRole::Distance => true,
            _ => false,
        };
        MaterialFXNode {
            id: new_uuid(),
            role,
            position: (10, 5),
            supports_preview: preview,
            preview_is_open: preview,
            resolve_branches,
            texture_id: None,
        }
    }

    /// The name the node shows.
    pub fn name(&self) -> (r: String)
        ensures
            r@ == material_name(self.role),
    {
        match self.role {
            MaterialFXNodeRole::Geometry => String::from_str("Geometry"),
            MaterialFXNodeRole::MaterialMixer => String::from_str("Material Mixer"),
            MaterialFXNodeRole::Material => String::from_str("Material"),
            MaterialFXNodeRole::Noise2D => String::from_str("Noise2D"),
            MaterialFXNodeRole::Noise3D => String::from_str("Noise3D"),
            MaterialFXNodeRole::Brick => String::from_str("Bricks"),
            MaterialFXNodeRole::UVSplitter => String::from_str("UV Splitter"),
            MaterialFXNodeRole::Subdivide => String::from_str("Subdivide"),
            MaterialFXNodeRole::Distance => String::from_str("Distance"),
            MaterialFXNodeRole::BoxSubdivision => String::from_str("Box Subdivision"),
            MaterialFXNodeRole::Tiles => String::from_str("Tiles"),
        }
    }

    /// One new node of each role, in the library's order.
    pub fn nodes() -> (v: Vec<Self>)
        ensures
            v@.len() == material_roles().len(),
            forall|i: int| 0 <= i < v@.len() ==> is_new_material_node(#[trigger] v@[i], material_roles()[i]),
    {
        let v = vec![
            Self::new(MaterialFXNodeRole::Geometry),
            Self::new(MaterialFXNodeRole::MaterialMixer),
            Self::new(MaterialFXNodeRole::Material),
            Self::new(MaterialFXNodeRole::Noise2D),
            Self::new(MaterialFXNodeRole::Noise3D),
            Self::new(MaterialFXNodeRole::Brick),
            Self::new(MaterialFXNodeRole::UVSplitter),
            Self::new(MaterialFXNodeRole::Subdivide),
            Self::new(MaterialFXNodeRole::Distance),
            Self::new(MaterialFXNodeRole::BoxSubdivision),
            Self::new(MaterialFXNodeRole::Tiles),
        ];
        v
    }

    /// Creates a new node from its name: the first library node with the name, or a
    /// geometry node where none has it.
    pub fn new_from_name(name: String) -> (n: Self)
        ensures
            is_new_material_node(n, material_role_named(name@)),
    {
        let mut nodes = MaterialFXNode::nodes();
        let ghost roles = material_roles();
        let ghost p = |r: MaterialFXNodeRole, k: int| material_name(r) == name@;
        let mut i: usize = 0;
        while i < nodes.len()
            invariant
                i <= nodes.len(),
                nodes@.len() == roles.len(),
                roles == material_roles(),
                forall|j: int| 0 <= j < nodes@.len() ==> is_new_material_node(#[trigger] nodes@[j], roles[j]),
                p == (|r: MaterialFXNodeRole, k: int| material_name(r) == name@),
                first_index(roles, p, 0) == first_index(roles, p, i as nat),
            decreases nodes.len() - i,
        {
            if nodes[i].name() == name {
                return nodes.remove(i);
            }
            i = i + 1;
        }
        MaterialFXNode::new(MaterialFXNodeRole::Geometry)
    }

    /// The input terminals of the node.
    pub fn inputs(&self) -> (v: Vec<NodeTerminal>)
        ensures
            terminal_views(v@) == material_inputs(self.role),
    {
        let list: Vec<(&str, &str)> = match self.role {
            MaterialFXNodeRole::Brick => vec![("in", "Input"), ("displace", "Displace")],
            MaterialFXNodeRole::Noise3D | MaterialFXNodeRole::Noise2D | MaterialFXNodeRole::UVSplitter
            | MaterialFXNodeRole::Subdivide | MaterialFXNodeRole::Distance => vec![("in", "Input")],
            MaterialFXNodeRole::Material | MaterialFXNodeRole::MaterialMixer => vec![("in", "Input"), ("noise", "Noise")],
            MaterialFXNodeRole::BoxSubdivision => vec![("geo", "Geometry")],
            MaterialFXNodeRole::Tiles => vec![("geo", "Geometry"), ("noise", "Noise")],
            MaterialFXNodeRole::Geometry => vec![],
        };
        let v = terminals(list);
        assert(terminal_views(v@) =~= material_inputs(self.role));
        v
    }

    /// The output terminals of the node.
    pub fn outputs(&self) -> (v: Vec<NodeTerminal>)
        ensures
            terminal_views(v@) == material_outputs(self.role),
    {
        let list: Vec<(&str, &str)> = match self.role {
            MaterialFXNodeRole::Geometry => vec![("mat", "Material"), ("geo", "Geometry")],
            MaterialFXNodeRole::MaterialMixer => vec![("mat1", "Material1"), ("mat2", "Material2")],
            MaterialFXNodeRole::Brick => vec![("brick", "Brick"), ("mortar", "Mortar")],
            MaterialFXNodeRole::Material | MaterialFXNodeRole::Noise3D | MaterialFXNodeRole::Noise2D
            | MaterialFXNodeRole::Distance => vec![("out", "Output")],
            MaterialFXNodeRole::UVSplitter => vec![("top", "Top"), ("side", "Side"), ("front", "Front"), ("mapped", "Mapped")],
            MaterialFXNodeRole::Subdivide => vec![("mat1", "Material1"), ("mat2", "Material2")],
            MaterialFXNodeRole::BoxSubdivision | MaterialFXNodeRole::Tiles => vec![],
        };
        let v = terminals(list);
        assert(terminal_views(v@) =~= material_outputs(self.role));
        v
    }
}

// ---------------------------------------------------------------------------
// Material graphs

/// A material: its nodes and the connections between them, each as (source node,
/// source terminal, destination node, destination terminal).
pub struct MaterialFXObject {
    pub id: u128,
    pub name: String,
    pub nodes: Vec<MaterialFXNode>,
    pub connections: Vec<(u16, u8, u16, u8)>,
    pub selected_node: Option<usize>,
}

/// Whether a connection leaves the terminal of the node.
pub open spec fn leaves(node: usize, terminal_index: usize) -> spec_fn((u16, u8, u16, u8), int) -> bool {
    |c: (u16, u8, u16, u8), k: int| c.0 == node as u16 && c.1 == terminal_index as u8
}

/// Whether a connection enters the terminal of the node.
pub open spec fn enters(node: usize, terminal_index: usize) -> spec_fn((u16, u8, u16, u8), int) -> bool {
    |c: (u16, u8, u16, u8), k: int| c.2 == node as u16 && c.3 == terminal_index as u8
}

/// The destination of the first connection leaving the terminal of the node.
pub open spec fn connected_input(conns: Seq<(u16, u8, u16, u8)>, node: usize, terminal_index: usize) -> Option<(u16, u8)> {
    match first_index(conns, leaves(node, terminal_index), 0) {
        Some(k) => Some((conns[k].2, conns[k].3)),
        None => None,
    }
}

/// Whether some geometry node has a connection leaving its displacement terminal.
pub open spec fn spec_has_displacement(m: MaterialFXObject) -> bool {
    exists|i: int| 0 <= i < m.nodes@.len() && m.nodes@[i].role == MaterialFXNodeRole::Geometry
        && connected_input(m.connections@, i as usize, 2) is Some
}

impl MaterialFXObject {
    /// A new empty material named "New Material", with a fresh id.
    pub fn new() -> (m: Self)
        ensures
            crate::ids::is_v4_id(m.id),
            m.name@ == "New Material"@,
            m.nodes@.len() == 0,
            m.connections@.len() == 0,
            m.selected_node is None,
    {
        MaterialFXObject {
            id: new_uuid(),
            name: String::from_str("New Material"),
            nodes: Vec::new(),
            connections: Vec::new(),
            selected_node: None,
        }
    }

    /// Returns the node and terminal that the terminal of the node connects to, from the
    /// first such connection. Node and terminal indices are compared in the widths the
    /// connections store them in (16 and 8 bits).
    pub fn find_connected_input_node(&self, node: usize, terminal_index: usize) -> (r: Option<(u16, u8)>)
        ensures
            r == connected_input(self.connections@, node, terminal_index),
    {
        let n = node as u16;
        let t = terminal_index as u8;
        let ghost p = leaves(node, terminal_index);
        let mut i: usize = 0;
        while i < self.connections.len()
            invariant
                i <= self.connections.len(),
                n == node as u16,
                t == terminal_index as u8,
                p == leaves(node, terminal_index),
                first_index(self.connections@, p, 0) == first_index(self.connections@, p, i as nat),
            decreases self.connections.len() - i,
        {
            let c = self.connections[i];
            if c.0 == n && c.1 == t {
                return Some((c.2, c.3));
            }
            i = i + 1;
        }
        None
    }

    /// Returns the node the first connection into the terminal of the node comes from.
    pub fn find_connected_output_node(&self, node: usize, terminal_index: usize) -> (r: Option<usize>)
        ensures
            r == (match first_index(self.connections@, enters(node, terminal_index), 0) {
                Some(k) => Some(self.connections@[k].0 as usize),
                None => None,
            }),
    {
        let n = node as u16;
        let t = terminal_index as u8;
        let ghost p = enters(node, terminal_index);
        let mut i: usize = 0;
        while i < self.connections.len()
            invariant
                i <= self.connections.len(),
                n == node as u16,
                t == terminal_index as u8,
                p == enters(node, terminal_index),
                first_index(self.connections@, p, 0) == first_index(self.connections@, p, i as nat),
            decreases self.connections.len() - i,
        {
            let c = self.connections[i];
            if c.2 == n && c.3 == t {
                return Some(c.0 as usize);
            }
            i = i + 1;
        }
        None
    }

    /// Whether the material displaces: a geometry node's displacement terminal (its
    /// third) is connected.
    pub fn has_displacement(&self) -> (r: bool)
        ensures
            r == spec_has_displacement(*self),
    {
        let mut i: usize = 0;
        while i < self.nodes.len()
            invariant
                i <= self.nodes.len(),
                forall|j: int| 0 <= j < i ==> !(self.nodes@[j].role == MaterialFXNodeRole::Geometry
                    && connected_input(self.connections@, j as usize, 2) is Some),
            decreases self.nodes.len() - i,
        {
            if self.nodes[i].role == MaterialFXNodeRole::Geometry {
                if self.find_connected_input_node(i, 2).is_some() {
                    return true;
                }
            }
            i = i + 1;
        }
        false
    }
}

/// The first geometry node of the material, where its trail starts.
pub open spec fn first_geometry(nodes: Seq<MaterialFXNode>) -> Option<int> {
    first_index(nodes, |n: MaterialFXNode, k: int| n.role == MaterialFXNodeRole::Geometry, 0)
}

/// The destinations of the connections leaving the terminal of the node, among the first
/// k connections, in order.
pub open spec fn trail_from(conns: Seq<(u16, u8, u16, u8)>, node: usize, terminal_index: usize, k: nat) -> Seq<(u16, u8)>
    decreases k,
{
    if k == 0 {
        Seq::empty()
    } else {
        let c = conns[k - 1];
        trail_from(conns, node, terminal_index, (k - 1) as nat) + if c.0 == node as u16 && c.1 == terminal_index as u8 {
            seq![(c.2, c.3)]
        } else {
            Seq::empty()
        }
    }
}

/// The node a trail goes on to from the terminal of a node: none without a connection,
/// the one connected where there is one, and otherwise the one at the index the hit
/// picks, if that index is in range.
pub open spec fn trail_step(next: Seq<(u16, u8)>, pick: usize) -> Option<u16> {
    if next.len() == 0 {
        None
    } else if next.len() == 1 {
        Some(next[0].0)
    } else if pick < next.len() {
        Some(next[pick as int].0)
    } else {
        None
    }
}

impl MaterialFXObject {
    /// The node a material's color is computed from: its first geometry node, whose
    /// trail starts at its first terminal.
    pub fn trail_start(&self) -> (r: Option<usize>)
        ensures
            r == match first_geometry(self.nodes@) {
                Some(i) => Some(i as usize),
                None => None,
            },
    {
        let ghost p = |n: MaterialFXNode, k: int| n.role == MaterialFXNodeRole::Geometry;
        let mut i: usize = 0;
        while i < self.nodes.len()
            invariant
                i <= self.nodes.len(),
                p == (|n: MaterialFXNode, k: int| n.role == MaterialFXNodeRole::Geometry),
                first_index(self.nodes@, p, 0) == first_index(self.nodes@, p, i as nat),
            decreases self.nodes.len() - i,
        {
            if self.nodes[i].role == MaterialFXNodeRole::Geometry {
                return Some(i);
            }
            i = i + 1;
        }
        None
    }

    /// The node whose displacement a material applies: the one connected to the
    /// displacement terminal (the third) of its first geometry node.
    pub fn displacement_node(&self) -> (r: Option<u16>)
        ensures
            r == match first_geometry(self.nodes@) {
                Some(i) => match connected_input(self.connections@, i as usize, 2) {
                    Some(c) => Some(c.0),
                    None => None,
                },
                None => None,
            },
    {
        match self.trail_start() {
            Some(i) => match self.find_connected_input_node(i, 2) {
                Some(c) => Some(c.0),
                None => None,
            },
            None => None,
        }
    }

    /// The destinations of all connections leaving the terminal of the node, in order;
    /// indices compare in the widths the connections store them in.
    pub fn trail_connections(&self, node: usize, terminal_index: usize) -> (r: Vec<(u16, u8)>)
        ensures
            r@ == trail_from(self.connections@, node, terminal_index, self.connections@.len()),
    {
        let n = node as u16;
        let t = terminal_index as u8;
        let mut r: Vec<(u16, u8)> = Vec::new();
        let mut i: usize = 0;
        while i < self.connections.len()
            invariant
                i <= self.connections.len(),
                n == node as u16,
                t == terminal_index as u8,
                r@ == trail_from(self.connections@, node, terminal_index, i as nat),
            decreases self.connections.len() - i,
        {
            let c = self.connections[i];
            if c.0 == n && c.1 == t {
                r.push((c.2, c.3));
            }
            i = i + 1;
            assert(r@ =~= trail_from(self.connections@, node, terminal_index, i as nat));
        }
        r
    }

    /// Decides where the trail goes on from the terminal of a node (see [`trail_step`]);
    /// `pick` is the index the hit's hash selects among several connections.
    pub fn next_on_trail(&self, node: usize, terminal_index: usize, pick: usize) -> (r: Option<u16>)
        ensures
            r == trail_step(trail_from(self.connections@, node, terminal_index, self.connections@.len()), pick),
    {
        let next = self.trail_connections(node, terminal_index);
        if next.len() == 0 {
            None
        } else if next.len() == 1 {
            Some(next[0].0)
        } else if pick < next.len() {
            Some(next[pick].0)
        } else {
            None
        }
    }
}

// ---------------------------------------------------------------------------
// Region effect nodes

/// The kinds of nodes of a region effect graph.
#[derive(PartialEq, Eq, Structural, Clone, Copy, Debug)]
pub enum RegionFXNodeRole {
    TiltedIsoCamera,
    TopDownIsoCamera,
    Renderer,
    Saturation,
}

/// A node of a region effect graph; its property values live in the editor's timeline.
pub struct RegionFXNode {
    pub id: u128,
    pub role: RegionFXNodeRole,
    pub position: (i32, i32),
    pub supports_preview: bool,
    pub preview_is_open: bool,
}

/// The name a region effect node shows.
pub open spec fn region_fx_name(role: RegionFXNodeRole) -> Seq<char> {
    match role {
        RegionFXNodeRole::TiltedIsoCamera => "Tilted Iso Camera"@,
        RegionFXNodeRole::TopDownIsoCamera => "Top Down Iso Camera"@,
        RegionFXNodeRole::Renderer => "Renderer"@,
        RegionFXNodeRole::Saturation => "Saturation"@,
    }
}

/// The input terminals of a region effect node.
pub open spec fn region_fx_inputs(role: RegionFXNodeRole) -> Seq<(Seq<char>, Seq<char>)> {
    match role {
        RegionFXNodeRole::TiltedIsoCamera | RegionFXNodeRole::TopDownIsoCamera => Seq::empty(),
        RegionFXNodeRole::Renderer => seq![("cam"@, "Camera"@)],
        RegionFXNodeRole::Saturation => seq![("in"@, "In"@)],
    }
}

/// The output terminals of a region effect node.
pub open spec fn region_fx_outputs(role: RegionFXNodeRole) -> Seq<(Seq<char>, Seq<char>)> {
    match role {
        RegionFXNodeRole::TiltedIsoCamera | RegionFXNodeRole::TopDownIsoCamera => seq![("cam"@, "Camera"@)],
        RegionFXNodeRole::Renderer => seq![("2D FX"@, "2D FX"@), ("3D FX"@, "3D FX"@)],
        RegionFXNodeRole::Saturation => seq![("out"@, "Out"@)],
    }
}

/// The roles in the order the node library lists them.
pub open spec fn region_fx_roles() -> Seq<RegionFXNodeRole> {
    seq![
        RegionFXNodeRole::TiltedIsoCamera,
        RegionFXNodeRole::TopDownIsoCamera,
        RegionFXNodeRole::Renderer,
        RegionFXNodeRole::Saturation,
    ]
}

/// The role of the first library node with the name; the renderer where none has it.
pub open spec fn region_fx_role_named(name: Seq<char>) -> RegionFXNodeRole {
    let roles = region_fx_roles();
    match first_index(roles, |r: RegionFXNodeRole, k: int| region_fx_name(r) == name, 0) {
        Some(k) => roles[k],
        None => RegionFXNodeRole::Renderer,
    }
}

/// Whether the node is a new one of the role: at (10, 5), without a preview.
pub open spec fn is_new_region_fx_node(n: RegionFXNode, role: RegionFXNodeRole) -> bool {
    n.role == role && n.position == (10i32, 5i32) && !n.supports_preview && !n.preview_is_open
}

impl RegionFXNode {
    /// A new node of the role with a fresh id at (10, 5), without a preview.
    pub fn new(role: RegionFXNodeRole) -> (n: Self)
        ensures
            is_new_region_fx_node(n, role),
            crate::ids::is_v4_id(n.id),
    {
        RegionFXNode { id: new_uuid(), role, position: (10, 5), supports_preview: false, preview_is_open: false }
    }

    /// The name the node shows.
    pub fn name(&self) -> (r: String)
        ensures
            r@ == region_fx_name(self.role),
    {
        match self.role {
            RegionFXNodeRole::TiltedIsoCamera => String::from_str("Tilted Iso Camera"),
            RegionFXNodeRole::TopDownIsoCamera => String::from_str("Top Down Iso Camera"),
            RegionFXNodeRole::Renderer => String::from_str("Renderer"),
            RegionFXNodeRole::Saturation => String::from_str("Saturation"),
        }
    }

    /// One new node of each role, in the library's order.
    pub fn nodes() -> (v: Vec<Self>)
        ensures
            v@.len() == region_fx_roles().len(),
            forall|i: int| 0 <= i < v@.len() ==> is_new_region_fx_node(#[trigger] v@[i], region_fx_roles()[i]),
    {
        vec![
            Self::new(RegionFXNodeRole::TiltedIsoCamera),
            Self::new(RegionFXNodeRole::TopDownIsoCamera),
            Self::new(RegionFXNodeRole::Renderer),
            Self::new(RegionFXNodeRole::Saturation),
        ]
    }

    /// Whether the node is a camera.
    pub fn is_camera(&self) -> (r: bool)
        ensures
            r == (self.role == RegionFXNodeRole::TiltedIsoCamera || self.role == RegionFXNodeRole::TopDownIsoCamera),
    {
        match self.role {
            RegionFXNodeRole::TiltedIsoCamera | RegionFXNodeRole::TopDownIsoCamera => true,
            _ => false,
        }
    }

    /// The input terminals of the node.
    pub fn inputs(&self) -> (v: Vec<NodeTerminal>)
        ensures
            terminal_views(v@) == region_fx_inputs(self.role),
    {
        let list: Vec<(&str, &str)> = match self.role {
            RegionFXNodeRole::TiltedIsoCamera | RegionFXNodeRole::TopDownIsoCamera => vec![],
            RegionFXNodeRole::Renderer => vec![("cam", "Camera")],
            RegionFXNodeRole::Saturation => vec![("in", "In")],
        };
        let v = terminals(list);
        assert(terminal_views(v@) =~= region_fx_inputs(self.role));
        v
    }

    /// The output terminals of the node.
    pub fn outputs(&self) -> (v: Vec<NodeTerminal>)
        ensures
            terminal_views(v@) == region_fx_outputs(self.role),
    {
        let list: Vec<(&str, &str)> = match self.role {
            RegionFXNodeRole::TiltedIsoCamera | RegionFXNodeRole::TopDownIsoCamera => vec![("cam", "Camera")],
            RegionFXNodeRole::Renderer => vec![("2D FX", "2D FX"), ("3D FX", "3D FX")],
            RegionFXNodeRole::Saturation => vec![("out", "Out")],
        };
        let v = terminals(list);
        assert(terminal_views(v@) =~= region_fx_outputs(self.role));
        v
    }

    /// Creates a new node from its name: the first library node with the name, or a
    /// renderer where none has it.
    pub fn new_from_name(name: String) -> (n: Self)
        ensures
            is_new_region_fx_node(n, region_fx_role_named(name@)),
    {
        let mut nodes = RegionFXNode::nodes();
        let ghost roles = region_fx_roles();
        let ghost p = |r: RegionFXNodeRole, k: int| region_fx_name(r) == name@;
        let mut i: usize = 0;
        while i < nodes.len()
            invariant
                i <= nodes.len(),
                nodes@.len() == roles.len(),
                roles == region_fx_roles(),
                forall|j: int| 0 <= j < nodes@.len() ==> is_new_region_fx_node(#[trigger] nodes@[j], roles[j]),
                p == (|r: RegionFXNodeRole, k: int| region_fx_name(r) == name@),
                first_index(roles, p, 0) == first_index(roles, p, i as nat),
            decreases nodes.len() - i,
        {
            if nodes[i].name() == name {
                return nodes.remove(i);
            }
            i = i + 1;
        }
        RegionFXNode::new(RegionFXNodeRole::Renderer)
    }
}

// ---------------------------------------------------------------------------
// Model terminals

/// The kinds of terminals of a model node.
#[derive(PartialEq, Eq, Structural, Clone, Copy, Debug)]
pub enum ModelFXTerminalRole {
    Face,
    UV,
}

/// The color of a model terminal, as a hex color code.
pub enum ModelFXColor {
    Color(String),
}

/// The hex code of the color a terminal of the index gets.
pub open spec fn terminal_hex(index: u8) -> Seq<char> {
    if index == 0 {
        "#cf0000"@
    } else if index == 1 {
        "#eefb1c"@
    } else if index == 2 {
        "#2c34d6"@
    } else if index == 3 {
        "#0af505"@
    } else if index == 4 {
        "#7bc4f5"@
    } else {
        "#d1d1d1"@
    }
}

impl ModelFXColor {
    /// The color of the terminal with the index: red, yellow, blue, green and light blue
    /// for the first five, grey after.
    pub fn create(index: u8) -> (c: Self)
        ensures
            c matches ModelFXColor::Color(hex) && hex@ == terminal_hex(index),
    {
        ModelFXColor::Color(match index {
            0 => String::from_str("#cf0000"),
            1 => String::from_str("#eefb1c"),
            2 => String::from_str("#2c34d6"),
            3 => String::from_str("#0af505"),
            4 => String::from_str("#7bc4f5"),
            _ => String::from_str("#d1d1d1"),
        })
    }

    /// The hex code of the color.
    pub fn color(&self) -> (r: &String)
        ensures
            self matches ModelFXColor::Color(hex) && *r == hex,
    {
        match self {
            ModelFXColor::Color(color) => color,
        }
    }
}

/// A terminal of a model node.
pub struct ModelFXTerminal {
    pub role: ModelFXTerminalRole,
    pub color: ModelFXColor,
}

impl ModelFXTerminal {
    /// A terminal of the role with the color of the index.
    pub fn new(role: ModelFXTerminalRole, index: u8) -> (t: Self)
        ensures
            t.role == role,
            t.color matches ModelFXColor::Color(hex) && hex@ == terminal_hex(index),
    {
        ModelFXTerminal { role, color: ModelFXColor::create(index) }
    }
}

} // verus!
