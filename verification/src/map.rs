use vstd::prelude::*;

verus! {

// Coordinates and heights are single-precision numbers, held here by their bit patterns.

/// Whether the bits encode a NaN.
pub open spec fn is_nan_bits(b: u32) -> bool {
    (b & 0x7f80_0000u32) == 0x7f80_0000u32 && (b & 0x007f_ffffu32) != 0
}

/// Equality of two single-precision numbers given by their bits: NaN equals nothing and
/// the two zeros are equal.
pub open spec fn float_bits_eq(a: u32, b: u32) -> bool {
    !is_nan_bits(a) && !is_nan_bits(b) && (a == b || ((a & 0x7fff_ffffu32) == 0 && (b & 0x7fff_ffffu32) == 0))
}

/// Compares two single-precision numbers given by their bits, as `==` on `f32` does.
pub fn float_bits_equal(a: u32, b: u32) -> (r: bool)
    ensures
        r == float_bits_eq(a, b),
{
    let a_nan = (a & 0x7f80_0000u32) == 0x7f80_0000u32 && (a & 0x007f_ffffu32) != 0;
    let b_nan = (b & 0x7f80_0000u32) == 0x7f80_0000u32 && (b & 0x007f_ffffu32) != 0;
    !a_nan && !b_nan && (a == b || ((a & 0x7fff_ffffu32) == 0 && (b & 0x7fff_ffffu32) == 0))
}

/// A corner point of the map.
#[derive(PartialEq, Eq, Structural, Clone, Copy, Debug)]
pub struct Vertex {
    pub id: u32,
    pub x: u32,
    pub y: u32,
}

impl Vertex {
    pub fn new(id: u32, x: u32, y: u32) -> (v: Self)
        ensures
            v == (Vertex { id, x, y }),
    {
        Self { id, x, y }
    }
}

/// A line between two vertices, with the sectors on its two sides.
#[derive(Clone, Copy, Debug)]
pub struct Linedef {
    pub id: u32,
    pub start_vertex: u32,
    pub end_vertex: u32,
    pub front_sector: Option<u32>,
    pub back_sector: Option<u32>,
    pub texture: Option<u128>,
}

impl Linedef {
    pub fn new(id: u32, start_vertex: u32, end_vertex: u32) -> (l: Self)
        ensures
            l == (Linedef { id, start_vertex, end_vertex, front_sector: None, back_sector: None, texture: None }),
    {
        Self { id, start_vertex, end_vertex, front_sector: None, back_sector: None, texture: None }
    }
}

/// A closed area bounded by linedefs.
pub struct Sector {
    pub id: u32,
    pub linedefs: Vec<u32>,
    pub floor_height: u32,
    pub ceiling_height: u32,
    pub floor_texture: Option<u128>,
    pub ceiling_texture: Option<u128>,
    pub neighbours: Vec<u32>,
}

/// The mathematical value of a sector.
pub struct SectorModel {
    pub id: u32,
    pub linedefs: Seq<u32>,
    pub floor_height: u32,
    pub ceiling_height: u32,
    pub floor_texture: Option<u128>,
    pub ceiling_texture: Option<u128>,
    pub neighbours: Seq<u32>,
}

impl View for Sector {
    type V = SectorModel;

    open spec fn view(&self) -> SectorModel {
        SectorModel {
            id: self.id,
            linedefs: self.linedefs@,
            floor_height: self.floor_height,
            ceiling_height: self.ceiling_height,
            floor_texture: self.floor_texture,
            ceiling_texture: self.ceiling_texture,
            neighbours: self.neighbours@,
        }
    }
}

impl Sector {
    pub fn new(id: u32, linedefs: Vec<u32>) -> (s: Self)
        ensures
            s@ == (SectorModel {
                id,
                linedefs: linedefs@,
                floor_height: 0,
                ceiling_height: 0,
                floor_texture: None,
                ceiling_texture: None,
                neighbours: Seq::empty(),
            }),
    {
        Self {
            id,
            linedefs,
            floor_height: 0,
            ceiling_height: 0,
            floor_texture: None,
            ceiling_texture: None,
            neighbours: Vec::new(),
        }
    }
}

/// A map of vertices, linedefs and sectors, with the linedefs that the user is drawing and
/// which may close into a polygon.
pub struct LevelMap {
    pub offset: (u32, u32),
    pub grid_size: u32,
    pub subdivisions: u32,
    /// The linedefs drawn since the last closed polygon.
    pub possible_polygon: Vec<u32>,
    pub curr_grid_pos: Option<(u32, u32)>,
    pub curr_mouse_pos: Option<(u32, u32)>,
    pub vertices: Vec<Vertex>,
    pub linedefs: Vec<Linedef>,
    pub sectors: Vec<Sector>,
    pub selected_vertices: Vec<u32>,
    pub selected_linedefs: Vec<u32>,
    pub selected_sectors: Vec<u32>,
}

/// The sectors of a map as models.
pub open spec fn sector_models(s: Seq<Sector>) -> Seq<SectorModel> {
    s.map_values(|x: Sector| x@)
}

/// The index of the first vertex at (x, y).
pub open spec fn vertex_index_at(vs: Seq<Vertex>, x: u32, y: u32) -> Option<int>
    decreases vs.len(),
{
    if vs.len() == 0 {
        None
    } else if float_bits_eq(vs[0].x, x) && float_bits_eq(vs[0].y, y) {
        Some(0)
    } else {
        match vertex_index_at(vs.drop_first(), x, y) {
            Some(i) => Some(i + 1),
            None => None,
        }
    }
}

/// The index of the first element whose id is `id`.
pub open spec fn linedef_index(ls: Seq<Linedef>, id: u32) -> Option<int>
    decreases ls.len(),
{
    if ls.len() == 0 {
        None
    } else if ls[0].id == id {
        Some(0)
    } else {
        match linedef_index(ls.drop_first(), id) {
            Some(i) => Some(i + 1),
            None => None,
        }
    }
}

/// The linedefs after one of them (the first with the id) got the sector on its free side.
pub open spec fn assign_one(ls: Seq<Linedef>, id: u32, sector: u32) -> Seq<Linedef> {
    match linedef_index(ls, id) {
        Some(i) => {
            let l = ls[i];
            if l.front_sector is None {
                ls.update(i, Linedef { front_sector: Some(sector), ..l })
            } else if l.back_sector is None {
                ls.update(i, Linedef { back_sector: Some(sector), ..l })
            } else {
                ls
            }
        },
        None => ls,
    }
}

/// The linedefs after each of `ids`, in order, got the sector on its free side.
pub open spec fn assign_all(ls: Seq<Linedef>, ids: Seq<u32>, sector: u32) -> Seq<Linedef>
    decreases ids.len(),
{
    if ids.len() == 0 {
        ls
    } else {
        assign_one(assign_all(ls, ids.drop_last(), sector), ids.last(), sector)
    }
}

/// Whether a sector consists of exactly as many linedefs as `ids`, all among `ids`.
pub open spec fn sector_matches(s: SectorModel, ids: Seq<u32>) -> bool {
    s.linedefs.len() == ids.len() && forall|k: int| 0 <= k < s.linedefs.len() ==> ids.contains(#[trigger] s.linedefs[k])
}

/// The id of the first sector matching `ids`.
pub open spec fn matching_sector(ss: Seq<SectorModel>, ids: Seq<u32>) -> Option<u32>
    decreases ss.len(),
{
    if ss.len() == 0 {
        None
    } else if sector_matches(ss[0], ids) {
        Some(ss[0].id)
    } else {
        matching_sector(ss.drop_first(), ids)
    }
}

/// Whether the drawn linedefs close: at least three, and the last ends where the first
/// starts.
pub open spec fn closes(ls: Seq<Linedef>, pp: Seq<u32>) -> bool {
    pp.len() >= 3 && ls[pp.last() as int].end_vertex == ls[pp[0] as int].start_vertex
}

/// Whether the drawn linedefs can be looked up by index.
pub open spec fn polygon_indexable(ls: Seq<Linedef>, pp: Seq<u32>) -> bool {
    pp.len() >= 3 ==> (pp[0] < ls.len() && pp.last() < ls.len())
}

impl LevelMap {
    pub fn new() -> (m: Self)
        ensures
            m.offset == (0u32, 0u32),
            m.grid_size == 0x41f0_0000u32,
            m.subdivisions == 0x3f80_0000u32,
            m.possible_polygon@ == Seq::<u32>::empty(),
            m.curr_grid_pos is None,
            m.curr_mouse_pos is None,
            m.vertices@ == Seq::<Vertex>::empty(),
            m.linedefs@ == Seq::<Linedef>::empty(),
            m.sectors@ == Seq::<Sector>::empty(),
            m.selected_vertices@ == Seq::<u32>::empty(),
            m.selected_linedefs@ == Seq::<u32>::empty(),
            m.selected_sectors@ == Seq::<u32>::empty(),
    {
        Self {
            offset: (0, 0),
            grid_size: 0x41f0_0000u32,
            subdivisions: 0x3f80_0000u32,
            possible_polygon: Vec::new(),
            curr_grid_pos: None,
            curr_mouse_pos: None,
            vertices: Vec::new(),
            linedefs: Vec::new(),
            sectors: Vec::new(),
            selected_vertices: Vec::new(),
            selected_linedefs: Vec::new(),
            selected_sectors: Vec::new(),
        }
    }

    /// Clears the temporary drawing state.
    pub fn clear_temp(&mut self)
        ensures
            final(self).possible_polygon@ == Seq::<u32>::empty(),
            final(self).curr_grid_pos is None,
            final(self).curr_mouse_pos is None,
            final(self).offset == old(self).offset,
            final(self).grid_size == old(self).grid_size,
            final(self).subdivisions == old(self).subdivisions,
            final(self).vertices == old(self).vertices,
            final(self).linedefs == old(self).linedefs,
            final(self).sectors == old(self).sectors,
            final(self).selected_vertices == old(self).selected_vertices,
            final(self).selected_linedefs == old(self).selected_linedefs,
            final(self).selected_sectors == old(self).selected_sectors,
    {
        self.possible_polygon = Vec::new();
        self.curr_grid_pos = None;
        self.curr_mouse_pos = None;
    }

    /// Finds a vertex at the given position and returns its id.
    pub fn find_vertex_at(&self, x: u32, y: u32) -> (r: Option<u32>)
        ensures
            r == (match vertex_index_at(self.vertices@, x, y) {
                Some(i) => Some(self.vertices@[i].id),
                None => None::<u32>,
            }),
    {
        let mut i: usize = 0;
        assert(self.vertices@.skip(0) =~= self.vertices@);
        while i < self.vertices.len()
            invariant
                i <= self.vertices@.len(),
                vertex_index_at(self.vertices@, x, y) == (match vertex_index_at(self.vertices@.skip(i as int), x, y) {
                    Some(k) => Some(k + i),
                    None => None::<int>,
                }),
            decreases self.vertices@.len() - i,
        {
            assert(self.vertices@.skip(i as int).drop_first() =~= self.vertices@.skip(i + 1));
            let v = self.vertices[i];
            if float_bits_equal(v.x, x) && float_bits_equal(v.y, y) {
                return Some(v.id);
            }
            i = i + 1;
        }
        None
    }

    /// Finds the first vertex with the given id.
    pub fn find_vertex(&self, id: u32) -> (r: Option<&Vertex>)
        ensures
            r is None ==> forall|k: int| 0 <= k < self.vertices@.len() ==> self.vertices@[k].id != id,
            r matches Some(v) ==> exists|k: int| 0 <= k < self.vertices@.len() && self.vertices@[k] == *v
                && v.id == id && forall|j: int| 0 <= j < k ==> self.vertices@[j].id != id,
    {
        let mut i: usize = 0;
        while i < self.vertices.len()
            invariant
                i <= self.vertices@.len(),
                forall|k: int| 0 <= k < i ==> self.vertices@[k].id != id,
            decreases self.vertices@.len() - i,
        {
            if self.vertices[i].id == id {
                return Some(&self.vertices[i]);
            }
            i = i + 1;
        }
        None
    }

    /// Finds the first vertex with the given id, to change it in place.
    pub fn find_vertex_mut(&mut self, id: u32) -> (r: Option<&mut Vertex>)
        ensures
            r is None ==> *final(self) == *old(self)
                && forall|k: int| 0 <= k < old(self).vertices@.len() ==> old(self).vertices@[k].id != id,
            r matches Some(v) ==> exists|k: int| 0 <= k < old(self).vertices@.len()
                && old(self).vertices@[k] == *v
                && v.id == id
                && (forall|j: int| 0 <= j < k ==> old(self).vertices@[j].id != id)
                && final(self).vertices@ == old(self).vertices@.update(k, *final(v))
                && *final(self) == (LevelMap { vertices: final(self).vertices, ..*old(self) }),
    {
        let mut i: usize = 0;
        while i < self.vertices.len()
            invariant
                i <= self.vertices@.len(),
                *self == *old(self),
                forall|k: int| 0 <= k < i ==> self.vertices@[k].id != id,
            decreases self.vertices@.len() - i,
        {
            if self.vertices[i].id == id {
                return Some(&mut self.vertices[i]);
            }
            i = i + 1;
        }
        None
    }

    /// Returns the id of the vertex at (x, y), adding the vertex when there is none.
    pub fn add_vertex_at(&mut self, x: u32, y: u32) -> (id: u32)
        ensures
            match vertex_index_at(old(self).vertices@, x, y) {
                Some(i) => id == old(self).vertices@[i].id && final(self).vertices@ == old(self).vertices@,
                None => id == old(self).vertices@.len() as u32
                    && final(self).vertices@ == old(self).vertices@.push(Vertex { id, x, y }),
            },
            final(self).offset == old(self).offset,
            final(self).grid_size == old(self).grid_size,
            final(self).subdivisions == old(self).subdivisions,
            final(self).possible_polygon == old(self).possible_polygon,
            final(self).curr_grid_pos == old(self).curr_grid_pos,
            final(self).curr_mouse_pos == old(self).curr_mouse_pos,
            final(self).linedefs == old(self).linedefs,
            final(self).sectors == old(self).sectors,
            final(self).selected_vertices == old(self).selected_vertices,
            final(self).selected_linedefs == old(self).selected_linedefs,
            final(self).selected_sectors == old(self).selected_sectors,
    {
        if let Some(id) = self.find_vertex_at(x, y) {
            return id;
        }
        let id = self.vertices.len() as u32;
        let vertex = Vertex::new(id, x, y);
        self.vertices.push(vertex);
        id
    }

    /// Checks whether the drawn linedefs form a closed loop: at least three of them, and
    /// the last one ends where the first one starts.
    pub fn test_for_closed_polygon(&self) -> (r: bool)
        requires
            polygon_indexable(self.linedefs@, self.possible_polygon@),
        ensures
            r == closes(self.linedefs@, self.possible_polygon@),
    {
        if self.possible_polygon.len() < 3 {
            return false;
        }
        let first = self.possible_polygon[0] as usize;
        let last = self.possible_polygon[self.possible_polygon.len() - 1] as usize;
        self.linedefs[last].end_vertex == self.linedefs[first].start_vertex
    }

    /// Returns the id of the first sector made of exactly the given linedefs.
    pub fn find_sector_by_linedefs(&self, linedefs: &[u32]) -> (r: Option<u32>)
        ensures
            r == matching_sector(sector_models(self.sectors@), linedefs@),
    {
        let ghost ss = sector_models(self.sectors@);
        let mut i: usize = 0;
        assert(ss.skip(0) =~= ss);
        while i < self.sectors.len()
            invariant
                i <= self.sectors@.len(),
                ss == sector_models(self.sectors@),
                matching_sector(ss, linedefs@) == matching_sector(ss.skip(i as int), linedefs@),
            decreases self.sectors@.len() - i,
        {
            assert(ss.skip(i as int).drop_first() =~= ss.skip(i + 1));
            let sector = &self.sectors[i];
            assert(ss[i as int] == sector@);
            if sector.linedefs.len() == linedefs.len() && all_contained(&sector.linedefs, linedefs) {
                return Some(sector.id);
            }
            i = i + 1;
        }
        None
    }

    /// Turns the drawn linedefs into a new sector when they close and no sector of
    /// the same linedefs exists; a duplicate only clears the drawing.
    pub fn create_sector_from_polygon(&mut self) -> (r: Option<u32>)
        requires
            polygon_indexable(old(self).linedefs@, old(self).possible_polygon@),
        ensures
            polygon_outcome(*old(self), *final(self), r),
    {
        if !self.test_for_closed_polygon() {
            return None;
        }
        if self.find_sector_by_linedefs(self.possible_polygon.as_slice()).is_some() {
            self.possible_polygon.clear();
            return None;
        }
        let sector_id = self.sectors.len() as u32;
        let ghost ls0 = self.linedefs@;
        let ghost pp = self.possible_polygon@;
        let mut i: usize = 0;
        assert(pp.take(0) =~= Seq::<u32>::empty());
        while i < self.possible_polygon.len()
            invariant
                i <= pp.len(),
                pp == self.possible_polygon@,
                self.linedefs@ == assign_all(ls0, pp.take(i as int), sector_id),
                same_but_topology(*old(self), *self),
                self.sectors == old(self).sectors,
                self.possible_polygon == old(self).possible_polygon,
                ls0 == old(self).linedefs@,
                sector_id == old(self).sectors@.len() as u32,
            decreases pp.len() - i,
        {
            let id = self.possible_polygon[i];
            assign_sector_to(&mut self.linedefs, id, sector_id);
            assert(pp.take(i + 1).drop_last() =~= pp.take(i as int));
            i = i + 1;
        }
        assert(pp.take(pp.len() as int) =~= pp);
        let ids = copy_ids(&self.possible_polygon);
        let sector = Sector::new(sector_id, ids);
        self.sectors.push(sector);
        self.possible_polygon.clear();
        assert(sector_models(self.sectors@) =~= sector_models(old(self).sectors@).push(new_sector_model(sector_id, pp)));
        Some(sector_id)
    }

    /// Adds a linedef between two vertices and, when it closes the drawn polygon, the
    /// sector; returns the linedef's id and the new sector's id.
    pub fn create_linedef(&mut self, start_vertex: u32, end_vertex: u32) -> (r: (u32, Option<u32>))
        requires
            polygon_indexable(
                old(self).linedefs@.push(Linedef::new_spec(old(self).linedefs@.len() as u32, start_vertex, end_vertex)),
                old(self).possible_polygon@.push(old(self).linedefs@.len() as u32),
            ),
        ensures
            r.0 == old(self).linedefs@.len() as u32,
            ({
                let ls = old(self).linedefs@.push(Linedef::new_spec(r.0, start_vertex, end_vertex));
                let pp = old(self).possible_polygon@.push(r.0);
                polygon_outcome_from(*old(self), ls, pp, *final(self), r.1)
            }),
    {
        let id = self.linedefs.len() as u32;
        let linedef = Linedef::new(id, start_vertex, end_vertex);
        self.linedefs.push(linedef);
        self.possible_polygon.push(id);
        let sector_id = self.create_sector_from_polygon();
        (id, sector_id)
    }

    /// Whether the linedef belongs to some sector.
    pub fn is_linedef_in_closed_polygon(&self, linedef_id: u32) -> (r: bool)
        ensures
            r == exists|k: int| 0 <= k < self.sectors@.len() && #[trigger] self.sectors@[k].linedefs@.contains(linedef_id),
    {
        let mut i: usize = 0;
        while i < self.sectors.len()
            invariant
                i <= self.sectors@.len(),
                forall|k: int| 0 <= k < i ==> !(#[trigger] self.sectors@[k].linedefs@.contains(linedef_id)),
            decreases self.sectors@.len() - i,
        {
            if ids_contain(self.sectors[i].linedefs.as_slice(), linedef_id) {
                return true;
            }
            i = i + 1;
        }
        false
    }
}

impl Linedef {
    /// The value [`Linedef::new`] returns.
    pub open spec fn new_spec(id: u32, start_vertex: u32, end_vertex: u32) -> Linedef {
        Linedef { id, start_vertex, end_vertex, front_sector: None, back_sector: None, texture: None }
    }
}

/// The model of a new sector of the given linedefs.
pub open spec fn new_sector_model(id: u32, linedefs: Seq<u32>) -> SectorModel {
    SectorModel {
        id,
        linedefs,
        floor_height: 0,
        ceiling_height: 0,
        floor_texture: None,
        ceiling_texture: None,
        neighbours: Seq::empty(),
    }
}

/// Whether two maps agree in all fields but linedefs, sectors and the drawn polygon.
pub open spec fn same_but_topology(a: LevelMap, b: LevelMap) -> bool {
    &&& a.offset == b.offset
    &&& a.grid_size == b.grid_size
    &&& a.subdivisions == b.subdivisions
    &&& a.curr_grid_pos == b.curr_grid_pos
    &&& a.curr_mouse_pos == b.curr_mouse_pos
    &&& a.vertices == b.vertices
    &&& a.selected_vertices == b.selected_vertices
    &&& a.selected_linedefs == b.selected_linedefs
    &&& a.selected_sectors == b.selected_sectors
}

/// What turning the drawn polygon `pp` over linedefs `ls` into a sector does to `old`,
/// giving `new` and the sector id `r`.
pub open spec fn polygon_outcome_from(old: LevelMap, ls: Seq<Linedef>, pp: Seq<u32>, new: LevelMap, r: Option<u32>) -> bool {
    let ss = sector_models(old.sectors@);
    &&& same_but_topology(old, new)
    &&& if !closes(ls, pp) {
        &&& r is None
        &&& new.linedefs@ == ls
        &&& new.possible_polygon@ == pp
        &&& new.sectors == old.sectors
    } else if matching_sector(ss, pp) is Some {
        &&& r is None
        &&& new.linedefs@ == ls
        &&& new.possible_polygon@ == Seq::<u32>::empty()
        &&& new.sectors == old.sectors
    } else {
        let sid = old.sectors@.len() as u32;
        &&& r == Some(sid)
        &&& new.linedefs@ == assign_all(ls, pp, sid)
        &&& sector_models(new.sectors@) == ss.push(new_sector_model(sid, pp))
        &&& new.possible_polygon@ == Seq::<u32>::empty()
    }
}

/// What [`LevelMap::create_sector_from_polygon`] does.
pub open spec fn polygon_outcome(old: LevelMap, new: LevelMap, r: Option<u32>) -> bool {
    polygon_outcome_from(old, old.linedefs@, old.possible_polygon@, new, r)
}

/// Whether the ids contain x.
pub fn ids_contain(ids: &[u32], x: u32) -> (r: bool)
    ensures
        r == ids@.contains(x),
{
    let mut i: usize = 0;
    while i < ids.len()
        invariant
            i <= ids@.len(),
            forall|k: int| 0 <= k < i ==> ids@[k] != x,
        decreases ids@.len() - i,
    {
        if ids[i] == x {
            assert(ids@[i as int] == x);
            return true;
        }
        i = i + 1;
    }
    false
}

/// Whether every element of `a` is in `b`.
fn all_contained(a: &Vec<u32>, b: &[u32]) -> (r: bool)
    ensures
        r == forall|k: int| 0 <= k < a@.len() ==> b@.contains(#[trigger] a@[k]),
{
    let mut i: usize = 0;
    while i < a.len()
        invariant
            i <= a@.len(),
            forall|k: int| 0 <= k < i ==> b@.contains(#[trigger] a@[k]),
        decreases a@.len() - i,
    {
        if !ids_contain(b, a[i]) {
            return false;
        }
        i = i + 1;
    }
    true
}

/// A copy of the ids.
fn copy_ids(ids: &Vec<u32>) -> (r: Vec<u32>)
    ensures
        r@ == ids@,
{
    let mut r: Vec<u32> = Vec::new();
    let mut i: usize = 0;
    while i < ids.len()
        invariant
            i <= ids@.len(),
            r@ == ids@.take(i as int),
        decreases ids@.len() - i,
    {
        r.push(ids[i]);
        assert(ids@.take(i + 1) =~= ids@.take(i as int).push(ids@[i as int]));
        i = i + 1;
    }
    assert(ids@.take(ids@.len() as int) =~= ids@);
    r
}

/// Finds the index of the first linedef with the id.
fn find_linedef_index(ls: &Vec<Linedef>, id: u32) -> (r: Option<usize>)
    ensures
        r matches Some(i) ==> linedef_index(ls@, id) == Some(i as int) && i < ls@.len(),
        r is None ==> linedef_index(ls@, id) is None,
{
    let mut i: usize = 0;
    assert(ls@.skip(0) =~= ls@);
    while i < ls.len()
        invariant
            i <= ls@.len(),
            linedef_index(ls@, id) == (match linedef_index(ls@.skip(i as int), id) {
                Some(k) => Some(k + i),
                None => None::<int>,
            }),
        decreases ls@.len() - i,
    {
        assert(ls@.skip(i as int).drop_first() =~= ls@.skip(i + 1));
        if ls[i].id == id {
            return Some(i);
        }
        i = i + 1;
    }
    None
}

/// Gives the sector to the free side of the first linedef with the id.
fn assign_sector_to(ls: &mut Vec<Linedef>, id: u32, sector: u32)
    ensures
        final(ls)@ == assign_one(old(ls)@, id, sector),
{
    match find_linedef_index(ls, id) {
        Some(i) => {
            let mut l = ls[i];
            if l.front_sector.is_none() {
                l.front_sector = Some(sector);
                ls.set(i, l);
            } else if l.back_sector.is_none() {
                l.back_sector = Some(sector);
                ls.set(i, l);
            }
        },
        None => {},
    }
}

/// Whether some linedef has the id.
pub open spec fn has_linedef(ls: Seq<Linedef>, id: u32) -> bool {
    exists|k: int| 0 <= k < ls.len() && #[trigger] ls[k].id == id
}

/// A sector without the linedefs that no longer exist.
pub open spec fn clean_sector(ls: Seq<Linedef>, s: SectorModel) -> SectorModel {
    SectorModel { linedefs: s.linedefs.filter(|id: u32| has_linedef(ls, id)), ..s }
}

/// The sectors without references to missing linedefs, empty sectors dropped.
pub open spec fn cleaned_sectors(ls: Seq<Linedef>, ss: Seq<SectorModel>) -> Seq<SectorModel>
    decreases ss.len(),
{
    if ss.len() == 0 {
        ss
    } else {
        let rest = cleaned_sectors(ls, ss.drop_last());
        let s = clean_sector(ls, ss.last());
        if s.linedefs.len() > 0 {
            rest.push(s)
        } else {
            rest
        }
    }
}

/// A linedef with the sides that referred to deleted sectors cleared.
pub open spec fn unlink_sectors(l: Linedef, sids: Seq<u32>) -> Linedef {
    Linedef {
        front_sector: match l.front_sector {
            Some(f) => if sids.contains(f) { None } else { Some(f) },
            None => None,
        },
        back_sector: match l.back_sector {
            Some(b) => if sids.contains(b) { None } else { Some(b) },
            None => None,
        },
        ..l
    }
}

/// Whether a vertex survives deleting the vertices `vids`.
pub open spec fn keeps_vertex(vids: Seq<u32>, v: Vertex) -> bool {
    !vids.contains(v.id)
}

/// Whether a linedef survives deleting the vertices `vids`.
pub open spec fn keeps_linedef_of_vertices(vids: Seq<u32>, l: Linedef) -> bool {
    !vids.contains(l.start_vertex) && !vids.contains(l.end_vertex)
}

/// Whether a linedef survives deleting the linedefs `lids`.
pub open spec fn keeps_linedef(lids: Seq<u32>, l: Linedef) -> bool {
    !lids.contains(l.id)
}

/// Whether a sector survives deleting the sectors `sids`.
pub open spec fn keeps_sector(sids: Seq<u32>, s: SectorModel) -> bool {
    !sids.contains(s.id)
}

/// The vertices, linedefs and sector models left after deleting vertices `vids`,
/// linedefs `lids` and sectors `sids` from the map, in this order.
pub open spec fn after_delete(
    vs0: Seq<Vertex>,
    ls0: Seq<Linedef>,
    ss0: Seq<SectorModel>,
    vids: Seq<u32>,
    lids: Seq<u32>,
    sids: Seq<u32>,
) -> (Seq<Vertex>, Seq<Linedef>, Seq<SectorModel>) {
    let vs1 = if vids.len() > 0 { vs0.filter(|v: Vertex| keeps_vertex(vids, v)) } else { vs0 };
    let ls1 = if vids.len() > 0 { ls0.filter(|l: Linedef| keeps_linedef_of_vertices(vids, l)) } else { ls0 };
    let ss1 = if vids.len() > 0 { cleaned_sectors(ls1, ss0) } else { ss0 };
    let ls2 = if lids.len() > 0 { ls1.filter(|l: Linedef| keeps_linedef(lids, l)) } else { ls1 };
    let ss2 = if lids.len() > 0 { cleaned_sectors(ls2, ss1) } else { ss1 };
    let ss3 = if sids.len() > 0 { ss2.filter(|s: SectorModel| keeps_sector(sids, s)) } else { ss2 };
    let ls3 = if sids.len() > 0 { ls2.map_values(|l: Linedef| unlink_sectors(l, sids)) } else { ls2 };
    (vs1, ls3, ss3)
}

/// Whether two maps agree in all fields but vertices, linedefs and sectors.
pub open spec fn same_but_geometry(a: LevelMap, b: LevelMap) -> bool {
    &&& a.offset == b.offset
    &&& a.grid_size == b.grid_size
    &&& a.subdivisions == b.subdivisions
    &&& a.possible_polygon == b.possible_polygon
    &&& a.curr_grid_pos == b.curr_grid_pos
    &&& a.curr_mouse_pos == b.curr_mouse_pos
    &&& a.selected_vertices == b.selected_vertices
    &&& a.selected_linedefs == b.selected_linedefs
    &&& a.selected_sectors == b.selected_sectors
}

proof fn lemma_linedef_index_has(ls: Seq<Linedef>, id: u32)
    ensures
        (linedef_index(ls, id) is Some) == has_linedef(ls, id),
        linedef_index(ls, id) matches Some(i) ==> 0 <= i < ls.len() && ls[i].id == id,
    decreases ls.len(),
{
    if ls.len() > 0 {
        lemma_linedef_index_has(ls.drop_first(), id);
        if has_linedef(ls, id) && ls[0].id != id {
            let k = choose|k: int| 0 <= k < ls.len() && #[trigger] ls[k].id == id;
            assert(ls.drop_first()[k - 1].id == id);
        }
        if has_linedef(ls.drop_first(), id) {
            let k = choose|k: int| 0 <= k < ls.len() - 1 && #[trigger] ls.drop_first()[k].id == id;
            assert(ls[k + 1].id == id);
        }
    }
}

/// The ids that name an existing linedef, in order.
fn retain_known(ids: &Vec<u32>, ls: &Vec<Linedef>) -> (r: Vec<u32>)
    ensures
        r@ == ids@.filter(|id: u32| has_linedef(ls@, id)),
{
    let ghost p = |id: u32| has_linedef(ls@, id);
    let mut r: Vec<u32> = Vec::new();
    let mut i: usize = 0;
    assert(ids@.take(0) =~= Seq::<u32>::empty());
    while i < ids.len()
        invariant
            i <= ids@.len(),
            r@ == ids@.take(i as int).filter(p),
            p == (|id: u32| has_linedef(ls@, id)),
        decreases ids@.len() - i,
    {
        let id = ids[i];
        proof {
            assert(p(id) == has_linedef(ls@, id));
            lemma_linedef_index_has(ls@, id);
            assert(ids@.take(i + 1) =~= ids@.take(i as int).push(id));
            ids@.take(i as int).lemma_filter_push(id, p);
        }
        if find_linedef_index(ls, id).is_some() {
            r.push(id);
        }
        i = i + 1;
    }
    assert(ids@.take(ids@.len() as int) =~= ids@);
    r
}

impl LevelMap {
    /// Removes from every sector the linedefs that no longer exist and drops the sectors
    /// left empty.
    fn cleanup_sectors(&mut self)
        ensures
            sector_models(final(self).sectors@) == cleaned_sectors(old(self).linedefs@, sector_models(old(self).sectors@)),
            final(self).vertices == old(self).vertices,
            final(self).linedefs == old(self).linedefs,
            same_but_geometry(*old(self), *final(self)),
    {
        let mut rest: Vec<Sector> = Vec::new();
        std::mem::swap(&mut rest, &mut self.sectors);
        let ghost orig = sector_models(rest@);
        let ghost ls = self.linedefs@;
        let n = rest.len();
        let mut i: usize = 0;
        assert(rest@.skip(0) =~= rest@);
        assert(orig.take(0) =~= Seq::<SectorModel>::empty());
        while i < n
            invariant
                i <= n,
                n == orig.len(),
                orig == sector_models(old(self).sectors@),
                ls == self.linedefs@,
                sector_models(rest@) == orig.skip(i as int),
                rest@.len() == n - i,
                sector_models(self.sectors@) == cleaned_sectors(ls, orig.take(i as int)),
                self.vertices == old(self).vertices,
                self.linedefs == old(self).linedefs,
                same_but_geometry(*old(self), *self),
            decreases n - i,
        {
            assert(sector_models(rest@)[0] == orig[i as int]);
            let ghost old_rest = rest@;
            let mut sec = rest.remove(0);
            assert forall|k: int| 0 <= k < rest@.len() implies #[trigger] sector_models(rest@)[k] == orig.skip(i + 1)[k] by {
                assert(rest@[k] == old_rest[k + 1]);
                assert(sector_models(old_rest)[k + 1] == orig.skip(i as int)[k + 1]);
            }
            assert(sector_models(rest@) =~= orig.skip(i + 1));
            let kept = retain_known(&sec.linedefs, &self.linedefs);
            sec.linedefs = kept;
            assert(sec@ == clean_sector(ls, orig[i as int]));
            assert(orig.take(i + 1).drop_last() =~= orig.take(i as int));
            let ghost before = self.sectors@;
            if sec.linedefs.len() > 0 {
                self.sectors.push(sec);
                assert(sector_models(self.sectors@) =~= sector_models(before).push(sec@));
            }
            i = i + 1;
        }
        assert(orig.take(n as int) =~= orig);
    }

    /// Deletes the given vertices, linedefs and sectors: linedefs at deleted vertices go
    /// with them, sectors lose the linedefs that go (and go when left empty), and linedefs
    /// forget the sectors that go.
    pub fn delete_elements(&mut self, vertex_ids: &[u32], linedef_ids: &[u32], sector_ids: &[u32])
        ensures
            ({
                let (vs, ls, ss) = after_delete(
                    old(self).vertices@,
                    old(self).linedefs@,
                    sector_models(old(self).sectors@),
                    vertex_ids@,
                    linedef_ids@,
                    sector_ids@,
                );
                &&& final(self).vertices@ == vs
                &&& final(self).linedefs@ == ls
                &&& sector_models(final(self).sectors@) == ss
            }),
            same_but_geometry(*old(self), *final(self)),
    {
        if vertex_ids.len() > 0 {
            self.retain_vertices(vertex_ids);
            self.retain_linedefs_of_vertices(vertex_ids);
            self.cleanup_sectors();
        }
        if linedef_ids.len() > 0 {
            self.retain_linedefs(linedef_ids);
            self.cleanup_sectors();
        }
        if sector_ids.len() > 0 {
            self.retain_sectors(sector_ids);
            self.unlink_deleted_sectors(sector_ids);
        }
    }

    fn retain_vertices(&mut self, vids: &[u32])
        ensures
            final(self).vertices@ == old(self).vertices@.filter(|v: Vertex| keeps_vertex(vids@, v)),
            final(self).linedefs == old(self).linedefs,
            final(self).sectors == old(self).sectors,
            same_but_geometry(*old(self), *final(self)),
    {
        let ghost p = |v: Vertex| keeps_vertex(vids@, v);
        let ghost orig = self.vertices@;
        let mut kept: Vec<Vertex> = Vec::new();
        let mut i: usize = 0;
        assert(orig.take(0) =~= Seq::<Vertex>::empty());
        while i < self.vertices.len()
            invariant
                i <= orig.len(),
                orig == self.vertices@,
                kept@ == orig.take(i as int).filter(p),
                p == (|v: Vertex| keeps_vertex(vids@, v)),
            decreases orig.len() - i,
        {
            let v = self.vertices[i];
            proof {
                assert(p(v) == !vids@.contains(v.id));
                assert(orig.take(i + 1) =~= orig.take(i as int).push(v));
                orig.take(i as int).lemma_filter_push(v, p);
            }
            if !ids_contain(vids, v.id) {
                kept.push(v);
            }
            i = i + 1;
        }
        assert(orig.take(orig.len() as int) =~= orig);
        self.vertices = kept;
    }

    fn retain_linedefs_of_vertices(&mut self, vids: &[u32])
        ensures
            final(self).linedefs@ == old(self).linedefs@.filter(|l: Linedef| keeps_linedef_of_vertices(vids@, l)),
            final(self).vertices == old(self).vertices,
            final(self).sectors == old(self).sectors,
            same_but_geometry(*old(self), *final(self)),
    {
        let ghost p = |l: Linedef| keeps_linedef_of_vertices(vids@, l);
        let ghost orig = self.linedefs@;
        let mut kept: Vec<Linedef> = Vec::new();
        let mut i: usize = 0;
        assert(orig.take(0) =~= Seq::<Linedef>::empty());
        while i < self.linedefs.len()
            invariant
                i <= orig.len(),
                orig == self.linedefs@,
                kept@ == orig.take(i as int).filter(p),
                p == (|l: Linedef| keeps_linedef_of_vertices(vids@, l)),
            decreases orig.len() - i,
        {
            let l = self.linedefs[i];
            proof {
                assert(p(l) == (!vids@.contains(l.start_vertex) && !vids@.contains(l.end_vertex)));
                assert(orig.take(i + 1) =~= orig.take(i as int).push(l));
                orig.take(i as int).lemma_filter_push(l, p);
            }
            if !ids_contain(vids, l.start_vertex) && !ids_contain(vids, l.end_vertex) {
                kept.push(l);
            }
            i = i + 1;
        }
        assert(orig.take(orig.len() as int) =~= orig);
        self.linedefs = kept;
    }

    fn retain_linedefs(&mut self, lids: &[u32])
        ensures
            final(self).linedefs@ == old(self).linedefs@.filter(|l: Linedef| keeps_linedef(lids@, l)),
            final(self).vertices == old(self).vertices,
            final(self).sectors == old(self).sectors,
            same_but_geometry(*old(self), *final(self)),
    {
        let ghost p = |l: Linedef| keeps_linedef(lids@, l);
        let ghost orig = self.linedefs@;
        let mut kept: Vec<Linedef> = Vec::new();
        let mut i: usize = 0;
        assert(orig.take(0) =~= Seq::<Linedef>::empty());
        while i < self.linedefs.len()
            invariant
                i <= orig.len(),
                orig == self.linedefs@,
                kept@ == orig.take(i as int).filter(p),
                p == (|l: Linedef| keeps_linedef(lids@, l)),
            decreases orig.len() - i,
        {
            let l = self.linedefs[i];
            proof {
                assert(p(l) == !lids@.contains(l.id));
                assert(orig.take(i + 1) =~= orig.take(i as int).push(l));
                orig.take(i as int).lemma_filter_push(l, p);
            }
            if !ids_contain(lids, l.id) {
                kept.push(l);
            }
            i = i + 1;
        }
        assert(orig.take(orig.len() as int) =~= orig);
        self.linedefs = kept;
    }

    fn retain_sectors(&mut self, sids: &[u32])
        ensures
            sector_models(final(self).sectors@) == sector_models(old(self).sectors@).filter(|s: SectorModel| keeps_sector(sids@, s)),
            final(self).vertices == old(self).vertices,
            final(self).linedefs == old(self).linedefs,
            same_but_geometry(*old(self), *final(self)),
    {
        let ghost p = |s: SectorModel| keeps_sector(sids@, s);
        let mut rest: Vec<Sector> = Vec::new();
        std::mem::swap(&mut rest, &mut self.sectors);
        let ghost orig = sector_models(rest@);
        let n = rest.len();
        let mut i: usize = 0;
        assert(orig.take(0) =~= Seq::<SectorModel>::empty());
        while i < n
            invariant
                i <= n,
                n == orig.len(),
                orig == sector_models(old(self).sectors@),
                sector_models(rest@) == orig.skip(i as int),
                rest@.len() == n - i,
                sector_models(self.sectors@) == orig.take(i as int).filter(p),
                p == (|s: SectorModel| keeps_sector(sids@, s)),
                self.vertices == old(self).vertices,
                self.linedefs == old(self).linedefs,
                same_but_geometry(*old(self), *self),
            decreases n - i,
        {
            assert(sector_models(rest@)[0] == orig[i as int]);
            let ghost old_rest = rest@;
            let sec = rest.remove(0);
            assert forall|k: int| 0 <= k < rest@.len() implies #[trigger] sector_models(rest@)[k] == orig.skip(i + 1)[k] by {
                assert(rest@[k] == old_rest[k + 1]);
                assert(sector_models(old_rest)[k + 1] == orig.skip(i as int)[k + 1]);
            }
            assert(sector_models(rest@) =~= orig.skip(i + 1));
            proof {
                assert(orig.take(i + 1) =~= orig.take(i as int).push(sec@));
                orig.take(i as int).lemma_filter_push(sec@, p);
            }
            let ghost before = self.sectors@;
            if !ids_contain(sids, sec.id) {
                self.sectors.push(sec);
                assert(sector_models(self.sectors@) =~= sector_models(before).push(sec@));
            }
            i = i + 1;
        }
        assert(orig.take(n as int) =~= orig);
    }

    fn unlink_deleted_sectors(&mut self, sids: &[u32])
        ensures
            final(self).linedefs@ == old(self).linedefs@.map_values(|l: Linedef| unlink_sectors(l, sids@)),
            final(self).vertices == old(self).vertices,
            final(self).sectors == old(self).sectors,
            same_but_geometry(*old(self), *final(self)),
    {
        let ghost orig = self.linedefs@;
        let mut i: usize = 0;
        while i < self.linedefs.len()
            invariant
                i <= orig.len(),
                self.linedefs@.len() == orig.len(),
                forall|k: int| 0 <= k < i ==> self.linedefs@[k] == unlink_sectors(orig[k], sids@),
                forall|k: int| i <= k < orig.len() ==> self.linedefs@[k] == orig[k],
                self.vertices == old(self).vertices,
                self.sectors == old(self).sectors,
                same_but_geometry(*old(self), *self),
                orig == old(self).linedefs@,
            decreases orig.len() - i,
        {
            let mut l = self.linedefs[i];
            if let Some(f) = l.front_sector {
                if ids_contain(sids, f) {
                    l.front_sector = None;
                }
            }
            if let Some(b) = l.back_sector {
                if ids_contain(sids, b) {
                    l.back_sector = None;
                }
            }
            self.linedefs.set(i, l);
            i = i + 1;
        }
        assert(self.linedefs@ =~= orig.map_values(|l: Linedef| unlink_sectors(l, sids@)));
    }
}

/// Every element of a filtered sequence is in the sequence.
pub proof fn lemma_filter_subset<A>(s: Seq<A>, p: spec_fn(A) -> bool)
    ensures
        forall|i: int| 0 <= i < s.filter(p).len() ==> s.contains(#[trigger] s.filter(p)[i]),
    decreases s.len(),
{
    reveal(Seq::filter);
    if s.len() > 0 {
        lemma_filter_subset(s.drop_last(), p);
        let rest = s.drop_last().filter(p);
        assert forall|i: int| 0 <= i < s.filter(p).len() implies s.contains(#[trigger] s.filter(p)[i]) by {
            if i < rest.len() {
                assert(s.filter(p)[i] == rest[i]);
                assert(s.drop_last().contains(rest[i]));
                let k = choose|k: int| 0 <= k < s.drop_last().len() && s.drop_last()[k] == rest[i];
                assert(s[k] == rest[i]);
            } else {
                assert(s.filter(p)[i] == s.last());
                assert(s[s.len() - 1] == s.last());
            }
        }
    }
}

/// Every sector left by the cleanup is not empty, consists of existing linedefs, and
/// comes from a sector with the same id.
pub proof fn lemma_cleaned_sectors(ls: Seq<Linedef>, ss: Seq<SectorModel>)
    ensures
        forall|i: int| 0 <= i < cleaned_sectors(ls, ss).len() ==> {
            let s = #[trigger] cleaned_sectors(ls, ss)[i];
            &&& s.linedefs.len() > 0
            &&& forall|k: int| 0 <= k < s.linedefs.len() ==> has_linedef(ls, #[trigger] s.linedefs[k])
            &&& exists|j: int| 0 <= j < ss.len() && ss[j].id == s.id
        },
    decreases ss.len(),
{
    if ss.len() > 0 {
        lemma_cleaned_sectors(ls, ss.drop_last());
        let rest = cleaned_sectors(ls, ss.drop_last());
        let c = clean_sector(ls, ss.last());
        let pred = |id: u32| has_linedef(ls, id);
        assert forall|k: int| 0 <= k < c.linedefs.len() implies has_linedef(ls, #[trigger] c.linedefs[k]) by {
            ss.last().linedefs.lemma_filter_pred(pred, k);
        }
        assert forall|i: int| 0 <= i < cleaned_sectors(ls, ss).len() implies {
            let s = #[trigger] cleaned_sectors(ls, ss)[i];
            &&& s.linedefs.len() > 0
            &&& forall|k: int| 0 <= k < s.linedefs.len() ==> has_linedef(ls, #[trigger] s.linedefs[k])
            &&& exists|j: int| 0 <= j < ss.len() && ss[j].id == s.id
        } by {
            if i < rest.len() {
                assert(cleaned_sectors(ls, ss)[i] == rest[i]);
                let j = choose|j: int| 0 <= j < ss.drop_last().len() && ss.drop_last()[j].id == rest[i].id;
                assert(ss[j].id == rest[i].id);
            } else {
                assert(cleaned_sectors(ls, ss)[i] == c);
                assert(ss[ss.len() - 1].id == c.id);
            }
        }
    }
}

/// Law: deleting elements leaves none of the deleted ones behind: no vertex with a
/// deleted id, no linedef with a deleted id or at a deleted vertex, no sector with a
/// deleted id, and no linedef side referring to a deleted sector.
pub proof fn law_delete_removes_all(
    vs0: Seq<Vertex>,
    ls0: Seq<Linedef>,
    ss0: Seq<SectorModel>,
    vids: Seq<u32>,
    lids: Seq<u32>,
    sids: Seq<u32>,
)
    ensures
        ({
            let (vs, ls, ss) = after_delete(vs0, ls0, ss0, vids, lids, sids);
            &&& forall|i: int| 0 <= i < vs.len() ==> !vids.contains(#[trigger] vs[i].id)
            &&& forall|i: int| 0 <= i < ls.len() ==> {
                &&& !lids.contains(#[trigger] ls[i].id)
                &&& !vids.contains(ls[i].start_vertex)
                &&& !vids.contains(ls[i].end_vertex)
                &&& (ls[i].front_sector matches Some(f) ==> !sids.contains(f))
                &&& (ls[i].back_sector matches Some(b) ==> !sids.contains(b))
            }
            &&& forall|i: int| 0 <= i < ss.len() ==> !sids.contains(#[trigger] ss[i].id)
        }),
{
    let pv = |v: Vertex| keeps_vertex(vids, v);
    let pl1 = |l: Linedef| keeps_linedef_of_vertices(vids, l);
    let pl2 = |l: Linedef| keeps_linedef(lids, l);
    let ps = |s: SectorModel| keeps_sector(sids, s);
    let (vs, ls, ss) = after_delete(vs0, ls0, ss0, vids, lids, sids);
    let ls1 = if vids.len() > 0 { ls0.filter(pl1) } else { ls0 };
    let ss1 = if vids.len() > 0 { cleaned_sectors(ls1, ss0) } else { ss0 };
    let ls2 = if lids.len() > 0 { ls1.filter(pl2) } else { ls1 };
    let ss2 = if lids.len() > 0 { cleaned_sectors(ls2, ss1) } else { ss1 };
    assert forall|i: int| 0 <= i < vs.len() implies !vids.contains(#[trigger] vs[i].id) by {
        if vids.len() > 0 {
            vs0.lemma_filter_pred(pv, i);
        }
    }
    assert forall|i: int| 0 <= i < ls1.len() implies !vids.contains(#[trigger] ls1[i].start_vertex)
        && !vids.contains(ls1[i].end_vertex) by {
        if vids.len() > 0 {
            ls0.lemma_filter_pred(pl1, i);
        }
    }
    lemma_filter_subset(ls1, pl2);
    assert forall|i: int| 0 <= i < ls2.len() implies !lids.contains(#[trigger] ls2[i].id)
        && !vids.contains(ls2[i].start_vertex) && !vids.contains(ls2[i].end_vertex) by {
        if lids.len() > 0 {
            ls1.lemma_filter_pred(pl2, i);
            assert(ls1.contains(ls2[i]));
            let k = choose|k: int| 0 <= k < ls1.len() && ls1[k] == ls2[i];
            assert(!vids.contains(ls1[k].start_vertex));
        }
    }
    assert forall|i: int| 0 <= i < ls.len() implies {
        &&& !lids.contains(#[trigger] ls[i].id)
        &&& !vids.contains(ls[i].start_vertex)
        &&& !vids.contains(ls[i].end_vertex)
        &&& (ls[i].front_sector matches Some(f) ==> !sids.contains(f))
        &&& (ls[i].back_sector matches Some(b) ==> !sids.contains(b))
    } by {
        assert(!lids.contains(ls2[i].id));
        assert(!vids.contains(ls2[i].start_vertex));
    }
    assert forall|i: int| 0 <= i < ss.len() implies !sids.contains(#[trigger] ss[i].id) by {
        if sids.len() > 0 {
            ss2.lemma_filter_pred(ps, i);
        }
    }
}

/// Law: once vertices or linedefs are deleted, every sector left is not empty and
/// consists only of linedefs that still exist.
pub proof fn law_delete_leaves_no_dangling_sectors(
    vs0: Seq<Vertex>,
    ls0: Seq<Linedef>,
    ss0: Seq<SectorModel>,
    vids: Seq<u32>,
    lids: Seq<u32>,
    sids: Seq<u32>,
)
    requires
        vids.len() > 0 || lids.len() > 0,
    ensures
        ({
            let (vs, ls, ss) = after_delete(vs0, ls0, ss0, vids, lids, sids);
            forall|i: int| 0 <= i < ss.len() ==> {
                &&& (#[trigger] ss[i]).linedefs.len() > 0
                &&& forall|k: int| 0 <= k < ss[i].linedefs.len() ==> has_linedef(ls, #[trigger] ss[i].linedefs[k])
            }
        }),
{
    let pl1 = |l: Linedef| keeps_linedef_of_vertices(vids, l);
    let pl2 = |l: Linedef| keeps_linedef(lids, l);
    let ps = |s: SectorModel| keeps_sector(sids, s);
    let (vs, ls, ss) = after_delete(vs0, ls0, ss0, vids, lids, sids);
    let ls1 = if vids.len() > 0 { ls0.filter(pl1) } else { ls0 };
    let ss1 = if vids.len() > 0 { cleaned_sectors(ls1, ss0) } else { ss0 };
    let ls2 = if lids.len() > 0 { ls1.filter(pl2) } else { ls1 };
    let ss2 = if lids.len() > 0 { cleaned_sectors(ls2, ss1) } else { ss1 };
    lemma_cleaned_sectors(ls1, ss0);
    lemma_cleaned_sectors(ls2, ss1);
    assert(forall|i: int| 0 <= i < ss2.len() ==> {
        &&& (#[trigger] ss2[i]).linedefs.len() > 0
        &&& forall|k: int| 0 <= k < ss2[i].linedefs.len() ==> has_linedef(ls2, #[trigger] ss2[i].linedefs[k])
    });
    lemma_filter_subset(ss2, ps);
    assert forall|i: int| 0 <= i < ss.len() implies {
        &&& (#[trigger] ss[i]).linedefs.len() > 0
        &&& forall|k: int| 0 <= k < ss[i].linedefs.len() ==> has_linedef(ls, #[trigger] ss[i].linedefs[k])
    } by {
        let j = if sids.len() > 0 {
            assert(ss2.contains(ss[i]));
            choose|j: int| 0 <= j < ss2.len() && ss2[j] == ss[i]
        } else {
            i
        };
        assert(ss2[j] == ss[i]);
        assert forall|k: int| 0 <= k < ss[i].linedefs.len() implies has_linedef(ls, #[trigger] ss[i].linedefs[k]) by {
            let id = ss[i].linedefs[k];
            assert(has_linedef(ls2, ss2[j].linedefs[k]));
            let m = choose|m: int| 0 <= m < ls2.len() && #[trigger] ls2[m].id == id;
            assert(ls[m].id == id);
        }
    }
}

/// Law: asking twice for a vertex at the same (not NaN) coordinates gives the same id,
/// and the second call adds nothing.
pub proof fn law_add_vertex_idempotent(vs: Seq<Vertex>, x: u32, y: u32)
    requires
        !is_nan_bits(x),
        !is_nan_bits(y),
        vs.len() < u32::MAX,
    ensures
        ({
            let (id1, vs1) = match vertex_index_at(vs, x, y) {
                Some(i) => (vs[i].id, vs),
                None => (vs.len() as u32, vs.push(Vertex { id: vs.len() as u32, x, y })),
            };
            &&& vertex_index_at(vs1, x, y) is Some
            &&& vs1[vertex_index_at(vs1, x, y)->Some_0].id == id1
        }),
{
    lemma_vertex_index_push_any(vs, Vertex { id: vs.len() as u32, x, y }, x, y);
}

proof fn lemma_vertex_index_push_any(vs: Seq<Vertex>, v: Vertex, x: u32, y: u32)
    requires
        !is_nan_bits(x),
        !is_nan_bits(y),
        v.x == x,
        v.y == y,
    ensures
        vertex_index_at(vs, x, y) is None ==> vertex_index_at(vs.push(v), x, y) == Some(vs.len() as int),
        vertex_index_at(vs, x, y) matches Some(i) ==> vertex_index_at(vs.push(v), x, y) == Some(i) && 0 <= i < vs.len(),
    decreases vs.len(),
{
    if vs.len() > 0 {
        assert(vs.push(v).drop_first() =~= vs.drop_first().push(v));
        lemma_vertex_index_push_any(vs.drop_first(), v, x, y);
    } else {
        assert(float_bits_eq(x, x));
        assert(vs.push(v)[0] == v);
    }
}

/// The polygon of the first n linedefs of a sector: the start vertex of each linedef
/// (linedefs and vertices looked up by their index), a vertex equal to the one before
/// it left out; `None` where an index is missing.
pub open spec fn polygon_of(ids: Seq<u32>, ls: Seq<Linedef>, vs: Seq<Vertex>, n: nat) -> Option<Seq<(u32, u32)>>
    decreases n,
{
    if n == 0 {
        Some(Seq::empty())
    } else {
        match polygon_of(ids, ls, vs, (n - 1) as nat) {
            None => None,
            Some(acc) => {
                let lid = ids[n - 1] as int;
                if lid < ls.len() && (ls[lid].start_vertex as int) < vs.len() {
                    let v = vs[ls[lid].start_vertex as int];
                    if acc.len() > 0 && float_bits_eq(acc.last().0, v.x) && float_bits_eq(acc.last().1, v.y) {
                        Some(acc)
                    } else {
                        Some(acc.push((v.x, v.y)))
                    }
                } else {
                    None
                }
            },
        }
    }
}

impl Sector {
    /// The corners of the sector's polygon in order, to be triangulated: see
    /// [`polygon_of`].
    pub fn polygon_vertices(&self, map: &LevelMap) -> (r: Option<Vec<(u32, u32)>>)
        ensures
            match r {
                Some(v) => polygon_of(self.linedefs@, map.linedefs@, map.vertices@, self.linedefs@.len()) == Some(v@),
                None => polygon_of(self.linedefs@, map.linedefs@, map.vertices@, self.linedefs@.len()) is None,
            },
    {
        let mut v: Vec<(u32, u32)> = Vec::new();
        let mut i: usize = 0;
        while i < self.linedefs.len()
            invariant
                i <= self.linedefs.len(),
                polygon_of(self.linedefs@, map.linedefs@, map.vertices@, i as nat) == Some(v@),
            decreases self.linedefs.len() - i,
        {
            let lid = self.linedefs[i] as usize;
            if lid >= map.linedefs.len() {
                proof {
                    let ghost n = self.linedefs@.len();
                    lemma_polygon_stays_none(self.linedefs@, map.linedefs@, map.vertices@, (i + 1) as nat, n);
                }
                return None;
            }
            let sv = map.linedefs[lid].start_vertex as usize;
            if sv >= map.vertices.len() {
                proof {
                    let ghost n = self.linedefs@.len();
                    lemma_polygon_stays_none(self.linedefs@, map.linedefs@, map.vertices@, (i + 1) as nat, n);
                }
                return None;
            }
            let vx = map.vertices[sv];
            let same = v.len() > 0 && float_bits_equal(v[v.len() - 1].0, vx.x) && float_bits_equal(v[v.len() - 1].1, vx.y);
            if !same {
                v.push((vx.x, vx.y));
            }
            i = i + 1;
        }
        Some(v)
    }
}

/// Once a lookup is missing the polygon stays missing.
proof fn lemma_polygon_stays_none(ids: Seq<u32>, ls: Seq<Linedef>, vs: Seq<Vertex>, m: nat, n: nat)
    requires
        m <= n,
        polygon_of(ids, ls, vs, m) is None,
    ensures
        polygon_of(ids, ls, vs, n) is None,
    decreases n - m,
{
    if m < n {
        lemma_polygon_stays_none(ids, ls, vs, m + 1, n);
    }
}

} // verus!
