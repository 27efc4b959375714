use vstd::prelude::*;
use crate::types::{Position, TileUsage};
use crate::region::{RegionData, LootEntry, Item, BehaviorInstance, BehaviorInstanceState, tiles_at};
use crate::behavior::BehaviorNodeConnector;
use crate::seqs::lemma_push_contains;

verus! {

/// Whether a tile of this usage blocks movement.
pub open spec fn blocks_movement(u: TileUsage) -> bool {
    u == TileUsage::EnvBlocking || u == TileUsage::Water
}

/// The items of the first loot entry at (x, y), if any.
pub open spec fn loot_at(loot: Seq<LootEntry>, x: int, y: int) -> Option<Seq<Item>>
    decreases loot.len(),
{
    if loot.len() == 0 {
        None
    } else if loot[0].x == x && loot[0].y == y {
        Some(loot[0].items@)
    } else {
        loot_at(loot.drop_first(), x, y)
    }
}

/// Whether an item blocks movement: it is state blocking and its state is on.
pub open spec fn item_blocks(it: Item) -> bool {
    it.state_blocking && (it.state matches Some(s) && s.state)
}

/// Whether a cell can be entered: it has tiles, none of them blocks, no occupied
/// character stands there and no lying item blocks it.
pub open spec fn cell_open(
    data: RegionData,
    occupied: spec_fn((isize, isize)) -> bool,
    c: (isize, isize),
) -> bool {
    let tiles = tiles_at(data.region_data, data.displacements@, c.0 as int, c.1 as int);
    &&& tiles.len() > 0
    &&& forall|i: int| 0 <= i < tiles.len() ==> !blocks_movement(#[trigger] tiles[i].usage)
    &&& !occupied(c)
    &&& match loot_at(data.loot@, c.0 as int, c.1 as int) {
        Some(items) => forall|k: int| 0 <= k < items.len() ==> !item_blocks(#[trigger] items[k]),
        None => true,
    }
}

/// Whether b is one of the four orthogonal neighbours of a.
pub open spec fn neighbours(a: (isize, isize), b: (isize, isize)) -> bool {
    ||| (b.0 == a.0 + 1 && b.1 == a.1)
    ||| (b.0 == a.0 && b.1 == a.1 + 1)
    ||| (b.0 == a.0 - 1 && b.1 == a.1)
    ||| (b.0 == a.0 && b.1 == a.1 - 1)
}

/// One step of a walk: to an open neighbour.
pub open spec fn walk_step(
    data: RegionData,
    occupied: spec_fn((isize, isize)) -> bool,
    a: (isize, isize),
    b: (isize, isize),
) -> bool {
    neighbours(a, b) && cell_open(data, occupied, b)
}

/// A walk from start to goal made of steps to open neighbours.
pub open spec fn is_walk(
    data: RegionData,
    occupied: spec_fn((isize, isize)) -> bool,
    path: Seq<(isize, isize)>,
    start: (isize, isize),
    goal: (isize, isize),
) -> bool {
    &&& path.len() >= 1
    &&& path[0] == start
    &&& path.last() == goal
    &&& forall|i: int| 0 <= i < path.len() - 1 ==> walk_step(data, occupied, #[trigger] path[i], path[i + 1])
}

/// A shortest walk from start to goal.
pub open spec fn is_shortest_walk(
    data: RegionData,
    occupied: spec_fn((isize, isize)) -> bool,
    path: Seq<(isize, isize)>,
    start: (isize, isize),
    goal: (isize, isize),
) -> bool {
    &&& is_walk(data, occupied, path, start, goal)
    &&& forall|q: Seq<(isize, isize)>| is_walk(data, occupied, q, start, goal) ==> path.len() <= q.len()
}

/// The cells occupied by the characters that a walk of the current instance from p has to
/// avoid: instances other than the current one, in the normal state, in p's region; with
/// `exclude_dp` those standing on the destination are not counted, and none are counted
/// when there is no destination.
pub open spec fn occupied_by_characters(
    data: RegionData,
    p: Position,
    dp: Option<Position>,
    exclude_dp: bool,
) -> spec_fn((isize, isize)) -> bool {
    |c: (isize, isize)| exists|j: int| #[trigger] is_blocker(data, p, dp, exclude_dp, j, c)
}

/// Whether instance j occupies cell c for a walk of the current instance from p.
pub open spec fn is_blocker(
    data: RegionData,
    p: Position,
    dp: Option<Position>,
    exclude_dp: bool,
    j: int,
    c: (isize, isize),
) -> bool {
    &&& 0 <= j < data.character_instances@.len()
    &&& j != data.curr_index
    &&& data.character_instances@[j].state == BehaviorInstanceState::Normal
    &&& data.character_instances@[j].position matches Some(pos)
    &&& pos.region == p.region
    &&& (!exclude_dp || (dp matches Some(d) && d != pos))
    &&& pos.x == c.0
    &&& pos.y == c.1
}

/// The cells a walk has to avoid, together with the region it walks in.
pub struct WalkGrid<'a> {
    pub data: &'a RegionData,
    pub occupied: Vec<(isize, isize)>,
}

impl<'a> WalkGrid<'a> {
    /// The occupied cells as a predicate.
    pub open spec fn occupied_fn(&self) -> spec_fn((isize, isize)) -> bool {
        |c: (isize, isize)| self.occupied@.contains(c)
    }

    /// Whether the cell (x, y) can be entered.
    pub fn can_go(&self, x: isize, y: isize) -> (r: bool)
        ensures
            r == cell_open(*self.data, self.occupied_fn(), (x, y)),
    {
        let tiles = self.data.get_tile_at((x, y));
        if tiles.len() == 0 {
            return false;
        }
        let mut i: usize = 0;
        while i < tiles.len()
            invariant
                i <= tiles.len(),
                tiles@ == tiles_at(self.data.region_data, self.data.displacements@, x as int, y as int),
                forall|k: int| 0 <= k < i ==> !blocks_movement(#[trigger] tiles@[k].usage),
            decreases tiles.len() - i,
        {
            let u = tiles[i].usage;
            if u == TileUsage::EnvBlocking || u == TileUsage::Water {
                assert(blocks_movement(tiles@[i as int].usage));
                proof {
                    let t = tiles_at(self.data.region_data, self.data.displacements@, x as int, y as int);
                    assert(t[i as int].usage == u);
                }
                return false;
            }
            i = i + 1;
        }
        let mut j: usize = 0;
        while j < self.occupied.len()
            invariant
                j <= self.occupied.len(),
                tiles@ == tiles_at(self.data.region_data, self.data.displacements@, x as int, y as int),
                forall|k: int| 0 <= k < tiles@.len() ==> !blocks_movement(#[trigger] tiles@[k].usage),
                forall|k: int| 0 <= k < j ==> #[trigger] self.occupied@[k] != (x, y),
            decreases self.occupied.len() - j,
        {
            let o = self.occupied[j];
            if o.0 == x && o.1 == y {
                assert(self.occupied@[j as int] == (x, y));
                return false;
            }
            j = j + 1;
        }
        match find_loot(&self.data.loot, x, y) {
            Some(li) => {
                let items = &self.data.loot[li].items;
                let mut k: usize = 0;
                while k < items.len()
                    invariant
                        k <= items.len(),
                        loot_at(self.data.loot@, x as int, y as int) == Some(items@),
                        forall|m: int| 0 <= m < k ==> !item_blocks(#[trigger] items@[m]),
                    decreases items.len() - k,
                {
                    if items[k].state_blocking {
                        match items[k].state {
                            Some(s) => {
                                if s.state {
                                    assert(item_blocks(items@[k as int]));
                                    proof {
                                        let its = loot_at(self.data.loot@, x as int, y as int)->Some_0;
                                        assert(its[k as int] == items@[k as int]);
                                    }
                                    return false;
                                }
                            },
                            None => {},
                        }
                    }
                    k = k + 1;
                }
                true
            },
            None => true,
        }
    }

    /// The open neighbours of (x, y): right, down, left, up.
    pub fn successors(&self, x: isize, y: isize) -> (v: Vec<(isize, isize)>)
        ensures
            forall|b: (isize, isize)| v@.contains(b) <==> walk_step(*self.data, self.occupied_fn(), (x, y), b),
    {
        let ghost data = *self.data;
        let ghost occ = self.occupied_fn();
        let ghost e1: (isize, isize) = ((x + 1) as isize, y);
        let ghost e2: (isize, isize) = (x, (y + 1) as isize);
        let ghost e3: (isize, isize) = ((x - 1) as isize, y);
        let ghost e4: (isize, isize) = (x, (y - 1) as isize);
        let mut v: Vec<(isize, isize)> = Vec::new();
        let c1 = x < isize::MAX && self.can_go(x + 1, y);
        if c1 {
            v.push((x + 1, y));
            assert(v@ =~= seq![e1]);
        } else {
            assert(v@ =~= Seq::<(isize, isize)>::empty());
        }
        assert forall|b: (isize, isize)| v@.contains(b) <==> (c1 && b == e1) by {
            if v@.contains(b) {
                let k = choose|k: int| 0 <= k < v@.len() && v@[k] == b;
            }
            if c1 && b == e1 {
                assert(v@[0] == b);
            }
        }
        let c2 = y < isize::MAX && self.can_go(x, y + 1);
        let ghost v1 = v@;
        if c2 {
            v.push((x, y + 1));
        }
        let ghost v2_now = v@;
        assert forall|b: (isize, isize)| v2_now.contains(b) <==> (v1.contains(b) || (c2 && b == e2)) by {
            if c2 {
                lemma_push_contains(v1, e2, b);
            }
        }
        let c3 = x > isize::MIN && self.can_go(x - 1, y);
        let ghost v2 = v2_now;
        if c3 {
            v.push((x - 1, y));
        }
        let ghost v3_now = v@;
        assert forall|b: (isize, isize)| v3_now.contains(b) <==> (v2.contains(b) || (c3 && b == e3)) by {
            if c3 {
                lemma_push_contains(v2, e3, b);
            }
        }
        let c4 = y > isize::MIN && self.can_go(x, y - 1);
        let ghost v3 = v3_now;
        if c4 {
            v.push((x, y - 1));
        }
        assert forall|b: (isize, isize)| v@.contains(b) <==> (v3.contains(b) || (c4 && b == e4)) by {
            if c4 {
                lemma_push_contains(v3, e4, b);
            }
        }
        assert forall|b: (isize, isize)| v@.contains(b) <==> walk_step(data, occ, (x, y), b) by {
            assert(v@.contains(b) <==> (v3.contains(b) || (c4 && b == e4)));
            assert(v3.contains(b) <==> (v2.contains(b) || (c3 && b == e3)));
            assert(v2.contains(b) <==> (v1.contains(b) || (c2 && b == e2)));
            assert(v1.contains(b) <==> (c1 && b == e1));
            if c1 && b == e1 {
                assert(neighbours((x, y), b));
            }
            if c2 && b == e2 {
                assert(neighbours((x, y), b));
            }
            if c3 && b == e3 {
                assert(neighbours((x, y), b));
            }
            if c4 && b == e4 {
                assert(neighbours((x, y), b));
            }
            if walk_step(data, occ, (x, y), b) {
                if b.0 == x + 1 && b.1 == y {
                    assert(b == e1);
                } else if b.0 == x && b.1 == y + 1 {
                    assert(b == e2);
                } else if b.0 == x - 1 && b.1 == y {
                    assert(b == e3);
                } else {
                    assert(b == e4);
                }
            }
        }
        v
    }
}

/// Whether a cell is the goal of a search.
pub fn is_goal(c: (isize, isize), goal: (isize, isize)) -> (r: bool)
    ensures
        r == (c == goal),
{
    c.0 == goal.0 && c.1 == goal.1
}

/// Searches a shortest walk from start to goal.
///
/// Trusted: calls `pathfinding::directed::bfs::bfs`. Its documentation (and source) says
/// that it returns a shortest path from the start to a node accepted by `success`, both
/// ends included, each node followed by one that `successors` returned for it; and `None`
/// when no such path exists. The successors are the open neighbours of a cell, so the
/// nodes reached all carry a tile and the search ends.
#[verifier::external_body]
fn bfs_walk(grid: &WalkGrid, start: (isize, isize), goal: (isize, isize)) -> (r: Option<Vec<(isize, isize)>>)
    ensures
        r matches Some(path) ==> is_shortest_walk(*grid.data, grid.occupied_fn(), path@, start, goal),
        r is None ==> forall|q: Seq<(isize, isize)>| !is_walk(*grid.data, grid.occupied_fn(), q, start, goal),
{
    pathfinding::directed::bfs::bfs(&start, |c: &(isize, isize)| grid.successors(c.0, c.1), |c: &(isize, isize)| is_goal(*c, goal))
}

/// Looks up the first loot entry at (x, y).
pub fn find_loot(loot: &Vec<LootEntry>, x: isize, y: isize) -> (r: Option<usize>)
    ensures
        r is None ==> loot_at(loot@, x as int, y as int) is None,
        r matches Some(i) ==> i < loot@.len() && loot_at(loot@, x as int, y as int) == Some(loot@[i as int].items@),
{
    let mut i: usize = 0;
    assert(loot@.skip(0) =~= loot@);
    while i < loot.len()
        invariant
            i <= loot.len(),
            loot_at(loot@, x as int, y as int) == loot_at(loot@.skip(i as int), x as int, y as int),
        decreases loot.len() - i,
    {
        assert(loot@.skip(i as int).drop_first() =~= loot@.skip(i + 1));
        if loot[i].x == x && loot[i].y == y {
            return Some(i);
        }
        i = i + 1;
    }
    None
}

} // verus!

verus! {

/// The region data after the current instance stepped onto `next` of p's region: the old
/// position is kept for the animation when movement is pixel based.
pub open spec fn stepped(old: RegionData, new: RegionData, p: Position, next: (isize, isize)) -> bool {
    let i = old.curr_index as int;
    let inst = old.character_instances@[i];
    let moved = BehaviorInstance {
        position: Some(Position { region: p.region, x: next.0, y: next.1 }),
        old_position: if old.pixel_based_movement { inst.position } else { inst.old_position },
        ..inst
    };
    &&& new.character_instances@ == old.character_instances@.update(i, moved)
    &&& new.region_data == old.region_data
    &&& new.displacements == old.displacements
    &&& new.sheets == old.sheets
    &&& new.curr_index == old.curr_index
    &&& new.loot == old.loot
    &&& new.pixel_based_movement == old.pixel_based_movement
    &&& new.region_area_behavior == old.region_area_behavior
    &&& new.curr_action_character_index == old.curr_action_character_index
    &&& new.player_uuid_indices@ == old.player_uuid_indices@
}

/// What [`walk_towards`] returns and does for given inputs: with both positions known and
/// walking cells avoiding the occupied ones, it succeeds when already there, steps to the
/// second cell of a shortest walk when there is one, and fails otherwise.
pub open spec fn walk_outcome(
    old: RegionData,
    new: RegionData,
    p: Option<Position>,
    dp: Option<Position>,
    exclude_dp: bool,
    r: BehaviorNodeConnector,
) -> bool {
    match (p, dp) {
        (Some(p), Some(d)) => {
            let occ = occupied_by_characters(old, p, dp, exclude_dp);
            let start = (p.x, p.y);
            let goal = (d.x, d.y);
            if start == goal {
                r == BehaviorNodeConnector::Success && new == old
            } else if exists|q: Seq<(isize, isize)>| is_walk(old, occ, q, start, goal) {
                &&& r == BehaviorNodeConnector::Right
                &&& exists|q: Seq<(isize, isize)>| #[trigger] is_shortest_walk(old, occ, q, start, goal)
                        && stepped(old, new, p, q[1])
            } else {
                r == BehaviorNodeConnector::Fail && new == old
            }
        },
        _ => r == BehaviorNodeConnector::Fail && new == old,
    }
}

/// Collects the cells occupied by characters for a walk of the current instance from p.
pub fn collect_occupied(data: &RegionData, p: Position, dp: Option<Position>, exclude_dp: bool) -> (v: Vec<(isize, isize)>)
    ensures
        forall|c: (isize, isize)| v@.contains(c) <==> (occupied_by_characters(*data, p, dp, exclude_dp))(c),
{
    let mut v: Vec<(isize, isize)> = Vec::new();
    let n = data.character_instances.len();
    let mut i: usize = 0;
    while i < n
        invariant
            i <= n,
            n == data.character_instances@.len(),
            forall|c: (isize, isize)| v@.contains(c) <==> exists|j: int| 0 <= j < i && #[trigger] is_blocker(*data, p, dp, exclude_dp, j, c),
        decreases n - i,
    {
        let ghost old_v = v@;
        let inst = &data.character_instances[i];
        if i != data.curr_index && inst.state == BehaviorInstanceState::Normal {
            match inst.position {
                Some(pos) => {
                    if pos.region == p.region {
                        let counted = if !exclude_dp {
                            true
                        } else {
                            match dp {
                                Some(d) => !(d == pos),
                                None => false,
                            }
                        };
                        if counted {
                            v.push((pos.x, pos.y));
                        }
                    }
                },
                None => {},
            }
        }
        assert forall|c: (isize, isize)| v@.contains(c) <==> exists|j: int| 0 <= j < i + 1 && #[trigger] is_blocker(*data, p, dp, exclude_dp, j, c) by {
            if v@.contains(c) {
                if old_v.contains(c) {
                    let j = choose|j: int| 0 <= j < i && #[trigger] is_blocker(*data, p, dp, exclude_dp, j, c);
                    assert(0 <= j < i + 1 && is_blocker(*data, p, dp, exclude_dp, j, c));
                } else {
                    assert(v@.last() == c);
                    assert(is_blocker(*data, p, dp, exclude_dp, i as int, c));
                }
            }
            if exists|j: int| 0 <= j < i + 1 && #[trigger] is_blocker(*data, p, dp, exclude_dp, j, c) {
                let j = choose|j: int| 0 <= j < i + 1 && #[trigger] is_blocker(*data, p, dp, exclude_dp, j, c);
                if j < i {
                    assert(old_v.contains(c));
                    let k = choose|k: int| 0 <= k < old_v.len() && old_v[k] == c;
                    assert(v@[k] == c);
                } else {
                    assert(v@[v@.len() - 1] == c);
                }
            }
        }
        i = i + 1;
    }
    v
}

/// Walks one step of a shortest walk from p towards dp, avoiding blocking tiles, blocking
/// items and the other characters; see [`walk_outcome`].
pub fn walk_towards(
    p: Option<Position>,
    dp: Option<Position>,
    exclude_dp: bool,
    data: &mut RegionData,
) -> (r: BehaviorNodeConnector)
    requires
        old(data).curr_index < old(data).character_instances@.len(),
    ensures
        walk_outcome(*old(data), *final(data), p, dp, exclude_dp, r),
{
    let p = match p {
        Some(p) => p,
        None => return BehaviorNodeConnector::Fail,
    };
    let d = match dp {
        Some(d) => d,
        None => return BehaviorNodeConnector::Fail,
    };
    let ghost occ = occupied_by_characters(*data, p, dp, exclude_dp);
    let start = (p.x, p.y);
    let goal = (d.x, d.y);
    let occupied = collect_occupied(data, p, dp, exclude_dp);
    let grid = WalkGrid { data: &*data, occupied };
    let result = bfs_walk(&grid, start, goal);
    proof {
        assert(grid.occupied_fn() =~= occ);
    }
    match result {
        Some(path) => {
            assert(is_shortest_walk(*data, occ, path@, start, goal));
            if path.len() > 1 {
                proof {
                    if start == goal {
                        let q = seq![start];
                        assert(is_walk(*data, occ, q, start, goal));
                    }
                    assert(is_walk(*data, occ, path@, start, goal));
                }
                let ghost old_data = *data;
                let ci = data.curr_index;
                let next = path[1];
                let mut inst = data.character_instances.remove(ci);
                if data.pixel_based_movement {
                    inst.old_position = inst.position;
                }
                inst.position = Some(Position::new(p.region, next.0, next.1));
                data.character_instances.insert(ci, inst);
                assert(data.character_instances@ =~= old_data.character_instances@.update(ci as int, inst));
                assert(stepped(old_data, *data, p, path@[1]));
                assert(is_shortest_walk(old_data, occ, path@, start, goal) && stepped(old_data, *data, p, path@[1]));
                BehaviorNodeConnector::Right
            } else if path.len() == 1 && d.x == path[0].0 && d.y == path[0].1 {
                proof {
                    assert(path@.last() == goal);
                    assert(path@[0] == start);
                }
                BehaviorNodeConnector::Success
            } else {
                proof {
                    assert(path@.last() == goal);
                    assert(path@[0] == start);
                }
                BehaviorNodeConnector::Fail
            }
        },
        None => {
            proof {
                assert forall|q: Seq<(isize, isize)>| !is_walk(*data, occ, q, start, goal) by {
                    assert(!is_walk(*grid.data, grid.occupied_fn(), q, start, goal));
                }
                if start == goal {
                    let q = seq![start];
                    assert(is_walk(*data, occ, q, start, goal));
                }
            }
            BehaviorNodeConnector::Fail
        },
    }
}

} // verus!
