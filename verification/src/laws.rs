use vstd::prelude::*;
use crate::types::Position;
use crate::value::Value;
use crate::region::{NodeValueEntry, GameRegionData, TileEntry, PlayerCommunication, RegionData, entry_index, stored, layer_tile, layered_tiles, tiles_at};
use crate::utilities::{squared_distance, is_floor_sqrt, entry_value, without_first_of};
use crate::pathing::{walk_outcome, neighbours, cell_open, occupied_by_characters, is_walk, is_shortest_walk, walk_step};
use crate::behavior::BehaviorNodeConnector;
use crate::server::{packed_route, LobbyAction, PackedRoute};
use crate::instance::first_with_id;
use crate::turns::{Respawn, due_respawns, waiting_respawns};
use crate::fx::{MaterialFXObject, MaterialFXNode, first_geometry, spec_has_displacement, connected_input};
use crate::targeted::first_index;
use crate::setup::{comma_pieces, slot_names};
use crate::pools::{joined, region_pools};
use crate::region::BehaviorInstance;

verus! {

// ---------------------------------------------------------------------------
// Node values of an instance

proof fn lemma_entry_index(e: Seq<NodeValueEntry>, id: (u128, u128))
    ensures
        match entry_index(e, id) {
            Some(i) => 0 <= i < e.len() && e[i].id == id && forall|j: int| 0 <= j < i ==> e[j].id != id,
            None => forall|j: int| 0 <= j < e.len() ==> e[j].id != id,
        },
    decreases e.len(),
{
    if e.len() > 0 {
        lemma_entry_index(e.drop_first(), id);
        if e[0].id != id {
            match entry_index(e.drop_first(), id) {
                Some(i) => {
                    assert forall|j: int| 0 <= j < i + 1 implies e[j].id != id by {
                        if j > 0 {
                            assert(e[j] == e.drop_first()[j - 1]);
                        }
                    }
                },
                None => {
                    assert forall|j: int| 0 <= j < e.len() implies e[j].id != id by {
                        if j > 0 {
                            assert(e[j] == e.drop_first()[j - 1]);
                        }
                    }
                },
            }
        }
    }
}

proof fn lemma_first_entry(e: Seq<NodeValueEntry>, id: (u128, u128), i: int)
    requires
        0 <= i < e.len(),
        e[i].id == id,
        forall|j: int| 0 <= j < i ==> e[j].id != id,
    ensures
        entry_index(e, id) == Some(i),
    decreases e.len(),
{
    if i > 0 {
        assert forall|j: int| 0 <= j < i - 1 implies e.drop_first()[j].id != id by {
            assert(e.drop_first()[j] == e[j + 1]);
        }
        lemma_first_entry(e.drop_first(), id, i - 1);
    }
}

proof fn lemma_no_entry(e: Seq<NodeValueEntry>, id: (u128, u128))
    requires
        forall|j: int| 0 <= j < e.len() ==> e[j].id != id,
    ensures
        entry_index(e, id) is None,
    decreases e.len(),
{
    if e.len() > 0 {
        assert forall|j: int| 0 <= j < e.len() - 1 implies e.drop_first()[j].id != id by {
            assert(e.drop_first()[j] == e[j + 1]);
        }
        lemma_no_entry(e.drop_first(), id);
    }
}

/// A value stored under an id is what a lookup of the id gives back.
pub proof fn law_stored_value_read_back(e: Seq<NodeValueEntry>, id: (u128, u128), v: Value)
    ensures
        entry_value(stored(e, id, v), id) == Some(v),
{
    lemma_entry_index(e, id);
    let s = stored(e, id, v);
    match entry_index(e, id) {
        Some(i) => {
            lemma_first_entry(s, id, i);
        },
        None => {
            lemma_first_entry(s, id, e.len() as int);
        },
    }
}

/// Storing a value under an id leaves what a lookup of any other id gives.
pub proof fn law_stored_value_keeps_others(e: Seq<NodeValueEntry>, id: (u128, u128), v: Value, other: (u128, u128))
    requires
        other != id,
    ensures
        entry_value(stored(e, id, v), other) == entry_value(e, other),
{
    lemma_entry_index(e, id);
    lemma_entry_index(e, other);
    let s = stored(e, id, v);
    assert(forall|j: int| 0 <= j < e.len() && e[j].id != id ==> s[j] == e[j]);
    assert(forall|j: int| 0 <= j < s.len() ==> (s[j].id == other <==> (j < e.len() && e[j].id == other)));
    match entry_index(e, other) {
        Some(i) => {
            lemma_first_entry(s, other, i);
        },
        None => {
            lemma_no_entry(s, other);
        },
    }
}

/// Waiting that starts at a tick count for some ticks holds exactly until the tick
/// count passes the stored tick: a later check finds the stored tick, and it holds
/// while the tick count has not passed it.
pub proof fn law_wait_holds_until_passed(e: Seq<NodeValueEntry>, id: (u128, u128), ticks: usize, started: usize, now: usize)
    requires
        ticks + started <= usize::MAX,
    ensures
        entry_value(stored(e, id, Value::USize((ticks + started) as usize)), id) == Some(Value::USize((ticks + started) as usize)),
        (ticks + started >= now) <==> !(now > ticks + started),
{
    law_stored_value_read_back(e, id, Value::USize((ticks + started) as usize));
}

// ---------------------------------------------------------------------------
// Distance

/// The integer square root is unique: the distance between two positions is determined.
pub proof fn law_distance_unique(a: int, b: int, n: int)
    requires
        is_floor_sqrt(a, n),
        is_floor_sqrt(b, n),
    ensures
        a == b,
{
    if a < b {
        assert((a + 1) * (a + 1) <= b * b) by (nonlinear_arith)
            requires
                0 <= a,
                a + 1 <= b,
        ;
    } else if b < a {
        assert((b + 1) * (b + 1) <= a * a) by (nonlinear_arith)
            requires
                0 <= b,
                b + 1 <= a,
        ;
    }
}

/// The distance from p0 to p1 is the distance from p1 to p0.
pub proof fn law_distance_symmetric(p0: Position, p1: Position)
    ensures
        crate::roots::f32_distance(squared_distance(p0, p1) as nat)
            == crate::roots::f32_distance(squared_distance(p1, p0) as nat),
{
    assert(squared_distance(p0, p1) == squared_distance(p1, p0)) by (nonlinear_arith);
}

/// A position is at distance zero from itself.
pub proof fn law_distance_to_self(p: Position)
    ensures
        crate::roots::f32_distance(squared_distance(p, p) as nat) == 0,
{
    assert(squared_distance(p, p) == 0);
    crate::roots::lemma_small_distance(0);
    assert(0nat * 0nat <= 0nat && 0nat < (0nat + 1) * (0nat + 1)) by (nonlinear_arith);
    crate::roots::lemma_isqrt(0, 0);
}

// ---------------------------------------------------------------------------
// Conversations

/// Dropping a conversation removes exactly one of the player's conversations when the
/// NPC has one, and nothing otherwise.
pub proof fn law_drop_removes_one(comms: Seq<PlayerCommunication>, player: usize)
    ensures
        (exists|k: int| 0 <= k < comms.len() && comms[k].player_index == player)
            ==> without_first_of(comms, player).len() == comms.len() - 1,
        !(exists|k: int| 0 <= k < comms.len() && comms[k].player_index == player)
            ==> without_first_of(comms, player) == comms,
    decreases comms.len(),
{
    if comms.len() > 0 {
        let rest = comms.drop_first();
        law_drop_removes_one(rest, player);
        if comms[0].player_index != player {
            if exists|k: int| 0 <= k < comms.len() && comms[k].player_index == player {
                let k = choose|k: int| 0 <= k < comms.len() && comms[k].player_index == player;
                assert(rest[k - 1].player_index == player);
            }
            if !(exists|k: int| 0 <= k < comms.len() && comms[k].player_index == player) {
                assert forall|k: int| 0 <= k < rest.len() implies rest[k].player_index != player by {
                    assert(rest[k] == comms[k + 1]);
                }
                assert(seq![comms[0]] + rest =~= comms);
            }
        } else {
            assert(0 <= 0 < comms.len() && comms[0].player_index == player);
        }
    }
}

// ---------------------------------------------------------------------------
// Tiles

/// Without a displacement at a coordinate the tiles there are the layered ones; with one,
/// it is the only tile.
pub proof fn law_displacement_replaces_layers(r: GameRegionData, d: Seq<TileEntry>, x: int, y: int)
    ensures
        layer_tile(d, x, y) is None ==> tiles_at(r, d, x, y) == layered_tiles(r, x, y),
        layer_tile(d, x, y) matches Some(t) ==> tiles_at(r, d, x, y) == seq![t],
{
}

// ---------------------------------------------------------------------------
// Walking

/// A step towards a destination moves the character to an open neighbouring cell.
pub proof fn law_walk_moves_one_open_step(
    old: RegionData,
    new: RegionData,
    p: Position,
    dp: Option<Position>,
    exclude_dp: bool,
)
    requires
        old.curr_index < old.character_instances@.len(),
        walk_outcome(old, new, Some(p), dp, exclude_dp, BehaviorNodeConnector::Right),
    ensures
        exists|c: (isize, isize)|
            neighbours((p.x, p.y), c)
            && cell_open(old, occupied_by_characters(old, p, dp, exclude_dp), c)
            && new.character_instances@[old.curr_index as int].position == Some(Position { region: p.region, x: c.0, y: c.1 }),
{
    let occ = occupied_by_characters(old, p, dp, exclude_dp);
    let d = dp.unwrap();
    let start = (p.x, p.y);
    let goal = (d.x, d.y);
    let q = choose|q: Seq<(isize, isize)>| #[trigger] is_shortest_walk(old, occ, q, start, goal)
        && crate::pathing::stepped(old, new, p, q[1]);
    assert(is_walk(old, occ, q, start, goal));
    assert(q.len() >= 2);
    assert(walk_step(old, occ, q[0], q[1]));
    assert(new.character_instances@[old.curr_index as int].position == Some(Position { region: p.region, x: q[1].0, y: q[1].1 }));
}

} // verus!

verus! {

// ---------------------------------------------------------------------------
// Numbers as text

proof fn lemma_digit_char(d: int)
    requires
        0 <= d < 10,
    ensures
        crate::scan::is_digit(crate::text::digit_char(d)),
        (crate::text::digit_char(d) as u32) - 48 == d,
{
    assert((((d + 48) as u32) as char) as u32 == d + 48);
}

proof fn lemma_nat_digits(n: nat)
    ensures
        crate::scan::all_digits(crate::text::nat_digits(n)),
        crate::scan::digits_value(crate::text::nat_digits(n)) == n,
        crate::text::nat_digits(n).len() > 0,
    decreases n,
{
    let s = crate::text::nat_digits(n);
    if n < 10 {
        lemma_digit_char(n as int);
        assert(s.drop_last() =~= Seq::<char>::empty());
        assert(s.last() == crate::text::digit_char(n as int));
        assert(crate::scan::digits_value(s.drop_last()) == 0);
    } else {
        lemma_nat_digits(n / 10);
        lemma_digit_char((n % 10) as int);
        let prefix = crate::text::nat_digits(n / 10);
        assert(s.drop_last() =~= prefix);
        assert(s.last() == crate::text::digit_char((n % 10) as int));
        assert((n / 10) * 10 + n % 10 == n) by (nonlinear_arith);
        assert forall|i: int| 0 <= i < s.len() implies crate::scan::is_digit(#[trigger] s[i]) by {
            if i < prefix.len() {
                assert(s[i] == prefix[i]);
            }
        }
    }
}

/// Reading back the decimal text of an integer, as `i32::from_str` does, gives the
/// integer: the text a number value shows reads as that number.
pub proof fn law_integer_text_reads_back(v: i32)
    ensures
        crate::scan::parse_i32_spec(crate::text::int_text(v as int)) == Some(v),
{
    let t = crate::text::int_text(v as int);
    if v < 0 {
        let m = (-(v as int)) as nat;
        lemma_nat_digits(m);
        let ds = crate::text::nat_digits(m);
        assert(t =~= seq!['-'] + ds);
        assert(t[0] == '-');
        assert(t.drop_first() =~= ds);
        assert(crate::scan::unsigned_part(t) == ds);
    } else {
        lemma_nat_digits(v as nat);
        let ds = crate::text::nat_digits(v as nat);
        assert(t == ds);
        assert(crate::scan::is_digit(ds[0]));
        assert(ds[0] != '-' && ds[0] != '+');
        assert(crate::scan::unsigned_part(t) == ds);
    }
}

/// No node value is both a number and a text.
pub proof fn law_number_or_text(v: Value)
    ensures
        !(crate::value::spec_integer(v) is Some && crate::value::spec_text(v) is Some),
{
}

// ---------------------------------------------------------------------------
// Routing of player actions

/// Once a player is recorded in a region, its player actions go to that region,
/// whatever else the action could be read as.
pub proof fn law_actions_follow_the_player(
    regions: Map<u128, u128>,
    allow_local_users: bool,
    player: u128,
    region: u128,
    lobby_action: Option<LobbyAction>,
)
    ensures
        packed_route(regions.insert(player, region), allow_local_users, player, true, lobby_action)
            == PackedRoute::ToRegion(region),
{
}

/// Where local users are not allowed, a local login is ignored, in the lobby and in a
/// region alike.
pub proof fn law_local_login_refused(regions: Map<u128, u128>, player: u128, user: String, screen: String)
    ensures
        packed_route(regions, false, player, false, Some(LobbyAction::LoginLocal { user, screen })) == PackedRoute::Ignore,
{
}

// ---------------------------------------------------------------------------
// Players moving between regions

/// A player brought into a region whose id no instance there had is the one that
/// destroying the player later finds: the instance added last.
pub proof fn law_transferred_player_is_found(instances: Seq<BehaviorInstance>, player: BehaviorInstance)
    requires
        forall|k: int| 0 <= k < instances.len() ==> instances[k].id != player.id,
    ensures
        first_with_id(instances.push(player), player.id) == Some(instances.len() as int),
{
    let s = instances.push(player);
    assert(s[instances.len() as int].id == player.id);
    let c = first_with_id(s, player.id)->0;
    assert(0 <= c < s.len() && s[c].id == player.id);
    if c < instances.len() {
        assert(s[c] == instances[c]);
    }
}

// ---------------------------------------------------------------------------
// Respawns

/// Taking the due respawns loses none and makes none up: every waiting respawn is due
/// or keeps waiting, the due ones are due at the tick and the others are not.
pub proof fn law_respawns_split(s: Seq<Respawn>, now: usize, k: nat)
    requires
        k <= s.len(),
    ensures
        due_respawns(s, now, k).len() + waiting_respawns(s, now, k).len() == k,
        forall|i: int| 0 <= i < due_respawns(s, now, k).len() ==> #[trigger] due_respawns(s, now, k)[i].tick <= now,
        forall|i: int| 0 <= i < waiting_respawns(s, now, k).len() ==> #[trigger] waiting_respawns(s, now, k)[i].tick > now,
    decreases k,
{
    if k > 0 {
        law_respawns_split(s, now, (k - 1) as nat);
        let d = due_respawns(s, now, (k - 1) as nat);
        let w = waiting_respawns(s, now, (k - 1) as nat);
        if s[k - 1].tick <= now {
            assert(due_respawns(s, now, k) == d + seq![s[k - 1]]);
            assert(waiting_respawns(s, now, k) =~= w);
            assert forall|i: int| 0 <= i < due_respawns(s, now, k).len() implies #[trigger] due_respawns(s, now, k)[i].tick <= now by {
                if i < d.len() {
                    assert(due_respawns(s, now, k)[i] == d[i]);
                }
            }
        } else {
            assert(due_respawns(s, now, k) =~= d);
            assert(waiting_respawns(s, now, k) == w + seq![s[k - 1]]);
            assert forall|i: int| 0 <= i < waiting_respawns(s, now, k).len() implies #[trigger] waiting_respawns(s, now, k)[i].tick > now by {
                if i < w.len() {
                    assert(waiting_respawns(s, now, k)[i] == w[i]);
                }
            }
        }
    }
}

// ---------------------------------------------------------------------------
// Materials

proof fn lemma_first_index_found<A>(s: Seq<A>, p: spec_fn(A, int) -> bool, i: nat)
    ensures
        match first_index(s, p, i) {
            Some(j) => i <= j < s.len() && p(s[j], j),
            None => true,
        },
    decreases s.len() - i,
{
    if i < s.len() && !p(s[i as int], i as int) {
        lemma_first_index_found(s, p, i + 1);
    }
}

/// A material that applies a displacement node supports displacement.
pub proof fn law_displacement_node_means_displacement(m: MaterialFXObject)
    requires
        (match first_geometry(m.nodes@) {
            Some(i) => connected_input(m.connections@, i as usize, 2) is Some,
            None => false,
        }),
    ensures
        spec_has_displacement(m),
{
    let p = |n: MaterialFXNode, k: int| n.role == crate::fx::MaterialFXNodeRole::Geometry;
    lemma_first_index_found(m.nodes@, p, 0);
    let i = first_geometry(m.nodes@)->0;
    assert(0 <= i < m.nodes@.len() && m.nodes@[i].role == crate::fx::MaterialFXNodeRole::Geometry);
    assert(connected_input(m.connections@, i as usize, 2) is Some);
}

// ---------------------------------------------------------------------------
// Slot settings

/// The number of commas among the first k characters.
pub open spec fn commas(s: Seq<char>, k: nat) -> nat
    decreases k,
{
    if k == 0 {
        0
    } else {
        commas(s, (k - 1) as nat) + if s[k - 1] == ',' { 1nat } else { 0nat }
    }
}

proof fn lemma_comma_pieces(s: Seq<char>, k: nat)
    ensures
        comma_pieces(s, k).0.len() == commas(s, k),
    decreases k,
{
    if k > 0 {
        lemma_comma_pieces(s, (k - 1) as nat);
    }
}

/// A slot setting lists one slot more than it has commas: each comma separates two slots.
pub proof fn law_slots_between_commas(setting: Seq<char>)
    ensures
        slot_names(setting).len() == commas(setting, setting.len()) + 1,
{
    lemma_comma_pieces(setting, setting.len());
}

// ---------------------------------------------------------------------------
// Regions over threads

proof fn lemma_joined_contains(ps: Seq<Seq<u128>>, x: u128)
    ensures
        joined(ps).contains(x) <==> exists|k: int| 0 <= k < ps.len() && (#[trigger] ps[k]).contains(x),
    decreases ps.len(),
{
    if ps.len() > 0 {
        let init = ps.drop_last();
        lemma_joined_contains(init, x);
        let j = joined(init);
        let l = ps.last();
        if joined(ps).contains(x) {
            let i = choose|i: int| 0 <= i < joined(ps).len() && joined(ps)[i] == x;
            if i < j.len() {
                assert(j[i] == x);
                let k = choose|k: int| 0 <= k < init.len() && (#[trigger] init[k]).contains(x);
                assert(ps[k] == init[k]);
            } else {
                assert(l[i - j.len()] == x);
                assert(ps[ps.len() - 1].contains(x));
            }
        }
        if exists|k: int| 0 <= k < ps.len() && (#[trigger] ps[k]).contains(x) {
            let k = choose|k: int| 0 <= k < ps.len() && (#[trigger] ps[k]).contains(x);
            let m = choose|m: int| 0 <= m < ps[k].len() && ps[k][m] == x;
            if k < ps.len() - 1 {
                assert(init[k] == ps[k]);
                assert(j.contains(x));
                let i = choose|i: int| 0 <= i < j.len() && j[i] == x;
                assert(joined(ps)[i] == x);
            } else {
                assert(joined(ps)[j.len() + m] == x);
            }
        }
    }
}

proof fn lemma_joined_unique(ps: Seq<Seq<u128>>, x: u128, k1: int, k2: int)
    requires
        joined(ps).no_duplicates(),
        0 <= k1 < ps.len(),
        0 <= k2 < ps.len(),
        ps[k1].contains(x),
        ps[k2].contains(x),
    ensures
        k1 == k2,
    decreases ps.len(),
{
    let init = ps.drop_last();
    let j = joined(init);
    let l = ps.last();
    assert(joined(ps) == j + l);
    let last = ps.len() - 1;
    if k1 < last && k2 < last {
        assert forall|a: int, b: int| 0 <= a < b < j.len() implies j[a] != j[b] by {
            assert(joined(ps)[a] == j[a] && joined(ps)[b] == j[b]);
        }
        assert(init[k1] == ps[k1] && init[k2] == ps[k2]);
        lemma_joined_unique(init, x, k1, k2);
    } else if k1 < last || k2 < last {
        let k = if k1 < last { k1 } else { k2 };
        assert(init[k] == ps[k]);
        lemma_joined_contains(init, x);
        let a = choose|a: int| 0 <= a < j.len() && j[a] == x;
        let b = choose|b: int| 0 <= b < l.len() && l[b] == x;
        assert(joined(ps)[a] == x && joined(ps)[j.len() + b] == x);
    }
}

/// Distributing distinct regions over pools puts every region in exactly one pool, and
/// every pooled region is one of the regions.
pub proof fn law_every_region_in_one_pool(ids: Seq<u128>, max_per_pool: nat, x: u128)
    requires
        max_per_pool > 0,
        ids.no_duplicates(),
    ensures
        ids.contains(x) ==> exists|k: int| 0 <= k < region_pools(ids, max_per_pool).len()
            && (#[trigger] region_pools(ids, max_per_pool)[k]).contains(x),
        forall|k1: int, k2: int| 0 <= k1 < region_pools(ids, max_per_pool).len()
            && 0 <= k2 < region_pools(ids, max_per_pool).len()
            && (#[trigger] region_pools(ids, max_per_pool)[k1]).contains(x)
            && (#[trigger] region_pools(ids, max_per_pool)[k2]).contains(x) ==> k1 == k2,
        forall|k: int| 0 <= k < region_pools(ids, max_per_pool).len()
            && (#[trigger] region_pools(ids, max_per_pool)[k]).contains(x) ==> ids.contains(x),
{
    let ps = region_pools(ids, max_per_pool);
    crate::pools::lemma_region_pools_join(ids, max_per_pool);
    lemma_joined_contains(ps, x);
    assert forall|k1: int, k2: int| 0 <= k1 < ps.len() && 0 <= k2 < ps.len()
        && (#[trigger] ps[k1]).contains(x) && (#[trigger] ps[k2]).contains(x) implies k1 == k2 by {
        lemma_joined_unique(ps, x, k1, k2);
    }
}

} // verus!

verus! {

// ---------------------------------------------------------------------------
// Water and walls

/// A cell holding a water or blocking tile cannot be entered, whatever else lies there.
pub proof fn law_water_and_walls_block(
    data: RegionData,
    occupied: spec_fn((isize, isize)) -> bool,
    c: (isize, isize),
    i: int,
)
    requires
        0 <= i < tiles_at(data.region_data, data.displacements@, c.0 as int, c.1 as int).len(),
        tiles_at(data.region_data, data.displacements@, c.0 as int, c.1 as int)[i].usage == crate::types::TileUsage::Water
            || tiles_at(data.region_data, data.displacements@, c.0 as int, c.1 as int)[i].usage == crate::types::TileUsage::EnvBlocking,
    ensures
        !cell_open(data, occupied, c),
{
    let tiles = tiles_at(data.region_data, data.displacements@, c.0 as int, c.1 as int);
    if cell_open(data, occupied, c) {
        assert(!crate::pathing::blocks_movement(tiles[i].usage));
    }
}

/// A step towards a destination never enters water or a blocking tile: the cell the
/// character moves to has tiles, and none of them is water or blocking.
pub proof fn law_walk_avoids_water_and_walls(
    old: RegionData,
    new: RegionData,
    p: Position,
    dp: Option<Position>,
    exclude_dp: bool,
)
    requires
        old.curr_index < old.character_instances@.len(),
        walk_outcome(old, new, Some(p), dp, exclude_dp, BehaviorNodeConnector::Right),
    ensures
        ({
            let q = new.character_instances@[old.curr_index as int].position;
            let tiles = tiles_at(old.region_data, old.displacements@, q->0.x as int, q->0.y as int);
            &&& q is Some && q->0.region == p.region
            &&& tiles.len() > 0
            &&& forall|i: int| 0 <= i < tiles.len() ==> #[trigger] tiles[i].usage != crate::types::TileUsage::Water
                && tiles[i].usage != crate::types::TileUsage::EnvBlocking
        }),
{
    law_walk_moves_one_open_step(old, new, p, dp, exclude_dp);
    let occ = occupied_by_characters(old, p, dp, exclude_dp);
    let c = choose|c: (isize, isize)|
        neighbours((p.x, p.y), c)
        && cell_open(old, occ, c)
        && new.character_instances@[old.curr_index as int].position == Some(Position { region: p.region, x: c.0, y: c.1 });
    let tiles = tiles_at(old.region_data, old.displacements@, c.0 as int, c.1 as int);
    assert forall|i: int| 0 <= i < tiles.len() implies #[trigger] tiles[i].usage != crate::types::TileUsage::Water
        && tiles[i].usage != crate::types::TileUsage::EnvBlocking by {
        if tiles[i].usage == crate::types::TileUsage::Water || tiles[i].usage == crate::types::TileUsage::EnvBlocking {
            law_water_and_walls_block(old, occ, c, i);
        }
    }
}

// ---------------------------------------------------------------------------
// Dates

/// The minutes from the start of day zero to the date.
pub open spec fn minutes_of(d: crate::types::Date) -> int {
    d.day * 1440 + d.hours * 60 + d.minutes
}

/// For dates of real clocks (hours below 24, minutes below 60) one lies before another
/// exactly when fewer minutes have passed up to it.
pub proof fn law_dates_order_by_minutes(a: crate::types::Date, b: crate::types::Date)
    requires
        a.hours < 24 && a.minutes < 60,
        b.hours < 24 && b.minutes < 60,
    ensures
        crate::ticking::date_before(a, b) <==> minutes_of(a) < minutes_of(b),
{
    if a.day < b.day {
        assert(minutes_of(a) < minutes_of(b)) by (nonlinear_arith)
            requires
                a.day < b.day,
                a.hours < 24 && a.minutes < 60,
        ;
    } else if a.day > b.day {
        assert(minutes_of(b) < minutes_of(a)) by (nonlinear_arith)
            requires
                b.day < a.day,
                b.hours < 24 && b.minutes < 60,
        ;
    }
}

/// An earlier day, an earlier hour of the same day and an earlier minute of the same hour
/// all lie before; no date lies before itself, and of two different dates one lies
/// before the other.
pub proof fn law_dates_are_ordered(a: crate::types::Date, b: crate::types::Date)
    ensures
        a.day < b.day ==> crate::ticking::date_before(a, b),
        a.day == b.day && a.hours < b.hours ==> crate::ticking::date_before(a, b),
        a.day == b.day && a.hours == b.hours && a.minutes < b.minutes ==> crate::ticking::date_before(a, b),
        !crate::ticking::date_before(a, a),
        crate::ticking::date_before(a, b) ==> !crate::ticking::date_before(b, a),
        a != b ==> crate::ticking::date_before(a, b) || crate::ticking::date_before(b, a),
{
}

// ---------------------------------------------------------------------------
// Lobby actions

/// A player in the lobby has every lobby action handled there, but for a local login
/// where local users are not allowed.
pub proof fn law_lobby_handles_its_actions(
    regions: Map<u128, u128>,
    allow_local_users: bool,
    player: u128,
    is_player_action: bool,
    a: LobbyAction,
)
    requires
        !regions.contains_key(player),
        !(a is LoginLocal) || allow_local_users,
    ensures
        packed_route(regions, allow_local_users, player, is_player_action, Some(a)) == PackedRoute::Lobby(a),
{
}

/// A packed action that reads as nothing in the lobby goes nowhere, and one of a player
/// in a region never goes to the lobby.
pub proof fn law_unread_and_region_actions(
    regions: Map<u128, u128>,
    allow_local_users: bool,
    player: u128,
    is_player_action: bool,
    a: Option<LobbyAction>,
)
    ensures
        !regions.contains_key(player) ==> packed_route(regions, allow_local_users, player, is_player_action, None) == PackedRoute::Ignore,
        regions.contains_key(player) ==> !(packed_route(regions, allow_local_users, player, is_player_action, a) is Lobby),
{
}

// ---------------------------------------------------------------------------
// Editor server controls

/// A frame of the editor ticks the server exactly when it runs, and changes neither the
/// state nor the icons; otherwise it does nothing.
pub proof fn law_frames_tick_only_a_running_server(s: crate::editor::ServerState)
    ensures
        (crate::editor::server_step_of(s, crate::editor::ServerEvent::Frame).1 == crate::editor::ServerAction::Tick)
            <==> s == crate::editor::ServerState::Running,
        s != crate::editor::ServerState::Running
            ==> crate::editor::server_step_of(s, crate::editor::ServerEvent::Frame).1 == crate::editor::ServerAction::Idle,
        crate::editor::server_step_of(s, crate::editor::ServerEvent::Frame).0 is None,
        !crate::editor::server_step_of(s, crate::editor::ServerEvent::Frame).2,
{
}

/// Play always starts the server and Stop always stops it; a loaded project leaves the
/// server stopped; Pause ticks only a paused server and pauses only a running one.
pub proof fn law_server_buttons(s: crate::editor::ServerState)
    ensures
        crate::editor::server_step_of(s, crate::editor::ServerEvent::Play).1 == crate::editor::ServerAction::Start,
        crate::editor::server_step_of(s, crate::editor::ServerEvent::Stop).1 == crate::editor::ServerAction::Stop,
        crate::editor::server_step_of(s, crate::editor::ServerEvent::ProjectLoaded).0 == Some(crate::editor::ServerState::Stopped),
        (crate::editor::server_step_of(s, crate::editor::ServerEvent::Pause).1 == crate::editor::ServerAction::Tick)
            <==> s == crate::editor::ServerState::Paused,
        (crate::editor::server_step_of(s, crate::editor::ServerEvent::Pause).0 == Some(crate::editor::ServerState::Paused))
            <==> s == crate::editor::ServerState::Running,
{
}

} // verus!

verus! {

// ---------------------------------------------------------------------------
// Instances of a behavior

proof fn lemma_in_region_keeps(
    cands: Seq<(Position, Option<crate::types::TileId>, Option<Seq<char>>, i32)>,
    region: u128,
    n: nat,
    k: int,
)
    requires
        0 <= k < n <= cands.len(),
        cands[k].0.region == region,
    ensures
        exists|j: int| 0 <= j < crate::creation::in_region(cands, region, n).len()
            && #[trigger] crate::creation::in_region(cands, region, n)[j] == cands[k],
    decreases n,
{
    let prev = crate::creation::in_region(cands, region, (n - 1) as nat);
    if k < n - 1 {
        lemma_in_region_keeps(cands, region, (n - 1) as nat, k);
        let j = choose|j: int| 0 <= j < prev.len() && #[trigger] prev[j] == cands[k];
        assert(crate::creation::in_region(cands, region, n)[j] == prev[j]);
    } else {
        assert(crate::creation::in_region(cands, region, n)[prev.len() as int] == cands[k]);
    }
}

proof fn lemma_listed_at(
    list: Seq<crate::behavior::CharacterInstanceData>,
    name: Seq<char>,
    tile: Option<crate::types::TileId>,
    n: nat,
    k: int,
)
    requires
        0 <= k < n,
    ensures
        crate::creation::listed(list, name, tile, n).len() == n,
        crate::creation::listed(list, name, tile, n)[k] == crate::creation::filled(list[k], name, tile),
    decreases n,
{
    let prev = crate::creation::listed(list, name, tile, (n - 1) as nat);
    assert(crate::creation::listed(list, name, tile, n) == prev.push(crate::creation::filled(list[n - 1], name, tile)));
    if k < n - 1 {
        lemma_listed_at(list, name, tile, (n - 1) as nat, k);
    } else if n > 1 {
        lemma_listed_at(list, name, tile, (n - 1) as nat, 0);
    } else {
        assert(prev.len() == 0);
    }
}

/// Every listed instance of a behavior that stands in the region is created at its
/// position with its alignment, keeping its own tile where it has one and taking the
/// behavior's default tile only where it has none.
pub proof fn law_listed_instances_keep_their_tile(
    b: crate::behavior::GameBehaviorData,
    d: crate::creation::DefaultsView,
    region: u128,
    k: int,
)
    requires
        b.instances is Some,
        0 <= k < b.instances->0@.len(),
        b.instances->0@[k].position.region == region,
    ensures
        exists|j: int|
            0 <= j < crate::creation::planned_instances(b, d, false, None, region).len()
            && (#[trigger] crate::creation::planned_instances(b, d, false, None, region)[j]).0 == b.instances->0@[k].position
            && crate::creation::planned_instances(b, d, false, None, region)[j].1
                == (if b.instances->0@[k].tile is Some { b.instances->0@[k].tile } else { d.tile })
            && crate::creation::planned_instances(b, d, false, None, region)[j].3 == b.instances->0@[k].alignment,
{
    let list = b.instances->0@;
    let main = if d.position is Some && d.tile is Some {
        seq![(d.position.unwrap(), d.tile, Some(b.name@), d.alignment)]
    } else {
        Seq::empty()
    };
    let rest = crate::creation::listed(list, b.name@, d.tile, list.len());
    lemma_listed_at(list, b.name@, d.tile, list.len(), k);
    let cands = main + rest;
    let at = main.len() + k;
    assert(cands[at] == rest[k]);
    lemma_in_region_keeps(cands, region, cands.len(), at);
    let planned = crate::creation::planned_instances(b, d, false, None, region);
    assert(planned == crate::creation::in_region(cands, region, cands.len()));
    let j = choose|j: int| 0 <= j < planned.len() && #[trigger] planned[j] == cands[at];
    assert(planned[j].0 == b.instances->0@[k].position);
}

} // verus!

verus! {

// ---------------------------------------------------------------------------
// Who acts and who is told in a tick

/// A sleeping instance never acts, nor a purged one, nor a killed non player character;
/// every other awake instance acts, a killed player included.
pub proof fn law_who_acts(
    state: crate::region::BehaviorInstanceState,
    instance_type: crate::region::BehaviorInstanceType,
    sleeping: bool,
)
    ensures
        sleeping ==> !crate::ticking::acts(state, instance_type, sleeping),
        state == crate::region::BehaviorInstanceState::Purged ==> !crate::ticking::acts(state, instance_type, sleeping),
        state == crate::region::BehaviorInstanceState::Killed
            && instance_type == crate::region::BehaviorInstanceType::NonPlayerCharacter
            ==> !crate::ticking::acts(state, instance_type, sleeping),
        !sleeping && (state == crate::region::BehaviorInstanceState::Normal || state == crate::region::BehaviorInstanceState::Hidden)
            ==> crate::ticking::acts(state, instance_type, sleeping),
        !sleeping && state == crate::region::BehaviorInstanceState::Killed
            && instance_type != crate::region::BehaviorInstanceType::NonPlayerCharacter
            ==> crate::ticking::acts(state, instance_type, sleeping),
{
}

/// While nothing is debugged every player, and only players, get updates; while an
/// instance is debugged, the instances of the debugged behavior, and only they, get them.
pub proof fn law_who_gets_updates(
    instance_type: crate::region::BehaviorInstanceType,
    behavior_id: u128,
    debugged: u128,
)
    ensures
        crate::turns::gets_update(instance_type, behavior_id, None)
            <==> instance_type == crate::region::BehaviorInstanceType::Player,
        crate::turns::gets_update(instance_type, behavior_id, Some(debugged)) <==> behavior_id == debugged,
{
}

/// A client is sent its screen the first time it has one and whenever it changes, never
/// while it has none or keeps the same one.
pub proof fn law_screens_are_sent_when_new(old_screen: Option<u128>, new_screen: Option<u128>, s: u128, t: u128)
    ensures
        !crate::turns::screen_is_new(old_screen, None),
        crate::turns::screen_is_new(None, Some(s)),
        !crate::turns::screen_is_new(Some(s), Some(s)),
        s != t ==> crate::turns::screen_is_new(Some(s), Some(t)),
{
}

// ---------------------------------------------------------------------------
// Trees an NPC runs

proof fn lemma_always_trees(behaviors: Seq<crate::behavior::GameBehaviorData>, bid: u128, trees: Seq<u128>, k: nat)
    requires
        k <= trees.len(),
    ensures
        forall|i: int| 0 <= i < crate::ticking::always_trees(behaviors, bid, trees, k).len() ==> {
            let t = #[trigger] crate::ticking::always_trees(behaviors, bid, trees, k)[i];
            &&& trees.subrange(0, k as int).contains(t)
            &&& match crate::behavior::node_value(behaviors, (bid, t), "execute"@) {
                Some(v) => crate::value::spec_integer(v) is None || crate::value::spec_integer(v) == Some(0i32),
                None => true,
            }
        },
        forall|m: int| 0 <= m < k && match crate::behavior::node_value(behaviors, (bid, trees[m]), "execute"@) {
                Some(v) => crate::value::spec_integer(v) is None || crate::value::spec_integer(v) == Some(0i32),
                None => true,
            } ==> crate::ticking::always_trees(behaviors, bid, trees, k).contains(#[trigger] trees[m]),
    decreases k,
{
    if k > 0 {
        lemma_always_trees(behaviors, bid, trees, (k - 1) as nat);
        let prev = crate::ticking::always_trees(behaviors, bid, trees, (k - 1) as nat);
        let cur = crate::ticking::always_trees(behaviors, bid, trees, k);
        let t = trees[k - 1];
        assert forall|i: int| 0 <= i < cur.len() implies {
            let x = #[trigger] cur[i];
            &&& trees.subrange(0, k as int).contains(x)
            &&& match crate::behavior::node_value(behaviors, (bid, x), "execute"@) {
                Some(v) => crate::value::spec_integer(v) is None || crate::value::spec_integer(v) == Some(0i32),
                None => true,
            }
        } by {
            if i < prev.len() {
                assert(cur[i] == prev[i]);
                let x = prev[i];
                assert(trees.subrange(0, k - 1).contains(x));
                let w = choose|w: int| 0 <= w < k - 1 && #[trigger] trees.subrange(0, k - 1)[w] == x;
                assert(trees.subrange(0, k as int)[w] == x);
            } else {
                assert(cur[i] == t);
                assert(trees.subrange(0, k as int)[k - 1] == t);
            }
        }
        assert forall|m: int| 0 <= m < k && match crate::behavior::node_value(behaviors, (bid, trees[m]), "execute"@) {
                Some(v) => crate::value::spec_integer(v) is None || crate::value::spec_integer(v) == Some(0i32),
                None => true,
            } implies cur.contains(#[trigger] trees[m]) by {
            if m < k - 1 {
                assert(prev.contains(trees[m]));
                let w = choose|w: int| 0 <= w < prev.len() && #[trigger] prev[w] == trees[m];
                assert(cur[w] == prev[w]);
            } else {
                assert(cur[prev.len() as int] == t);
            }
        }
    }
}

/// An unlocked NPC runs, of its trees, exactly those whose "execute" setting is missing,
/// not a number, or zero; trees run only at startup (execute 1) or on events are left
/// out. A locked NPC runs its locked tree alone.
pub proof fn law_npcs_run_their_always_trees(
    behaviors: Seq<crate::behavior::GameBehaviorData>,
    bid: u128,
    trees: Seq<u128>,
)
    ensures
        forall|i: int| 0 <= i < crate::ticking::always_trees(behaviors, bid, trees, trees.len()).len() ==> {
            let t = #[trigger] crate::ticking::always_trees(behaviors, bid, trees, trees.len())[i];
            &&& trees.contains(t)
            &&& match crate::behavior::node_value(behaviors, (bid, t), "execute"@) {
                Some(v) => crate::value::spec_integer(v) is None || crate::value::spec_integer(v) == Some(0i32),
                None => true,
            }
        },
        forall|m: int| 0 <= m < trees.len() && match crate::behavior::node_value(behaviors, (bid, trees[m]), "execute"@) {
                Some(v) => crate::value::spec_integer(v) is None || crate::value::spec_integer(v) == Some(0i32),
                None => true,
            } ==> crate::ticking::always_trees(behaviors, bid, trees, trees.len()).contains(#[trigger] trees[m]),
{
    lemma_always_trees(behaviors, bid, trees, trees.len());
    assert(trees.subrange(0, trees.len() as int) =~= trees);
}

} // verus!

verus! {

proof fn lemma_first_index_exact<A>(s: Seq<A>, p: spec_fn(A, int) -> bool, i: nat)
    ensures
        match first_index(s, p, i) {
            Some(j) => i <= j < s.len() && p(s[j], j) && forall|m: int| i <= m < j ==> !p(s[m], m),
            None => forall|m: int| i <= m < s.len() ==> !p(s[m], m),
        },
    decreases s.len() - i,
{
    if i < s.len() && !p(s[i as int], i as int) {
        lemma_first_index_exact(s, p, i + 1);
    }
}

// ---------------------------------------------------------------------------
// A player's directed action

/// A player's action runs the first of its trees whose node is named after the action;
/// where none is, nothing runs.
pub proof fn law_actions_run_the_tree_named_after_them(
    behaviors: Seq<crate::behavior::GameBehaviorData>,
    bid: u128,
    trees: Seq<u128>,
    action: Seq<char>,
)
    ensures
        match first_index(trees, crate::ticking::names_action(behaviors, bid, action), 0) {
            Some(k) => {
                &&& 0 <= k < trees.len()
                &&& crate::behavior::find_behavior(behaviors, bid) matches Some(b)
                    && crate::behavior::find_node(b.nodes@, trees[k]) matches Some(n) && n.name@ == action
                &&& forall|m: int| 0 <= m < k ==> !(crate::behavior::find_behavior(behaviors, bid) matches Some(b)
                    && crate::behavior::find_node(b.nodes@, #[trigger] trees[m]) matches Some(n) && n.name@ == action)
            },
            None => forall|m: int| 0 <= m < trees.len() ==> !(crate::behavior::find_behavior(behaviors, bid) matches Some(b)
                && crate::behavior::find_node(b.nodes@, #[trigger] trees[m]) matches Some(n) && n.name@ == action),
        },
{
    let p = crate::ticking::names_action(behaviors, bid, action);
    lemma_first_index_exact(trees, p, 0);
    match first_index(trees, p, 0) {
        Some(k) => {
            assert(p(trees[k], k));
            assert forall|m: int| 0 <= m < k implies !(crate::behavior::find_behavior(behaviors, bid) matches Some(b)
                && crate::behavior::find_node(b.nodes@, #[trigger] trees[m]) matches Some(n) && n.name@ == action) by {
                assert(!p(trees[m], m));
            }
        },
        None => {
            assert forall|m: int| 0 <= m < trees.len() implies !(crate::behavior::find_behavior(behaviors, bid) matches Some(b)
                && crate::behavior::find_node(b.nodes@, #[trigger] trees[m]) matches Some(n) && n.name@ == action) by {
                assert(!p(trees[m], m));
            }
        },
    }
}

// ---------------------------------------------------------------------------
// Messages to regions

/// A message to a region goes to the first pool that runs the region; where no pool
/// runs it, it goes nowhere.
pub proof fn law_messages_reach_the_pool_of_their_region(pools: Seq<Seq<u128>>, region: u128)
    ensures
        match first_index(pools, crate::pools::runs_region(region), 0) {
            Some(k) => 0 <= k < pools.len() && pools[k].contains(region)
                && forall|m: int| 0 <= m < k ==> !(#[trigger] pools[m]).contains(region),
            None => forall|m: int| 0 <= m < pools.len() ==> !(#[trigger] pools[m]).contains(region),
        },
{
    let p = crate::pools::runs_region(region);
    lemma_first_index_exact(pools, p, 0);
    match first_index(pools, p, 0) {
        Some(k) => {
            assert(p(pools[k], k));
            assert forall|m: int| 0 <= m < k implies !(#[trigger] pools[m]).contains(region) by {
                assert(!p(pools[m], m));
            }
        },
        None => {
            assert forall|m: int| 0 <= m < pools.len() implies !(#[trigger] pools[m]).contains(region) by {
                assert(!p(pools[m], m));
            }
        },
    }
}

} // verus!

verus! {

// ---------------------------------------------------------------------------
// Casting spells

proof fn lemma_last_cast_in(
    b: crate::behavior::GameBehaviorData,
    found: Option<(u128, u128)>,
    k: nat,
)
    requires
        k <= b.nodes@.len(),
    ensures
        crate::ticking::last_cast_in(b, found, k) == found || (
            crate::ticking::last_cast_in(b, found, k) matches Some(r) && r.0 == b.id
            && exists|i: int| 0 <= i < k && (#[trigger] b.nodes@[i]).id == r.1
                && b.nodes@[i].behavior_type == crate::behavior::BehaviorNodeType::BehaviorTree
                && crate::scan::lowercase(b.nodes@[i].name@) == "cast"@),
    decreases k,
{
    if k > 0 {
        let n = b.nodes@[k - 1];
        if !crate::ticking::is_cast_tree(n) {
            lemma_last_cast_in(b, found, (k - 1) as nat);
        }
    }
}

proof fn lemma_cast_tree_of(spells: Seq<crate::behavior::GameBehaviorData>, name: Seq<char>, k: nat)
    requires
        k <= spells.len(),
    ensures
        crate::ticking::cast_tree_of(spells, name, k) matches Some(r) ==> exists|s: int, i: int|
            0 <= s < k && 0 <= i < spells[s].nodes@.len()
            && (#[trigger] spells[s]).id == r.0
            && crate::scan::lowercase(spells[s].name@) == crate::scan::lowercase(name)
            && (#[trigger] spells[s].nodes@[i]).id == r.1
            && spells[s].nodes@[i].behavior_type == crate::behavior::BehaviorNodeType::BehaviorTree
            && crate::scan::lowercase(spells[s].nodes@[i].name@) == "cast"@,
    decreases k,
{
    if k > 0 {
        lemma_cast_tree_of(spells, name, (k - 1) as nat);
        let b = spells[k - 1];
        let before = crate::ticking::cast_tree_of(spells, name, (k - 1) as nat);
        if crate::scan::lowercase(b.name@) == crate::scan::lowercase(name) {
            lemma_last_cast_in(b, before, b.nodes@.len());
            let r = crate::ticking::last_cast_in(b, before, b.nodes@.len());
            let tree = r.unwrap();
            if r != before {
                let i = choose|i: int| 0 <= i < b.nodes@.len() && (#[trigger] b.nodes@[i]).id == tree.1
                    && b.nodes@[i].behavior_type == crate::behavior::BehaviorNodeType::BehaviorTree
                    && crate::scan::lowercase(b.nodes@[i].name@) == "cast"@;
                assert(spells[k - 1].nodes@[i].id == tree.1);
            } else if before is Some {
                let x = before.unwrap();
                let (s, i) = choose|s: int, i: int|
                    0 <= s < k - 1 && 0 <= i < spells[s].nodes@.len()
                    && (#[trigger] spells[s]).id == x.0
                    && crate::scan::lowercase(spells[s].name@) == crate::scan::lowercase(name)
                    && (#[trigger] spells[s].nodes@[i]).id == x.1
                    && spells[s].nodes@[i].behavior_type == crate::behavior::BehaviorNodeType::BehaviorTree
                    && crate::scan::lowercase(spells[s].nodes@[i].name@) == "cast"@;
                assert(spells[s].nodes@[i].id == x.1);
            }
        } else if before is Some {
            let x = before.unwrap();
            let (s, i) = choose|s: int, i: int|
                0 <= s < k - 1 && 0 <= i < spells[s].nodes@.len()
                && (#[trigger] spells[s]).id == x.0
                && crate::scan::lowercase(spells[s].name@) == crate::scan::lowercase(name)
                && (#[trigger] spells[s].nodes@[i]).id == x.1
                && spells[s].nodes@[i].behavior_type == crate::behavior::BehaviorNodeType::BehaviorTree
                && crate::scan::lowercase(spells[s].nodes@[i].name@) == "cast"@;
            assert(spells[s].nodes@[i].id == x.1);
        }
    }
}

/// Casting a spell runs a tree named "cast" (in any case) of a spell whose name matches
/// the cast one in any case.
pub proof fn law_spells_run_their_cast_tree(spells: Seq<crate::behavior::GameBehaviorData>, name: Seq<char>)
    ensures
        crate::ticking::cast_tree_of(spells, name, spells.len()) matches Some(r) ==> exists|s: int, i: int|
            0 <= s < spells.len() && 0 <= i < spells[s].nodes@.len()
            && (#[trigger] spells[s]).id == r.0
            && crate::scan::lowercase(spells[s].name@) == crate::scan::lowercase(name)
            && (#[trigger] spells[s].nodes@[i]).id == r.1
            && spells[s].nodes@[i].behavior_type == crate::behavior::BehaviorNodeType::BehaviorTree
            && crate::scan::lowercase(spells[s].nodes@[i].name@) == "cast"@,
{
    lemma_cast_tree_of(spells, name, spells.len());
}

} // verus!

verus! {

// ---------------------------------------------------------------------------
// An item's state

/// Whether the node is a tree that runs at startup: a behavior tree with an "execute"
/// value of one.
pub open spec fn runs_at_startup(n: crate::behavior::BehaviorNode) -> bool {
    n.behavior_type == crate::behavior::BehaviorNodeType::BehaviorTree
        && exists|v: int| 0 <= v < n.values@.len() && (#[trigger] n.values@[v]).name@ == "execute"@
            && crate::value::spec_integer(n.values@[v].value) == Some(1i32)
}

proof fn lemma_execute_marks(values: Seq<crate::behavior::NodeValue>, tree: (u128, u128), n: nat)
    requires
        n <= values.len(),
    ensures
        forall|i: int| 0 <= i < crate::items::execute_marks(values, tree, n).len()
            ==> #[trigger] crate::items::execute_marks(values, tree, n)[i] == tree,
        crate::items::execute_marks(values, tree, n).len() > 0 ==> exists|v: int| 0 <= v < n
            && (#[trigger] values[v]).name@ == "execute"@ && crate::value::spec_integer(values[v].value) == Some(1i32),
    decreases n,
{
    if n > 0 {
        lemma_execute_marks(values, tree, (n - 1) as nat);
        let prev = crate::items::execute_marks(values, tree, (n - 1) as nat);
        let cur = crate::items::execute_marks(values, tree, n);
        assert forall|i: int| 0 <= i < cur.len() implies #[trigger] cur[i] == tree by {
            if i < prev.len() {
                assert(cur[i] == prev[i]);
            }
        }
    }
}

proof fn lemma_startup_trees(b: crate::behavior::GameBehaviorData, n: nat)
    requires
        n <= b.nodes@.len(),
    ensures
        forall|i: int| 0 <= i < crate::items::startup_trees(b, n).len() ==> exists|k: int|
            0 <= k < n && #[trigger] crate::items::startup_trees(b, n)[i] == (b.id, b.nodes@[k].id)
            && runs_at_startup(b.nodes@[k]),
    decreases n,
{
    if n > 0 {
        lemma_startup_trees(b, (n - 1) as nat);
        let node = b.nodes@[n - 1];
        let prev = crate::items::startup_trees(b, (n - 1) as nat);
        let cur = crate::items::startup_trees(b, n);
        lemma_execute_marks(node.values@, (b.id, node.id), node.values@.len());
        assert forall|i: int| 0 <= i < cur.len() implies exists|k: int|
            0 <= k < n && #[trigger] cur[i] == (b.id, b.nodes@[k].id) && runs_at_startup(b.nodes@[k]) by {
            if i < prev.len() {
                assert(cur[i] == prev[i]);
                let k = choose|k: int| 0 <= k < n - 1 && #[trigger] prev[i] == (b.id, b.nodes@[k].id)
                    && runs_at_startup(b.nodes@[k]);
                assert(cur[i] == (b.id, b.nodes@[k].id));
            } else {
                let marks = crate::items::execute_marks(node.values@, (b.id, node.id), node.values@.len());
                assert(node.behavior_type == crate::behavior::BehaviorNodeType::BehaviorTree);
                assert(cur[i] == marks[i - prev.len()]);
                let v = choose|v: int| 0 <= v < node.values@.len()
                    && (#[trigger] node.values@[v]).name@ == "execute"@ && crate::value::spec_integer(node.values@[v].value) == Some(1i32);
                assert(runs_at_startup(b.nodes@[n - 1]));
            }
        }
    }
}

proof fn lemma_named_trees(b: crate::behavior::GameBehaviorData, name: Option<Seq<char>>, n: nat)
    requires
        n <= b.nodes@.len(),
    ensures
        forall|i: int| 0 <= i < crate::items::named_trees(b, name, n).len() ==> exists|k: int|
            0 <= k < n && #[trigger] crate::items::named_trees(b, name, n)[i] == (b.id, b.nodes@[k].id)
            && name == Some(b.nodes@[k].name@),
    decreases n,
{
    if n > 0 {
        lemma_named_trees(b, name, (n - 1) as nat);
        let prev = crate::items::named_trees(b, name, (n - 1) as nat);
        let cur = crate::items::named_trees(b, name, n);
        assert forall|i: int| 0 <= i < cur.len() implies exists|k: int|
            0 <= k < n && #[trigger] cur[i] == (b.id, b.nodes@[k].id) && name == Some(b.nodes@[k].name@) by {
            if i < prev.len() {
                assert(cur[i] == prev[i]);
                let k = choose|k: int| 0 <= k < n - 1 && #[trigger] prev[i] == (b.id, b.nodes@[k].id)
                    && name == Some(b.nodes@[k].name@);
                assert(cur[i] == (b.id, b.nodes@[k].id));
            } else {
                assert(cur[i] == (b.id, b.nodes@[n - 1].id));
            }
        }
    }
}

/// An item gets a state only where its settings turn `state` on; the trees that then
/// create it are trees of the item that run at startup, or nodes named by the item's
/// startup entry.
pub proof fn law_item_state_trees(
    items: Seq<crate::behavior::GameBehaviorData>,
    id: u128,
    state_setting: Option<bool>,
    execute_on_startup: Option<Seq<char>>,
)
    ensures
        state_setting != Some(true) ==> crate::items::state_trees(items, id, state_setting, execute_on_startup).len() == 0,
        crate::behavior::find_behavior(items, id) is None
            ==> crate::items::state_trees(items, id, state_setting, execute_on_startup).len() == 0,
        crate::behavior::find_behavior(items, id) matches Some(b) ==> forall|i: int|
            0 <= i < crate::items::state_trees(items, id, state_setting, execute_on_startup).len() ==> exists|k: int|
                0 <= k < b.nodes@.len()
                && #[trigger] crate::items::state_trees(items, id, state_setting, execute_on_startup)[i] == (b.id, b.nodes@[k].id)
                && (runs_at_startup(b.nodes@[k]) || execute_on_startup == Some(b.nodes@[k].name@)),
{
    match crate::behavior::find_behavior(items, id) {
        Some(b) => {
            if state_setting == Some(true) {
                lemma_startup_trees(b, b.nodes@.len());
                lemma_named_trees(b, execute_on_startup, b.nodes@.len());
                let st = crate::items::startup_trees(b, b.nodes@.len());
                let nt = crate::items::named_trees(b, execute_on_startup, b.nodes@.len());
                let all = crate::items::state_trees(items, id, state_setting, execute_on_startup);
                assert(all == st + nt);
                assert forall|i: int| 0 <= i < all.len() implies exists|k: int|
                    0 <= k < b.nodes@.len() && #[trigger] all[i] == (b.id, b.nodes@[k].id)
                    && (runs_at_startup(b.nodes@[k]) || execute_on_startup == Some(b.nodes@[k].name@)) by {
                    if i < st.len() {
                        assert(all[i] == st[i]);
                        let k = choose|k: int| 0 <= k < b.nodes@.len() && #[trigger] st[i] == (b.id, b.nodes@[k].id)
                            && runs_at_startup(b.nodes@[k]);
                    } else {
                        assert(all[i] == nt[i - st.len()]);
                        let k = choose|k: int| 0 <= k < b.nodes@.len() && #[trigger] nt[i - st.len()] == (b.id, b.nodes@[k].id)
                            && execute_on_startup == Some(b.nodes@[k].name@);
                    }
                }
            }
        },
        None => {},
    }
}

} // verus!

verus! {

// ---------------------------------------------------------------------------
// Which cells a character can enter

/// A cell can be entered exactly when it has tiles, none of them is water or a blocking
/// tile, no counted character stands on it and no item lying there blocks; floor, road
/// and all other tiles let a character pass.
pub proof fn law_open_cells(
    data: RegionData,
    occupied: spec_fn((isize, isize)) -> bool,
    c: (isize, isize),
)
    ensures
        cell_open(data, occupied, c) <==> ({
            let tiles = tiles_at(data.region_data, data.displacements@, c.0 as int, c.1 as int);
            &&& tiles.len() > 0
            &&& forall|i: int| 0 <= i < tiles.len() ==> #[trigger] tiles[i].usage != crate::types::TileUsage::Water
                && tiles[i].usage != crate::types::TileUsage::EnvBlocking
            &&& !occupied(c)
            &&& match crate::pathing::loot_at(data.loot@, c.0 as int, c.1 as int) {
                Some(items) => forall|k: int| 0 <= k < items.len()
                    ==> !(items[k].state_blocking && (items[k].state matches Some(s) && s.state)),
                None => true,
            }
        }),
{
    let tiles = tiles_at(data.region_data, data.displacements@, c.0 as int, c.1 as int);
    if cell_open(data, occupied, c) {
        assert forall|i: int| 0 <= i < tiles.len() implies #[trigger] tiles[i].usage != crate::types::TileUsage::Water
            && tiles[i].usage != crate::types::TileUsage::EnvBlocking by {
            assert(!crate::pathing::blocks_movement(tiles[i].usage));
        }
        match crate::pathing::loot_at(data.loot@, c.0 as int, c.1 as int) {
            Some(items) => {
                assert forall|k: int| 0 <= k < items.len()
                    implies !(items[k].state_blocking && (items[k].state matches Some(s) && s.state)) by {
                    assert(!crate::pathing::item_blocks(items[k]));
                }
            },
            None => {},
        }
    }
}

/// A character whose every neighbouring cell is empty of tiles or holds water or a
/// blocking tile cannot take a step towards a destination elsewhere: the walk fails and
/// nothing changes.
pub proof fn law_walled_in_character_stays(
    old: RegionData,
    new: RegionData,
    p: Position,
    d: Position,
    exclude_dp: bool,
    r: BehaviorNodeConnector,
)
    requires
        (p.x, p.y) != (d.x, d.y),
        forall|c: (isize, isize)| #[trigger] neighbours((p.x, p.y), c) ==> ({
            let tiles = tiles_at(old.region_data, old.displacements@, c.0 as int, c.1 as int);
            tiles.len() == 0 || exists|i: int| 0 <= i < tiles.len()
                && (tiles[i].usage == crate::types::TileUsage::Water || tiles[i].usage == crate::types::TileUsage::EnvBlocking)
        }),
        walk_outcome(old, new, Some(p), Some(d), exclude_dp, r),
    ensures
        r == BehaviorNodeConnector::Fail,
        new == old,
{
    let occ = occupied_by_characters(old, p, Some(d), exclude_dp);
    let start = (p.x, p.y);
    let goal = (d.x, d.y);
    assert forall|q: Seq<(isize, isize)>| !is_walk(old, occ, q, start, goal) by {
        if is_walk(old, occ, q, start, goal) {
            assert(q.len() >= 2);
            assert(walk_step(old, occ, q[0], q[1]));
            let c = q[1];
            assert(neighbours(start, c));
            let tiles = tiles_at(old.region_data, old.displacements@, c.0 as int, c.1 as int);
            if tiles.len() > 0 {
                let i = choose|i: int| 0 <= i < tiles.len()
                    && (tiles[i].usage == crate::types::TileUsage::Water || tiles[i].usage == crate::types::TileUsage::EnvBlocking);
                law_water_and_walls_block(old, occ, c, i);
            }
        }
    }
}

// ---------------------------------------------------------------------------
// Conversations that run out

/// Of the conversations of a character, the one that ends at a date (on a real clock) is
/// the first whose end lies fewer minutes from the start of day zero than the date; where
/// no end lies earlier, none ends.
pub proof fn law_first_finished_conversation_ends(comms: Seq<PlayerCommunication>, now: crate::types::Date)
    requires
        now.hours < 24 && now.minutes < 60,
        forall|k: int| 0 <= k < comms.len() ==> (#[trigger] comms[k]).end_time.hours < 24 && comms[k].end_time.minutes < 60,
    ensures
        match first_index(comms, crate::ticking::ran_out(now), 0) {
            Some(c) => {
                &&& 0 <= c < comms.len()
                &&& minutes_of(comms[c].end_time) < minutes_of(now)
                &&& forall|m: int| 0 <= m < c ==> minutes_of(#[trigger] comms[m].end_time) >= minutes_of(now)
            },
            None => forall|m: int| 0 <= m < comms.len() ==> minutes_of(#[trigger] comms[m].end_time) >= minutes_of(now),
        },
{
    let p = crate::ticking::ran_out(now);
    lemma_first_index_exact(comms, p, 0);
    assert forall|m: int| 0 <= m < comms.len() implies
        (p(#[trigger] comms[m], m) <==> minutes_of(comms[m].end_time) < minutes_of(now)) by {
        law_dates_order_by_minutes(comms[m].end_time, now);
    }
}

// ---------------------------------------------------------------------------
// Instances of a behavior, continued

proof fn lemma_in_region_only(
    cands: Seq<(Position, Option<crate::types::TileId>, Option<Seq<char>>, i32)>,
    region: u128,
    n: nat,
)
    requires
        n <= cands.len(),
    ensures
        forall|j: int| 0 <= j < crate::creation::in_region(cands, region, n).len()
            ==> (#[trigger] crate::creation::in_region(cands, region, n)[j]).0.region == region,
    decreases n,
{
    if n > 0 {
        lemma_in_region_only(cands, region, (n - 1) as nat);
        let prev = crate::creation::in_region(cands, region, (n - 1) as nat);
        let cur = crate::creation::in_region(cands, region, n);
        assert forall|j: int| 0 <= j < cur.len() implies (#[trigger] cur[j]).0.region == region by {
            if j < prev.len() {
                assert(cur[j] == prev[j]);
            }
        }
    }
}

/// Every instance a behavior creates in a region stands in that region.
pub proof fn law_instances_stand_in_their_region(
    b: crate::behavior::GameBehaviorData,
    d: crate::creation::DefaultsView,
    npc_only: bool,
    data: Option<(Position, Option<crate::types::TileId>, Option<Seq<char>>, i32)>,
    region: u128,
)
    ensures
        forall|j: int| 0 <= j < crate::creation::planned_instances(b, d, npc_only, data, region).len()
            ==> (#[trigger] crate::creation::planned_instances(b, d, npc_only, data, region)[j]).0.region == region,
{
    if !(npc_only && b.name@ == "Player"@) {
        let main = if d.position is Some && d.tile is Some && data is None {
            seq![(d.position.unwrap(), d.tile, Some(b.name@), d.alignment)]
        } else {
            Seq::empty()
        };
        let rest = match data {
            None => match b.instances {
                Some(list) => crate::creation::listed(list@, b.name@, d.tile, list@.len()),
                None => Seq::empty(),
            },
            Some(c) => seq![c],
        };
        let cands = main + rest;
        lemma_in_region_only(cands, region, cands.len());
    }
}

/// Every listed instance of a behavior that stands in the region is created under its own
/// name where it has one, and under the behavior's name where it has none.
pub proof fn law_listed_instances_keep_their_name(
    b: crate::behavior::GameBehaviorData,
    d: crate::creation::DefaultsView,
    region: u128,
    k: int,
)
    requires
        b.instances is Some,
        0 <= k < b.instances->0@.len(),
        b.instances->0@[k].position.region == region,
    ensures
        exists|j: int|
            0 <= j < crate::creation::planned_instances(b, d, false, None, region).len()
            && (#[trigger] crate::creation::planned_instances(b, d, false, None, region)[j]).0 == b.instances->0@[k].position
            && crate::creation::planned_instances(b, d, false, None, region)[j].2
                == (match b.instances->0@[k].name { Some(n) => Some(n@), None => Some(b.name@) }),
{
    let list = b.instances->0@;
    let main = if d.position is Some && d.tile is Some {
        seq![(d.position.unwrap(), d.tile, Some(b.name@), d.alignment)]
    } else {
        Seq::empty()
    };
    let rest = crate::creation::listed(list, b.name@, d.tile, list.len());
    lemma_listed_at(list, b.name@, d.tile, list.len(), k);
    let cands = main + rest;
    let at = main.len() + k;
    assert(cands[at] == rest[k]);
    lemma_in_region_keeps(cands, region, cands.len(), at);
    let planned = crate::creation::planned_instances(b, d, false, None, region);
    assert(planned == crate::creation::in_region(cands, region, cands.len()));
    let j = choose|j: int| 0 <= j < planned.len() && #[trigger] planned[j] == cands[at];
    assert(planned[j].0 == b.instances->0@[k].position);
}

} // verus!

verus! {

// ---------------------------------------------------------------------------
// Routing of packed actions, continued

/// A player in a region has its packed action sent to that region where it reads as a
/// player action, and ignored where it does not; the lobby never sees it.
pub proof fn law_region_players_actions(
    regions: Map<u128, u128>,
    allow_local_users: bool,
    player: u128,
    is_player_action: bool,
    a: Option<LobbyAction>,
)
    requires
        regions.contains_key(player),
    ensures
        is_player_action ==> packed_route(regions, allow_local_users, player, is_player_action, a)
            == PackedRoute::ToRegion(regions[player]),
        !is_player_action ==> packed_route(regions, allow_local_users, player, is_player_action, a)
            == PackedRoute::Ignore,
{
}

// ---------------------------------------------------------------------------
// Editor server controls, continued

/// The Play, Pause and Stop icons are shown anew exactly on Play, on Stop, on a loaded
/// project and on pausing a running server; Play and Stop leave the state to the server,
/// and only pausing a running server or loading a project sets it.
pub proof fn law_server_icons(s: crate::editor::ServerState, e: crate::editor::ServerEvent)
    ensures
        crate::editor::server_step_of(s, e).2 <==> (
            e == crate::editor::ServerEvent::Play
            || e == crate::editor::ServerEvent::Stop
            || e == crate::editor::ServerEvent::ProjectLoaded
            || (e == crate::editor::ServerEvent::Pause && s == crate::editor::ServerState::Running)),
        (crate::editor::server_step_of(s, e).0 is Some) <==> (
            e == crate::editor::ServerEvent::ProjectLoaded
            || (e == crate::editor::ServerEvent::Pause && s == crate::editor::ServerState::Running)),
        e == crate::editor::ServerEvent::Pause && s == crate::editor::ServerState::Stopped
            ==> crate::editor::server_step_of(s, e).1 == crate::editor::ServerAction::Idle,
        e == crate::editor::ServerEvent::Pause && s == crate::editor::ServerState::Running
            ==> crate::editor::server_step_of(s, e).1 == crate::editor::ServerAction::Paused,
        e == crate::editor::ServerEvent::ProjectLoaded
            ==> crate::editor::server_step_of(s, e).1 == crate::editor::ServerAction::Idle,
{
}

} // verus!
