use vstd::prelude::*;
use crate::targeted::first_index;

verus! {

/// How many regions one thread's pool runs at most.
pub const MAX_REGIONS_PER_POOL: usize = 100;

/// The closed pools and the pool being filled after the first n regions: a region joins
/// the current pool while it has room; when it is full, the pool is closed and the
/// region begins a new one.
pub open spec fn pools_after(ids: Seq<u128>, max_per_pool: nat, n: nat) -> (Seq<Seq<u128>>, Seq<u128>)
    decreases n,
{
    if n == 0 {
        (Seq::empty(), Seq::empty())
    } else {
        let (closed, current) = pools_after(ids, max_per_pool, (n - 1) as nat);
        if current.len() < max_per_pool {
            (closed, current.push(ids[n - 1]))
        } else {
            (closed.push(current), seq![ids[n - 1]])
        }
    }
}

/// The regions of the pools, pool after pool.
pub open spec fn joined(pools: Seq<Seq<u128>>) -> Seq<u128>
    decreases pools.len(),
{
    if pools.len() == 0 {
        Seq::empty()
    } else {
        joined(pools.drop_last()) + pools.last()
    }
}

proof fn lemma_joined_push(pools: Seq<Seq<u128>>, p: Seq<u128>)
    ensures
        joined(pools.push(p)) == joined(pools) + p,
{
    assert(pools.push(p).drop_last() =~= pools);
}

/// After the first n regions, the closed pools and the current one hold exactly those
/// regions in order; the closed pools are full and the current one is not empty once a
/// region was met.
pub proof fn lemma_pools_after(ids: Seq<u128>, max_per_pool: nat, n: nat)
    requires
        max_per_pool > 0,
        n <= ids.len(),
    ensures
        joined(pools_after(ids, max_per_pool, n).0) + pools_after(ids, max_per_pool, n).1 == ids.take(n as int),
        pools_after(ids, max_per_pool, n).1.len() <= max_per_pool,
        n > 0 ==> pools_after(ids, max_per_pool, n).1.len() > 0,
        forall|k: int| 0 <= k < pools_after(ids, max_per_pool, n).0.len()
            ==> #[trigger] pools_after(ids, max_per_pool, n).0[k].len() == max_per_pool,
    decreases n,
{
    if n > 0 {
        lemma_pools_after(ids, max_per_pool, (n - 1) as nat);
        let (closed, current) = pools_after(ids, max_per_pool, (n - 1) as nat);
        assert(ids.take(n as int) =~= ids.take(n - 1).push(ids[n - 1]));
        if current.len() < max_per_pool {
            assert(joined(closed) + current.push(ids[n - 1]) =~= (joined(closed) + current).push(ids[n - 1]));
        } else {
            lemma_joined_push(closed, current);
            assert(joined(closed) + current + seq![ids[n - 1]] =~= (joined(closed) + current).push(ids[n - 1]));
            let c2 = closed.push(current);
            assert forall|k: int| 0 <= k < c2.len() implies #[trigger] c2[k].len() == max_per_pool by {
                if k < closed.len() {
                    assert(c2[k] == closed[k]);
                }
            }
        }
    }
}

/// The pools for the regions: the closed ones, then the last one unless it is empty.
pub open spec fn region_pools(ids: Seq<u128>, max_per_pool: nat) -> Seq<Seq<u128>> {
    let (closed, current) = pools_after(ids, max_per_pool, ids.len());
    if current.len() > 0 { closed.push(current) } else { closed }
}

/// The pools, one after the other, hold the regions in their order.
pub proof fn lemma_region_pools_join(ids: Seq<u128>, max_per_pool: nat)
    requires
        max_per_pool > 0,
    ensures
        joined(region_pools(ids, max_per_pool)) == ids,
        forall|k: int| 0 <= k < region_pools(ids, max_per_pool).len()
            ==> 0 < #[trigger] region_pools(ids, max_per_pool)[k].len() <= max_per_pool,
{
    lemma_pools_after(ids, max_per_pool, ids.len());
    let (c, cur) = pools_after(ids, max_per_pool, ids.len());
    assert(ids.take(ids.len() as int) =~= ids);
    if cur.len() > 0 {
        lemma_joined_push(c, cur);
        let ps = c.push(cur);
        assert forall|k: int| 0 <= k < ps.len() implies 0 < #[trigger] ps[k].len() <= max_per_pool by {
            if k < c.len() {
                assert(ps[k] == c[k]);
            }
        }
    } else {
        assert(joined(c) + cur =~= joined(c));
    }
}

/// Distributes the regions over pools of at most `max_per_pool` regions, in order, as
/// the threaded server start does; see [`region_pools`]. Every region is in exactly
/// one pool: the pools, one after the other, hold the regions in their order, and no
/// pool is empty.
pub fn partition_regions(ids: &Vec<u128>, max_per_pool: usize) -> (r: Vec<Vec<u128>>)
    requires
        max_per_pool > 0,
    ensures
        r@.map_values(|p: Vec<u128>| p@) == region_pools(ids@, max_per_pool as nat),
        joined(r@.map_values(|p: Vec<u128>| p@)) == ids@,
        forall|k: int| 0 <= k < r@.len() ==> 0 < #[trigger] r@[k]@.len() <= max_per_pool,
{
    proof {
        lemma_region_pools_join(ids@, max_per_pool as nat);
    }
    let mut closed: Vec<Vec<u128>> = Vec::new();
    let mut current: Vec<u128> = Vec::new();
    let mut i: usize = 0;
    assert(closed@.map_values(|p: Vec<u128>| p@) =~= Seq::<Seq<u128>>::empty());
    while i < ids.len()
        invariant
            i <= ids.len(),
            (closed@.map_values(|p: Vec<u128>| p@), current@) == pools_after(ids@, max_per_pool as nat, i as nat),
            current@.len() <= max_per_pool,
            max_per_pool > 0,
            forall|k: int| 0 <= k < closed@.len() ==> 0 < #[trigger] closed@[k]@.len() <= max_per_pool,
        decreases ids.len() - i,
    {
        if current.len() < max_per_pool {
            current.push(ids[i]);
        } else {
            let full = current;
            let ghost before = closed@;
            closed.push(full);
            assert(closed@.map_values(|p: Vec<u128>| p@) =~= before.map_values(|p: Vec<u128>| p@).push(full@));
            current = Vec::new();
            current.push(ids[i]);
            assert(current@ =~= seq![ids@[i as int]]);
        }
        i = i + 1;
    }
    if current.len() > 0 {
        let ghost before = closed@;
        closed.push(current);
        assert(closed@.map_values(|p: Vec<u128>| p@) =~= before.map_values(|p: Vec<u128>| p@).push(current@));
    }
    closed
}

/// Whether a pool runs the region.
pub open spec fn runs_region(region: u128) -> spec_fn(Seq<u128>, int) -> bool {
    |p: Seq<u128>, k: int| p.contains(region)
}

/// Finds the first pool that runs the region, where messages to it are sent.
pub fn pool_of_region(pools: &Vec<Vec<u128>>, region: u128) -> (r: Option<usize>)
    ensures
        r == (match first_index(pools@.map_values(|p: Vec<u128>| p@), runs_region(region), 0) {
            Some(k) => Some(k as usize),
            None => None,
        }),
{
    let ghost views = pools@.map_values(|p: Vec<u128>| p@);
    let ghost pr = runs_region(region);
    let mut i: usize = 0;
    while i < pools.len()
        invariant
            i <= pools.len(),
            views == pools@.map_values(|p: Vec<u128>| p@),
            pr == runs_region(region),
            first_index(views, pr, 0) == first_index(views, pr, i as nat),
        decreases pools.len() - i,
    {
        let pool = &pools[i];
        let mut j: usize = 0;
        let mut found = false;
        while j < pool.len()
            invariant
                j <= pool.len(),
                found <==> exists|k: int| 0 <= k < j && pool@[k] == region,
            decreases pool.len() - j,
        {
            if pool[j] == region {
                found = true;
            }
            j = j + 1;
        }
        assert(views[i as int] == pool@);
        if found {
            assert(pr(views[i as int], i as int));
            return Some(i);
        }
        assert(!pr(views[i as int], i as int));
        i = i + 1;
    }
    None
}

} // verus!
