use vstd::prelude::*;
use crate::behavior::{BehaviorType, BehaviorNodeType, BehaviorNodeConnector};

verus! {

/// How the execution of a node of a behavior graph goes on.
pub struct NodePlan {
    /// Whether the node's call runs.
    pub run_call: bool,
    /// Whether execution goes on through the connector the call answers (`Bottom` where
    /// the node kind has no call), rather than through `connectors`.
    pub follow_call: bool,
    /// The connectors execution goes on through, in order.
    pub connectors: Vec<BehaviorNodeConnector>,
    /// Whether the following nodes form a sequence, which stops at the first failing one.
    pub sequence: bool,
}

/// The branch connectors of trees, linears and sequences, in the order they run.
pub open spec fn all_branches() -> Seq<BehaviorNodeConnector> {
    seq![
        BehaviorNodeConnector::Bottom1,
        BehaviorNodeConnector::Bottom2,
        BehaviorNodeConnector::Bottom,
        BehaviorNodeConnector::Bottom3,
        BehaviorNodeConnector::Bottom4,
    ]
}

/// The branch connectors trees and linears of systems, items and spells run.
pub open spec fn three_branches() -> Seq<BehaviorNodeConnector> {
    seq![BehaviorNodeConnector::Bottom1, BehaviorNodeConnector::Bottom2, BehaviorNodeConnector::Bottom]
}

/// How a node of the kind goes on in a graph of the given type: trees and linears run
/// their branches (three of them in systems, items and spells), sequences run all five
/// as a sequence, a game screen runs its call and its branches; region graphs and all
/// other nodes run their call and go on through the connector it answers.
pub open spec fn plan_of(graph: BehaviorType, t: BehaviorNodeType) -> (bool, bool, Seq<BehaviorNodeConnector>, bool) {
    if graph == BehaviorType::Regions {
        (true, true, Seq::empty(), false)
    } else if t == BehaviorNodeType::BehaviorTree || t == BehaviorNodeType::Linear {
        if graph == BehaviorType::Systems || graph == BehaviorType::Items || graph == BehaviorType::Spells {
            (false, false, three_branches(), false)
        } else {
            (false, false, all_branches(), false)
        }
    } else if t == BehaviorNodeType::Sequence {
        (false, false, all_branches(), true)
    } else if t == BehaviorNodeType::Screen && graph == BehaviorType::GameLogic {
        (true, false, all_branches(), false)
    } else {
        (true, true, Seq::empty(), false)
    }
}

fn branches(all: bool) -> (v: Vec<BehaviorNodeConnector>)
    ensures
        v@ == if all { all_branches() } else { three_branches() },
{
    let mut v: Vec<BehaviorNodeConnector> = Vec::new();
    v.push(BehaviorNodeConnector::Bottom1);
    v.push(BehaviorNodeConnector::Bottom2);
    v.push(BehaviorNodeConnector::Bottom);
    if all {
        v.push(BehaviorNodeConnector::Bottom3);
        v.push(BehaviorNodeConnector::Bottom4);
        assert(v@ =~= all_branches());
    } else {
        assert(v@ =~= three_branches());
    }
    v
}

/// Decides how a node of the kind goes on in a graph of the given type.
pub fn node_plan(graph: BehaviorType, t: BehaviorNodeType) -> (p: NodePlan)
    ensures
        (p.run_call, p.follow_call, p.connectors@, p.sequence) == plan_of(graph, t),
{
    if graph == BehaviorType::Regions {
        NodePlan { run_call: true, follow_call: true, connectors: Vec::new(), sequence: false }
    } else if t == BehaviorNodeType::BehaviorTree || t == BehaviorNodeType::Linear {
        let all = !(graph == BehaviorType::Systems || graph == BehaviorType::Items || graph == BehaviorType::Spells);
        NodePlan { run_call: false, follow_call: false, connectors: branches(all), sequence: false }
    } else if t == BehaviorNodeType::Sequence {
        NodePlan { run_call: false, follow_call: false, connectors: branches(true), sequence: true }
    } else if t == BehaviorNodeType::Screen && graph == BehaviorType::GameLogic {
        NodePlan { run_call: true, follow_call: false, connectors: branches(true), sequence: false }
    } else {
        NodePlan { run_call: true, follow_call: true, connectors: Vec::new(), sequence: false }
    }
}

/// The connections from the node through the first k connectors: for each connector in
/// order, the connections leaving the node through it in the order they are stored, as
/// (next node, connector).
pub open spec fn continuations(
    conns: Seq<(u128, BehaviorNodeConnector, u128, BehaviorNodeConnector)>,
    node: u128,
    connectors: Seq<BehaviorNodeConnector>,
    k: nat,
) -> Seq<(u128, BehaviorNodeConnector)>
    decreases k,
{
    if k == 0 {
        Seq::empty()
    } else {
        continuations(conns, node, connectors, (k - 1) as nat) + leaving(conns, node, connectors[k - 1], conns.len())
    }
}

/// The first n connections leaving the node through the connector.
pub open spec fn leaving(
    conns: Seq<(u128, BehaviorNodeConnector, u128, BehaviorNodeConnector)>,
    node: u128,
    connector: BehaviorNodeConnector,
    n: nat,
) -> Seq<(u128, BehaviorNodeConnector)>
    decreases n,
{
    if n == 0 {
        Seq::empty()
    } else {
        let c = conns[n - 1];
        leaving(conns, node, connector, (n - 1) as nat) + if c.0 == node && c.1 == connector {
            seq![(c.2, c.1)]
        } else {
            Seq::empty()
        }
    }
}

/// Finds the nodes execution goes on to from the node through the connectors, with the
/// connector each is reached through (the connections that run).
pub fn connected_nodes(
    conns: &Vec<(u128, BehaviorNodeConnector, u128, BehaviorNodeConnector)>,
    node: u128,
    connectors: &Vec<BehaviorNodeConnector>,
) -> (r: Vec<(u128, BehaviorNodeConnector)>)
    ensures
        r@ == continuations(conns@, node, connectors@, connectors@.len()),
{
    let mut r: Vec<(u128, BehaviorNodeConnector)> = Vec::new();
    let mut k: usize = 0;
    while k < connectors.len()
        invariant
            k <= connectors.len(),
            r@ == continuations(conns@, node, connectors@, k as nat),
        decreases connectors.len() - k,
    {
        let connector = connectors[k];
        let ghost start = r@;
        let mut i: usize = 0;
        assert(r@ =~= start + leaving(conns@, node, connector, 0));
        while i < conns.len()
            invariant
                i <= conns.len(),
                r@ == start + leaving(conns@, node, connector, i as nat),
            decreases conns.len() - i,
        {
            let c = conns[i];
            if c.0 == node && c.1 == connector {
                r.push((c.2, c.1));
            }
            i = i + 1;
            assert(r@ =~= start + leaving(conns@, node, connector, i as nat));
        }
        k = k + 1;
        assert(r@ =~= continuations(conns@, node, connectors@, k as nat));
    }
    r
}

/// Whether a sequence goes on after a node that answered the connector: it stops at
/// `Fail` and at `Right`.
pub fn sequence_goes_on(answer: BehaviorNodeConnector) -> (r: bool)
    ensures
        r == !(answer == BehaviorNodeConnector::Fail || answer == BehaviorNodeConnector::Right),
{
    !(answer == BehaviorNodeConnector::Fail || answer == BehaviorNodeConnector::Right)
}

} // verus!
