//! Load balancing decisions: which nodes may serve a request, and which
//! of them round robin or least connections picks.
use vstd::prelude::*;
use crate::distributed::sharding::{ShardError, ShardManager};

verus! {

/// Load balancing algorithms
#[derive(Debug, Clone, Copy, PartialEq, Eq, Structural)]
pub enum LoadBalancingAlgorithm {
    /// Round-robin distribution
    RoundRobin,
    /// Weighted round-robin based on node capacity
    WeightedRoundRobin,
    /// Least connections algorithm
    LeastConnections,
    /// Resource-based balancing (CPU, memory, network)
    ResourceBased,
    /// Geographic load balancing
    Geographic,
}

#[derive(Debug, Clone, Copy, PartialEq, Eq, Structural)]
pub enum NodeHealthStatus {
    Healthy,
    Degraded,
    Unhealthy,
    Offline,
}

#[derive(Debug, Clone, Copy, PartialEq, Eq, Structural)]
pub enum ReadConsistency {
    Strong,
    Eventual,
    Quorum,
}

#[derive(Debug, Clone, Copy, PartialEq, Eq, Structural)]
pub enum ShardOperationType {
    Read,
    Write,
    Rebalance,
    Repair,
}

#[derive(Debug, Clone, Copy, PartialEq, Eq, Structural)]
pub enum VotePriority {
    Low,
    Normal,
    High,
    Critical,
}

/// Load balancing request types; a transaction's complexity is on a 1-10
/// scale.
#[derive(Debug, Clone)]
pub enum LoadBalancingRequest {
    Transaction { data: Vec<u8>, estimated_complexity: u8 },
    Query { key: Vec<u8>, read_consistency: ReadConsistency },
    ShardOperation { shard_id: u32, operation_type: ShardOperationType },
    ConsensusVote { block_height: u64, priority: VotePriority },
}

/// Errors of load balancing.
#[derive(Debug, Clone, Copy, PartialEq, Eq, Structural)]
pub enum LoadBalancerError {
    /// The shard a query routes to could not be determined.
    Shard(ShardError),
    /// The shard a query routes to does not exist.
    ShardNotFound,
    /// No node can serve the request.
    NoAvailableNodes,
    /// No candidate has connection metrics.
    NoConnectionMetrics,
}

/// The views of a list of node names.
pub open spec fn name_views(v: Seq<String>) -> Seq<Seq<char>> {
    v.map_values(|s: String| s@)
}

/// The nodes that may serve a request: any healthy node for transactions
/// and votes; the owner of the key's shard for queries; the owner and then
/// the replicas of a shard for shard operations.
pub fn get_candidate_nodes(
    shard_manager: &ShardManager,
    request: &LoadBalancingRequest,
    healthy_nodes: Vec<String>,
) -> (r: Result<Vec<String>, LoadBalancerError>)
    requires
        shard_manager.wf(),
        request is Query ==> shard_manager.spec_config().num_shards > 0,
    ensures
        match request {
            LoadBalancingRequest::Transaction { .. } | LoadBalancingRequest::ConsensusVote { .. } => r matches Ok(v)
                && name_views(v@) == name_views(healthy_nodes@),
            LoadBalancingRequest::Query { key, .. } => exists|h: u64, sr: Result<u32, ShardError>|
                #![trigger shard_manager.key_shard_is(key@, h, sr)]
                shard_manager.key_shard_is(key@, h, sr) && match sr {
                    Err(e) => r == Err::<Vec<String>, LoadBalancerError>(LoadBalancerError::Shard(e)),
                    Ok(id) => if id < shard_manager.spec_shards().len() {
                        r matches Ok(v) && name_views(v@) == seq![shard_manager.spec_shards()[id as int].1]
                    } else {
                        r == Err::<Vec<String>, LoadBalancerError>(LoadBalancerError::ShardNotFound)
                    },
                },
            LoadBalancingRequest::ShardOperation { shard_id, .. } => r matches Ok(v) && if *shard_id
                < shard_manager.spec_shards().len() {
                v@.len() >= 1 && v@[0]@ == shard_manager.spec_shards()[*shard_id as int].1 && v@.len() == 1
                    + if shard_manager.spec_config().replication_factor == 0 {
                    1
                } else {
                    shard_manager.spec_config().replication_factor as int
                }
            } else {
                v@.len() == 0
            },
        },
{
    match request {
        LoadBalancingRequest::Transaction { .. } => Ok(healthy_nodes),
        LoadBalancingRequest::ConsensusVote { .. } => Ok(healthy_nodes),
        LoadBalancingRequest::Query { key, .. } => {
            let sr = shard_manager.get_shard_for_key(key.as_slice());
            match sr {
                Err(e) => Err(LoadBalancerError::Shard(e)),
                Ok(id) => match shard_manager.get_shard_info(id) {
                    Some(shard) => {
                        let mut v: Vec<String> = Vec::new();
                        v.push(shard.node_id.clone());
                        proof {
                            assert(name_views(v@) =~= seq![shard_manager.spec_shards()[id as int].1]);
                        }
                        Ok(v)
                    },
                    None => Err(LoadBalancerError::ShardNotFound),
                },
            }
        },
        LoadBalancingRequest::ShardOperation { shard_id, .. } => {
            let mut nodes: Vec<String> = Vec::new();
            match shard_manager.get_shard_info(*shard_id) {
                Some(shard) => nodes.push(shard.node_id.clone()),
                None => {},
            }
            let mut replicas = shard_manager.get_replica_nodes(*shard_id);
            nodes.append(&mut replicas);
            Ok(nodes)
        },
    }
}

/// The position round robin picks: the counter modulo the candidates.
pub fn round_robin_index(counter: usize, candidates: usize) -> (r: usize)
    requires
        candidates > 0,
    ensures
        r == counter % candidates,
        r < candidates,
{
    counter % candidates
}

/// The first `n` items of a sequence, or all of them where it is shorter.
pub open spec fn first_n<A>(s: Seq<A>, n: int) -> Seq<A> {
    if s.len() <= n {
        s
    } else {
        s.take(n)
    }
}

/// A sequence without the item at position `t`, where there is one.
pub open spec fn without_index<A>(s: Seq<A>, t: int) -> Seq<A> {
    if 0 <= t < s.len() {
        s.remove(t)
    } else {
        s
    }
}

/// Up to two candidates other than the one at position `target`, in order.
pub fn alternatives_by_index(candidates: &Vec<String>, target: usize) -> (r: Vec<String>)
    ensures
        name_views(r@) == first_n(without_index(name_views(candidates@), target as int), 2),
{
    let ghost c = name_views(candidates@);
    let ghost w = without_index(c, target as int);
    let mut out: Vec<String> = Vec::new();
    let mut i: usize = 0;
    while i < candidates.len() && out.len() < 2
        invariant
            0 <= i <= candidates@.len(),
            c == name_views(candidates@),
            w == without_index(c, target as int),
            out@.len() == if target < i { i - 1 } else { i as int },
            out@.len() <= 2,
            name_views(out@) == w.take(out@.len() as int),
        decreases candidates@.len() - i,
    {
        let ghost before = out@;
        if i != target {
            proof {
                let k = before.len() as int;
                assert(c[i as int] == candidates@[i as int]@);
                assert(w[k] == c[i as int]);
            }
            out.push(candidates[i].clone());
            proof {
                assert(name_views(out@) =~= name_views(before).push(c[i as int]));
                assert(name_views(out@) =~= w.take(out@.len() as int));
            }
        }
        i = i + 1;
    }
    proof {
        if out@.len() < 2 {
            assert(w.len() == out@.len());
            assert(w.take(out@.len() as int) =~= w);
        }
    }
    out
}

/// Up to two candidates other than those named `target`, in order.
pub fn alternatives_by_name(candidates: &Vec<String>, target: &String) -> (r: Vec<String>)
    ensures
        name_views(r@) == first_n(name_views(candidates@).filter(|n: Seq<char>| n != target@), 2),
{
    let ghost c = name_views(candidates@);
    let ghost pred = |n: Seq<char>| n != target@;
    let mut out: Vec<String> = Vec::new();
    let mut i: usize = 0;
    while i < candidates.len() && out.len() < 2
        invariant
            0 <= i <= candidates@.len(),
            c == name_views(candidates@),
            forall|n: Seq<char>| #[trigger] pred(n) == (n != target@),
            out@.len() <= 2,
            name_views(out@) == first_n(c.take(i as int).filter(pred), 2),
        decreases candidates@.len() - i,
    {
        proof {
            reveal_with_fuel(Seq::filter, 1);
            assert(c.take(i + 1).drop_last() =~= c.take(i as int));
            assert(c[i as int] == candidates@[i as int]@);
        }
        let ghost before = out@;
        if candidates[i] != *target {
            out.push(candidates[i].clone());
            proof {
                assert(name_views(out@) =~= name_views(before).push(c[i as int]));
                assert(c.take(i + 1).filter(pred) =~= c.take(i as int).filter(pred).push(c[i as int]));
                assert(name_views(out@) =~= first_n(c.take(i + 1).filter(pred), 2));
            }
        } else {
            proof {
                assert(c.take(i + 1).filter(pred) =~= c.take(i as int).filter(pred));
            }
        }
        i = i + 1;
    }
    proof {
        if out@.len() < 2 {
            assert(c.take(i as int) =~= c);
        } else {
            lemma_filter_take_prefix(c, pred, i as int);
        }
    }
    out
}

/// The position of the first candidate with the fewest connections among
/// those whose connections are known.
pub open spec fn least_connections(conns: Seq<Option<usize>>) -> Option<int>
    decreases conns.len(),
{
    if conns.len() == 0 {
        None
    } else {
        let b = least_connections(conns.drop_last());
        let last = conns.len() - 1;
        match conns.last() {
            None => b,
            Some(c) => match b {
                None => Some(last),
                Some(j) => if c < conns[j]->0 {
                    Some(last)
                } else {
                    b
                },
            },
        }
    }
}

/// Least connections: the candidate with the fewest known active
/// connections, the first of them on ties; `connections[i]` is that of
/// candidate `i`, `None` where it has no metrics.
pub fn least_connections_index(connections: &Vec<Option<usize>>) -> (r: Result<usize, LoadBalancerError>)
    ensures
        match least_connections(connections@) {
            Some(j) => r == Ok::<usize, LoadBalancerError>(j as usize),
            None => r == Err::<usize, LoadBalancerError>(LoadBalancerError::NoConnectionMetrics),
        },
{
    let ghost c = connections@;
    let mut best: Option<usize> = None;
    let mut i: usize = 0;
    while i < connections.len()
        invariant
            0 <= i <= c.len(),
            c == connections@,
            match best {
                Some(j) => least_connections(c.take(i as int)) == Some(j as int) && j < i && c[j as int] is Some,
                None => least_connections(c.take(i as int)) is None,
            },
        decreases c.len() - i,
    {
        proof {
            assert(c.take(i + 1).drop_last() =~= c.take(i as int));
            assert(c.take(i + 1).last() == c[i as int]);
            if let Some(j) = best {
                assert(c.take(i + 1)[j as int] == c[j as int]);
            }
        }
        match connections[i] {
            None => {},
            Some(n) => match best {
                None => {
                    best = Some(i);
                },
                Some(j) => {
                    let current = connections[j];
                    match current {
                        Some(m) => {
                            if n < m {
                                best = Some(i);
                            }
                        },
                        None => {},
                    }
                },
            },
        }
        i = i + 1;
    }
    proof {
        assert(c.take(c.len() as int) =~= c);
    }
    match best {
        Some(j) => Ok(j),
        None => Err(LoadBalancerError::NoConnectionMetrics),
    }
}

/// Once two items pass the filter in a prefix, the first two of the whole
/// filtered sequence are those of the prefix.
proof fn lemma_filter_take_prefix(c: Seq<Seq<char>>, pred: spec_fn(Seq<char>) -> bool, i: int)
    requires
        0 <= i <= c.len(),
        c.take(i).filter(pred).len() >= 2,
    ensures
        first_n(c.filter(pred), 2) == first_n(c.take(i).filter(pred), 2),
    decreases c.len() - i,
{
    if i < c.len() {
        reveal_with_fuel(Seq::filter, 1);
        assert(c.take(i + 1).drop_last() =~= c.take(i));
        assert(first_n(c.take(i + 1).filter(pred), 2) =~= first_n(c.take(i).filter(pred), 2));
        lemma_filter_take_prefix(c, pred, i + 1);
    } else {
        assert(c.take(i) =~= c);
    }
}

} // verus!
