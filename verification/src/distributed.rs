//! The distributed host functions: what a guest can learn about the cluster
//! it runs in.

use crate::memory::{
    in_bounds, lemma_u64_round_trip, overlay, u64_from_le_bytes, u64_le_bytes, write_u64,
};
use crate::trap::Trap;
use vstd::prelude::*;

verus! {

/// The status that `get_nodes` reports when it has copied.
pub const NODES_COPIED: u32 = 2;

/// The most nodes a registry can hold: their number is reported as a `u32`.
pub const MAX_NODES: usize = 0xffff_ffff;

/// What a context can see of the cluster: the node it runs on and the nodes
/// that are known, in the registry's order.
pub struct Registry {
    pub self_id: u64,
    pub nodes: Seq<u64>,
}

/// `anyhow::Error`, with which a context reports that it has no distributed
/// state. Nothing is known of what it holds.
#[verifier::external_type_specification]
#[verifier::external_body]
pub struct ExAnyhowError(anyhow::Error);

/// `anyhow::Error::msg` on a fixed text: the error a context without
/// distributed state answers with.
#[verifier::external_body]
fn not_initialized() -> anyhow::Error {
    anyhow::Error::msg("Distributed is not initialized")
}

/// The handle on the node registry: the identifiers of the known nodes.
pub struct Client {
    nodes: Vec<u64>,
}

impl View for Client {
    type V = Seq<u64>;

    closed spec fn view(&self) -> Seq<u64> {
        self.nodes@
    }
}

impl Client {
    #[verifier::type_invariant]
    spec fn inv(self) -> bool {
        self.nodes@.len() <= MAX_NODES
    }

    /// A registry that knows `nodes`, in this order, or nothing if they are
    /// more than `MAX_NODES`.
    pub fn new(nodes: Vec<u64>) -> (client: Option<Client>)
        ensures
            match client {
                Some(c) => c@ == nodes@ && nodes@.len() <= MAX_NODES,
                None => nodes@.len() > MAX_NODES,
            },
    {
        if nodes.len() <= MAX_NODES {
            Some(Client { nodes })
        } else {
            None
        }
    }

    /// How many nodes are known.
    pub fn node_count(&self) -> (count: usize)
        ensures
            count == self@.len(),
            count <= MAX_NODES,
    {
        proof {
            use_type_invariant(self);
        }
        self.nodes.len()
    }

    /// The identifiers of the known nodes, in the registry's order.
    pub fn node_ids(&self) -> (ids: Vec<u64>)
        ensures
            ids@ == self@,
            ids@.len() <= MAX_NODES,
    {
        proof {
            use_type_invariant(self);
        }
        self.nodes.clone()
    }
}

/// The distributed state of one process: the node it runs on and its handle
/// on the registry.
pub struct DistributedProcessState {
    node_id: u64,
    pub control: Client,
}

impl View for DistributedProcessState {
    type V = Registry;

    closed spec fn view(&self) -> Registry {
        Registry { self_id: self.node_id, nodes: self.control@ }
    }
}

impl DistributedProcessState {
    /// The state of a process on node `node_id` that sees `control`.
    pub fn new(node_id: u64, control: Client) -> (state: Self)
        ensures
            state@ == (Registry { self_id: node_id, nodes: control@ }),
    {
        DistributedProcessState { node_id, control }
    }

    /// The node this process runs on.
    pub fn node_id(&self) -> (id: u64)
        ensures
            id == self@.self_id,
    {
        self.node_id
    }
}

/// What a host-call context must offer for the distributed host functions to
/// work on it. A context either reaches the distributed state of its process
/// or reports that distributed mode is not configured.
pub trait DistributedCtx {
    /// What the context sees of the cluster, if distributed mode is
    /// configured.
    spec fn registry(&self) -> Option<Registry>;

    /// The distributed state of the process, or an error if there is none.
    fn distributed(&self) -> (state: Result<&DistributedProcessState, anyhow::Error>)
        ensures
            match state {
                Ok(d) => self.registry() == Some(d@),
                Err(_) => self.registry() is None,
            },
    ;

    /// The distributed state of the process, for change, or an error if there
    /// is none.
    fn distributed_mut(&mut self) -> (state: Result<&mut DistributedProcessState, anyhow::Error>)
        ensures
            match state {
                Ok(d) => old(self).registry() == Some(d@) && final(self).registry() == Some(
                    final(d)@,
                ),
                Err(_) => old(self).registry() is None && final(self).registry() is None,
            },
    ;
}

/// The slot a process keeps its distributed state in: filled when distributed
/// mode is configured, empty when it is not.
impl DistributedCtx for Option<DistributedProcessState> {
    open spec fn registry(&self) -> Option<Registry> {
        match self {
            Some(d) => Some(d@),
            None => None,
        }
    }

    fn distributed(&self) -> (state: Result<&DistributedProcessState, anyhow::Error>) {
        match self {
            Some(d) => Ok(d),
            None => Err(not_initialized()),
        }
    }

    fn distributed_mut(&mut self) -> (state: Result<&mut DistributedProcessState, anyhow::Error>) {
        match self {
            Some(d) => Ok(d),
            None => Err(not_initialized()),
        }
    }
}

/// The nodes a guest can be told of: the registry's list, and none where
/// there is no registry.
pub open spec fn nodes_of(registry: Option<Registry>) -> Seq<u64> {
    match registry {
        Some(r) => r.nodes,
        None => Seq::empty(),
    }
}

/// The number of nodes a guest is told of: the length of the registry's list,
/// and 0 where there is no registry.
pub open spec fn nodes_count_of(registry: Option<Registry>) -> nat {
    nodes_of(registry).len()
}

/// The node a guest is told it runs on: the registry's own identifier, and 0
/// where there is no registry.
pub open spec fn node_id_of(registry: Option<Registry>) -> u64 {
    match registry {
        Some(r) => r.self_id,
        None => 0,
    }
}

/// The identifiers that a copy of `len` identifiers takes from `nodes`: the
/// first `len`, or all where there are fewer.
pub open spec fn nodes_to_copy(nodes: Seq<u64>, len: u32) -> Seq<u64> {
    if len <= nodes.len() {
        nodes.take(len as int)
    } else {
        nodes
    }
}

/// The bytes that stand for `nodes` in guest memory: eight for each
/// identifier, least significant byte first, in the order of `nodes`.
pub open spec fn encode_nodes(nodes: Seq<u64>) -> Seq<u8> {
    Seq::new(8 * nodes.len(), |i: int| u64_le_bytes(nodes[i / 8])[i % 8])
}

/// Returns the number of known nodes, or 0 if `ctx` is not distributed.
pub fn nodes_count<T: DistributedCtx>(ctx: &T) -> (count: u32)
    ensures
        count == nodes_count_of(ctx.registry()),
{
    match ctx.distributed() {
        Ok(d) => {
            let count = d.control.node_count();
            count as u32
        },
        Err(_) => 0,
    }
}

/// Returns the identifier of the node that `ctx` runs on, or 0 if `ctx` is
/// not distributed.
pub fn node_id<T: DistributedCtx>(ctx: &T) -> (id: u64)
    ensures
        id == node_id_of(ctx.registry()),
{
    match ctx.distributed() {
        Ok(d) => d.node_id(),
        Err(_) => 0,
    }
}

/// Copies the first `nodes_len` of `nodes` into guest memory, eight bytes
/// each, from `nodes_ptr` on.
///
/// The destination is the `8 * nodes_len` bytes from `nodes_ptr` on. If it
/// does not lie inside `memory` the call traps and `memory` is as before.
/// Otherwise the identifiers are written in their order; where `nodes` holds
/// fewer than `nodes_len`, all of them are written and the rest of the
/// destination keeps its bytes. No byte outside the destination changes.
pub fn copy_nodes(nodes: &[u64], memory: &mut [u8], nodes_ptr: u32, nodes_len: u32) -> (status:
    Result<u32, Trap>)
    ensures
        match status {
            Ok(code) => {
                &&& in_bounds(old(memory)@.len(), nodes_ptr as int, 8 * nodes_len)
                &&& code == NODES_COPIED
                &&& final(memory)@ == overlay(
                    old(memory)@,
                    nodes_ptr as int,
                    encode_nodes(nodes_to_copy(nodes@, nodes_len)),
                )
            },
            Err(trap) => {
                &&& !in_bounds(old(memory)@.len(), nodes_ptr as int, 8 * nodes_len)
                &&& trap == Trap::NodesOutOfBounds
                &&& final(memory)@ == old(memory)@
            },
        },
{
    let size = memory.len();
    let end: u64 = nodes_ptr as u64 + 8 * (nodes_len as u64);
    if end > size as u64 {
        return Err(Trap::NodesOutOfBounds);
    }
    let count: usize = if (nodes_len as usize) <= nodes.len() {
        nodes_len as usize
    } else {
        nodes.len()
    };
    let base: usize = nodes_ptr as usize;
    assert(nodes_to_copy(nodes@, nodes_len) =~= nodes@.take(count as int));
    let mut k: usize = 0;
    while k < count
        invariant
            k <= count,
            count <= nodes@.len(),
            count <= nodes_len,
            base == nodes_ptr,
            base + 8 * nodes_len <= size,
            size == memory@.len(),
            size == old(memory)@.len(),
            memory@ == overlay(old(memory)@, base as int, encode_nodes(nodes@.take(k as int))),
        decreases count - k,
    {
        let ghost before = memory@;
        write_u64(memory, base + 8 * k, nodes[k]);
        assert(memory@ =~= overlay(old(memory)@, base as int, encode_nodes(nodes@.take(k + 1))))
            by {
            let done = encode_nodes(nodes@.take(k as int));
            let next = encode_nodes(nodes@.take(k + 1));
            assert forall|i: int| 0 <= i < size implies #[trigger] memory@[i] == overlay(
                old(memory)@,
                base as int,
                next,
            )[i] by {
                if base <= i < base + 8 * k {
                    assert(before[i] == done[i - base]);
                    assert((i - base) / 8 < k);
                } else if base + 8 * k <= i < base + 8 * k + 8 {
                    assert((i - base) / 8 == k);
                    assert((i - base) % 8 == i - (base + 8 * k));
                }
            }
        }
        k += 1;
    }
    Ok(NODES_COPIED)
}

/// Copies the identifiers of the known nodes into guest memory, as
/// `copy_nodes` does. A context that is not distributed knows no node.
pub fn get_nodes<T: DistributedCtx>(
    ctx: &T,
    memory: &mut [u8],
    nodes_ptr: u32,
    nodes_len: u32,
) -> (status: Result<u32, Trap>)
    ensures
        match status {
            Ok(code) => {
                &&& in_bounds(old(memory)@.len(), nodes_ptr as int, 8 * nodes_len)
                &&& code == NODES_COPIED
                &&& final(memory)@ == overlay(
                    old(memory)@,
                    nodes_ptr as int,
                    encode_nodes(nodes_to_copy(nodes_of(ctx.registry()), nodes_len)),
                )
            },
            Err(trap) => {
                &&& !in_bounds(old(memory)@.len(), nodes_ptr as int, 8 * nodes_len)
                &&& trap == Trap::NodesOutOfBounds
                &&& final(memory)@ == old(memory)@
            },
        },
{
    let node_ids: Vec<u64> = match ctx.distributed() {
        Ok(d) => d.control.node_ids(),
        Err(_) => Vec::new(),
    };
    copy_nodes(node_ids.as_slice(), memory, nodes_ptr, nodes_len)
}

/// What a guest reads back after a copy: group `k` of the destination, for
/// each `k` below both the length asked for and the number of nodes, holds
/// the `k`-th of the nodes, and decodes to it.
pub proof fn lemma_copied_groups(
    memory: Seq<u8>,
    nodes: Seq<u64>,
    nodes_ptr: u32,
    nodes_len: u32,
    k: int,
)
    requires
        in_bounds(memory.len(), nodes_ptr as int, 8 * nodes_len),
        0 <= k < nodes_len,
        k < nodes.len(),
    ensures
        ({
            let after = overlay(
                memory,
                nodes_ptr as int,
                encode_nodes(nodes_to_copy(nodes, nodes_len)),
            );
            let group = after.subrange(nodes_ptr + 8 * k, nodes_ptr + 8 * k + 8);
            &&& group == u64_le_bytes(nodes[k])
            &&& u64_from_le_bytes(group) == nodes[k]
        }),
{
    let copied = nodes_to_copy(nodes, nodes_len);
    let after = overlay(memory, nodes_ptr as int, encode_nodes(copied));
    let group = after.subrange(nodes_ptr + 8 * k, nodes_ptr + 8 * k + 8);
    assert(copied[k] == nodes[k]);
    assert forall|i: int| 0 <= i < 8 implies group[i] == u64_le_bytes(copied[k])[i] by {
        assert((8 * k + i) / 8 == k);
        assert((8 * k + i) % 8 == i);
    }
    assert(group =~= u64_le_bytes(copied[k]));
    lemma_u64_round_trip(copied[k]);
}

/// A copy changes no byte outside the groups it fills.
pub proof fn lemma_copy_stays_inside(
    memory: Seq<u8>,
    nodes: Seq<u64>,
    nodes_ptr: u32,
    nodes_len: u32,
    i: int,
)
    requires
        0 <= i < memory.len(),
        i < nodes_ptr || i >= nodes_ptr + 8 * nodes_to_copy(nodes, nodes_len).len(),
    ensures
        overlay(memory, nodes_ptr as int, encode_nodes(nodes_to_copy(nodes, nodes_len)))[i]
            == memory[i],
{
}

/// As long as no node has the identifier 0, a guest is told 0 exactly when
/// its context is not distributed.
pub proof fn lemma_node_id_zero_iff_detached(registry: Option<Registry>)
    requires
        registry is Some ==> registry->0.self_id != 0,
    ensures
        node_id_of(registry) == 0 <==> registry is None,
{
}

} // verus!
