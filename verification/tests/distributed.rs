use lunatic_runtime::distributed::{
    copy_nodes, get_nodes, node_id, nodes_count, Client, DistributedCtx, DistributedProcessState,
    MAX_NODES, NODES_COPIED,
};
use lunatic_runtime::trap::Trap;

fn attached(self_id: u64, nodes: Vec<u64>) -> Option<DistributedProcessState> {
    Some(DistributedProcessState::new(self_id, Client::new(nodes).unwrap()))
}

fn detached() -> Option<DistributedProcessState> {
    None
}

#[test]
fn client_keeps_the_registry_order() {
    let client = Client::new(vec![9, 3, 5]).unwrap();
    assert_eq!(client.node_count(), 3);
    assert_eq!(client.node_ids(), vec![9, 3, 5]);
    assert_eq!(Client::new(vec![]).unwrap().node_count(), 0);
    assert_eq!(MAX_NODES, 4294967295);
}

#[test]
fn nodes_count_is_the_length_of_the_node_list() {
    for n in [0usize, 1, 2, 17, 300] {
        let nodes: Vec<u64> = (0..n as u64).map(|i| i * 7 + 1).collect();
        let ctx = attached(1, nodes);
        let listed = ctx.distributed().unwrap().control.node_ids();
        assert_eq!(nodes_count(&ctx) as usize, listed.len());
        assert_eq!(nodes_count(&ctx) as usize, n);
    }
}

#[test]
fn nodes_count_is_zero_without_distributed_state() {
    assert_eq!(nodes_count(&detached()), 0);
}

#[test]
fn node_id_is_the_own_identifier() {
    assert_eq!(node_id(&attached(42, vec![1, 42, 3])), 42);
    assert_eq!(node_id(&attached(u64::MAX, vec![])), u64::MAX);
    assert_eq!(DistributedProcessState::new(5, Client::new(vec![]).unwrap()).node_id(), 5);
}

#[test]
fn node_id_is_zero_without_distributed_state() {
    assert_eq!(node_id(&detached()), 0);
}

#[test]
fn context_without_state_reports_an_error() {
    let mut ctx = detached();
    assert_eq!(
        ctx.distributed().err().unwrap().to_string(),
        "Distributed is not initialized"
    );
    assert_eq!(
        ctx.distributed_mut().err().unwrap().to_string(),
        "Distributed is not initialized"
    );
}

#[test]
fn context_with_state_hands_it_out() {
    let mut ctx = attached(8, vec![8, 9]);
    assert_eq!(ctx.distributed().unwrap().node_id(), 8);
    ctx.distributed_mut().unwrap().control = Client::new(vec![8, 9, 10]).unwrap();
    assert_eq!(nodes_count(&ctx), 3);
}

#[test]
fn get_nodes_writes_least_significant_byte_first() {
    let ctx = attached(1, vec![0x0102030405060708, 0xffeeddccbbaa9988]);
    let mut memory = vec![0x55u8; 24];
    assert_eq!(get_nodes(&ctx, &mut memory, 4, 2), Ok(2));
    assert_eq!(
        memory,
        vec![
            0x55, 0x55, 0x55, 0x55, 0x08, 0x07, 0x06, 0x05, 0x04, 0x03, 0x02, 0x01, 0x88, 0x99,
            0xaa, 0xbb, 0xcc, 0xdd, 0xee, 0xff, 0x55, 0x55, 0x55, 0x55
        ]
    );
    assert_eq!(NODES_COPIED, 2);
}

#[test]
fn get_nodes_groups_read_back_in_registry_order() {
    let nodes: Vec<u64> = vec![11, u64::MAX, 0, 1 << 40, 77];
    let ctx = attached(11, nodes.clone());
    let mut memory = vec![0u8; 64];
    assert_eq!(get_nodes(&ctx, &mut memory, 8, 5), Ok(2));
    for (k, node) in nodes.iter().enumerate() {
        let mut group = [0u8; 8];
        group.copy_from_slice(&memory[8 + 8 * k..16 + 8 * k]);
        assert_eq!(u64::from_le_bytes(group), *node);
    }
    assert_eq!(&memory[..8], &[0u8; 8]);
    assert_eq!(&memory[48..], &[0u8; 16]);
}

#[test]
fn get_nodes_traps_when_the_destination_leaves_memory() {
    let ctx = attached(1, vec![1, 2]);
    let mut memory = vec![7u8; 32];
    assert_eq!(get_nodes(&ctx, &mut memory, 17, 2), Err(Trap::NodesOutOfBounds));
    assert_eq!(get_nodes(&ctx, &mut memory, 0, 5), Err(Trap::NodesOutOfBounds));
    assert_eq!(get_nodes(&ctx, &mut memory, 33, 0), Err(Trap::NodesOutOfBounds));
    assert_eq!(
        get_nodes(&ctx, &mut memory, u32::MAX, u32::MAX),
        Err(Trap::NodesOutOfBounds)
    );
    assert_eq!(memory, vec![7u8; 32]);
}

#[test]
fn get_nodes_accepts_a_destination_that_ends_with_memory() {
    let ctx = attached(1, vec![1, 2]);
    let mut memory = vec![7u8; 32];
    assert_eq!(get_nodes(&ctx, &mut memory, 16, 2), Ok(2));
    assert_eq!(&memory[16..], &[1, 0, 0, 0, 0, 0, 0, 0, 2, 0, 0, 0, 0, 0, 0, 0]);
    assert_eq!(get_nodes(&ctx, &mut memory, 32, 0), Ok(2));
    assert_eq!(&memory[..16], &[7u8; 16]);
}

#[test]
fn get_nodes_with_fewer_nodes_than_asked_for_copies_what_there_is() {
    let ctx = attached(1, vec![3]);
    let mut memory = vec![9u8; 24];
    assert_eq!(get_nodes(&ctx, &mut memory, 0, 3), Ok(2));
    assert_eq!(&memory[..8], &[3, 0, 0, 0, 0, 0, 0, 0]);
    assert_eq!(&memory[8..], &[9u8; 16]);
}

#[test]
fn get_nodes_with_more_nodes_than_asked_for_copies_the_first() {
    let ctx = attached(1, vec![3, 4, 5]);
    let mut memory = vec![9u8; 24];
    assert_eq!(get_nodes(&ctx, &mut memory, 8, 1), Ok(2));
    assert_eq!(&memory[..8], &[9u8; 8]);
    assert_eq!(&memory[8..16], &[3, 0, 0, 0, 0, 0, 0, 0]);
    assert_eq!(&memory[16..], &[9u8; 8]);
}

#[test]
fn get_nodes_without_distributed_state_copies_nothing() {
    let mut memory = vec![9u8; 16];
    assert_eq!(get_nodes(&detached(), &mut memory, 0, 2), Ok(2));
    assert_eq!(memory, vec![9u8; 16]);
    assert_eq!(get_nodes(&detached(), &mut memory, 1, 2), Err(Trap::NodesOutOfBounds));
}

#[test]
fn every_trap_has_its_text() {
    assert_eq!(Trap::NodesOutOfBounds.message(), "lunatic::distributed::get_nodes::memory");
    assert_eq!(Trap::PointerOutOfBounds.message(), "Pointer outside of the memory");
    assert_eq!(Trap::ArgsBufferEnd.message(), "Reached end of the args buffer");
    assert_eq!(Trap::ArgsPointerBufferEnd.message(), "Reached end of the args pointer buffer");
    assert_eq!(
        Trap::EnvironBufferEnd.message(),
        "Reached end of the environment variables buffer"
    );
    assert_eq!(
        Trap::EnvironPointerBufferEnd.message(),
        "Reached end of the environ var pointer buffer"
    );
    assert_eq!(Trap::UnsupportedWriteDestination.message(), "Unsupported wasi write destination");
    assert_eq!(Trap::UnsupportedReadDestination.message(), "Unsupported wasi read destination");
}

#[test]
fn copy_nodes_copies_a_plain_list() {
    let mut memory = vec![0x11u8; 20];
    assert_eq!(copy_nodes(&[0x0a0b, 1], &mut memory, 2, 2), Ok(2));
    assert_eq!(
        memory,
        vec![0x11, 0x11, 0x0b, 0x0a, 0, 0, 0, 0, 0, 0, 1, 0, 0, 0, 0, 0, 0, 0, 0x11, 0x11]
    );
    assert_eq!(copy_nodes(&[5], &mut memory, 13, 1), Err(Trap::NodesOutOfBounds));
    assert_eq!(copy_nodes(&[], &mut memory, 12, 1), Ok(2));
    assert_eq!(memory[12..], [0, 0, 0, 0, 0, 0, 0x11, 0x11]);
}
