//! Tests of the message processor, the handshake and the behaviour.

use eth2_network::attestation::{get_indexed_attestation, Attestation, AttestationData, AttestationError};
use eth2_network::behaviour::{
    Behaviour, BehaviourEvent, GossipsubEvent, GossipsubMessage, IdentifyEvent, IdentifyInfo,
    NetworkCommand, RPCMessage, MAX_IDENTIFY_ADDRESSES, SEEN_CACHE_SIZE,
};
use eth2_network::chain::{BeaconBlock, BeaconState, ChainHandle, Store, Validator};
use eth2_network::codec::{encode_blocks, GossipCodec, PubsubMessage};
use eth2_network::signature::{FakeSignature, Signature, SIGNATURE_BYTES_LEN};
use eth2_network::simple_sync::{
    hello_message, BeaconBlocksRequest, BlockProcessingOutcome, GoodbyeReason, HelloMessage,
    MessageProcessor, NetworkMessage, PeerSyncInfo, RPCErrorResponse, RPCEvent, RPCRequest,
    RPCResponse, RecentBeaconBlocksRequest, RequestId, SyncMessage, range_response_blocks,
    FUTURE_SLOT_TOLERANCE,
};
use eth2_network::types::{ChainSpec, Fork, Hash256, MessageId, PeerId};

type Sig = Signature<u64, FakeSignature>;
type Block = BeaconBlock<u64, FakeSignature>;
type Chain = ChainHandle<u64, FakeSignature>;

fn h(x: u8) -> Hash256 {
    Hash256::from_bytes([x; 32])
}

fn sig(x: u8) -> Sig {
    Sig::deserialize(&[x; SIGNATURE_BYTES_LEN]).unwrap()
}

fn block(slot: u64, parent: u8, state: u8, root: u8) -> Block {
    BeaconBlock {
        slot,
        parent_root: h(parent),
        state_root: h(state),
        root: h(root),
        signature: sig(9),
    }
}

fn state(slot: u64, fin_epoch: u64) -> BeaconState<u64> {
    BeaconState {
        slot,
        fork: Fork {
            previous_version: [0, 0, 0, 0],
            current_version: [0, 0, 0, 0],
            epoch: 0,
        },
        finalized_root: h(0xf0),
        finalized_epoch: fin_epoch,
        validators: vec![Validator { pubkey: 11 }, Validator { pubkey: 22 }],
        proposers: Vec::new(),
        committees: Vec::new(),
    }
}

/// A chain whose head sits at slot 800, finalized at epoch 100.
fn chain() -> Chain {
    ChainHandle {
        head_block_root: h(0xaa),
        head_state_root: h(0xbb),
        head_state: state(800, 100),
        block_roots: Vec::new(),
        store: Store::new(),
        chain_spec: ChainSpec { slots_per_epoch: 8 },
    }
}

fn peer(n: u64) -> PeerId {
    PeerId { id: n }
}

fn hello_of(chain: &Chain) -> HelloMessage {
    hello_message(chain)
}

#[test]
fn future_slot_tolerance_is_one_slot() {
    assert_eq!(FUTURE_SLOT_TOLERANCE, 1);
}

#[test]
fn hello_round_trip_is_lossless() {
    let hello = hello_of(&chain());
    let info = PeerSyncInfo::from(hello);
    let back = HelloMessage::from(info);
    assert_eq!(back.fork_version, hello.fork_version);
    assert_eq!(back.finalized_root, hello.finalized_root);
    assert_eq!(back.finalized_epoch, hello.finalized_epoch);
    assert_eq!(back.head_root, hello.head_root);
    assert_eq!(back.head_slot, hello.head_slot);
}

#[test]
fn handshake_different_fork_disconnects() {
    let mut processor = MessageProcessor::new(chain());
    let mut hello = hello_of(&processor.chain);
    hello.fork_version = [0, 0, 0, 1];
    processor.process_hello(peer(1), hello);
    let sync = processor.take_sync_messages();
    assert!(sync.is_empty());
    let out = processor.network.take_outbound();
    assert_eq!(out.len(), 1);
    match &out[0] {
        NetworkMessage::RPC(p, RPCEvent::Request(id, RPCRequest::Goodbye(reason))) => {
            assert_eq!(*p, peer(1));
            assert_eq!(*id, 0);
            assert_eq!(*reason, GoodbyeReason::IrrelevantNetwork);
        },
        _ => panic!("expected a goodbye request"),
    }
}

#[test]
fn handshake_peer_behind_is_ignored() {
    let mut c = chain();
    // The remote finalized root matches our chain at start_slot(50).
    c.block_roots.push((h(0x50), 400));
    let mut processor = MessageProcessor::new(c);
    let mut hello = hello_of(&processor.chain);
    hello.finalized_epoch = 50;
    hello.finalized_root = h(0x50);
    processor.process_hello(peer(2), hello);
    assert!(processor.take_sync_messages().is_empty());
    assert!(processor.network.take_outbound().is_empty());
}

#[test]
fn handshake_useful_peer_added_for_sync() {
    let mut processor = MessageProcessor::new(chain());
    let mut hello = hello_of(&processor.chain);
    hello.finalized_epoch = 120;
    hello.head_root = h(0xcc);
    processor.process_hello(peer(3), hello);
    let sync = processor.take_sync_messages();
    assert_eq!(sync.len(), 1);
    match &sync[0] {
        SyncMessage::AddPeer(p, info) => {
            assert_eq!(*p, peer(3));
            assert_eq!(info.finalized_epoch, 120);
        },
        _ => panic!("expected an add-peer message"),
    }
    assert!(processor.network.take_outbound().is_empty());
}

#[test]
fn handshake_mismatched_finalized_chain_disconnects() {
    let mut c = chain();
    c.block_roots.push((h(0x51), 400));
    let mut processor = MessageProcessor::new(c);
    let mut hello = hello_of(&processor.chain);
    hello.finalized_epoch = 50;
    hello.finalized_root = h(0x50);
    processor.process_hello(peer(4), hello);
    assert!(processor.take_sync_messages().is_empty());
    let out = processor.network.take_outbound();
    assert_eq!(out.len(), 1);
    assert!(matches!(
        out[0],
        NetworkMessage::RPC(_, RPCEvent::Request(0, RPCRequest::Goodbye(_)))
    ));
}

#[test]
fn hello_request_answers_then_classifies() {
    let mut processor = MessageProcessor::new(chain());
    let mut hello = hello_of(&processor.chain);
    hello.finalized_epoch = 120;
    processor.on_hello_request(peer(5), 7 as RequestId, hello);
    let out = processor.network.take_outbound();
    assert_eq!(out.len(), 1);
    assert!(matches!(
        out[0],
        NetworkMessage::RPC(_, RPCEvent::Response(7, RPCErrorResponse::Success(RPCResponse::Hello(_))))
    ));
    assert_eq!(processor.take_sync_messages().len(), 1);
}

#[test]
fn hello_request_from_other_fork_answers_then_says_goodbye() {
    let mut processor = MessageProcessor::new(chain());
    let mut hello = hello_of(&processor.chain);
    hello.fork_version = [0, 0, 0, 1];
    processor.on_hello_request(peer(5), 9 as RequestId, hello);
    let out = processor.network.take_outbound();
    assert_eq!(out.len(), 2);
    assert!(matches!(
        out[0],
        NetworkMessage::RPC(_, RPCEvent::Response(9, RPCErrorResponse::Success(RPCResponse::Hello(_))))
    ));
    assert!(matches!(
        out[1],
        NetworkMessage::RPC(
            _,
            RPCEvent::Request(0, RPCRequest::Goodbye(GoodbyeReason::IrrelevantNetwork))
        )
    ));
    assert!(processor.take_sync_messages().is_empty());
}

#[test]
fn handshake_peer_with_known_head_added_for_sync() {
    let mut c = chain();
    c.store.put_block(h(0xcc), block(780, 0, 0, 0xcc));
    // The chain confirms the shared finalized root at start_slot(100).
    c.block_roots.push((h(0xf0), 800));
    let mut processor = MessageProcessor::new(c);
    let mut hello = hello_of(&processor.chain);
    hello.head_root = h(0xcc);
    processor.process_hello(peer(12), hello);
    let sync = processor.take_sync_messages();
    assert_eq!(sync.len(), 1);
    assert!(matches!(sync[0], SyncMessage::AddPeer(p, _) if p == peer(12)));
}

#[test]
fn connect_sends_hello_request() {
    let mut processor = MessageProcessor::new(chain());
    processor.on_connect(peer(6));
    let out = processor.network.take_outbound();
    assert_eq!(out.len(), 1);
    match &out[0] {
        NetworkMessage::RPC(_, RPCEvent::Request(0, RPCRequest::Hello(hello))) => {
            assert_eq!(hello.head_slot, 800);
            assert_eq!(hello.finalized_epoch, 100);
        },
        _ => panic!("expected a hello request"),
    }
}

#[test]
fn disconnect_notifies_sync() {
    let mut processor = MessageProcessor::new(chain());
    processor.on_disconnect(peer(7));
    let sync = processor.take_sync_messages();
    assert_eq!(sync.len(), 1);
    assert!(matches!(sync[0], SyncMessage::Disconnect(p) if p == peer(7)));
}

#[test]
fn block_range_request_returns_ascending_distinct_slots() {
    let mut c = chain();
    let slots = [10u64, 11, 13, 14, 15];
    for (i, s) in slots.iter().enumerate() {
        let b = block(*s, 0, 0, 0x30 + i as u8);
        c.store.put_block(h(0x30 + i as u8), b);
    }
    // The walk runs from the head backwards: highest slot first.
    for (i, s) in slots.iter().enumerate().rev() {
        c.block_roots.push((h(0x30 + i as u8), *s));
    }
    let blocks = range_response_blocks(&c, 10, 5);
    let got: Vec<u64> = blocks.iter().map(|b| b.slot).collect();
    assert_eq!(got, vec![10, 11, 13, 14]);

    let mut processor = MessageProcessor::new(c);
    processor.on_beacon_blocks_request(
        peer(8),
        3 as RequestId,
        BeaconBlocksRequest { head_block_root: h(0), start_slot: 10, count: 5, step: 1 },
    );
    let out = processor.network.take_outbound();
    assert_eq!(out.len(), 1);
    match &out[0] {
        NetworkMessage::RPC(_, RPCEvent::Response(3, RPCErrorResponse::Success(RPCResponse::BeaconBlocks(bytes)))) => {
            assert_eq!(*bytes, encode_blocks(&blocks));
        },
        _ => panic!("expected a block-range response"),
    }
}

#[test]
fn block_range_request_dedups_forks_at_same_slot() {
    let mut c = chain();
    c.store.put_block(h(1), block(20, 0, 0, 1));
    c.store.put_block(h(2), block(20, 0, 0, 2));
    c.block_roots.push((h(1), 20));
    c.block_roots.push((h(2), 20));
    let blocks = range_response_blocks(&c, 20, 2);
    assert_eq!(blocks.len(), 1);
    assert_eq!(blocks[0].slot, 20);
}

#[test]
fn recent_blocks_request_keeps_order_and_skips_unknown() {
    let mut c = chain();
    c.store.put_block(h(1), block(5, 0, 0, 1));
    c.store.put_block(h(2), block(9, 0, 0, 2));
    let mut processor = MessageProcessor::new(c);
    processor.on_recent_beacon_blocks_request(
        peer(9),
        4 as RequestId,
        RecentBeaconBlocksRequest { block_roots: vec![h(2), h(3), h(1)] },
    );
    let out = processor.network.take_outbound();
    assert_eq!(out.len(), 1);
    match &out[0] {
        NetworkMessage::RPC(_, RPCEvent::Response(4, RPCErrorResponse::Success(RPCResponse::BeaconBlocks(bytes)))) => {
            let expected = encode_blocks(&vec![block(9, 0, 0, 2), block(5, 0, 0, 1)]);
            assert_eq!(*bytes, expected);
        },
        _ => panic!("expected a recent-blocks response"),
    }
}

#[test]
fn block_gossip_with_unknown_parent_goes_to_sync() {
    let mut processor = MessageProcessor::new(chain());
    let b = block(801, 1, 2, 3);
    processor.on_block_gossip(peer(10), b, Ok(BlockProcessingOutcome::ParentUnknown { parent: h(1) }));
    let sync = processor.take_sync_messages();
    assert_eq!(sync.len(), 1);
    assert!(matches!(sync[0], SyncMessage::UnknownBlock(p, _) if p == peer(10)));

    processor.on_block_gossip(
        peer(10),
        block(802, 1, 2, 4),
        Ok(BlockProcessingOutcome::Processed { block_root: h(4) }),
    );
    assert!(processor.take_sync_messages().is_empty());
}

#[test]
fn forward_block_on_head_fast_path() {
    let mut c = chain();
    // The parent's state is the head state, and the head state assigns
    // validator 1 to propose at the block's slot.
    let parent = block(800, 0, 0xbb, 0x70);
    c.store.put_block(h(0x70), parent);
    c.head_state.proposers = vec![(801, 1)];
    let mut processor = MessageProcessor::new(c);
    let b = block(801, 0x70, 0, 0x71);
    assert!(processor.should_forward_block(&b));
}

#[test]
fn forward_block_without_parent_is_refused() {
    let mut processor = MessageProcessor::new(chain());
    let b = block(801, 0x70, 0, 0x71);
    assert!(!processor.should_forward_block(&b));
}

#[test]
fn forward_block_without_proposer_is_refused() {
    let mut c = chain();
    c.store.put_block(h(0x70), block(800, 0, 0xbb, 0x70));
    let mut processor = MessageProcessor::new(c);
    let b = block(801, 0x70, 0, 0x71);
    assert!(!processor.should_forward_block(&b));
}

#[test]
fn forward_block_never_runs_the_state_backwards() {
    let mut c = chain();
    // The parent is far in the past and its stored state sits beyond the
    // block's slot: no relative epoch, and no fast-forward is possible.
    c.store.put_block(h(0x70), block(100, 0, 0x60, 0x70));
    let mut far_state = state(900, 100);
    far_state.proposers = vec![(801, 1)];
    c.store.put_state(h(0x60), far_state);
    let mut processor = MessageProcessor::new(c);
    let b = block(801, 0x70, 0, 0x71);
    assert!(!processor.should_forward_block(&b));
}

fn attestation(committee_id: u64, bits: Vec<bool>, root: u8) -> Attestation<u64, FakeSignature> {
    Attestation {
        aggregation_bits: bits,
        data: AttestationData { beacon_block_root: h(root), target_epoch: 100, committee_id },
        signature: sig(5),
    }
}

#[test]
fn indexed_attestation_keeps_committee_order() {
    let mut st = state(800, 100);
    st.committees = vec![(3, vec![1, 0])];
    let a = attestation(3, vec![true, true], 0x40);
    let indexed = get_indexed_attestation(&st, &a).unwrap();
    assert_eq!(indexed.attesting_indices, vec![1, 0]);
    assert_eq!(indexed.data.committee_id, 3);

    let some_bits = attestation(3, vec![false, true], 0x40);
    let indexed = get_indexed_attestation(&st, &some_bits).unwrap();
    assert_eq!(indexed.attesting_indices, vec![0]);
}

#[test]
fn indexed_attestation_errors() {
    let mut st = state(800, 100);
    st.committees = vec![(3, vec![0, 1])];
    match get_indexed_attestation(&st, &attestation(4, vec![true], 0x40)) {
        Err(e) => assert_eq!(e, AttestationError::UnknownCommittee),
        Ok(_) => panic!("expected an unknown-committee error"),
    }
    match get_indexed_attestation(&st, &attestation(3, vec![true], 0x40)) {
        Err(e) => assert_eq!(e, AttestationError::BitfieldLengthMismatch),
        Ok(_) => panic!("expected a bitfield-length error"),
    }
}

#[test]
fn forward_attestation_on_head_state() {
    let mut c = chain();
    c.head_state.committees = vec![(3, vec![0, 1])];
    let processor = MessageProcessor::new(c);
    assert!(processor.should_forward_attestation(&attestation(3, vec![true, false], 0x40)));
}

#[test]
fn forward_attestation_falls_back_to_the_store() {
    let mut c = chain();
    // The head state knows no committee; the state of the attested block
    // does.
    let b = block(700, 0, 0x61, 0x40);
    c.store.put_block(h(0x40), b);
    let mut st = state(700, 90);
    st.committees = vec![(3, vec![0, 1])];
    c.store.put_state(h(0x61), st);
    let processor = MessageProcessor::new(c);
    assert!(processor.should_forward_attestation(&attestation(3, vec![true, true], 0x40)));
}

#[test]
fn forward_attestation_without_any_state_is_refused() {
    let processor = MessageProcessor::new(chain());
    assert!(!processor.should_forward_attestation(&attestation(3, vec![true], 0x40)));
}

#[test]
fn forward_attestation_with_wrong_bitfield_is_refused() {
    let mut c = chain();
    c.head_state.committees = vec![(3, vec![0, 1])];
    let processor = MessageProcessor::new(c);
    assert!(!processor.should_forward_attestation(&attestation(3, vec![true], 0x40)));
}

fn test_codec() -> GossipCodec {
    GossipCodec {
        block_topic: b"/eth2/beacon_block/ssz".to_vec(),
        attestation_topic: b"/eth2/beacon_attestation/ssz".to_vec(),
    }
}

fn gossip_block_message(slot: u64) -> GossipsubMessage {
    let codec = test_codec();
    let data = codec.encode(&PubsubMessage::Block(block(slot, 1, 2, 3)));
    GossipsubMessage { data, topics: vec![b"/eth2/beacon_block/ssz".to_vec()] }
}

type Beh = Behaviour<u64, FakeSignature>;

#[test]
fn duplicate_gossip_is_delivered_at_most_once() {
    let mut behaviour: Beh = Behaviour::new(test_codec());
    let msg1 = gossip_block_message(5);
    let msg2 = gossip_block_message(5);
    behaviour.inject_gossipsub_event(GossipsubEvent::Message(peer(1), MessageId { id: 1 }, msg1));
    behaviour.inject_gossipsub_event(GossipsubEvent::Message(peer(2), MessageId { id: 1 }, msg2));
    assert!(matches!(
        behaviour.poll(),
        Some(BehaviourEvent::GossipMessage { .. })
    ));
    assert!(behaviour.poll().is_none());
}

#[test]
fn malformed_gossip_is_dropped() {
    let mut behaviour: Beh = Behaviour::new(test_codec());
    let msg = GossipsubMessage {
        data: vec![1, 2, 3],
        topics: vec![b"/eth2/beacon_block/ssz".to_vec()],
    };
    behaviour.inject_gossipsub_event(GossipsubEvent::Message(peer(1), MessageId { id: 1 }, msg));
    assert!(behaviour.poll().is_none());
}

#[test]
fn poll_releases_events_in_fifo_order() {
    let mut behaviour: Beh = Behaviour::new(test_codec());
    behaviour.inject_rpc_event(RPCMessage::PeerDialed(peer(1)));
    behaviour.inject_rpc_event(RPCMessage::PeerDisconnected(peer(1)));
    assert!(matches!(behaviour.poll(), Some(BehaviourEvent::PeerDialed(p)) if p == peer(1)));
    assert!(matches!(behaviour.poll(), Some(BehaviourEvent::PeerDisconnected(_))));
    assert!(behaviour.poll().is_none());
}

#[test]
fn connected_peer_count_follows_dial_and_disconnect() {
    let mut behaviour: Beh = Behaviour::new(test_codec());
    assert_eq!(behaviour.connected_peers(), 0);
    behaviour.inject_rpc_event(RPCMessage::PeerDialed(peer(1)));
    behaviour.inject_rpc_event(RPCMessage::PeerDialed(peer(2)));
    assert_eq!(behaviour.connected_peers(), 2);
    behaviour.inject_rpc_event(RPCMessage::PeerDisconnected(peer(1)));
    assert_eq!(behaviour.connected_peers(), 1);
}

#[test]
fn seen_cache_evicts_on_the_257th_distinct_message() {
    let mut behaviour: Beh = Behaviour::new(test_codec());
    for i in 0..SEEN_CACHE_SIZE as u64 {
        let msg = gossip_block_message(i);
        behaviour.inject_gossipsub_event(GossipsubEvent::Message(peer(1), MessageId { id: i }, msg));
    }
    assert_eq!(behaviour.seen_gossip_len(), SEEN_CACHE_SIZE);
    let msg = gossip_block_message(SEEN_CACHE_SIZE as u64);
    behaviour.inject_gossipsub_event(GossipsubEvent::Message(
        peer(1),
        MessageId { id: SEEN_CACHE_SIZE as u64 },
        msg,
    ));
    assert_eq!(behaviour.seen_gossip_len(), SEEN_CACHE_SIZE);
    // The oldest message was evicted: delivering it again is fresh.
    while behaviour.poll().is_some() {}
    let again = gossip_block_message(0);
    behaviour.inject_gossipsub_event(GossipsubEvent::Message(peer(1), MessageId { id: 0 }, again));
    assert!(matches!(behaviour.poll(), Some(BehaviourEvent::GossipMessage { .. })));
}

#[test]
fn propagate_unknown_id_is_a_no_op() {
    let mut behaviour: Beh = Behaviour::new(test_codec());
    behaviour.propagate_message(&peer(1), MessageId { id: 77 });
    assert!(behaviour.commands.is_empty());
}

#[test]
fn propagate_held_message_queues_a_command() {
    let mut behaviour: Beh = Behaviour::new(test_codec());
    let msg = gossip_block_message(5);
    behaviour.inject_gossipsub_event(GossipsubEvent::Message(peer(1), MessageId { id: 8 }, msg));
    behaviour.propagate_message(&peer(1), MessageId { id: 8 });
    assert_eq!(behaviour.commands.len(), 1);
    assert!(matches!(
        behaviour.commands[0],
        NetworkCommand::PropagateMessage { message_id: MessageId { id: 8 }, .. }
    ));
}

#[test]
fn subscribe_reports_whether_the_set_changed() {
    let mut behaviour: Beh = Behaviour::new(test_codec());
    assert!(behaviour.subscribe(b"topic_a".to_vec()));
    assert!(!behaviour.subscribe(b"topic_a".to_vec()));
    assert!(behaviour.unsubscribe(b"topic_a".to_vec()));
    assert!(!behaviour.unsubscribe(b"topic_a".to_vec()));
}

#[test]
fn publish_encodes_once_per_topic() {
    let mut behaviour: Beh = Behaviour::new(test_codec());
    let topics = vec![b"t1".to_vec(), b"t2".to_vec()];
    behaviour.publish(&topics, PubsubMessage::Block(block(5, 1, 2, 3)));
    assert_eq!(behaviour.commands.len(), 2);
    let expected = test_codec().encode(&PubsubMessage::Block(block(5, 1, 2, 3)));
    for (i, cmd) in behaviour.commands.iter().enumerate() {
        match cmd {
            NetworkCommand::Publish { topic, data } => {
                assert_eq!(*topic, topics[i]);
                assert_eq!(*data, expected);
            },
            _ => panic!("expected publish commands"),
        }
    }
}

#[test]
fn identify_addresses_are_truncated_to_twenty() {
    let mut behaviour: Beh = Behaviour::new(test_codec());
    let addrs: Vec<Vec<u8>> = (0..25u8).map(|i| vec![i]).collect();
    let info = IdentifyInfo {
        protocol_version: b"eth2".to_vec(),
        agent_version: b"agent".to_vec(),
        listen_addrs: addrs,
    };
    let out = behaviour
        .inject_identify_event(IdentifyEvent::Received {
            peer_id: peer(1),
            info,
            observed_addr: vec![9],
        })
        .unwrap();
    assert_eq!(out.listen_addrs.len(), MAX_IDENTIFY_ADDRESSES);
    for (i, addr) in out.listen_addrs.iter().enumerate() {
        assert_eq!(*addr, vec![i as u8]);
    }

    let exactly = IdentifyInfo {
        protocol_version: b"eth2".to_vec(),
        agent_version: b"agent".to_vec(),
        listen_addrs: (0..20u8).map(|i| vec![i]).collect(),
    };
    let out = behaviour
        .inject_identify_event(IdentifyEvent::Received {
            peer_id: peer(1),
            info: exactly,
            observed_addr: vec![9],
        })
        .unwrap();
    assert_eq!(out.listen_addrs.len(), 20);
}

#[test]
fn ban_and_unban_peers() {
    let mut behaviour: Beh = Behaviour::new(test_codec());
    behaviour.peer_banned(peer(1));
    behaviour.peer_banned(peer(2));
    behaviour.peer_banned(peer(1));
    assert_eq!(behaviour.banned.len(), 2);
    behaviour.peer_unbanned(&peer(1));
    assert_eq!(behaviour.banned.len(), 1);
    assert_eq!(behaviour.banned[0], peer(2));
}

#[test]
fn send_rpc_queues_the_event() {
    let mut behaviour: Beh = Behaviour::new(test_codec());
    behaviour.send_rpc(peer(3), RPCEvent::Request(1, RPCRequest::Goodbye(GoodbyeReason::Fault)));
    assert_eq!(behaviour.commands.len(), 1);
    assert!(matches!(behaviour.commands[0], NetworkCommand::SendRPC(p, _) if p == peer(3)));
}

#[test]
fn responses_echo_the_request_id() {
    let mut processor = MessageProcessor::new(chain());
    processor.on_recent_beacon_blocks_request(
        peer(1),
        42 as RequestId,
        RecentBeaconBlocksRequest { block_roots: vec![] },
    );
    let out = processor.network.take_outbound();
    assert!(matches!(out[0], NetworkMessage::RPC(_, RPCEvent::Response(42, _))));
}

#[test]
fn sync_responses_are_forwarded() {
    let mut processor = MessageProcessor::new(chain());
    processor.on_beacon_blocks_response(peer(1), 5 as RequestId, vec![block(1, 0, 0, 1)]);
    processor.on_recent_beacon_blocks_response(peer(1), 6 as RequestId, vec![]);
    let sync = processor.take_sync_messages();
    assert_eq!(sync.len(), 2);
    assert!(matches!(
        sync[0],
        SyncMessage::BeaconBlocksResponse { request_id: 5, .. }
    ));
    assert!(matches!(
        sync[1],
        SyncMessage::RecentBeaconBlocksResponse { request_id: 6, .. }
    ));
}
