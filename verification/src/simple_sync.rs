//! The message processor: handshake, block queries and gossip handling.
//!
//! The processor turns validated network events into chain-affecting
//! actions. It classifies peers against the local chain when hellos are
//! exchanged, answers block-range and recent-block requests from the store,
//! and relays sync work items. Outbound traffic is queued on the processor
//! (the network command queue and the sync work queue) and drained by the
//! host, which owns the real channels.

use vstd::prelude::*;
use vstd::bytes::spec_u64_to_le_bytes;
use vstd::std_specs::convert::FromSpec;
use crate::attestation::{
    Attestation, get_indexed_attestation, indexed_attestation_signature_valid,
    spec_attestation_valid_under,
};
use crate::chain::{BeaconBlock, BeaconState, ChainHandle, Store};
use crate::codec::{append_bytes, append_u64, encode_blocks, spec_blocks_payload};
use crate::signature::TSignature;
use crate::types::{
    Domain, Epoch, Hash256, PeerId, RelativeEpoch, Slot, spec_epoch_start_slot, spec_slot_epoch,
    epoch_start_slot, fork_version_eq, slot_epoch,
};

verus! {

/// How many slots ahead of the local clock a block may sit before the chain
/// queues or drops it instead of processing it.
pub const FUTURE_SLOT_TOLERANCE: u64 = 1;

/// The handshake payload: what a peer claims about its chain.
#[derive(Clone, Copy, Debug)]
pub struct HelloMessage {
    pub fork_version: [u8; 4],
    pub finalized_root: Hash256,
    pub finalized_epoch: Epoch,
    pub head_root: Hash256,
    pub head_slot: Slot,
}

/// The same five fields, retained per peer once a handshake succeeds.
#[derive(Clone, Copy, Debug)]
pub struct PeerSyncInfo {
    pub fork_version: [u8; 4],
    pub finalized_root: Hash256,
    pub finalized_epoch: Epoch,
    pub head_root: Hash256,
    pub head_slot: Slot,
}

impl From<HelloMessage> for PeerSyncInfo {
    fn from(hello: HelloMessage) -> (r: PeerSyncInfo) {
        PeerSyncInfo {
            fork_version: hello.fork_version,
            finalized_root: hello.finalized_root,
            finalized_epoch: hello.finalized_epoch,
            head_root: hello.head_root,
            head_slot: hello.head_slot,
        }
    }
}

impl vstd::std_specs::convert::FromSpecImpl<HelloMessage> for PeerSyncInfo {
    open spec fn obeys_from_spec() -> bool {
        true
    }

    open spec fn from_spec(hello: HelloMessage) -> PeerSyncInfo {
        PeerSyncInfo {
            fork_version: hello.fork_version,
            finalized_root: hello.finalized_root,
            finalized_epoch: hello.finalized_epoch,
            head_root: hello.head_root,
            head_slot: hello.head_slot,
        }
    }
}

impl From<PeerSyncInfo> for HelloMessage {
    fn from(info: PeerSyncInfo) -> (r: HelloMessage) {
        HelloMessage {
            fork_version: info.fork_version,
            finalized_root: info.finalized_root,
            finalized_epoch: info.finalized_epoch,
            head_root: info.head_root,
            head_slot: info.head_slot,
        }
    }
}

impl vstd::std_specs::convert::FromSpecImpl<PeerSyncInfo> for HelloMessage {
    open spec fn obeys_from_spec() -> bool {
        true
    }

    open spec fn from_spec(info: PeerSyncInfo) -> HelloMessage {
        HelloMessage {
            fork_version: info.fork_version,
            finalized_root: info.finalized_root,
            finalized_epoch: info.finalized_epoch,
            head_root: info.head_root,
            head_slot: info.head_slot,
        }
    }
}

/// Converting a hello to per-peer sync info and back, in either order,
/// loses nothing: the five fields come through unchanged.
pub proof fn lemma_hello_sync_info_lossless(hello: HelloMessage, info: PeerSyncInfo)
    ensures
        HelloMessage::from_spec(PeerSyncInfo::from_spec(hello)) == hello,
        PeerSyncInfo::from_spec(HelloMessage::from_spec(info)) == info,
{
}

/// The reason sent with a goodbye.
#[derive(Clone, Copy, Debug, PartialEq, Eq, Structural)]
pub enum GoodbyeReason {
    ClientShutdown,
    IrrelevantNetwork,
    Fault,
    Unknown,
}

/// Identifier a requester assigns to an RPC request; responses echo it.
pub type RequestId = usize;

/// A request for the blocks whose slot lies in
/// `[start_slot, start_slot + count)`.
#[derive(Clone, Copy, Debug)]
pub struct BeaconBlocksRequest {
    pub head_block_root: Hash256,
    pub start_slot: u64,
    pub count: u64,
    pub step: u64,
}

/// A request for the blocks stored under the given roots.
pub struct RecentBeaconBlocksRequest {
    pub block_roots: Vec<Hash256>,
}

/// The RPC requests the core sends and answers.
pub enum RPCRequest {
    Hello(HelloMessage),
    Goodbye(GoodbyeReason),
    BeaconBlocks(BeaconBlocksRequest),
    RecentBeaconBlocks(RecentBeaconBlocksRequest),
}

/// The RPC responses the core emits. Block responses carry the encoded
/// block list; the requester decodes it.
pub enum RPCResponse {
    Hello(HelloMessage),
    BeaconBlocks(Vec<u8>),
}

/// A response as it goes on the wire: success, or an error the core does
/// not currently emit.
pub enum RPCErrorResponse {
    Success(RPCResponse),
    Error,
}

/// A tagged RPC event: a request with its id, or a response echoing one.
pub enum RPCEvent {
    Request(RequestId, RPCRequest),
    Response(RequestId, RPCErrorResponse),
}

/// A command for the network service.
pub enum NetworkMessage {
    RPC(PeerId, RPCEvent),
}

/// Work items handed to the sync manager.
pub enum SyncMessage<P, T: TSignature<P>> {
    AddPeer(PeerId, PeerSyncInfo),
    Disconnect(PeerId),
    UnknownBlock(PeerId, BeaconBlock<P, T>),
    BeaconBlocksResponse { peer_id: PeerId, request_id: RequestId, beacon_blocks: Vec<BeaconBlock<P, T>> },
    RecentBeaconBlocksResponse { peer_id: PeerId, request_id: RequestId, beacon_blocks: Vec<BeaconBlock<P, T>> },
}

/// Wraps the outbound command queue toward the network service with the
/// RPC send and disconnect helpers. Sends never block: commands are queued
/// here and the host drains them.
pub struct NetworkContext {
    outbound: Vec<NetworkMessage>,
}

impl NetworkContext {
    /// The commands queued so far, oldest first.
    pub closed spec fn spec_sent(&self) -> Seq<NetworkMessage> {
        self.outbound@
    }

    pub fn new() -> (r: Self)
        ensures
            r.spec_sent() == Seq::<NetworkMessage>::empty(),
    {
        let r = NetworkContext { outbound: Vec::new() };
        proof {
            assert(r.spec_sent() =~= Seq::<NetworkMessage>::empty());
        }
        r
    }

    /// Log-and-say-goodbye: queue a `Goodbye` request toward `peer_id`.
    pub fn disconnect(&mut self, peer_id: PeerId, reason: GoodbyeReason)
        ensures
            final(self).spec_sent() == old(self).spec_sent().push(
                NetworkMessage::RPC(
                    peer_id,
                    RPCEvent::Request(0, RPCRequest::Goodbye(reason)),
                ),
            ),
    {
        self.send_rpc_request(None, peer_id, RPCRequest::Goodbye(reason))
    }

    /// Queue an RPC request; `0` stands in when no id is required.
    pub fn send_rpc_request(
        &mut self,
        request_id: Option<RequestId>,
        peer_id: PeerId,
        rpc_request: RPCRequest,
    )
        ensures
            final(self).spec_sent() == old(self).spec_sent().push(
                NetworkMessage::RPC(
                    peer_id,
                    RPCEvent::Request(
                        match request_id {
                            Some(id) => id,
                            None => 0,
                        },
                        rpc_request,
                    ),
                ),
            ),
    {
        let request_id = match request_id {
            Some(id) => id,
            None => 0,
        };
        self.send_rpc_event(peer_id, RPCEvent::Request(request_id, rpc_request));
    }

    /// Queue a successful RPC response carrying the request's own id.
    pub fn send_rpc_response(
        &mut self,
        peer_id: PeerId,
        request_id: RequestId,
        rpc_response: RPCResponse,
    )
        ensures
            final(self).spec_sent() == old(self).spec_sent().push(
                NetworkMessage::RPC(
                    peer_id,
                    RPCEvent::Response(request_id, RPCErrorResponse::Success(rpc_response)),
                ),
            ),
    {
        self.send_rpc_event(
            peer_id,
            RPCEvent::Response(request_id, RPCErrorResponse::Success(rpc_response)),
        );
    }

    fn send_rpc_event(&mut self, peer_id: PeerId, rpc_event: RPCEvent)
        ensures
            final(self).spec_sent() == old(self).spec_sent().push(
                NetworkMessage::RPC(peer_id, rpc_event),
            ),
    {
        self.outbound.push(NetworkMessage::RPC(peer_id, rpc_event));
    }

    /// Hand every queued command to the caller, oldest first, leaving the
    /// queue empty. The host forwards them to the network service.
    pub fn take_outbound(&mut self) -> (r: Vec<NetworkMessage>)
        ensures
            r@ == old(self).spec_sent(),
            final(self).spec_sent() == Seq::<NetworkMessage>::empty(),
    {
        let r = self.outbound.split_off(0);
        proof {
            assert(r@ =~= old(self).spec_sent());
            assert(self.outbound@ =~= Seq::<NetworkMessage>::empty());
        }
        r
    }
}

/// Build a `HelloMessage` representing the state of the given chain.
pub open spec fn spec_hello_message<P, T: TSignature<P>>(chain: &ChainHandle<P, T>) -> HelloMessage {
    HelloMessage {
        fork_version: chain.head_state.fork.current_version,
        finalized_root: chain.head_state.finalized_root,
        finalized_epoch: chain.head_state.finalized_epoch,
        head_root: chain.head_block_root,
        head_slot: chain.head_state.slot,
    }
}

pub fn hello_message<P, T: TSignature<P>>(chain: &ChainHandle<P, T>) -> (r: HelloMessage)
    ensures
        r == spec_hello_message(chain),
{
    HelloMessage {
        fork_version: chain.head_state.fork.current_version,
        finalized_root: chain.head_state.finalized_root,
        finalized_epoch: chain.head_state.finalized_epoch,
        head_root: chain.head_block_root,
        head_slot: chain.head_state.slot,
    }
}

/// What the handshake decides for a peer.
#[derive(Clone, Copy, Debug, PartialEq, Eq, Structural)]
pub enum HelloAction {
    /// The peer is on another network or chain: say goodbye and drop it.
    DisconnectIrrelevant,
    /// The peer is behind us and useless for sync: leave it alone.
    Ignore,
    /// Hand the peer to the sync manager.
    AddPeer,
}

/// The handshake table: the first matching row, top to bottom, decides.
/// Exactly one of the three actions comes out for every pair of local and
/// remote infos, and the outcome depends on nothing else but the chain.
pub open spec fn spec_hello_action<P, T: TSignature<P>>(
    chain: &ChainHandle<P, T>,
    remote: PeerSyncInfo,
) -> HelloAction {
    let local = PeerSyncInfo::from_spec(spec_hello_message(chain));
    if local.fork_version@ != remote.fork_version@ {
        HelloAction::DisconnectIrrelevant
    } else if remote.finalized_epoch <= local.finalized_epoch && !remote.finalized_root.spec_is_zero()
        && !local.finalized_root.spec_is_zero() && (match chain.spec_root_at_slot(
        spec_epoch_start_slot(remote.finalized_epoch, chain.chain_spec.slots_per_epoch),
    ) {
        Some(root) => root@ != remote.finalized_root@,
        None => true,
    }) {
        HelloAction::DisconnectIrrelevant
    } else if remote.finalized_epoch < local.finalized_epoch {
        HelloAction::Ignore
    } else if chain.store.spec_get_block(remote.head_root@) is Some {
        HelloAction::AddPeer
    } else {
        HelloAction::AddPeer
    }
}

/// Classify a remote peer against the local chain, by the handshake table.
pub fn classify_hello<P, T: TSignature<P>>(chain: &ChainHandle<P, T>, remote: &PeerSyncInfo) -> (r:
    HelloAction)
    ensures
        r == spec_hello_action(chain, *remote),
{
    let local = PeerSyncInfo::from(hello_message(chain));
    if !fork_version_eq(&local.fork_version, &remote.fork_version) {
        return HelloAction::DisconnectIrrelevant;
    }
    if remote.finalized_epoch <= local.finalized_epoch {
        let remote_zero = remote.finalized_root.is_zero();
        let local_zero = local.finalized_root.is_zero();
        if !remote_zero && !local_zero {
            let start = epoch_start_slot(remote.finalized_epoch, chain.chain_spec.slots_per_epoch);
            let mismatch = match chain.root_at_slot(start) {
                Some(root) => !root.same(&remote.finalized_root),
                None => true,
            };
            if mismatch {
                return HelloAction::DisconnectIrrelevant;
            }
        }
    }
    if remote.finalized_epoch < local.finalized_epoch {
        return HelloAction::Ignore;
    }
    if chain.store.block_exists(&remote.head_root) {
        return HelloAction::AddPeer;
    }
    HelloAction::AddPeer
}

/// The table is total and first-match deterministic: every handshake yields
/// exactly one of the three actions, fixed by the chain and the two infos.
pub proof fn lemma_hello_action_total<P, T: TSignature<P>>(
    chain: &ChainHandle<P, T>,
    remote: PeerSyncInfo,
)
    ensures
        spec_hello_action(chain, remote) == HelloAction::DisconnectIrrelevant
            || spec_hello_action(chain, remote) == HelloAction::Ignore || spec_hello_action(
            chain,
            remote,
        ) == HelloAction::AddPeer,
{
}

/// A peer on the same fork whose finalized root matches the local chain and
/// whose finalized epoch is at least ours is always handed to sync.
pub proof fn lemma_compatible_peer_added<P, T: TSignature<P>>(
    chain: &ChainHandle<P, T>,
    remote: PeerSyncInfo,
)
    requires
        remote.fork_version@ == chain.head_state.fork.current_version@,
        remote.finalized_epoch >= chain.head_state.finalized_epoch,
        chain.spec_root_at_slot(
            spec_epoch_start_slot(remote.finalized_epoch, chain.chain_spec.slots_per_epoch),
        ) matches Some(root) && root@ == remote.finalized_root@,
    ensures
        spec_hello_action(chain, remote) == HelloAction::AddPeer,
{
}

/// What the chain reports after being handed a gossip block.
#[derive(Clone, Copy, Debug, PartialEq, Eq)]
pub enum BlockProcessingOutcome {
    /// The block was imported.
    Processed { block_root: Hash256 },
    /// The block's parent is not known; sync should look for it.
    ParentUnknown { parent: Hash256 },
    /// The block sits too far ahead of the local clock.
    FutureSlot { present_slot: Slot, block_slot: Slot },
    /// The block was rejected for any other reason.
    Invalid,
}

/// What the chain reports after being handed a gossip attestation.
#[derive(Clone, Copy, Debug, PartialEq, Eq)]
pub enum AttestationProcessingOutcome {
    Processed,
    /// The attested head block is not known.
    UnknownHeadBlock { beacon_block_root: Hash256 },
    /// The attestation was rejected for any other reason.
    Invalid,
}

/// An internal chain failure, opaque to the networking core.
#[derive(Clone, Copy, Debug, PartialEq, Eq, Structural)]
pub struct ChainError {
    pub code: u64,
}

/// The blocks stored under `roots`, in the order the roots were asked for;
/// roots the store does not know are skipped.
pub open spec fn spec_recent_blocks<P, T: TSignature<P>>(
    store: &Store<P, T>,
    roots: Seq<Hash256>,
) -> Seq<BeaconBlock<P, T>>
    decreases roots.len(),
{
    if roots.len() == 0 {
        Seq::empty()
    } else {
        let rest = spec_recent_blocks(store, roots.drop_first());
        match store.spec_get_block(roots[0]@) {
            Some(b) => seq![b] + rest,
            None => rest,
        }
    }
}

/// Resolve each requested root against the store, keeping input order and
/// skipping unknown roots.
pub fn recent_blocks<P: Copy, T: TSignature<P> + Copy>(
    store: &Store<P, T>,
    roots: &Vec<Hash256>,
) -> (r: Vec<BeaconBlock<P, T>>)
    ensures
        r@ == spec_recent_blocks(store, roots@),
{
    let ghost full = spec_recent_blocks(store, roots@);
    let mut out: Vec<BeaconBlock<P, T>> = Vec::new();
    let mut i: usize = 0;
    proof {
        assert(roots@.skip(0) =~= roots@);
    }
    while i < roots.len()
        invariant
            i <= roots@.len(),
            full == spec_recent_blocks(store, roots@),
            full == out@ + spec_recent_blocks(store, roots@.skip(i as int)),
        decreases roots@.len() - i,
    {
        proof {
            assert(roots@.skip(i as int).drop_first() =~= roots@.skip(i as int + 1));
            assert(roots@.skip(i as int)[0] == roots@[i as int]);
        }
        match store.get_block(&roots[i]) {
            Some(block) => {
                out.push(*block);
                proof {
                    assert(out@ + spec_recent_blocks(store, roots@.skip(i as int + 1)) =~= full);
                }
            },
            None => {},
        }
        i = i + 1;
    }
    proof {
        assert(roots@.skip(roots@.len() as int) =~= Seq::<Hash256>::empty());
        assert(out@ + Seq::<BeaconBlock<P, T>>::empty() =~= out@);
    }
    out
}

/// Processes validated messages from the network: it relays work to the
/// sync queue, answers RPC requests from the chain and the store, and
/// queues outbound commands on its network context.
pub struct MessageProcessor<P, T: TSignature<P>> {
    /// The read-only handle to the local chain.
    pub chain: ChainHandle<P, T>,
    /// The outbound command queue toward the network service.
    pub network: NetworkContext,
    /// The work items queued for the sync manager; drained through
    /// `take_sync_messages`.
    pub sync_out: Vec<SyncMessage<P, T>>,
}

impl<P, T: TSignature<P>> MessageProcessor<P, T> {
    /// The work items queued for the sync manager, oldest first.
    pub open spec fn spec_sync_sent(&self) -> Seq<SyncMessage<P, T>> {
        self.sync_out@
    }

    /// The commands queued for the network service, oldest first.
    pub closed spec fn spec_network_sent(&self) -> Seq<NetworkMessage> {
        self.network.spec_sent()
    }

    pub fn new(chain: ChainHandle<P, T>) -> (r: Self)
        ensures
            r.chain == chain,
            r.spec_sync_sent() == Seq::<SyncMessage<P, T>>::empty(),
            r.spec_network_sent() == Seq::<NetworkMessage>::empty(),
    {
        let r = MessageProcessor { chain, network: NetworkContext::new(), sync_out: Vec::new() };
        proof {
            assert(r.spec_sync_sent() =~= Seq::<SyncMessage<P, T>>::empty());
        }
        r
    }

    fn send_to_sync(&mut self, message: SyncMessage<P, T>)
        ensures
            final(self).chain == old(self).chain,
            final(self).spec_network_sent() == old(self).spec_network_sent(),
            final(self).spec_sync_sent() == old(self).spec_sync_sent().push(message),
    {
        self.sync_out.push(message);
    }

    /// Hand every queued sync work item to the caller, oldest first. The
    /// host forwards them to the sync manager's channel.
    pub fn take_sync_messages(&mut self) -> (r: Vec<SyncMessage<P, T>>)
        ensures
            final(self).chain == old(self).chain,
            final(self).spec_network_sent() == old(self).spec_network_sent(),
            r@ == old(self).spec_sync_sent(),
            final(self).spec_sync_sent() == Seq::<SyncMessage<P, T>>::empty(),
    {
        let r = self.sync_out.split_off(0);
        proof {
            assert(r@ =~= old(self).spec_sync_sent());
            assert(self.sync_out@ =~= Seq::<SyncMessage<P, T>>::empty());
        }
        r
    }

    /// Handle a peer disconnect: tell sync to drop the peer.
    pub fn on_disconnect(&mut self, peer_id: PeerId)
        ensures
            final(self).chain == old(self).chain,
            final(self).spec_network_sent() == old(self).spec_network_sent(),
            final(self).spec_sync_sent() == old(self).spec_sync_sent().push(
                SyncMessage::Disconnect(peer_id),
            ),
    {
        self.send_to_sync(SyncMessage::Disconnect(peer_id));
    }

    /// Handle the connection of a new peer: send it our `Hello`.
    pub fn on_connect(&mut self, peer_id: PeerId)
        ensures
            final(self).chain == old(self).chain,
            final(self).spec_sync_sent() == old(self).spec_sync_sent(),
            final(self).spec_network_sent() == old(self).spec_network_sent().push(
                NetworkMessage::RPC(
                    peer_id,
                    RPCEvent::Request(
                        0,
                        RPCRequest::Hello(spec_hello_message(&old(self).chain)),
                    ),
                ),
            ),
    {
        let hello = hello_message(&self.chain);
        self.network.send_rpc_request(None, peer_id, RPCRequest::Hello(hello));
    }

    /// Process a `Hello`, requesting new blocks or disconnecting the peer
    /// as the handshake table directs.
    pub fn process_hello(&mut self, peer_id: PeerId, hello: HelloMessage)
        ensures
            final(self).chain == old(self).chain,
            ({
                let action = spec_hello_action(
                    &old(self).chain,
                    PeerSyncInfo::from_spec(hello),
                );
                &&& action == HelloAction::DisconnectIrrelevant ==> {
                    &&& final(self).spec_network_sent() == old(self).spec_network_sent().push(
                        NetworkMessage::RPC(
                            peer_id,
                            RPCEvent::Request(
                                0,
                                RPCRequest::Goodbye(GoodbyeReason::IrrelevantNetwork),
                            ),
                        ),
                    )
                    &&& final(self).spec_sync_sent() == old(self).spec_sync_sent()
                }
                &&& action == HelloAction::Ignore ==> {
                    &&& final(self).spec_network_sent() == old(self).spec_network_sent()
                    &&& final(self).spec_sync_sent() == old(self).spec_sync_sent()
                }
                &&& action == HelloAction::AddPeer ==> {
                    &&& final(self).spec_network_sent() == old(self).spec_network_sent()
                    &&& final(self).spec_sync_sent() == old(self).spec_sync_sent().push(
                        SyncMessage::AddPeer(peer_id, PeerSyncInfo::from_spec(hello)),
                    )
                }
            }),
    {
        let remote = PeerSyncInfo::from(hello);
        let action = classify_hello(&self.chain, &remote);
        match action {
            HelloAction::DisconnectIrrelevant => {
                self.network.disconnect(peer_id, GoodbyeReason::IrrelevantNetwork);
            },
            HelloAction::Ignore => {},
            HelloAction::AddPeer => {
                self.send_to_sync(SyncMessage::AddPeer(peer_id, remote));
            },
        }
    }

    /// Handle a `Hello` request: answer with our own state, then classify
    /// the peer.
    pub fn on_hello_request(&mut self, peer_id: PeerId, request_id: RequestId, hello: HelloMessage)
        ensures
            final(self).chain == old(self).chain,
            ({
                let response = NetworkMessage::RPC(
                    peer_id,
                    RPCEvent::Response(
                        request_id,
                        RPCErrorResponse::Success(
                            RPCResponse::Hello(spec_hello_message(&old(self).chain)),
                        ),
                    ),
                );
                let action = spec_hello_action(
                    &old(self).chain,
                    PeerSyncInfo::from_spec(hello),
                );
                &&& action == HelloAction::DisconnectIrrelevant ==> {
                    &&& final(self).spec_network_sent() == old(self).spec_network_sent().push(
                        response,
                    ).push(
                        NetworkMessage::RPC(
                            peer_id,
                            RPCEvent::Request(
                                0,
                                RPCRequest::Goodbye(GoodbyeReason::IrrelevantNetwork),
                            ),
                        ),
                    )
                    &&& final(self).spec_sync_sent() == old(self).spec_sync_sent()
                }
                &&& action == HelloAction::Ignore ==> {
                    &&& final(self).spec_network_sent() == old(self).spec_network_sent().push(
                        response,
                    )
                    &&& final(self).spec_sync_sent() == old(self).spec_sync_sent()
                }
                &&& action == HelloAction::AddPeer ==> {
                    &&& final(self).spec_network_sent() == old(self).spec_network_sent().push(
                        response,
                    )
                    &&& final(self).spec_sync_sent() == old(self).spec_sync_sent().push(
                        SyncMessage::AddPeer(peer_id, PeerSyncInfo::from_spec(hello)),
                    )
                }
            }),
    {
        let local_hello = hello_message(&self.chain);
        self.network.send_rpc_response(peer_id, request_id, RPCResponse::Hello(local_hello));
        self.process_hello(peer_id, hello);
    }

    /// Process a `Hello` response, without sending another hello back.
    pub fn on_hello_response(&mut self, peer_id: PeerId, hello: HelloMessage)
        ensures
            final(self).chain == old(self).chain,
            ({
                let action = spec_hello_action(
                    &old(self).chain,
                    PeerSyncInfo::from_spec(hello),
                );
                &&& action == HelloAction::DisconnectIrrelevant ==> {
                    &&& final(self).spec_network_sent() == old(self).spec_network_sent().push(
                        NetworkMessage::RPC(
                            peer_id,
                            RPCEvent::Request(
                                0,
                                RPCRequest::Goodbye(GoodbyeReason::IrrelevantNetwork),
                            ),
                        ),
                    )
                    &&& final(self).spec_sync_sent() == old(self).spec_sync_sent()
                }
                &&& action == HelloAction::Ignore ==> {
                    &&& final(self).spec_network_sent() == old(self).spec_network_sent()
                    &&& final(self).spec_sync_sent() == old(self).spec_sync_sent()
                }
                &&& action == HelloAction::AddPeer ==> {
                    &&& final(self).spec_network_sent() == old(self).spec_network_sent()
                    &&& final(self).spec_sync_sent() == old(self).spec_sync_sent().push(
                        SyncMessage::AddPeer(peer_id, PeerSyncInfo::from_spec(hello)),
                    )
                }
            }),
    {
        self.process_hello(peer_id, hello);
    }

    /// Handle a `BeaconBlocks` response from a peer: hand the blocks to
    /// sync under the id the request carried.
    pub fn on_beacon_blocks_response(
        &mut self,
        peer_id: PeerId,
        request_id: RequestId,
        beacon_blocks: Vec<BeaconBlock<P, T>>,
    )
        ensures
            final(self).chain == old(self).chain,
            final(self).spec_network_sent() == old(self).spec_network_sent(),
            final(self).spec_sync_sent() == old(self).spec_sync_sent().push(
                SyncMessage::BeaconBlocksResponse { peer_id, request_id, beacon_blocks },
            ),
    {
        self.send_to_sync(SyncMessage::BeaconBlocksResponse { peer_id, request_id, beacon_blocks });
    }

    /// Handle a `RecentBeaconBlocks` response from a peer.
    pub fn on_recent_beacon_blocks_response(
        &mut self,
        peer_id: PeerId,
        request_id: RequestId,
        beacon_blocks: Vec<BeaconBlock<P, T>>,
    )
        ensures
            final(self).chain == old(self).chain,
            final(self).spec_network_sent() == old(self).spec_network_sent(),
            final(self).spec_sync_sent() == old(self).spec_sync_sent().push(
                SyncMessage::RecentBeaconBlocksResponse { peer_id, request_id, beacon_blocks },
            ),
    {
        self.send_to_sync(
            SyncMessage::RecentBeaconBlocksResponse { peer_id, request_id, beacon_blocks },
        );
    }

    /// Process a gossip block that the chain has already been handed:
    /// `outcome` is the chain's verdict. A block with an unknown parent is
    /// passed to sync; everything else is dropped here.
    pub fn on_block_gossip(
        &mut self,
        peer_id: PeerId,
        block: BeaconBlock<P, T>,
        outcome: Result<BlockProcessingOutcome, ChainError>,
    )
        ensures
            final(self).chain == old(self).chain,
            final(self).spec_network_sent() == old(self).spec_network_sent(),
            match outcome {
                Ok(BlockProcessingOutcome::ParentUnknown { .. }) => final(self).spec_sync_sent()
                    == old(self).spec_sync_sent().push(SyncMessage::UnknownBlock(peer_id, block)),
                _ => final(self).spec_sync_sent() == old(self).spec_sync_sent(),
            },
    {
        match outcome {
            Ok(BlockProcessingOutcome::ParentUnknown { parent: _ }) => {
                self.send_to_sync(SyncMessage::UnknownBlock(peer_id, block));
            },
            _ => {},
        }
    }

    /// Process a gossip attestation the chain has already been handed:
    /// every outcome is only logged by the host, so nothing is queued.
    pub fn on_attestation_gossip(
        &mut self,
        peer_id: PeerId,
        attestation: crate::attestation::Attestation<P, T>,
        outcome: Result<AttestationProcessingOutcome, ChainError>,
    )
        ensures
            final(self).chain == old(self).chain,
            final(self).spec_network_sent() == old(self).spec_network_sent(),
            final(self).spec_sync_sent() == old(self).spec_sync_sent(),
    {
    }
}

impl<P: Copy, T: TSignature<P> + Copy> MessageProcessor<P, T> {
    /// Handle a `RecentBeaconBlocks` request: answer with the stored blocks
    /// under the requested roots, in request order, unknown roots skipped.
    pub fn on_recent_beacon_blocks_request(
        &mut self,
        peer_id: PeerId,
        request_id: RequestId,
        request: RecentBeaconBlocksRequest,
    )
        ensures
            final(self).chain == old(self).chain,
            final(self).spec_sync_sent() == old(self).spec_sync_sent(),
            final(self).spec_network_sent().len() == old(self).spec_network_sent().len() + 1,
            final(self).spec_network_sent().drop_last() == old(self).spec_network_sent(),
            final(self).spec_network_sent().last() matches NetworkMessage::RPC(p, e) && p == peer_id
                && (e matches RPCEvent::Response(rid, RPCErrorResponse::Success(
            RPCResponse::BeaconBlocks(bytes),
            )) && rid == request_id && bytes@ == spec_blocks_payload(
                spec_recent_blocks(&old(self).chain.store, request.block_roots@),
            )),
    {
        let blocks = recent_blocks(&self.chain.store, &request.block_roots);
        let bytes = encode_blocks(&blocks);
        self.network.send_rpc_response(peer_id, request_id, RPCResponse::BeaconBlocks(bytes));
        proof {
            assert(final(self).spec_network_sent().drop_last() =~= old(self).spec_network_sent());
        }
    }
}

/// Whether `slot` lies in `[start, start + count)`.
pub open spec fn spec_in_range(slot: Slot, start: Slot, count: u64) -> bool {
    start <= slot && (slot as int) < start + count
}

/// The blocks the canonical walk yields for a range request, in walk order
/// (head first): entries whose slot is in range, resolved against the
/// store; missing entries are skipped, and a resolved block that sits
/// before the range start is dropped again.
pub open spec fn spec_range_walk<P, T: TSignature<P>>(
    store: &Store<P, T>,
    entries: Seq<(Hash256, Slot)>,
    start: Slot,
    count: u64,
) -> Seq<BeaconBlock<P, T>>
    decreases entries.len(),
{
    if entries.len() == 0 {
        Seq::empty()
    } else {
        let rest = spec_range_walk(store, entries.drop_first(), start, count);
        if spec_in_range(entries[0].1, start, count) {
            match store.spec_get_block(entries[0].0@) {
                Some(b) => if b.slot >= start {
                    seq![b] + rest
                } else {
                    rest
                },
                None => rest,
            }
        } else {
            rest
        }
    }
}

/// Drop every block whose slot equals the slot of the block just before
/// it: of a run of equal slots, the first block stays.
pub open spec fn spec_dedup_by_slot<P, T: TSignature<P>>(s: Seq<BeaconBlock<P, T>>) -> Seq<
    BeaconBlock<P, T>,
>
    decreases s.len(),
{
    if s.len() <= 1 {
        s
    } else if s[s.len() - 2].slot == s.last().slot {
        spec_dedup_by_slot(s.drop_last())
    } else {
        spec_dedup_by_slot(s.drop_last()).push(s.last())
    }
}

/// The answer to a block-range request: the walk's blocks in ascending
/// slot order, one block per slot.
pub open spec fn spec_range_response<P, T: TSignature<P>>(
    chain: &ChainHandle<P, T>,
    start: Slot,
    count: u64,
) -> Seq<BeaconBlock<P, T>> {
    spec_dedup_by_slot(spec_range_walk(&chain.store, chain.block_roots@, start, count).reverse())
}

/// Deduplication keeps at least the last block, at its slot.
proof fn lemma_dedup_last<P, T: TSignature<P>>(s: Seq<BeaconBlock<P, T>>)
    requires
        s.len() > 0,
    ensures
        spec_dedup_by_slot(s).len() > 0,
        spec_dedup_by_slot(s).last().slot == s.last().slot,
    decreases s.len(),
{
    if s.len() > 1 {
        lemma_dedup_last(s.drop_last());
    }
}

/// Collect the blocks a range request returns: walk the chain backwards
/// from the head, keep the stored blocks with slot in
/// `[start_slot, start_slot + count)`, reverse into ascending order and
/// keep one block per slot.
pub fn range_response_blocks<P: Copy, T: TSignature<P> + Copy>(
    chain: &ChainHandle<P, T>,
    start_slot: Slot,
    count: u64,
) -> (r: Vec<BeaconBlock<P, T>>)
    ensures
        r@ == spec_range_response(chain, start_slot, count),
{
    let ghost fullwalk = spec_range_walk(&chain.store, chain.block_roots@, start_slot, count);
    let mut walk: Vec<BeaconBlock<P, T>> = Vec::new();
    let mut i: usize = 0;
    proof {
        assert(chain.block_roots@.skip(0) =~= chain.block_roots@);
    }
    while i < chain.block_roots.len()
        invariant
            i <= chain.block_roots@.len(),
            fullwalk == spec_range_walk(&chain.store, chain.block_roots@, start_slot, count),
            fullwalk == walk@ + spec_range_walk(
                &chain.store,
                chain.block_roots@.skip(i as int),
                start_slot,
                count,
            ),
        decreases chain.block_roots@.len() - i,
    {
        proof {
            assert(chain.block_roots@.skip(i as int).drop_first() =~= chain.block_roots@.skip(
                i as int + 1,
            ));
            assert(chain.block_roots@.skip(i as int)[0] == chain.block_roots@[i as int]);
        }
        let entry = chain.block_roots[i];
        if entry.1 >= start_slot && entry.1 - start_slot < count {
            match chain.store.get_block(&entry.0) {
                Some(block) => {
                    if block.slot >= start_slot {
                        walk.push(*block);
                        proof {
                            assert(walk@ + spec_range_walk(
                                &chain.store,
                                chain.block_roots@.skip(i as int + 1),
                                start_slot,
                                count,
                            ) =~= fullwalk);
                        }
                    }
                },
                None => {},
            }
        }
        i = i + 1;
    }
    proof {
        assert(chain.block_roots@.skip(chain.block_roots@.len() as int) =~= Seq::<(
            Hash256,
            Slot,
        )>::empty());
        assert(walk@ + Seq::<BeaconBlock<P, T>>::empty() =~= walk@);
        assert(walk@ == fullwalk);
    }
    let mut asc: Vec<BeaconBlock<P, T>> = Vec::new();
    let mut j: usize = walk.len();
    while j > 0
        invariant
            j <= walk@.len(),
            asc@.len() == walk@.len() - j,
            forall|k: int| 0 <= k < asc@.len() ==> asc@[k] == walk@[walk@.len() - 1 - k],
        decreases j,
    {
        asc.push(walk[j - 1]);
        j = j - 1;
    }
    proof {
        assert(asc@ =~= walk@.reverse());
    }
    let ghost ascs = asc@;
    let mut out: Vec<BeaconBlock<P, T>> = Vec::new();
    let mut k: usize = 0;
    proof {
        assert(ascs.take(0) =~= Seq::<BeaconBlock<P, T>>::empty());
    }
    while k < asc.len()
        invariant
            k <= asc@.len(),
            ascs == asc@,
            out@ == spec_dedup_by_slot(ascs.take(k as int)),
        decreases asc@.len() - k,
    {
        proof {
            assert(ascs.take(k as int + 1).drop_last() =~= ascs.take(k as int));
            assert(ascs.take(k as int + 1).last() == ascs[k as int]);
            if k > 0 {
                lemma_dedup_last(ascs.take(k as int));
                assert(ascs.take(k as int).last() == ascs[k as int - 1]);
            }
        }
        let push_it: bool = if out.len() == 0 {
            true
        } else {
            out[out.len() - 1].slot != asc[k].slot
        };
        if push_it {
            out.push(asc[k]);
        }
        k = k + 1;
    }
    proof {
        assert(ascs.take(ascs.len() as int) =~= ascs);
    }
    out
}

/// Every block the walk keeps sits in the requested range, the walk runs
/// from high slots to low ones, and it starts no higher than the first
/// walk entry.
proof fn lemma_walk_range_sorted<P, T: TSignature<P>>(
    store: &Store<P, T>,
    entries: Seq<(Hash256, Slot)>,
    start: Slot,
    count: u64,
)
    requires
        forall|i: int, j: int| 0 <= i <= j < entries.len() ==> entries[i].1 >= entries[j].1,
        forall|i: int|
            0 <= i < entries.len() ==> match store.spec_get_block(#[trigger] entries[i].0@) {
                Some(b) => b.slot == entries[i].1,
                None => true,
            },
    ensures
        ({
            let w = spec_range_walk(store, entries, start, count);
            &&& forall|i: int| 0 <= i < w.len() ==> spec_in_range(#[trigger] w[i].slot, start, count)
            &&& forall|i: int, j: int| 0 <= i <= j < w.len() ==> w[i].slot >= w[j].slot
            &&& (w.len() > 0 && entries.len() > 0) ==> w[0].slot <= entries[0].1
        }),
    decreases entries.len(),
{
    if entries.len() > 0 {
        let rest = entries.drop_first();
        assert(forall|i: int, j: int| 0 <= i <= j < rest.len() ==> rest[i].1 >= rest[j].1);
        assert forall|i: int| 0 <= i < rest.len() implies match store.spec_get_block(
            #[trigger] rest[i].0@,
        ) {
            Some(b) => b.slot == rest[i].1,
            None => true,
        } by {
            assert(rest[i] == entries[i + 1]);
        }
        lemma_walk_range_sorted(store, rest, start, count);
        let w = spec_range_walk(store, entries, start, count);
        let wr = spec_range_walk(store, rest, start, count);
        if spec_in_range(entries[0].1, start, count) && store.spec_get_block(entries[0].0@) is Some
            && store.spec_get_block(entries[0].0@).unwrap().slot >= start {
            let b = store.spec_get_block(entries[0].0@).unwrap();
            assert(w == seq![b] + wr);
            assert(w[0] == b);
            assert(forall|i: int| 1 <= i < w.len() ==> w[i] == wr[i - 1]);
            if rest.len() > 0 && wr.len() > 0 {
                assert(wr[0].slot <= rest[0].1);
                assert(rest[0].1 <= entries[0].1);
            }
        } else {
            assert(w == wr);
            if w.len() > 0 && rest.len() > 0 {
                assert(w[0].slot <= rest[0].1);
                assert(rest[0].1 <= entries[0].1);
            }
        }
    }
}

/// On a slot-wise non-decreasing list, deduplication leaves strictly
/// increasing slots and keeps every block's slot property.
proof fn lemma_dedup_ascending<P, T: TSignature<P>>(s: Seq<BeaconBlock<P, T>>, start: Slot, count: u64)
    requires
        forall|i: int, j: int| 0 <= i <= j < s.len() ==> s[i].slot <= s[j].slot,
        forall|i: int| 0 <= i < s.len() ==> spec_in_range(#[trigger] s[i].slot, start, count),
    ensures
        ({
            let d = spec_dedup_by_slot(s);
            &&& forall|i: int| 0 <= i < d.len() ==> spec_in_range(#[trigger] d[i].slot, start, count)
            &&& forall|i: int, j: int| 0 <= i < j < d.len() ==> d[i].slot < d[j].slot
        }),
    decreases s.len(),
{
    if s.len() > 1 {
        let prior = s.drop_last();
        assert(forall|i: int, j: int| 0 <= i <= j < prior.len() ==> prior[i].slot <= prior[j].slot);
        assert(forall|i: int|
            0 <= i < prior.len() ==> spec_in_range(#[trigger] prior[i].slot, start, count));
        lemma_dedup_ascending(prior, start, count);
        lemma_dedup_last(prior);
        if s[s.len() - 2].slot != s.last().slot {
            let d_prior = spec_dedup_by_slot(prior);
            assert(d_prior.last().slot == s[s.len() - 2].slot);
            assert(s[s.len() - 2].slot <= s.last().slot);
            let d = spec_dedup_by_slot(s);
            assert(d == d_prior.push(s.last()));
            assert forall|i: int, j: int| 0 <= i < j < d.len() implies d[i].slot < d[j].slot by {
                if j < d.len() - 1 {
                } else {
                    assert(d[i].slot <= d_prior.last().slot || d[i].slot < d_prior.last().slot || i
                        == d.len() - 2);
                    if i < d.len() - 2 {
                        assert(d[i].slot < d_prior.last().slot);
                    }
                }
            }
        }
    }
}

/// The answer to a block-range request carries pairwise distinct slots in
/// `[start, start + count)`, in ascending slot order.
pub proof fn lemma_range_response_slots<P, T: TSignature<P>>(
    chain: &ChainHandle<P, T>,
    start: Slot,
    count: u64,
)
    requires
        chain.well_formed(),
    ensures
        ({
            let resp = spec_range_response(chain, start, count);
            &&& forall|i: int|
                0 <= i < resp.len() ==> start <= #[trigger] resp[i].slot && resp[i].slot < start
                    + count
            &&& forall|i: int, j: int| 0 <= i < j < resp.len() ==> resp[i].slot < resp[j].slot
        }),
{
    lemma_walk_range_sorted(&chain.store, chain.block_roots@, start, count);
    let w = spec_range_walk(&chain.store, chain.block_roots@, start, count);
    let rev = w.reverse();
    assert(forall|i: int| 0 <= i < rev.len() ==> rev[i] == w[w.len() - 1 - i]);
    assert(forall|i: int|
        0 <= i < rev.len() ==> spec_in_range(#[trigger] rev[i].slot, start, count));
    assert forall|i: int, j: int| 0 <= i <= j < rev.len() implies rev[i].slot <= rev[j].slot by {
        assert(rev[i] == w[w.len() - 1 - i]);
        assert(rev[j] == w[w.len() - 1 - j]);
    }
    lemma_dedup_ascending(rev, start, count);
}

impl<P: Copy, T: TSignature<P> + Copy> MessageProcessor<P, T> {
    /// Handle a `BeaconBlocks` request: answer with the blocks whose slot
    /// lies in the requested range, ascending, one block per slot.
    pub fn on_beacon_blocks_request(
        &mut self,
        peer_id: PeerId,
        request_id: RequestId,
        req: BeaconBlocksRequest,
    )
        ensures
            final(self).chain == old(self).chain,
            final(self).spec_sync_sent() == old(self).spec_sync_sent(),
            final(self).spec_network_sent().len() == old(self).spec_network_sent().len() + 1,
            final(self).spec_network_sent().drop_last() == old(self).spec_network_sent(),
            final(self).spec_network_sent().last() matches NetworkMessage::RPC(p, e) && p == peer_id
                && (e matches RPCEvent::Response(rid, RPCErrorResponse::Success(
            RPCResponse::BeaconBlocks(bytes),
            )) && rid == request_id && bytes@ == spec_blocks_payload(
                spec_range_response(&old(self).chain, req.start_slot, req.count),
            )),
    {
        let blocks = range_response_blocks(&self.chain, req.start_slot, req.count);
        let bytes = encode_blocks(&blocks);
        self.network.send_rpc_response(peer_id, request_id, RPCResponse::BeaconBlocks(bytes));
        proof {
            assert(final(self).spec_network_sent().drop_last() =~= old(self).spec_network_sent());
        }
    }
}

/// The bytes a block's proposer signature is checked over: the block's
/// signing root and the proposer domain.
pub open spec fn spec_block_message(root: Hash256, domain: u64) -> Seq<u8> {
    root@ + spec_u64_to_le_bytes(domain)
}

pub fn block_message(root: &Hash256, domain: u64) -> (r: Vec<u8>)
    ensures
        r@ == spec_block_message(*root, domain),
{
    let mut out: Vec<u8> = Vec::new();
    append_bytes(&mut out, root.bytes.as_slice());
    append_u64(&mut out, domain);
    proof {
        assert(out@ =~= spec_block_message(*root, domain));
    }
    out
}

/// Whether a gossip block is fit to be forwarded: its parent resolves in
/// the store, a state for the parent is at hand (the head state on the
/// fast path, the stored one otherwise), the state covers the block's
/// slot, and the proposer assigned to that slot signed the block.
pub open spec fn spec_should_forward_block<P, T: TSignature<P>>(
    chain: &ChainHandle<P, T>,
    block: &BeaconBlock<P, T>,
) -> bool
    recommends
        chain.chain_spec.well_formed(),
{
    match chain.store.spec_get_block(block.parent_root@) {
        None => false,
        Some(parent) => {
            let state_opt = if parent.state_root@ == chain.head_state_root@ {
                Some(chain.head_state)
            } else {
                chain.store.spec_get_state(parent.state_root@)
            };
            match state_opt {
                None => false,
                Some(state) => {
                    let spe = chain.chain_spec.slots_per_epoch;
                    if RelativeEpoch::spec_from_slot(parent.slot, block.slot, spe) is Err
                        && state.slot > block.slot {
                        false
                    } else {
                        match state.spec_proposer_at(block.slot) {
                            None => false,
                            Some(idx) => if (idx as int) < state.validators@.len() {
                                block.signature.spec_point().spec_verify(
                                    &state.validators@[idx as int].pubkey,
                                    spec_block_message(
                                        block.root,
                                        chain.chain_spec.spec_get_domain(
                                            spec_slot_epoch(block.slot, spe),
                                            Domain::BeaconProposer,
                                            &state.fork,
                                        ),
                                    ),
                                )
                            } else {
                                false
                            },
                        }
                    }
                },
            }
        },
    }
}

/// Whether a gossip attestation is fit to be forwarded: it verifies
/// against the head state, or against the state of the block it attests
/// to, read from the store.
pub open spec fn spec_should_forward_attestation<P, T: TSignature<P>>(
    chain: &ChainHandle<P, T>,
    attestation: &Attestation<P, T>,
) -> bool {
    let head_domain = chain.chain_spec.spec_get_domain(
        attestation.data.target_epoch,
        Domain::Attestation,
        &chain.head_state.fork,
    );
    if spec_attestation_valid_under(&chain.head_state, attestation, head_domain) {
        true
    } else {
        match chain.store.spec_get_block(attestation.data.beacon_block_root@) {
            None => false,
            Some(block) => match chain.store.spec_get_state(block.state_root@) {
                None => false,
                Some(state) => spec_attestation_valid_under(
                    &state,
                    attestation,
                    chain.chain_spec.spec_get_domain(
                        attestation.data.target_epoch,
                        Domain::Attestation,
                        &state.fork,
                    ),
                ),
            },
        }
    }
}

impl<P: Copy, T: TSignature<P> + Copy> MessageProcessor<P, T> {
    /// Decide whether a gossip block should be forwarded to other peers:
    /// true exactly when the proposer for the block's slot, derived from a
    /// state reachable from the block's parent root, signed it.
    pub fn should_forward_block(&mut self, block: &BeaconBlock<P, T>) -> (r: bool)
        requires
            old(self).chain.chain_spec.well_formed(),
        ensures
            *final(self) == *old(self),
            r == spec_should_forward_block(&old(self).chain, block),
    {
        let parent = match self.chain.store.get_block(&block.parent_root) {
            Some(p) => p,
            None => {
                return false;
            },
        };
        let state: &BeaconState<P> = if parent.state_root.same(&self.chain.head_state_root) {
            &self.chain.head_state
        } else {
            match self.chain.store.get_state(&parent.state_root) {
                Some(s) => s,
                None => {
                    return false;
                },
            }
        };
        let spe = self.chain.chain_spec.slots_per_epoch;
        match RelativeEpoch::from_slot(parent.slot, block.slot, spe) {
            Ok(_) => {
                // The parent's epoch relates to the block's: the state's
                // committee tables cover the block's slot as they stand.
            },
            Err(_) => {
                // Too far apart: the chain fast-forwards the state through
                // per-slot processing, which never runs backwards.
                if state.slot > block.slot {
                    return false;
                }
            },
        }
        let proposer_index = match state.proposer_at(block.slot) {
            Some(i) => i,
            None => {
                return false;
            },
        };
        let vlen = state.validators.len();
        if proposer_index >= (vlen as u64) {
            return false;
        }
        let proposer = &state.validators[proposer_index as usize];
        let domain = self.chain.chain_spec.get_domain(
            slot_epoch(block.slot, spe),
            Domain::BeaconProposer,
            &state.fork,
        );
        let message = block_message(&block.root, domain);
        block.signature.verify(&proposer.pubkey, message.as_slice())
    }

    /// Decide whether a gossip attestation should be forwarded: check it
    /// against the head state first (no store read), then against the
    /// state of the block it attests to.
    pub fn should_forward_attestation(&self, attestation: &Attestation<P, T>) -> (r: bool)
        ensures
            r == spec_should_forward_attestation(&self.chain, attestation),
    {
        let head_domain = self.chain.chain_spec.get_domain(
            attestation.data.target_epoch,
            Domain::Attestation,
            &self.chain.head_state.fork,
        );
        match get_indexed_attestation(&self.chain.head_state, attestation) {
            Ok(indexed) => {
                // An invalid signature here does not condemn the
                // attestation: the head state may hold another registry.
                if indexed_attestation_signature_valid(
                    &self.chain.head_state,
                    &indexed,
                    head_domain,
                ) {
                    return true;
                }
            },
            Err(_) => {},
        }
        match self.chain.store.get_block(&attestation.data.beacon_block_root) {
            Some(block) => match self.chain.store.get_state(&block.state_root) {
                Some(state) => {
                    let domain = self.chain.chain_spec.get_domain(
                        attestation.data.target_epoch,
                        Domain::Attestation,
                        &state.fork,
                    );
                    match get_indexed_attestation(state, attestation) {
                        Ok(indexed) => indexed_attestation_signature_valid(state, &indexed, domain),
                        Err(_) => false,
                    }
                },
                None => false,
            },
            None => false,
        }
    }
}

} // verus!
