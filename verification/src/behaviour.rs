//! The network behaviour: one event stream over the sub-protocols.
//!
//! The behaviour multiplexes gossip, RPC and identify events into a single
//! FIFO queue that the host polls one event at a time, suppresses duplicate
//! gossip through the bounded seen-message cache, and queues the commands
//! (subscribe, publish, propagate, send) that the host hands to the
//! transport.

use vstd::prelude::*;
use vstd::bytes::spec_u64_to_le_bytes;
use crate::codec::{
    GossipCodec, PubsubMessage, append_bytes, append_u64, spec_decodable, spec_pubsub_payload,
    spec_topic_views,
};
use crate::seen_cache::{SeenCache, lru_cap, lru_keys, lru_len, lru_new, lru_put};
use crate::signature::TSignature;
use crate::simple_sync::RPCEvent;
use crate::types::{MessageId, PeerId, bytes_eq};

verus! {

/// Capacity of the seen-gossip cache.
pub const SEEN_CACHE_SIZE: usize = 256;

/// Hard cap on the listen addresses taken from an identify exchange.
pub const MAX_IDENTIFY_ADDRESSES: usize = 20;

/// A raw gossip message as the mesh delivers it: payload bytes and the
/// topics it was received on.
pub struct GossipsubMessage {
    pub data: Vec<u8>,
    pub topics: Vec<Vec<u8>>,
}

/// Events the gossip sub-behaviour injects.
pub enum GossipsubEvent {
    /// A message forwarded by `PeerId`, held under `MessageId`.
    Message(PeerId, MessageId, GossipsubMessage),
    Subscribed { peer_id: PeerId, topic: Vec<u8> },
    Unsubscribed { peer_id: PeerId, topic: Vec<u8> },
}

/// Events the RPC sub-behaviour injects.
pub enum RPCMessage {
    RPC(PeerId, RPCEvent),
    PeerDialed(PeerId),
    PeerDisconnected(PeerId),
}

/// What an identify exchange reports about a peer.
pub struct IdentifyInfo {
    pub protocol_version: Vec<u8>,
    pub agent_version: Vec<u8>,
    pub listen_addrs: Vec<Vec<u8>>,
}

/// Events the identify sub-behaviour injects.
pub enum IdentifyEvent {
    Received { peer_id: PeerId, info: IdentifyInfo, observed_addr: Vec<u8> },
    Sent { peer_id: PeerId },
    Error { peer_id: PeerId },
}

/// The events the behaviour hands to its host, one per poll.
pub enum BehaviourEvent<P, T: TSignature<P>> {
    /// A received RPC event and the peer it came from.
    RPC(PeerId, RPCEvent),
    /// An initial connection to a new peer completed.
    PeerDialed(PeerId),
    /// A peer disconnected.
    PeerDisconnected(PeerId),
    /// A fresh, decoded gossip message.
    GossipMessage {
        /// Held-message id, used when propagating after validation.
        id: MessageId,
        /// The peer the message came from, not the one that published it.
        source: PeerId,
        /// The topics the message rode on.
        topics: Vec<Vec<u8>>,
        /// The decoded payload.
        message: PubsubMessage<P, T>,
    },
    /// A peer subscribed to a topic.
    PeerSubscribed(PeerId, Vec<u8>),
}

/// Commands the behaviour queues for the transport.
pub enum NetworkCommand {
    Subscribe(Vec<u8>),
    Unsubscribe(Vec<u8>),
    Publish { topic: Vec<u8>, data: Vec<u8> },
    PropagateMessage { message_id: MessageId, propagation_source: PeerId },
    SendRPC(PeerId, RPCEvent),
}

/// The canonical key of a list of topics: each topic length-prefixed.
pub open spec fn spec_topics_key(topics: Seq<Seq<u8>>) -> Seq<u8>
    decreases topics.len(),
{
    if topics.len() == 0 {
        Seq::empty()
    } else {
        spec_topics_key(topics.drop_last()) + spec_u64_to_le_bytes(
            topics.last().len() as u64,
        ) + topics.last()
    }
}

/// The canonical key of a gossip message in the seen cache: the topic
/// count, each topic length-prefixed, then the payload, length-prefixed.
/// Messages with equal content and topic list get equal keys.
pub open spec fn spec_gossip_key(topics: Seq<Seq<u8>>, data: Seq<u8>) -> Seq<u8> {
    spec_u64_to_le_bytes(topics.len() as u64) + spec_topics_key(topics) + spec_u64_to_le_bytes(
        data.len() as u64,
    ) + data
}

/// Build the seen-cache key of a gossip message.
pub fn gossip_key(message: &GossipsubMessage) -> (r: Vec<u8>)
    ensures
        r@ == spec_gossip_key(spec_topic_views(message.topics@), message.data@),
{
    let ghost views = spec_topic_views(message.topics@);
    let mut out: Vec<u8> = Vec::new();
    append_u64(&mut out, message.topics.len() as u64);
    let ghost mid = out@;
    let mut i: usize = 0;
    proof {
        assert(spec_topics_key(views.take(0)) =~= Seq::<u8>::empty());
        assert(out@ =~= mid + spec_topics_key(views.take(0)));
    }
    while i < message.topics.len()
        invariant
            i <= message.topics@.len(),
            views == spec_topic_views(message.topics@),
            out@ == mid + spec_topics_key(views.take(i as int)),
        decreases message.topics@.len() - i,
    {
        append_u64(&mut out, message.topics[i].len() as u64);
        append_bytes(&mut out, message.topics[i].as_slice());
        proof {
            assert(views.take(i as int + 1).drop_last() =~= views.take(i as int));
            assert(views.take(i as int + 1).last() == message.topics@[i as int]@);
            assert(out@ =~= mid + spec_topics_key(views.take(i as int + 1)));
        }
        i = i + 1;
    }
    proof {
        assert(views.take(views.len() as int) =~= views);
    }
    append_u64(&mut out, message.data.len() as u64);
    append_bytes(&mut out, message.data.as_slice());
    proof {
        assert(out@ =~= spec_gossip_key(views, message.data@));
    }
    out
}

/// The composite behaviour: the FIFO event queue the host polls, the seen
/// cache, the subscription set, the held message ids, and the outbound
/// command queue.
pub struct Behaviour<P, T: TSignature<P>> {
    /// Events awaiting the host, oldest first; `poll` releases one each.
    pub events: Vec<BehaviourEvent<P, T>>,
    /// Recently seen gossip messages, keyed by content and topics.
    pub seen_gossip_messages: SeenCache,
    /// Topics currently subscribed.
    pub subscriptions: Vec<Vec<u8>>,
    /// Ids of gossip messages received and held for propagation.
    pub received_ids: Vec<MessageId>,
    /// Commands awaiting the transport, oldest first.
    pub commands: Vec<NetworkCommand>,
    /// The payload codec, keyed on the host's topic strings.
    pub codec: GossipCodec,
    /// Connected-peer count, as the discovery layer tracks it.
    pub connected: usize,
    /// Peers currently banned.
    pub banned: Vec<PeerId>,
}

impl<P, T: TSignature<P>> Behaviour<P, T> {
    /// The keys the seen cache currently holds.
    pub open spec fn spec_seen(&self) -> Set<Seq<u8>> {
        lru_keys(self.seen_gossip_messages)
    }

    /// The event queue, oldest first.
    pub open spec fn spec_events(&self) -> Seq<BehaviourEvent<P, T>> {
        self.events@
    }

    /// The command queue, oldest first.
    pub open spec fn spec_commands(&self) -> Seq<NetworkCommand> {
        self.commands@
    }

    /// Whether a held message id is known.
    pub open spec fn spec_received(&self, id: MessageId) -> bool {
        self.received_ids@.contains(id)
    }

    /// Whether a topic is in the subscription set.
    pub open spec fn spec_subscribed(&self, topic: Seq<u8>) -> bool {
        spec_topic_views(self.subscriptions@).contains(topic)
    }

    pub fn new(codec: GossipCodec) -> (r: Self)
        ensures
            r.spec_seen() == Set::<Seq<u8>>::empty(),
            lru_cap(r.seen_gossip_messages) == SEEN_CACHE_SIZE as nat,
            r.spec_events() == Seq::<BehaviourEvent<P, T>>::empty(),
            r.spec_commands() == Seq::<NetworkCommand>::empty(),
            r.subscriptions@ == Seq::<Vec<u8>>::empty(),
            r.received_ids@ == Seq::<MessageId>::empty(),
            r.banned@ == Seq::<PeerId>::empty(),
            r.connected == 0,
            r.codec == codec,
    {
        let r = Behaviour {
            events: Vec::new(),
            seen_gossip_messages: lru_new(SEEN_CACHE_SIZE),
            subscriptions: Vec::new(),
            received_ids: Vec::new(),
            commands: Vec::new(),
            codec,
            connected: 0,
            banned: Vec::new(),
        };
        proof {
            assert(r.spec_events() =~= Seq::<BehaviourEvent<P, T>>::empty());
            assert(r.spec_commands() =~= Seq::<NetworkCommand>::empty());
            assert(r.subscriptions@ =~= Seq::<Vec<u8>>::empty());
            assert(r.received_ids@ =~= Seq::<MessageId>::empty());
            assert(r.banned@ =~= Seq::<PeerId>::empty());
        }
        r
    }

    /// How many gossip messages the seen cache currently holds.
    pub fn seen_gossip_len(&self) -> (r: usize)
        ensures
            r as nat == self.spec_seen().len(),
    {
        lru_len(&self.seen_gossip_messages)
    }

    /// Release the oldest queued event, or report that none is ready.
    /// Events queued together are released one per poll.
    pub fn poll(&mut self) -> (r: Option<BehaviourEvent<P, T>>)
        ensures
            old(self).spec_events().len() == 0 ==> r is None && *final(self) == *old(self),
            old(self).spec_events().len() > 0 ==> {
                &&& r == Some(old(self).spec_events()[0])
                &&& final(self).spec_events() == old(self).spec_events().remove(0)
                &&& final(self).spec_commands() == old(self).spec_commands()
                &&& final(self).spec_seen() == old(self).spec_seen()
            },
    {
        if self.events.len() == 0 {
            None
        } else {
            Some(self.events.remove(0))
        }
    }

    /// Handle a gossip event. A message is keyed by content and topics and
    /// put in the seen cache: while the key stays in the cache, redeliveries
    /// of the same message add no event, so the host observes each message
    /// at most once. A fresh message that decodes is queued; one that does
    /// not is dropped.
    pub fn inject_gossipsub_event(&mut self, event: GossipsubEvent)
        ensures
            final(self).spec_commands() == old(self).spec_commands(),
            final(self).subscriptions@ == old(self).subscriptions@,
            final(self).connected == old(self).connected,
            final(self).banned@ == old(self).banned@,
            final(self).codec == old(self).codec,
            lru_cap(final(self).seen_gossip_messages) == lru_cap(old(self).seen_gossip_messages),
            match event {
                GossipsubEvent::Message(source, id, msg) => {
                    let key = spec_gossip_key(spec_topic_views(msg.topics@), msg.data@);
                    &&& final(self).spec_seen().contains(key)
                    &&& final(self).spec_seen().finite()
                    &&& final(self).spec_seen().len() <= lru_cap(old(self).seen_gossip_messages)
                    &&& final(self).spec_received(id)
                    &&& old(self).spec_seen().contains(key) ==> final(self).spec_events() == old(
                        self,
                    ).spec_events()
                    &&& (!old(self).spec_seen().contains(key) && !spec_decodable::<P, T>(
                        &old(self).codec,
                        spec_topic_views(msg.topics@),
                        msg.data@,
                    )) ==> final(self).spec_events() == old(self).spec_events()
                    &&& (!old(self).spec_seen().contains(key) && spec_decodable::<P, T>(
                        &old(self).codec,
                        spec_topic_views(msg.topics@),
                        msg.data@,
                    )) ==> {
                        &&& final(self).spec_events().len() == old(self).spec_events().len() + 1
                        &&& final(self).spec_events().drop_last() == old(self).spec_events()
                        &&& final(self).spec_events().last() matches BehaviourEvent::GossipMessage {
                            id: eid,
                            source: esrc,
                            topics: etopics,
                            message: emsg,
                        } && eid == id && esrc == source && spec_topic_views(etopics@)
                            == spec_topic_views(msg.topics@) && spec_pubsub_payload(emsg)
                            == msg.data@
                    }
                },
                GossipsubEvent::Subscribed { peer_id, topic } => {
                    &&& final(self).spec_seen() == old(self).spec_seen()
                    &&& final(self).received_ids@ == old(self).received_ids@
                    &&& final(self).spec_events().len() == old(self).spec_events().len() + 1
                    &&& final(self).spec_events().drop_last() == old(self).spec_events()
                    &&& final(self).spec_events().last() matches BehaviourEvent::PeerSubscribed(
                        p,
                        t,
                    ) && p == peer_id && t@ == topic@
                },
                GossipsubEvent::Unsubscribed { .. } => *final(self) == *old(self),
            },
    {
        match event {
            GossipsubEvent::Message(source, id, msg) => {
                let key = gossip_key(&msg);
                let previous = lru_put(&mut self.seen_gossip_messages, key);
                self.record_received(id);
                if previous.is_none() {
                    match self.codec.decode::<P, T>(&msg.topics, &msg.data) {
                        Ok(message) => {
                            let ghost before = self.events@;
                            self.events.push(
                                BehaviourEvent::GossipMessage {
                                    id,
                                    source,
                                    topics: msg.topics,
                                    message,
                                },
                            );
                            proof {
                                assert(self.events@.drop_last() =~= before);
                            }
                        },
                        Err(_) => {
                            // Malformed payloads are logged by the host and
                            // dropped: decoding failures are not fatal.
                        },
                    }
                } else {
                    // A duplicate within the cache's window: drop silently.
                }
            },
            GossipsubEvent::Subscribed { peer_id, topic } => {
                let ghost before = self.events@;
                self.events.push(BehaviourEvent::PeerSubscribed(peer_id, topic));
                proof {
                    assert(self.events@.drop_last() =~= before);
                }
            },
            GossipsubEvent::Unsubscribed { .. } => {},
        }
    }

    /// Remember a held message id, once.
    #[verifier::loop_isolation(false)]
    fn record_received(&mut self, id: MessageId)
        ensures
            final(self).spec_received(id),
            final(self).events@ == old(self).events@,
            final(self).commands@ == old(self).commands@,
            final(self).subscriptions@ == old(self).subscriptions@,
            final(self).seen_gossip_messages == old(self).seen_gossip_messages,
            final(self).connected == old(self).connected,
            final(self).banned@ == old(self).banned@,
            final(self).codec == old(self).codec,
            forall|other: MessageId|
                old(self).spec_received(other) ==> final(self).spec_received(other),
    {
        let mut i: usize = 0;
        while i < self.received_ids.len()
            invariant
                i <= self.received_ids@.len(),
                forall|j: int| 0 <= j < i ==> self.received_ids@[j] != id,
        decreases self.received_ids@.len() - i,
        {
            if self.received_ids[i] == id {
                return ;
            }
            i = i + 1;
        }
        let ghost before = self.received_ids@;
        self.received_ids.push(id);
        proof {
            assert(self.received_ids@.last() == id);
            assert(forall|other: MessageId|
                before.contains(other) ==> self.received_ids@.contains(other)) by {
                assert(forall|j: int|
                    0 <= j < before.len() ==> self.received_ids@[j] == before[j]);
            }
        }
    }

    /// Handle an RPC sub-behaviour event: queue the matching behaviour
    /// event and track the connection count.
    pub fn inject_rpc_event(&mut self, event: RPCMessage)
        ensures
            final(self).spec_commands() == old(self).spec_commands(),
            final(self).spec_seen() == old(self).spec_seen(),
            final(self).subscriptions@ == old(self).subscriptions@,
            final(self).banned@ == old(self).banned@,
            final(self).spec_events().len() == old(self).spec_events().len() + 1,
            final(self).spec_events().drop_last() == old(self).spec_events(),
            match event {
                RPCMessage::RPC(peer_id, rpc_event) => final(self).spec_events().last()
                    == BehaviourEvent::<P, T>::RPC(peer_id, rpc_event) && final(self).connected
                    == old(self).connected,
                RPCMessage::PeerDialed(peer_id) => final(self).spec_events().last()
                    == BehaviourEvent::<P, T>::PeerDialed(peer_id) && final(self).connected as int
                    == if old(self).connected < usize::MAX {
                    old(self).connected + 1
                } else {
                    old(self).connected as int
                },
                RPCMessage::PeerDisconnected(peer_id) => final(self).spec_events().last()
                    == BehaviourEvent::<P, T>::PeerDisconnected(peer_id) && final(self).connected
                    as int == if old(self).connected > 0 {
                    old(self).connected - 1
                } else {
                    0
                },
            },
    {
        let ghost before = self.events@;
        match event {
            RPCMessage::RPC(peer_id, rpc_event) => {
                self.events.push(BehaviourEvent::RPC(peer_id, rpc_event));
            },
            RPCMessage::PeerDialed(peer_id) => {
                if self.connected < usize::MAX {
                    self.connected = self.connected + 1;
                }
                self.events.push(BehaviourEvent::PeerDialed(peer_id));
            },
            RPCMessage::PeerDisconnected(peer_id) => {
                if self.connected > 0 {
                    self.connected = self.connected - 1;
                }
                self.events.push(BehaviourEvent::PeerDisconnected(peer_id));
            },
        }
        proof {
            assert(self.events@.drop_last() =~= before);
        }
    }

    /// Handle an identify event: nothing of it is kept; what the host may
    /// log is returned, with the listen addresses truncated to the cap,
    /// first ones kept in order.
    pub fn inject_identify_event(&mut self, event: IdentifyEvent) -> (r: Option<IdentifyInfo>)
        ensures
            *final(self) == *old(self),
            match event {
                IdentifyEvent::Received { peer_id, info, observed_addr } => r matches Some(out)
                    && out.protocol_version@ == info.protocol_version@ && out.agent_version@
                    == info.agent_version@ && out.listen_addrs@ == info.listen_addrs@.take(
                    if info.listen_addrs@.len() <= MAX_IDENTIFY_ADDRESSES {
                        info.listen_addrs@.len() as int
                    } else {
                        MAX_IDENTIFY_ADDRESSES as int
                    },
                ),
                _ => r is None,
            },
    {
        match event {
            IdentifyEvent::Received { peer_id: _, mut info, observed_addr: _ } => {
                if info.listen_addrs.len() > MAX_IDENTIFY_ADDRESSES {
                    info.listen_addrs.truncate(MAX_IDENTIFY_ADDRESSES);
                }
                proof {
                    if info.listen_addrs@.len() <= MAX_IDENTIFY_ADDRESSES {
                        assert(info.listen_addrs@.take(info.listen_addrs@.len() as int)
                            =~= info.listen_addrs@);
                    }
                }
                Some(info)
            },
            IdentifyEvent::Sent { .. } => None,
            IdentifyEvent::Error { .. } => None,
        }
    }

    /// Subscribe to a gossip topic: true exactly when the subscription set
    /// changed, and then a subscribe command is queued.
    #[verifier::loop_isolation(false)]
    pub fn subscribe(&mut self, topic: Vec<u8>) -> (r: bool)
        ensures
            r == !old(self).spec_subscribed(topic@),
            !r ==> *final(self) == *old(self),
            r ==> {
                &&& spec_topic_views(final(self).subscriptions@) == spec_topic_views(
                    old(self).subscriptions@,
                ).push(topic@)
                &&& final(self).spec_commands().len() == old(self).spec_commands().len() + 1
                &&& final(self).spec_commands().drop_last() == old(self).spec_commands()
                &&& final(self).spec_commands().last() matches NetworkCommand::Subscribe(t) && t@
                    == topic@
                &&& final(self).spec_events() == old(self).spec_events()
                &&& final(self).spec_seen() == old(self).spec_seen()
            },
    {
        let ghost views = spec_topic_views(self.subscriptions@);
        let mut i: usize = 0;
        while i < self.subscriptions.len()
            invariant
                i <= self.subscriptions@.len(),
                views == spec_topic_views(self.subscriptions@),
                forall|j: int| 0 <= j < i ==> views[j] != topic@,
            decreases self.subscriptions@.len() - i,
        {
            if bytes_eq(self.subscriptions[i].as_slice(), topic.as_slice()) {
                proof {
                    assert(views[i as int] == topic@);
                }
                return false;
            }
            i = i + 1;
        }
        proof {
            assert(!views.contains(topic@));
        }
        let ghost cmds = self.commands@;
        let announced = copy_bytes(&topic);
        self.subscriptions.push(topic);
        self.commands.push(NetworkCommand::Subscribe(announced));
        proof {
            assert(spec_topic_views(self.subscriptions@) =~= views.push(
                self.subscriptions@.last()@,
            ));
            assert(self.commands@.drop_last() =~= cmds);
        }
        true
    }

    /// Unsubscribe from a gossip topic: true exactly when the subscription
    /// set changed, and then an unsubscribe command is queued.
    #[verifier::loop_isolation(false)]
    pub fn unsubscribe(&mut self, topic: Vec<u8>) -> (r: bool)
        ensures
            r == old(self).spec_subscribed(topic@),
            !r ==> *final(self) == *old(self),
            r ==> {
                &&& (exists|k: int|
                    0 <= k < spec_topic_views(old(self).subscriptions@).len() && spec_topic_views(
                        old(self).subscriptions@,
                    )[k] == topic@ && spec_topic_views(final(self).subscriptions@)
                        == spec_topic_views(old(self).subscriptions@).remove(k))
                &&& final(self).spec_commands().len() == old(self).spec_commands().len() + 1
                &&& final(self).spec_commands().drop_last() == old(self).spec_commands()
                &&& final(self).spec_commands().last() matches NetworkCommand::Unsubscribe(t) && t@
                    == topic@
                &&& final(self).spec_events() == old(self).spec_events()
                &&& final(self).spec_seen() == old(self).spec_seen()
            },
    {
        let ghost views = spec_topic_views(self.subscriptions@);
        let mut i: usize = 0;
        while i < self.subscriptions.len()
            invariant
                i <= self.subscriptions@.len(),
                *self == *old(self),
                views == spec_topic_views(self.subscriptions@),
                forall|j: int| 0 <= j < i ==> views[j] != topic@,
            decreases self.subscriptions@.len() - i,
        {
            if bytes_eq(self.subscriptions[i].as_slice(), topic.as_slice()) {
                proof {
                    assert(views[i as int] == topic@);
                    assert(views.contains(topic@));
                }
                let ghost cmds = self.commands@;
                self.subscriptions.remove(i);
                self.commands.push(NetworkCommand::Unsubscribe(topic));
                proof {
                    assert(spec_topic_views(self.subscriptions@) =~= views.remove(i as int));
                    assert(self.commands@.drop_last() =~= cmds);
                    assert((i as int) < views.len() && views[i as int] == topic@
                        && spec_topic_views(self.subscriptions@) == views.remove(i as int));
                }
                return true;
            }
            i = i + 1;
        }
        proof {
            assert(!views.contains(topic@));
        }
        false
    }

    /// Publish a message: encode it once against the codec and queue the
    /// same payload on each given topic.
    #[verifier::loop_isolation(false)]
    pub fn publish(&mut self, topics: &Vec<Vec<u8>>, message: PubsubMessage<P, T>)
        requires
            message matches PubsubMessage::Attestation(a) ==> a.aggregation_bits@.len()
                <= u64::MAX,
        ensures
            final(self).spec_events() == old(self).spec_events(),
            final(self).spec_seen() == old(self).spec_seen(),
            final(self).subscriptions@ == old(self).subscriptions@,
            final(self).spec_commands().len() == old(self).spec_commands().len() + topics@.len(),
            final(self).spec_commands().take(old(self).spec_commands().len() as int) == old(
                self,
            ).spec_commands(),
            forall|i: int|
                0 <= i < topics@.len() ==> (#[trigger] final(self).spec_commands()[old(
                    self,
                ).spec_commands().len() + i] matches NetworkCommand::Publish { topic, data }
                    && topic@ == topics@[i]@ && data@ == spec_pubsub_payload(message)),
    {
        let payload = self.codec.encode(&message);
        let ghost base = self.commands@;
        let mut i: usize = 0;
        while i < topics.len()
            invariant
                i <= topics@.len(),
                payload@ == spec_pubsub_payload(message),
                self.events@ == old(self).events@,
                self.seen_gossip_messages == old(self).seen_gossip_messages,
                self.subscriptions@ == old(self).subscriptions@,
                self.received_ids@ == old(self).received_ids@,
                self.connected == old(self).connected,
                self.banned@ == old(self).banned@,
                self.codec == old(self).codec,
                base == old(self).commands@,
                self.commands@.len() == base.len() + i,
                self.commands@.take(base.len() as int) == base,
                forall|j: int|
                    0 <= j < i ==> (#[trigger] self.commands@[base.len() + j]
                        matches NetworkCommand::Publish { topic, data } && topic@ == topics@[j]@
                        && data@ == spec_pubsub_payload(message)),
            decreases topics@.len() - i,
        {
            let topic = copy_bytes(&topics[i]);
            let data = copy_bytes(&payload);
            self.commands.push(NetworkCommand::Publish { topic, data });
            proof {
                assert(self.commands@.take(base.len() as int) =~= base);
            }
            i = i + 1;
        }
    }

    /// Forward a message waiting in the held-message cache. A message is
    /// propagated only after validation, and an id never seen queues
    /// nothing: the call is then a no-op.
    #[verifier::loop_isolation(false)]
    pub fn propagate_message(&mut self, propagation_source: &PeerId, message_id: MessageId)
        ensures
            !old(self).spec_received(message_id) ==> *final(self) == *old(self),
            old(self).spec_received(message_id) ==> {
                &&& final(self).spec_commands() == old(self).spec_commands().push(
                    NetworkCommand::PropagateMessage {
                        message_id,
                        propagation_source: *propagation_source,
                    },
                )
                &&& final(self).spec_events() == old(self).spec_events()
                &&& final(self).spec_seen() == old(self).spec_seen()
                &&& final(self).subscriptions@ == old(self).subscriptions@
            },
    {
        let mut i: usize = 0;
        while i < self.received_ids.len()
            invariant
                i <= self.received_ids@.len(),
                *self == *old(self),
                forall|j: int| 0 <= j < i ==> self.received_ids@[j] != message_id,
            decreases self.received_ids@.len() - i,
        {
            if self.received_ids[i] == message_id {
                proof {
                    assert(old(self).received_ids@[i as int] == message_id);
                    assert(old(self).received_ids@.contains(message_id));
                }
                self.commands.push(
                    NetworkCommand::PropagateMessage {
                        message_id,
                        propagation_source: *propagation_source,
                    },
                );
                return ;
            }
            i = i + 1;
        }
        proof {
            assert(!self.received_ids@.contains(message_id));
        }
    }

    /// Queue an RPC event toward the given peer.
    pub fn send_rpc(&mut self, peer_id: PeerId, rpc_event: RPCEvent)
        ensures
            final(self).spec_commands() == old(self).spec_commands().push(
                NetworkCommand::SendRPC(peer_id, rpc_event),
            ),
            final(self).spec_events() == old(self).spec_events(),
            final(self).spec_seen() == old(self).spec_seen(),
    {
        self.commands.push(NetworkCommand::SendRPC(peer_id, rpc_event));
    }

    /// The number of currently connected peers.
    pub fn connected_peers(&self) -> (r: usize)
        ensures
            r == self.connected,
    {
        self.connected
    }

    /// Note that a peer has been banned.
    #[verifier::loop_isolation(false)]
    pub fn peer_banned(&mut self, peer_id: PeerId)
        ensures
            final(self).banned@.contains(peer_id),
            final(self).spec_events() == old(self).spec_events(),
            final(self).spec_commands() == old(self).spec_commands(),
            final(self).spec_seen() == old(self).spec_seen(),
            forall|q: PeerId| old(self).banned@.contains(q) ==> final(self).banned@.contains(q),
            forall|q: PeerId|
                final(self).banned@.contains(q) ==> old(self).banned@.contains(q) || q == peer_id,
    {
        let mut i: usize = 0;
        while i < self.banned.len()
            invariant
                i <= self.banned@.len(),
                forall|j: int| 0 <= j < i ==> self.banned@[j] != peer_id,
            decreases self.banned@.len() - i,
        {
            if self.banned[i] == peer_id {
                return ;
            }
            i = i + 1;
        }
        let ghost before = self.banned@;
        self.banned.push(peer_id);
        proof {
            assert(self.banned@.last() == peer_id);
            assert(forall|j: int| 0 <= j < before.len() ==> self.banned@[j] == before[j]);
        }
    }

    /// Note that a peer has been unbanned.
    #[verifier::loop_isolation(false)]
    pub fn peer_unbanned(&mut self, peer_id: &PeerId)
        ensures
            !final(self).banned@.contains(*peer_id),
            final(self).spec_events() == old(self).spec_events(),
            final(self).spec_commands() == old(self).spec_commands(),
            final(self).spec_seen() == old(self).spec_seen(),
            forall|q: PeerId|
                q != *peer_id ==> (final(self).banned@.contains(q) <==> old(self).banned@.contains(
                    q,
                )),
    {
        let ghost before = self.banned@;
        let mut kept: Vec<PeerId> = Vec::new();
        let mut i: usize = 0;
        while i < self.banned.len()
            invariant
                i <= self.banned@.len(),
                self.banned@ == before,
                forall|j: int| 0 <= j < kept@.len() ==> kept@[j] != *peer_id,
                forall|j: int|
                    0 <= j < kept@.len() ==> before.contains(#[trigger] kept@[j]),
                forall|j: int|
                    0 <= j < i && before[j] != *peer_id ==> kept@.contains(#[trigger] before[j]),
            decreases self.banned@.len() - i,
        {
            let candidate = self.banned[i];
            if !(candidate == *peer_id) {
                let ghost kv = kept@;
                kept.push(candidate);
                proof {
                    assert(kept@.last() == candidate);
                    assert(forall|j: int| 0 <= j < kv.len() ==> kept@[j] == kv[j]);
                    assert(forall|q: PeerId| kv.contains(q) ==> kept@.contains(q)) by {
                        assert(forall|j: int| 0 <= j < kv.len() ==> kept@[j] == kv[j]);
                    }
                }
            }
            i = i + 1;
        }
        self.banned = kept;
    }
}

/// Duplicate a byte vector.
pub fn copy_bytes(v: &Vec<u8>) -> (r: Vec<u8>)
    ensures
        r@ == v@,
{
    let mut out: Vec<u8> = Vec::new();
    append_bytes(&mut out, v.as_slice());
    proof {
        assert(out@ =~= v@);
    }
    out
}

} // verus!
