//! The message router.
//!
//! Components do not share memory: each one is addressed by a `Destination`,
//! and what is sent to it waits in a channel that only it reads. The
//! `Exchange` owns every queue: one inbound queue of envelopes, and one
//! channel per registered destination. Forwarding takes one envelope at a
//! time and never waits for a reader.
use std::collections::VecDeque;
use vstd::prelude::*;
use crate::error::FlvError;
use crate::flv::header::FlvHeader;
use crate::flv::meta::RawMetaData;
use crate::flv::tag::Tag;

verus! {

/// The address of a component.
#[derive(Clone, Copy, Debug, PartialEq, Eq, Hash, Structural)]
pub enum Destination {
    Core,
    Decoder,
    Demuxer,
    Remuxer,
}

/// What the core takes.
#[derive(Debug, PartialEq, Eq)]
pub enum PackedContentToCore {
    /// One finished output buffer.
    Data(Vec<u8>),
    Command,
}

/// What the decoder takes.
#[derive(Debug, PartialEq, Eq)]
pub enum PackedContentToDecoder {
    PushData(VecDeque<u8>),
    StartDecoding,
    StopDecoding,
    CloseWorkerThread,
    Now,
}

/// What the demuxer takes.
#[derive(Debug, PartialEq, Eq)]
pub enum PackedContentToDemuxer {
    PushTag(Tag),
    PushFlvHeader(FlvHeader),
    StartDemuxing,
    StopDemuxing,
    CloseWorkerThread,
    Now,
}

/// What the remuxer takes.
#[derive(Debug, PartialEq, Eq)]
pub enum PackedContentToRemuxer {
    PushTag(Tag),
    PushFlvHeader(FlvHeader),
    PushMetadata(RawMetaData),
    StartRemuxing,
    StopRemuxing,
    CloseWorkerThread,
    Now,
}

/// The payload of an envelope, by the component it is meant for.
#[derive(Debug, PartialEq, Eq)]
pub enum PackedContent {
    ToCore(PackedContentToCore),
    ToDecoder(PackedContentToDecoder),
    ToDemuxer(PackedContentToDemuxer),
    ToRemuxer(PackedContentToRemuxer),
}

/// An envelope: where it goes and what it carries.
#[derive(Debug, PartialEq, Eq)]
pub struct Packed {
    pub packed_routing: Destination,
    pub packed_content: PackedContent,
}

/// A component that the exchange can address.
pub trait ExchangeRegistrable {
    /// The address of the component.
    spec fn destination(&self) -> Destination;

    /// Whether the component was registered with an exchange.
    spec fn connected(&self) -> bool;

    /// Tells the component that an exchange now routes to it.
    fn set_exchange(&mut self)
        ensures
            final(self).connected(),
            final(self).destination() == old(self).destination(),
    ;

    fn get_self_as_destination(&self) -> (destination: Destination)
        ensures
            destination == self.destination(),
    ;
}

/// Model of an `Exchange`: the envelopes not yet forwarded, oldest first,
/// and for each registered destination what waits in its channel, oldest
/// first.
pub struct ExchangeModel {
    pub inbound: Seq<Packed>,
    pub channels: Map<Destination, Seq<PackedContent>>,
}

/// The state after the oldest envelope of `before` was taken: appended to
/// the channel of its destination, or dropped where that has none.
pub open spec fn forwarded(before: ExchangeModel) -> ExchangeModel
    recommends
        before.inbound.len() > 0,
{
    let envelope = before.inbound[0];
    ExchangeModel {
        inbound: before.inbound.skip(1),
        channels: if before.channels.contains_key(envelope.packed_routing) {
            before.channels.insert(
                envelope.packed_routing,
                before.channels[envelope.packed_routing].push(envelope.packed_content),
            )
        } else {
            before.channels
        },
    }
}

/// The router and its queues.
pub struct Exchange {
    inbound: VecDeque<Packed>,
    core: Option<VecDeque<PackedContent>>,
    decoder: Option<VecDeque<PackedContent>>,
    demuxer: Option<VecDeque<PackedContent>>,
    remuxer: Option<VecDeque<PackedContent>>,
}

/// The channel as the model has it: an entry where there is a queue.
spec fn with_channel(
    channels: Map<Destination, Seq<PackedContent>>,
    destination: Destination,
    queue: Option<VecDeque<PackedContent>>,
) -> Map<Destination, Seq<PackedContent>> {
    match queue {
        Some(waiting) => channels.insert(destination, waiting@),
        None => channels,
    }
}

impl View for Exchange {
    type V = ExchangeModel;

    closed spec fn view(&self) -> ExchangeModel {
        ExchangeModel {
            inbound: self.inbound@,
            channels: with_channel(
                with_channel(
                    with_channel(
                        with_channel(Map::empty(), Destination::Core, self.core),
                        Destination::Decoder,
                        self.decoder,
                    ),
                    Destination::Demuxer,
                    self.demuxer,
                ),
                Destination::Remuxer,
                self.remuxer,
            ),
        }
    }
}

impl Exchange {
    /// An exchange with nothing queued and nobody registered.
    pub fn new() -> (exchange: Self)
        ensures
            exchange@.inbound == Seq::<Packed>::empty(),
            exchange@.channels == Map::<Destination, Seq<PackedContent>>::empty(),
    {
        Exchange {
            inbound: VecDeque::new(),
            core: None,
            decoder: None,
            demuxer: None,
            remuxer: None,
        }
    }

    /// Puts a fresh channel in the slot of `destination`.
    fn open(&mut self, destination: Destination)
        ensures
            final(self)@.inbound == old(self)@.inbound,
            final(self)@.channels == old(self)@.channels.insert(
                destination,
                Seq::<PackedContent>::empty(),
            ),
    {
        let fresh: VecDeque<PackedContent> = VecDeque::new();
        match destination {
            Destination::Core => {
                self.core = Some(fresh);
            },
            Destination::Decoder => {
                self.decoder = Some(fresh);
            },
            Destination::Demuxer => {
                self.demuxer = Some(fresh);
            },
            Destination::Remuxer => {
                self.remuxer = Some(fresh);
            },
        }
        assert(self@.channels =~= old(self)@.channels.insert(
            destination,
            Seq::<PackedContent>::empty(),
        ));
    }

    /// Registers a component: tells it of the exchange and opens an empty
    /// channel under its address, in place of any that was there.
    pub fn register<R: ExchangeRegistrable>(&mut self, registry: &mut R)
        ensures
            final(registry).connected(),
            final(registry).destination() == old(registry).destination(),
            final(self)@.inbound == old(self)@.inbound,
            final(self)@.channels == old(self)@.channels.insert(
                old(registry).destination(),
                Seq::<PackedContent>::empty(),
            ),
    {
        registry.set_exchange();
        let destination = registry.get_self_as_destination();
        self.open(destination);
    }

    /// Whether `channel_dest` has a channel.
    pub fn is_registered(&self, channel_dest: Destination) -> (registered: bool)
        ensures
            registered == self@.channels.contains_key(channel_dest),
    {
        match channel_dest {
            Destination::Core => self.core.is_some(),
            Destination::Decoder => self.decoder.is_some(),
            Destination::Demuxer => self.demuxer.is_some(),
            Destination::Remuxer => self.remuxer.is_some(),
        }
    }

    /// Closes the channel of `destination`; what waited in it is dropped.
    pub fn close(&mut self, destination: Destination)
        ensures
            final(self)@.inbound == old(self)@.inbound,
            final(self)@.channels == old(self)@.channels.remove(destination),
    {
        match destination {
            Destination::Core => {
                self.core = None;
            },
            Destination::Decoder => {
                self.decoder = None;
            },
            Destination::Demuxer => {
                self.demuxer = None;
            },
            Destination::Remuxer => {
                self.remuxer = None;
            },
        }
        assert(self@.channels =~= old(self)@.channels.remove(destination));
    }

    /// Hands an envelope to the exchange; it waits behind those sent before.
    pub fn send(&mut self, packed: Packed)
        ensures
            final(self)@.inbound == old(self)@.inbound.push(packed),
            final(self)@.channels == old(self)@.channels,
    {
        self.inbound.push_back(packed);
    }

    /// Hands every envelope of `packed` to the exchange, in their order.
    pub fn send_all(&mut self, packed: &mut VecDeque<Packed>)
        ensures
            final(self)@.inbound == old(self)@.inbound + old(packed)@,
            final(self)@.channels == old(self)@.channels,
            final(packed)@ == Seq::<Packed>::empty(),
    {
        self.inbound.append(packed);
    }

    /// Takes back the oldest envelope that was not forwarded yet.
    pub fn take_inbound(&mut self) -> (packed: Option<Packed>)
        ensures
            final(self)@.channels == old(self)@.channels,
            match packed {
                Some(taken) => {
                    &&& old(self)@.inbound.len() > 0
                    &&& taken == old(self)@.inbound[0]
                    &&& final(self)@.inbound == old(self)@.inbound.skip(1)
                },
                None => old(self)@.inbound.len() == 0 && final(self)@.inbound == old(self)@.inbound,
            },
    {
        self.inbound.pop_front()
    }

    /// The number of envelopes not yet forwarded.
    pub fn pending(&self) -> (count: usize)
        ensures
            count == self@.inbound.len(),
    {
        broadcast use vstd::std_specs::vecdeque::group_vec_dequeue_axioms;

        self.inbound.len()
    }

    /// Appends `content` to the channel of `destination`, if it has one.
    fn deliver(&mut self, destination: Destination, content: PackedContent) -> (delivered: bool)
        ensures
            delivered == old(self)@.channels.contains_key(destination),
            final(self)@.inbound == old(self)@.inbound,
            final(self)@.channels == if delivered {
                old(self)@.channels.insert(
                    destination,
                    old(self)@.channels[destination].push(content),
                )
            } else {
                old(self)@.channels
            },
    {
        let slot = match destination {
            Destination::Core => &mut self.core,
            Destination::Decoder => &mut self.decoder,
            Destination::Demuxer => &mut self.demuxer,
            Destination::Remuxer => &mut self.remuxer,
        };
        let delivered = match slot {
            Some(waiting) => {
                waiting.push_back(content);
                true
            },
            None => false,
        };
        assert(self@.channels =~= if delivered {
            old(self)@.channels.insert(destination, old(self)@.channels[destination].push(content))
        } else {
            old(self)@.channels
        });
        delivered
    }

    /// Forwards the oldest envelope, if any, to the channel of its
    /// destination. With nothing to forward this is a success that changes
    /// nothing. An envelope whose destination has no channel is dropped and
    /// reported as `ChannelClosed`.
    pub fn process_incoming(&mut self) -> (res: Result<(), FlvError>)
        ensures
            old(self)@.inbound.len() == 0 ==> res is Ok && final(self)@ == old(self)@,
            old(self)@.inbound.len() > 0 ==> final(self)@ == forwarded(old(self)@),
            old(self)@.inbound.len() > 0 ==> (res is Ok <==> old(self)@.channels.contains_key(
                old(self)@.inbound[0].packed_routing,
            )),
            res matches Err(error) ==> error == FlvError::ChannelClosed,
    {
        match self.inbound.pop_front() {
            Some(received) => {
                let routing = received.packed_routing;
                if self.deliver(routing, received.packed_content) {
                    Ok(())
                } else {
                    Err(FlvError::ChannelClosed)
                }
            },
            None => Ok(()),
        }
    }

    /// Takes the oldest content that waits for `destination`.
    pub fn receive(&mut self, destination: Destination) -> (content: Option<PackedContent>)
        ensures
            final(self)@.inbound == old(self)@.inbound,
            match content {
                Some(taken) => {
                    &&& old(self)@.channels.contains_key(destination)
                    &&& old(self)@.channels[destination].len() > 0
                    &&& taken == old(self)@.channels[destination][0]
                    &&& final(self)@.channels == old(self)@.channels.insert(
                        destination,
                        old(self)@.channels[destination].skip(1),
                    )
                },
                None => {
                    &&& old(self)@.channels.contains_key(destination)
                        ==> old(self)@.channels[destination].len() == 0
                    &&& final(self)@.channels == old(self)@.channels
                },
            },
    {
        let slot = match destination {
            Destination::Core => &mut self.core,
            Destination::Decoder => &mut self.decoder,
            Destination::Demuxer => &mut self.demuxer,
            Destination::Remuxer => &mut self.remuxer,
        };
        let content = match slot {
            Some(waiting) => waiting.pop_front(),
            None => None,
        };
        assert(self@.channels =~= if content is Some {
            old(self)@.channels.insert(destination, old(self)@.channels[destination].skip(1))
        } else {
            old(self)@.channels
        });
        content
    }
}

/// The state after every inbound envelope of `before` was forwarded, oldest
/// first.
pub open spec fn forwarded_all(before: ExchangeModel) -> ExchangeModel
    decreases before.inbound.len(),
{
    if before.inbound.len() == 0 {
        before
    } else {
        forwarded_all(forwarded(before))
    }
}

/// The contents of the envelopes among `envelopes` that go to `destination`,
/// in their order.
pub open spec fn contents_for(envelopes: Seq<Packed>, destination: Destination) -> Seq<
    PackedContent,
>
    decreases envelopes.len(),
{
    if envelopes.len() == 0 {
        Seq::empty()
    } else if envelopes[0].packed_routing == destination {
        seq![envelopes[0].packed_content] + contents_for(envelopes.skip(1), destination)
    } else {
        contents_for(envelopes.skip(1), destination)
    }
}

/// Forwarding delivers in send order and to the addressee alone: once every
/// inbound envelope is forwarded, the channel of each registered destination
/// holds what it held, followed by the contents of the envelopes that were
/// addressed to it, in the order in which they were sent. No channel is
/// opened or closed on the way.
pub proof fn lemma_forwarding_keeps_send_order(before: ExchangeModel, destination: Destination)
    ensures
        forwarded_all(before).inbound.len() == 0,
        forwarded_all(before).channels.dom() == before.channels.dom(),
        before.channels.contains_key(destination) ==> forwarded_all(
            before,
        ).channels[destination] == before.channels[destination] + contents_for(
            before.inbound,
            destination,
        ),
    decreases before.inbound.len(),
{
    if before.inbound.len() == 0 {
        if before.channels.contains_key(destination) {
            assert(before.channels[destination] + Seq::<PackedContent>::empty()
                =~= before.channels[destination]);
        }
    } else {
        let next = forwarded(before);
        let envelope = before.inbound[0];
        lemma_forwarding_keeps_send_order(next, destination);
        assert(next.channels.dom() =~= before.channels.dom());
        if before.channels.contains_key(destination) {
            let tail = contents_for(before.inbound.skip(1), destination);
            if envelope.packed_routing == destination {
                assert(before.channels[destination].push(envelope.packed_content) + tail
                    =~= before.channels[destination] + (seq![envelope.packed_content] + tail));
            }
        }
    }
}

} // verus!
