//! The core: the face of the pipeline toward the embedding application. It
//! hands directives and input to the workers and collects the finished
//! output buffers for a consumer that pulls them.
use std::collections::VecDeque;
use vstd::prelude::*;
use crate::error::FlvError;
use crate::exchange::{
    Destination, Exchange, ExchangeRegistrable, Packed, PackedContent, PackedContentToCore,
    PackedContentToDecoder, PackedContentToDemuxer, PackedContentToRemuxer,
};

verus! {

/// Something that hands out what it has collected, one item at a time.
pub trait IConsumer {
    type ConsumerData;

    /// Collects what waits for the consumer in `exchange` and hands out the
    /// oldest item.
    fn consume(&mut self, exchange: &mut Exchange) -> Result<Self::ConsumerData, FlvError>;
}

/// Model of a `Core`.
pub struct CoreModel {
    /// Whether an exchange routes to the core.
    pub connected: bool,
    /// The output buffers collected and not yet handed out, oldest first.
    pub buffer: Seq<Seq<u8>>,
}

/// The core.
pub struct Core {
    connected: bool,
    buffer: VecDeque<Vec<u8>>,
}

/// The byte sequences of `buffers`, in order.
pub open spec fn buffers_view(buffers: Seq<Vec<u8>>) -> Seq<Seq<u8>> {
    Seq::new(buffers.len(), |i: int| buffers[i]@)
}

impl View for Core {
    type V = CoreModel;

    closed spec fn view(&self) -> CoreModel {
        CoreModel { connected: self.connected, buffer: buffers_view(self.buffer@) }
    }
}

/// The output buffers among `channel`, in order; anything else that was sent
/// to the core is passed over.
pub open spec fn data_of(channel: Seq<PackedContent>) -> Seq<Seq<u8>>
    decreases channel.len(),
{
    if channel.len() == 0 {
        Seq::empty()
    } else {
        match channel.last() {
            PackedContent::ToCore(PackedContentToCore::Data(data)) => data_of(
                channel.drop_last(),
            ).push(data@),
            _ => data_of(channel.drop_last()),
        }
    }
}

/// What waits for the core in `exchange`; nothing where it has no channel.
pub open spec fn core_channel(exchange: crate::exchange::ExchangeModel) -> Seq<PackedContent> {
    if exchange.channels.contains_key(Destination::Core) {
        exchange.channels[Destination::Core]
    } else {
        Seq::empty()
    }
}

/// The three envelopes that tell the workers to start.
pub open spec fn start_directives() -> Seq<Packed> {
    seq![
        Packed {
            packed_routing: Destination::Decoder,
            packed_content: PackedContent::ToDecoder(PackedContentToDecoder::StartDecoding),
        },
        Packed {
            packed_routing: Destination::Demuxer,
            packed_content: PackedContent::ToDemuxer(PackedContentToDemuxer::StartDemuxing),
        },
        Packed {
            packed_routing: Destination::Remuxer,
            packed_content: PackedContent::ToRemuxer(PackedContentToRemuxer::StartRemuxing),
        },
    ]
}

/// The three envelopes that tell the workers to stop.
pub open spec fn stop_directives() -> Seq<Packed> {
    seq![
        Packed {
            packed_routing: Destination::Decoder,
            packed_content: PackedContent::ToDecoder(PackedContentToDecoder::StopDecoding),
        },
        Packed {
            packed_routing: Destination::Demuxer,
            packed_content: PackedContent::ToDemuxer(PackedContentToDemuxer::StopDemuxing),
        },
        Packed {
            packed_routing: Destination::Remuxer,
            packed_content: PackedContent::ToRemuxer(PackedContentToRemuxer::StopRemuxing),
        },
    ]
}

/// The three envelopes that tell the workers to look at their queues.
pub open spec fn now_directives() -> Seq<Packed> {
    seq![
        Packed {
            packed_routing: Destination::Decoder,
            packed_content: PackedContent::ToDecoder(PackedContentToDecoder::Now),
        },
        Packed {
            packed_routing: Destination::Demuxer,
            packed_content: PackedContent::ToDemuxer(PackedContentToDemuxer::Now),
        },
        Packed {
            packed_routing: Destination::Remuxer,
            packed_content: PackedContent::ToRemuxer(PackedContentToRemuxer::Now),
        },
    ]
}

/// The three envelopes that tell the workers to close.
pub open spec fn close_directives() -> Seq<Packed> {
    seq![
        Packed {
            packed_routing: Destination::Decoder,
            packed_content: PackedContent::ToDecoder(PackedContentToDecoder::CloseWorkerThread),
        },
        Packed {
            packed_routing: Destination::Demuxer,
            packed_content: PackedContent::ToDemuxer(PackedContentToDemuxer::CloseWorkerThread),
        },
        Packed {
            packed_routing: Destination::Remuxer,
            packed_content: PackedContent::ToRemuxer(PackedContentToRemuxer::CloseWorkerThread),
        },
    ]
}

/// What sending `sent` comes to: a connected core succeeds and leaves the
/// envelopes behind those that were inbound; one that was never registered
/// has no way to the exchange, reports `ChannelClosed` and changes nothing.
pub open spec fn dispatched(
    connected: bool,
    before: crate::exchange::ExchangeModel,
    after: crate::exchange::ExchangeModel,
    res: Result<(), FlvError>,
    sent: Seq<Packed>,
) -> bool {
    if connected {
        &&& res is Ok
        &&& after.inbound == before.inbound + sent
        &&& after.channels == before.channels
    } else {
        &&& res == Err::<(), FlvError>(FlvError::ChannelClosed)
        &&& after == before
    }
}

/// Whether `packed` is an envelope to the decoder that pushes `bytes`.
pub open spec fn carries_data(packed: Packed, bytes: Seq<u8>) -> bool {
    &&& packed.packed_routing == Destination::Decoder
    &&& packed.packed_content matches PackedContent::ToDecoder(
        PackedContentToDecoder::PushData(pushed),
    )
    &&& pushed@ == bytes
}

impl ExchangeRegistrable for Core {
    open spec fn destination(&self) -> Destination {
        Destination::Core
    }

    open spec fn connected(&self) -> bool {
        self@.connected
    }

    fn set_exchange(&mut self)
        ensures
            final(self)@ == (CoreModel { connected: true, ..old(self)@ }),
    {
        self.connected = true;
    }

    fn get_self_as_destination(&self) -> (destination: Destination) {
        Destination::Core
    }
}

/// A copy of `data`.
fn copy_queue(data: &VecDeque<u8>) -> (copy: VecDeque<u8>)
    ensures
        copy@ == data@,
{
    broadcast use vstd::std_specs::vecdeque::group_vec_dequeue_axioms;

    let mut copy: VecDeque<u8> = VecDeque::new();
    let mut i: usize = 0;
    while i < data.len()
        invariant
            i <= data.len(),
            copy@ == data@.take(i as int),
        decreases data.len() - i,
    {
        copy.push_back(data[i]);
        assert(data@.take(i as int + 1) == data@.take(i as int).push(data@[i as int]));
        i += 1;
    }
    assert(data@.take(i as int) == data@);
    copy
}

impl Core {
    /// A core that is not registered and has collected nothing.
    pub fn new() -> (core: Self)
        ensures
            core@ == (CoreModel { connected: false, buffer: Seq::empty() }),
    {
        let core = Self { connected: false, buffer: VecDeque::new() };
        assert(core@.buffer =~= Seq::<Seq<u8>>::empty());
        core
    }

    /// Hands `packed` to the exchange. A core that was never registered has
    /// no way to the exchange: the envelope is dropped and `ChannelClosed`
    /// reported.
    pub fn send(&self, exchange: &mut Exchange, packed: Packed) -> (res: Result<(), FlvError>)
        ensures
            dispatched(self@.connected, old(exchange)@, final(exchange)@, res, seq![packed]),
    {
        if !self.connected {
            return Err(FlvError::ChannelClosed);
        }
        exchange.send(packed);
        assert(exchange@.inbound =~= old(exchange)@.inbound + seq![packed]);
        Ok(())
    }

    /// Sends the three envelopes that `first`, `second` and `third` carry to
    /// decoder, demuxer and remuxer.
    fn send_three(
        &self,
        exchange: &mut Exchange,
        first: PackedContentToDecoder,
        second: PackedContentToDemuxer,
        third: PackedContentToRemuxer,
    ) -> (res: Result<(), FlvError>)
        ensures
            dispatched(
                self@.connected,
                old(exchange)@,
                final(exchange)@,
                res,
                seq![
                    Packed {
                        packed_routing: Destination::Decoder,
                        packed_content: PackedContent::ToDecoder(first),
                    },
                    Packed {
                        packed_routing: Destination::Demuxer,
                        packed_content: PackedContent::ToDemuxer(second),
                    },
                    Packed {
                        packed_routing: Destination::Remuxer,
                        packed_content: PackedContent::ToRemuxer(third),
                    },
                ],
            ),
    {
        let a = Packed {
            packed_routing: Destination::Decoder,
            packed_content: PackedContent::ToDecoder(first),
        };
        let b = Packed {
            packed_routing: Destination::Demuxer,
            packed_content: PackedContent::ToDemuxer(second),
        };
        let c = Packed {
            packed_routing: Destination::Remuxer,
            packed_content: PackedContent::ToRemuxer(third),
        };
        let ghost all = seq![a, b, c];
        self.send(exchange, a)?;
        self.send(exchange, b)?;
        self.send(exchange, c)?;
        assert(exchange@.inbound =~= old(exchange)@.inbound + all);
        Ok(())
    }

    /// Sends a copy of `data` to the decoder.
    pub fn push_data_to_decoder(&self, exchange: &mut Exchange, data: &mut VecDeque<u8>) -> (res:
        Result<(), FlvError>)
        ensures
            final(data)@ == old(data)@,
            exists|packed: Packed|
                {
                    &&& carries_data(packed, old(data)@)
                    &&& #[trigger] dispatched(
                        self@.connected,
                        old(exchange)@,
                        final(exchange)@,
                        res,
                        seq![packed],
                    )
                },
    {
        let packed = Packed {
            packed_routing: Destination::Decoder,
            packed_content: PackedContent::ToDecoder(
                PackedContentToDecoder::PushData(copy_queue(data)),
            ),
        };
        assert(carries_data(packed, old(data)@));
        self.send(exchange, packed)
    }

    /// Tells decoder, demuxer and remuxer to start.
    pub fn start(&self, exchange: &mut Exchange) -> (res: Result<(), FlvError>)
        ensures
            dispatched(self@.connected, old(exchange)@, final(exchange)@, res, start_directives()),
    {
        self.send_three(
            exchange,
            PackedContentToDecoder::StartDecoding,
            PackedContentToDemuxer::StartDemuxing,
            PackedContentToRemuxer::StartRemuxing,
        )
    }

    /// Tells decoder, demuxer and remuxer to stop.
    pub fn stop(&self, exchange: &mut Exchange) -> (res: Result<(), FlvError>)
        ensures
            dispatched(self@.connected, old(exchange)@, final(exchange)@, res, stop_directives()),
    {
        self.send_three(
            exchange,
            PackedContentToDecoder::StopDecoding,
            PackedContentToDemuxer::StopDemuxing,
            PackedContentToRemuxer::StopRemuxing,
        )
    }

    /// Tells decoder, demuxer and remuxer to look at their queues.
    pub fn now(&self, exchange: &mut Exchange) -> (res: Result<(), FlvError>)
        ensures
            dispatched(self@.connected, old(exchange)@, final(exchange)@, res, now_directives()),
    {
        self.send_three(
            exchange,
            PackedContentToDecoder::Now,
            PackedContentToDemuxer::Now,
            PackedContentToRemuxer::Now,
        )
    }

    /// Tells decoder, demuxer and remuxer to close.
    pub fn drop_all_workers(&self, exchange: &mut Exchange) -> (res: Result<(), FlvError>)
        ensures
            dispatched(self@.connected, old(exchange)@, final(exchange)@, res, close_directives()),
    {
        self.send_three(
            exchange,
            PackedContentToDecoder::CloseWorkerThread,
            PackedContentToDemuxer::CloseWorkerThread,
            PackedContentToRemuxer::CloseWorkerThread,
        )
    }

    /// Moves every output buffer that waits for the core in `exchange` to
    /// the back of the collected ones.
    fn collect(&mut self, exchange: &mut Exchange)
        ensures
            final(self)@ == (CoreModel {
                buffer: old(self)@.buffer + data_of(core_channel(old(exchange)@)),
                ..old(self)@
            }),
            final(exchange)@.inbound == old(exchange)@.inbound,
            final(exchange)@.channels == if old(exchange)@.channels.contains_key(
                Destination::Core,
            ) {
                old(exchange)@.channels.insert(Destination::Core, Seq::empty())
            } else {
                old(exchange)@.channels
            },
    {
        let ghost waiting = core_channel(old(exchange)@);
        let ghost taken: int = 0;
        assert(waiting.take(0) =~= Seq::<PackedContent>::empty());
        assert(old(self)@.buffer + Seq::<Seq<u8>>::empty() =~= old(self)@.buffer);
        if !exchange.is_registered(Destination::Core) {
            return ;
        }
        assert(waiting.skip(0) =~= waiting);
        assert(old(exchange)@.channels.insert(Destination::Core, waiting)
            =~= old(exchange)@.channels);
        loop
            invariant
                0 <= taken <= waiting.len(),
                waiting == core_channel(old(exchange)@),
                old(exchange)@.channels.contains_key(Destination::Core),
                exchange@.inbound == old(exchange)@.inbound,
                exchange@.channels == old(exchange)@.channels.insert(
                    Destination::Core,
                    waiting.skip(taken),
                ),
                self.connected == old(self).connected,
                self@.buffer == old(self)@.buffer + data_of(waiting.take(taken)),
            decreases waiting.len() - taken,
        {
            let ghost collected = self@.buffer;
            match exchange.receive(Destination::Core) {
                None => {
                    assert(waiting.take(taken) =~= waiting);
                    assert(waiting.skip(taken) =~= Seq::<PackedContent>::empty());
                    return ;
                },
                Some(content) => {
                    proof {
                        assert(content == waiting[taken]);
                        assert(waiting.skip(taken).skip(1) =~= waiting.skip(taken + 1));
                        assert(waiting.take(taken + 1).drop_last() =~= waiting.take(taken));
                        assert(waiting.take(taken + 1).last() == content);
                        assert(exchange@.channels =~= old(exchange)@.channels.insert(
                            Destination::Core,
                            waiting.skip(taken + 1),
                        ));
                        taken = taken + 1;
                    }
                    match content {
                        PackedContent::ToCore(PackedContentToCore::Data(data)) => {
                            let ghost bytes = data@;
                            self.buffer.push_back(data);
                            assert(self@.buffer =~= collected.push(bytes));
                            assert(collected.push(bytes) =~= old(self)@.buffer + data_of(
                                waiting.take(taken),
                            ));
                        },
                        _ => {},
                    }
                },
            }
        }
    }
}

impl IConsumer for Core {
    type ConsumerData = Vec<u8>;

    /// Collects the output buffers that wait in `exchange` and hands out the
    /// oldest collected one; `NoDataAvailable` where there is none.
    fn consume(&mut self, exchange: &mut Exchange) -> (res: Result<Vec<u8>, FlvError>)
        ensures
            final(self)@.connected == old(self)@.connected,
            final(exchange)@.inbound == old(exchange)@.inbound,
            final(exchange)@.channels == if old(exchange)@.channels.contains_key(
                Destination::Core,
            ) {
                old(exchange)@.channels.insert(Destination::Core, Seq::empty())
            } else {
                old(exchange)@.channels
            },
            ({
                let all = old(self)@.buffer + data_of(core_channel(old(exchange)@));
                if all.len() == 0 {
                    &&& res == Err::<Vec<u8>, FlvError>(FlvError::NoDataAvailable)
                    &&& final(self)@.buffer == all
                } else {
                    &&& res matches Ok(data)
                    &&& data@ == all[0]
                    &&& final(self)@.buffer == all.skip(1)
                }
            }),
    {
        self.collect(exchange);
        let ghost all = self@.buffer;
        match self.buffer.pop_front() {
            Some(data) => {
                assert(self@.buffer =~= all.skip(1));
                Ok(data)
            },
            None => Err(FlvError::NoDataAvailable),
        }
    }
}

} // verus!
