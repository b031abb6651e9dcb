//! The demuxer: the stop between decoder and remuxer that addresses what
//! was decoded.
use std::collections::VecDeque;
use vstd::prelude::*;
use crate::exchange::{
    Destination, Exchange, ExchangeRegistrable, Packed, PackedContent, PackedContentToDemuxer,
    PackedContentToRemuxer,
};
use crate::flv::framing::{is_header_of, Published};
use crate::flv::header::FlvHeader;
use crate::flv::meta::RawMetaData;
use crate::flv::tag::{NormalTagBody, PayloadModel, Tag, TagBody, TagBodyModel, TagModel};

verus! {

/// The envelope that carries the file header `header` to the remuxer.
pub open spec fn routed_header(header: FlvHeader) -> Packed {
    Packed {
        packed_routing: Destination::Remuxer,
        packed_content: PackedContent::ToRemuxer(PackedContentToRemuxer::PushFlvHeader(header)),
    }
}

/// The envelope that carries the tag `tag` to the remuxer: the properties of
/// its script data as metadata, if it is an unfiltered script tag, and the
/// tag itself otherwise.
pub open spec fn routed_tag(tag: Tag) -> Packed {
    Packed {
        packed_routing: Destination::Remuxer,
        packed_content: PackedContent::ToRemuxer(
            match tag.tag_body {
                TagBody::Normal(NormalTagBody::Script(body)) => PackedContentToRemuxer::PushMetadata(
                    RawMetaData { properties: body.value.properties },
                ),
                _ => PackedContentToRemuxer::PushTag(tag),
            },
        ),
    }
}

/// Whether `packed` is the envelope that carries the file header at the
/// front of `bytes` to the remuxer.
pub open spec fn routes_header(packed: Packed, bytes: Seq<u8>) -> bool {
    &&& packed.packed_routing == Destination::Remuxer
    &&& packed.packed_content matches PackedContent::ToRemuxer(
        PackedContentToRemuxer::PushFlvHeader(header),
    )
    &&& is_header_of(header, bytes)
}

/// Whether `packed` is the envelope that carries a tag of the model `tag` to
/// the remuxer.
pub open spec fn routes_tag(packed: Packed, tag: TagModel) -> bool {
    &&& packed.packed_routing == Destination::Remuxer
    &&& match tag.tag_body {
        TagBodyModel::Normal(PayloadModel::Script(body)) => {
            &&& packed.packed_content matches PackedContent::ToRemuxer(
                PackedContentToRemuxer::PushMetadata(metadata),
            )
            &&& metadata@ == body.value.properties
        },
        _ => {
            &&& packed.packed_content matches PackedContent::ToRemuxer(
                PackedContentToRemuxer::PushTag(pushed),
            )
            &&& pushed@ == tag
        },
    }
}

/// Whether `packed` is the envelope that carries `item` to the remuxer.
pub open spec fn announces(packed: Packed, item: Published) -> bool {
    match item {
        Published::Header(bytes) => routes_header(packed, bytes),
        Published::Tag(tag) => routes_tag(packed, tag),
    }
}

/// Whether `after` is `before` followed by one envelope for each of
/// `items`, in their order.
pub open spec fn announced(before: Seq<Packed>, after: Seq<Packed>, items: Seq<Published>) -> bool {
    &&& after.len() == before.len() + items.len()
    &&& after.take(before.len() as int) == before
    &&& forall|i: int|
        0 <= i < items.len() ==> announces(#[trigger] after[before.len() + i], items[i])
}

/// What was announced in two steps was announced.
pub proof fn lemma_announced_twice(
    first: Seq<Packed>,
    second: Seq<Packed>,
    third: Seq<Packed>,
    early: Seq<Published>,
    late: Seq<Published>,
)
    requires
        announced(first, second, early),
        announced(second, third, late),
    ensures
        announced(first, third, early + late),
{
    assert(third.take(first.len() as int) =~= second.take(first.len() as int)) by {
        assert forall|i: int| 0 <= i < first.len() implies third[i] == second[i] by {
            assert(third.take(second.len() as int)[i] == second[i]);
        }
    }
    assert forall|i: int| 0 <= i < (early + late).len() implies announces(
        #[trigger] third[first.len() + i],
        (early + late)[i],
    ) by {
        if i < early.len() {
            assert(third.take(second.len() as int)[first.len() + i] == second[first.len() + i]);
        } else {
            assert(third[second.len() + (i - early.len())] == third[first.len() + i]);
        }
    }
}

/// Model of a `Demuxer`.
pub struct DemuxerModel {
    /// Whether an exchange routes to the demuxer.
    pub connected: bool,
    /// Whether the demuxer was told to close.
    pub closed: bool,
    pub demuxing: bool,
    /// The envelopes that wait to be sent on, oldest first.
    pub pending: Seq<Packed>,
}

/// A state and what was sent on the way to it.
pub struct DemuxerStep {
    pub state: DemuxerModel,
    pub sent: Seq<Packed>,
}

/// What a message does to `state` before anything is sent: a header or a tag
/// is addressed and queued up, directives set the switches. Content meant
/// for another component is passed over.
pub open spec fn demuxer_received(state: DemuxerModel, content: PackedContent) -> DemuxerModel {
    match content {
        PackedContent::ToDemuxer(PackedContentToDemuxer::PushTag(tag)) => DemuxerModel {
            pending: state.pending.push(routed_tag(tag)),
            ..state
        },
        PackedContent::ToDemuxer(PackedContentToDemuxer::PushFlvHeader(header)) => DemuxerModel {
            pending: state.pending.push(routed_header(header)),
            ..state
        },
        PackedContent::ToDemuxer(PackedContentToDemuxer::StartDemuxing) => DemuxerModel {
            demuxing: true,
            ..state
        },
        PackedContent::ToDemuxer(PackedContentToDemuxer::StopDemuxing) => DemuxerModel {
            demuxing: false,
            ..state
        },
        PackedContent::ToDemuxer(PackedContentToDemuxer::CloseWorkerThread) => DemuxerModel {
            closed: true,
            ..state
        },
        _ => state,
    }
}

/// What one message does to `state` in all: it is received; then, unless the
/// demuxer was closed or is switched off, everything queued is sent.
pub open spec fn demuxer_handled(state: DemuxerModel, content: PackedContent) -> DemuxerStep {
    let next = demuxer_received(state, content);
    if next.closed || !next.demuxing {
        DemuxerStep { state: next, sent: Seq::empty() }
    } else {
        DemuxerStep { state: DemuxerModel { pending: Seq::empty(), ..next }, sent: next.pending }
    }
}

/// How a run over a channel ends: the state, what is left in the channel,
/// and what was sent.
pub struct DemuxerRun {
    pub state: DemuxerModel,
    pub channel: Seq<PackedContent>,
    pub sent: Seq<Packed>,
}

/// Takes the messages of `channel` through `state`, oldest first, until the
/// channel is empty or the demuxer is closed.
pub open spec fn demuxer_ran(state: DemuxerModel, channel: Seq<PackedContent>) -> DemuxerRun
    decreases channel.len(),
{
    if state.closed || channel.len() == 0 {
        DemuxerRun { state, channel, sent: Seq::empty() }
    } else {
        let step = demuxer_handled(state, channel[0]);
        let tail = demuxer_ran(step.state, channel.skip(1));
        DemuxerRun { sent: step.sent + tail.sent, ..tail }
    }
}

/// The demuxer.
pub struct Demuxer {
    connected: bool,
    closed: bool,
    demuxing: bool,
    pending: VecDeque<Packed>,
}

impl View for Demuxer {
    type V = DemuxerModel;

    closed spec fn view(&self) -> DemuxerModel {
        DemuxerModel {
            connected: self.connected,
            closed: self.closed,
            demuxing: self.demuxing,
            pending: self.pending@,
        }
    }
}

impl Demuxer {
    /// A demuxer that is switched off and holds nothing.
    pub fn new() -> (demuxer: Self)
        ensures
            demuxer@ == (DemuxerModel {
                connected: false,
                closed: false,
                demuxing: false,
                pending: Seq::empty(),
            }),
    {
        Self { connected: false, closed: false, demuxing: false, pending: VecDeque::new() }
    }

    /// Whether the demuxer was told to close.
    pub fn is_closed(&self) -> (closed: bool)
        ensures
            closed == self@.closed,
    {
        self.closed
    }

    /// The envelope that carries the file header to the remuxer.
    pub fn route_header(header: FlvHeader) -> (packed: Packed)
        ensures
            packed == routed_header(header),
    {
        Packed {
            packed_routing: Destination::Remuxer,
            packed_content: PackedContent::ToRemuxer(PackedContentToRemuxer::PushFlvHeader(header)),
        }
    }

    /// The envelope that carries a decoded tag to the remuxer. The script
    /// data of an unfiltered script tag travels as metadata; every other tag
    /// travels as it is.
    pub fn route_tag(tag: Tag) -> (packed: Packed)
        ensures
            packed == routed_tag(tag),
            routes_tag(packed, tag@),
    {
        let content = match tag.tag_body {
            TagBody::Normal(NormalTagBody::Script(body)) => PackedContentToRemuxer::PushMetadata(
                RawMetaData::new(body),
            ),
            other => PackedContentToRemuxer::PushTag(
                Tag::new(
                    tag.filter,
                    tag.tag_type,
                    tag.data_size,
                    tag.timestamp_short,
                    tag.timestamp_extended,
                    tag.timestamp,
                    tag.stream_id,
                    tag.tag_header,
                    other,
                    tag.encryption_tag_header,
                    tag.filter_parameters,
                ),
            ),
        };
        Packed {
            packed_routing: Destination::Remuxer,
            packed_content: PackedContent::ToRemuxer(content),
        }
    }

    /// Takes one message in.
    fn receive(&mut self, content: PackedContent)
        ensures
            final(self)@ == demuxer_received(old(self)@, content),
    {
        match content {
            PackedContent::ToDemuxer(PackedContentToDemuxer::PushTag(tag)) => {
                self.pending.push_back(Self::route_tag(tag));
            },
            PackedContent::ToDemuxer(PackedContentToDemuxer::PushFlvHeader(header)) => {
                self.pending.push_back(Self::route_header(header));
            },
            PackedContent::ToDemuxer(PackedContentToDemuxer::StartDemuxing) => {
                self.demuxing = true;
            },
            PackedContent::ToDemuxer(PackedContentToDemuxer::StopDemuxing) => {
                self.demuxing = false;
            },
            PackedContent::ToDemuxer(PackedContentToDemuxer::CloseWorkerThread) => {
                self.closed = true;
            },
            _ => {},
        }
    }

    /// Takes one message in and, unless the demuxer was closed or is
    /// switched off, hands everything that is queued to `exchange`.
    pub fn handle(&mut self, content: PackedContent, exchange: &mut Exchange)
        ensures
            final(self)@ == demuxer_handled(old(self)@, content).state,
            final(exchange)@.channels == old(exchange)@.channels,
            final(exchange)@.inbound == old(exchange)@.inbound + demuxer_handled(
                old(self)@,
                content,
            ).sent,
    {
        self.receive(content);
        if self.closed || !self.demuxing {
            assert(exchange@.inbound + Seq::<Packed>::empty() =~= exchange@.inbound);
            return ;
        }
        exchange.send_all(&mut self.pending);
    }

    /// Handles the messages that wait for the demuxer in `exchange`, oldest
    /// first, until none is left or the demuxer is told to close. Where the
    /// demuxer has no channel there is nothing to do.
    pub fn run(&mut self, exchange: &mut Exchange)
        ensures
            !old(exchange)@.channels.contains_key(Destination::Demuxer) ==> {
                &&& final(self)@ == old(self)@
                &&& final(exchange)@ == old(exchange)@
            },
            old(exchange)@.channels.contains_key(Destination::Demuxer) ==> {
                let end = demuxer_ran(old(self)@, old(exchange)@.channels[Destination::Demuxer]);
                &&& final(self)@ == end.state
                &&& final(exchange)@.channels == old(exchange)@.channels.insert(
                    Destination::Demuxer,
                    end.channel,
                )
                &&& final(exchange)@.inbound == old(exchange)@.inbound + end.sent
            },
    {
        if !exchange.is_registered(Destination::Demuxer) {
            return ;
        }
        let ghost whole = demuxer_ran(old(self)@, old(exchange)@.channels[Destination::Demuxer]);
        let ghost done = Seq::<Packed>::empty();
        proof {
            assert(old(exchange)@.channels.insert(
                Destination::Demuxer,
                old(exchange)@.channels[Destination::Demuxer],
            ) =~= old(exchange)@.channels);
            assert(exchange@.inbound + done =~= exchange@.inbound);
            assert(done + whole.sent =~= whole.sent);
        }
        loop
            invariant
                old(exchange)@.channels.contains_key(Destination::Demuxer),
                exchange@.channels.contains_key(Destination::Demuxer),
                exchange@.channels == old(exchange)@.channels.insert(
                    Destination::Demuxer,
                    exchange@.channels[Destination::Demuxer],
                ),
                whole == demuxer_ran(old(self)@, old(exchange)@.channels[Destination::Demuxer]),
                ({
                    let rest = demuxer_ran(self@, exchange@.channels[Destination::Demuxer]);
                    &&& whole.state == rest.state
                    &&& whole.channel == rest.channel
                    &&& whole.sent == done + rest.sent
                }),
                exchange@.inbound == old(exchange)@.inbound + done,
            decreases exchange@.channels[Destination::Demuxer].len(),
        {
            assert(done + Seq::<Packed>::empty() =~= done);
            if self.closed {
                return ;
            }
            let ghost channels = exchange@.channels;
            let ghost state = self@;
            match exchange.receive(Destination::Demuxer) {
                None => {
                    return ;
                },
                Some(content) => {
                    let ghost step = demuxer_handled(state, content);
                    assert(exchange@.channels =~= old(exchange)@.channels.insert(
                        Destination::Demuxer,
                        channels[Destination::Demuxer].skip(1),
                    ));
                    self.handle(content, exchange);
                    proof {
                        let tail = demuxer_ran(step.state, channels[Destination::Demuxer].skip(1));
                        assert(done + (step.sent + tail.sent) =~= (done + step.sent) + tail.sent);
                        let inbound = old(exchange)@.inbound;
                        assert(inbound + done + step.sent =~= inbound + (done + step.sent));
                        done = done + step.sent;
                    }
                },
            }
        }
    }
}

impl ExchangeRegistrable for Demuxer {
    open spec fn destination(&self) -> Destination {
        Destination::Demuxer
    }

    open spec fn connected(&self) -> bool {
        self@.connected
    }

    fn set_exchange(&mut self)
        ensures
            final(self)@ == (DemuxerModel { connected: true, ..old(self)@ }),
    {
        self.connected = true;
    }

    fn get_self_as_destination(&self) -> (destination: Destination) {
        Destination::Demuxer
    }
}

} // verus!
