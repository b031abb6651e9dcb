use std::collections::VecDeque;

use flv_remux::error::FlvError;
use flv_remux::exchange::{
    Destination, Exchange, ExchangeRegistrable, Packed, PackedContent, PackedContentToCore,
    PackedContentToDecoder, PackedContentToDemuxer, PackedContentToRemuxer,
};
use flv_remux::flv::decoder::Decoder;
use flv_remux::flv::demuxer::Demuxer;
use flv_remux::fmpeg::remuxer::Remuxer;
use flv_remux::sink::{Core, IConsumer};

fn data_for_core(bytes: Vec<u8>) -> Packed {
    Packed {
        packed_routing: Destination::Core,
        packed_content: PackedContent::ToCore(PackedContentToCore::Data(bytes)),
    }
}

fn forward_all(exchange: &mut Exchange) {
    while exchange.pending() > 0 {
        exchange.process_incoming().unwrap();
    }
}

#[test]
fn components_know_their_address() {
    assert_eq!(Core::new().get_self_as_destination(), Destination::Core);
    assert_eq!(
        Decoder::new(VecDeque::new()).get_self_as_destination(),
        Destination::Decoder
    );
    assert_eq!(Demuxer::new().get_self_as_destination(), Destination::Demuxer);
    assert_eq!(Remuxer::new().get_self_as_destination(), Destination::Remuxer);
}

#[test]
fn registration_opens_a_channel() {
    let mut exchange = Exchange::new();
    let mut core = Core::new();
    let mut demuxer = Demuxer::new();
    assert!(!exchange.is_registered(Destination::Core));
    exchange.register(&mut core);
    exchange.register(&mut demuxer);
    assert!(exchange.is_registered(Destination::Core));
    assert!(exchange.is_registered(Destination::Demuxer));
    assert!(!exchange.is_registered(Destination::Decoder));
    assert!(!exchange.is_registered(Destination::Remuxer));
    exchange.close(Destination::Core);
    assert!(!exchange.is_registered(Destination::Core));
}

#[test]
fn forwarding_nothing_is_a_success() {
    let mut exchange = Exchange::new();
    assert_eq!(exchange.process_incoming(), Ok(()));
    assert_eq!(exchange.pending(), 0);
}

#[test]
fn one_envelope_is_forwarded_per_call() {
    let mut exchange = Exchange::new();
    let mut core = Core::new();
    exchange.register(&mut core);
    exchange.send(data_for_core(vec![1]));
    exchange.send(data_for_core(vec![2]));
    assert_eq!(exchange.pending(), 2);
    assert_eq!(exchange.process_incoming(), Ok(()));
    assert_eq!(exchange.pending(), 1);
    assert_eq!(
        exchange.receive(Destination::Core),
        Some(PackedContent::ToCore(PackedContentToCore::Data(vec![1])))
    );
    assert_eq!(exchange.receive(Destination::Core), None);
    assert_eq!(exchange.process_incoming(), Ok(()));
    assert_eq!(
        exchange.receive(Destination::Core),
        Some(PackedContent::ToCore(PackedContentToCore::Data(vec![2])))
    );
}

#[test]
fn envelopes_reach_only_their_destination_in_send_order() {
    let mut exchange = Exchange::new();
    let mut core = Core::new();
    let mut remuxer = Remuxer::new();
    exchange.register(&mut core);
    exchange.register(&mut remuxer);
    exchange.send(data_for_core(vec![1]));
    exchange.send(Packed {
        packed_routing: Destination::Remuxer,
        packed_content: PackedContent::ToRemuxer(PackedContentToRemuxer::StartRemuxing),
    });
    exchange.send(data_for_core(vec![2]));
    exchange.send(Packed {
        packed_routing: Destination::Remuxer,
        packed_content: PackedContent::ToRemuxer(PackedContentToRemuxer::Now),
    });
    forward_all(&mut exchange);
    assert_eq!(
        exchange.receive(Destination::Remuxer),
        Some(PackedContent::ToRemuxer(PackedContentToRemuxer::StartRemuxing))
    );
    assert_eq!(
        exchange.receive(Destination::Remuxer),
        Some(PackedContent::ToRemuxer(PackedContentToRemuxer::Now))
    );
    assert_eq!(exchange.receive(Destination::Remuxer), None);
    assert_eq!(
        exchange.receive(Destination::Core),
        Some(PackedContent::ToCore(PackedContentToCore::Data(vec![1])))
    );
    assert_eq!(
        exchange.receive(Destination::Core),
        Some(PackedContent::ToCore(PackedContentToCore::Data(vec![2])))
    );
    assert_eq!(exchange.receive(Destination::Core), None);
    assert_eq!(exchange.receive(Destination::Decoder), None);
}

#[test]
fn content_follows_the_routing_not_its_kind() {
    let mut exchange = Exchange::new();
    let mut core = Core::new();
    exchange.register(&mut core);
    exchange.send(Packed {
        packed_routing: Destination::Core,
        packed_content: PackedContent::ToRemuxer(PackedContentToRemuxer::Now),
    });
    forward_all(&mut exchange);
    assert_eq!(
        exchange.receive(Destination::Core),
        Some(PackedContent::ToRemuxer(PackedContentToRemuxer::Now))
    );
}

#[test]
fn a_destination_without_channel_is_a_delivery_failure() {
    let mut exchange = Exchange::new();
    let mut core = Core::new();
    exchange.register(&mut core);
    exchange.send(Packed {
        packed_routing: Destination::Decoder,
        packed_content: PackedContent::ToDecoder(PackedContentToDecoder::Now),
    });
    exchange.send(data_for_core(vec![3]));
    assert_eq!(exchange.process_incoming(), Err(FlvError::ChannelClosed));
    assert_eq!(exchange.pending(), 1);
    assert_eq!(exchange.process_incoming(), Ok(()));
    assert_eq!(
        exchange.receive(Destination::Core),
        Some(PackedContent::ToCore(PackedContentToCore::Data(vec![3])))
    );
}

#[test]
fn registering_again_starts_an_empty_channel() {
    let mut exchange = Exchange::new();
    let mut core = Core::new();
    exchange.register(&mut core);
    exchange.send(data_for_core(vec![1]));
    forward_all(&mut exchange);
    exchange.register(&mut core);
    assert_eq!(exchange.receive(Destination::Core), None);
}

#[test]
fn an_unregistered_core_cannot_send() {
    let mut exchange = Exchange::new();
    let core = Core::new();
    assert_eq!(core.send(&mut exchange, data_for_core(vec![1])), Err(FlvError::ChannelClosed));
    assert_eq!(core.start(&mut exchange), Err(FlvError::ChannelClosed));
    assert_eq!(core.stop(&mut exchange), Err(FlvError::ChannelClosed));
    assert_eq!(core.now(&mut exchange), Err(FlvError::ChannelClosed));
    assert_eq!(core.drop_all_workers(&mut exchange), Err(FlvError::ChannelClosed));
    let mut data: VecDeque<u8> = VecDeque::from(vec![1u8]);
    assert_eq!(core.push_data_to_decoder(&mut exchange, &mut data), Err(FlvError::ChannelClosed));
    assert_eq!(exchange.pending(), 0);
}

fn registered_core(exchange: &mut Exchange) -> Core {
    let mut core = Core::new();
    exchange.register(&mut core);
    let mut demuxer = Demuxer::new();
    exchange.register(&mut demuxer);
    let mut remuxer = Remuxer::new();
    exchange.register(&mut remuxer);
    exchange.close(Destination::Decoder);
    core
}

#[test]
fn directives_go_to_the_three_workers() {
    let mut exchange = Exchange::new();
    let core = registered_core(&mut exchange);
    assert_eq!(core.start(&mut exchange), Ok(()));
    assert_eq!(core.now(&mut exchange), Ok(()));
    assert_eq!(core.stop(&mut exchange), Ok(()));
    assert_eq!(core.drop_all_workers(&mut exchange), Ok(()));
    assert_eq!(exchange.pending(), 12);
    let mut failures = 0;
    while exchange.pending() > 0 {
        if exchange.process_incoming() == Err(FlvError::ChannelClosed) {
            failures += 1;
        }
    }
    assert_eq!(failures, 4);
    let mut to_demuxer = Vec::new();
    while let Some(content) = exchange.receive(Destination::Demuxer) {
        to_demuxer.push(content);
    }
    assert_eq!(
        to_demuxer,
        vec![
            PackedContent::ToDemuxer(PackedContentToDemuxer::StartDemuxing),
            PackedContent::ToDemuxer(PackedContentToDemuxer::Now),
            PackedContent::ToDemuxer(PackedContentToDemuxer::StopDemuxing),
            PackedContent::ToDemuxer(PackedContentToDemuxer::CloseWorkerThread),
        ]
    );
    let mut to_remuxer = Vec::new();
    while let Some(content) = exchange.receive(Destination::Remuxer) {
        to_remuxer.push(content);
    }
    assert_eq!(
        to_remuxer,
        vec![
            PackedContent::ToRemuxer(PackedContentToRemuxer::StartRemuxing),
            PackedContent::ToRemuxer(PackedContentToRemuxer::Now),
            PackedContent::ToRemuxer(PackedContentToRemuxer::StopRemuxing),
            PackedContent::ToRemuxer(PackedContentToRemuxer::CloseWorkerThread),
        ]
    );
}

#[test]
fn pushed_data_is_a_copy() {
    let mut exchange = Exchange::new();
    let mut core = Core::new();
    exchange.register(&mut core);
    exchange.register(&mut core);
    let mut data: VecDeque<u8> = VecDeque::from(vec![0x46u8, 0x4C, 0x56]);
    assert_eq!(core.push_data_to_decoder(&mut exchange, &mut data), Ok(()));
    assert_eq!(data, VecDeque::from(vec![0x46u8, 0x4C, 0x56]));
    assert_eq!(exchange.pending(), 1);
    assert_eq!(exchange.process_incoming(), Err(FlvError::ChannelClosed));
}

#[test]
fn consumer_pulls_the_oldest_buffer() {
    let mut exchange = Exchange::new();
    let mut core = Core::new();
    assert_eq!(core.consume(&mut exchange), Err(FlvError::NoDataAvailable));
    exchange.register(&mut core);
    assert_eq!(core.consume(&mut exchange), Err(FlvError::NoDataAvailable));
    exchange.send(data_for_core(vec![1, 1]));
    exchange.send(Packed {
        packed_routing: Destination::Core,
        packed_content: PackedContent::ToCore(PackedContentToCore::Command),
    });
    exchange.send(data_for_core(vec![2]));
    forward_all(&mut exchange);
    assert_eq!(core.consume(&mut exchange), Ok(vec![1, 1]));
    assert_eq!(exchange.receive(Destination::Core), None);
    exchange.send(data_for_core(vec![3]));
    forward_all(&mut exchange);
    assert_eq!(core.consume(&mut exchange), Ok(vec![2]));
    assert_eq!(core.consume(&mut exchange), Ok(vec![3]));
    assert_eq!(core.consume(&mut exchange), Err(FlvError::NoDataAvailable));
}
