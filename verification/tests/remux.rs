use std::collections::VecDeque;

use flv_remux::error::FlvError;
use flv_remux::exchange::{
    Destination, Exchange, Packed, PackedContent, PackedContentToCore, PackedContentToRemuxer,
};
use flv_remux::flv::decoder::Decoder;
use flv_remux::flv::demuxer::Demuxer;
use flv_remux::flv::header::{AudioTagHeader, FlvHeader, TagHeader, VideoTagHeader};
use flv_remux::flv::meta::RawMetaData;
use flv_remux::flv::script::{
    ScriptData, ScriptDataEcmaArray, ScriptDataLongString, ScriptDataObjectProp, ScriptDataString,
    ScriptTagBody,
};
use flv_remux::flv::tag::{EncryptedTagBody, NormalTagBody, Tag, TagBody, TagType};
use flv_remux::fmpeg::parser::{
    AacSequenceHeader, AudioConfigurationLike, Channel, Mp3Layer, Mp3ParseResult, Mp3Version,
};
use flv_remux::fmpeg::remux_context::{
    aac_sample_rate_of, AudioCodecType, RemuxContext, SampleContext, SampleContextBuilder,
    TrackContext, TrackType, VideoCodecType, TIME_SCALE,
};
use flv_remux::fmpeg::remuxer::{
    Fragment, RemuxOutput, Remuxer, DEFAULT_AUDIO_TRACK_ID, DEFAULT_VIDEO_TRACK_ID,
};

fn text(value: &str) -> ScriptDataString {
    ScriptDataString { length: value.len() as u16, data: value.to_string() }
}

fn number_prop(name: &str, value: f64) -> ScriptDataObjectProp {
    ScriptDataObjectProp { name: text(name), value: ScriptData::Number(value.to_bits()) }
}

fn text_prop(name: &str, value: &str) -> ScriptDataObjectProp {
    ScriptDataObjectProp { name: text(name), value: ScriptData::String(text(value)) }
}

fn metadata_of(properties: Vec<ScriptDataObjectProp>) -> RawMetaData {
    RawMetaData::new(ScriptTagBody {
        name: text("onMetaData"),
        value: ScriptDataEcmaArray { length: properties.len() as u32, properties },
    })
}

fn plain_header() -> FlvHeader {
    FlvHeader::new([0x46, 0x4C, 0x56], 1, true, true, 9)
}

fn aac_config() -> AudioConfigurationLike {
    AudioConfigurationLike::Aac(AacSequenceHeader {
        audio_object_type: 2,
        sampling_frequency_index: 4,
        channel_configuration: 2,
    })
}

fn audio_tag_at(timestamp: u32, sound_format: u8, packet_type: u8, payload: Vec<u8>) -> Tag {
    Tag::new(
        false,
        TagType::Audio,
        payload.len() as u32 + 2,
        timestamp & 0xFFFFFF,
        (timestamp >> 24) as u8,
        timestamp,
        0,
        TagHeader::Audio(AudioTagHeader::new(sound_format, 3, true, 1, packet_type)),
        TagBody::Normal(NormalTagBody::Audio(payload)),
        None,
        None,
    )
}

fn video_tag_at(timestamp: u32, frame_type: u8, packet_type: u8, cts: i32, payload: Vec<u8>) -> Tag {
    Tag::new(
        false,
        TagType::Video,
        payload.len() as u32 + 5,
        timestamp & 0xFFFFFF,
        (timestamp >> 24) as u8,
        timestamp,
        0,
        TagHeader::Video(VideoTagHeader::new(frame_type, 7, packet_type, cts)),
        TagBody::Normal(NormalTagBody::Video(payload)),
        None,
        None,
    )
}

fn to_remuxer(content: PackedContentToRemuxer) -> PackedContent {
    PackedContent::ToRemuxer(content)
}

fn outputs_of(remuxer: &mut Remuxer) -> Vec<RemuxOutput> {
    let mut outputs = Vec::new();
    while let Some(output) = remuxer.next_output() {
        outputs.push(output);
    }
    outputs
}

fn configured_remuxer() -> Remuxer {
    let mut remuxer = Remuxer::new();
    let metadata = metadata_of(vec![number_prop("framerate", 25.0)]);
    for content in [
        PackedContentToRemuxer::PushFlvHeader(plain_header()),
        PackedContentToRemuxer::PushMetadata(metadata),
        PackedContentToRemuxer::PushTag(audio_tag_at(0, 10, 0, vec![0x12, 0x10])),
        PackedContentToRemuxer::PushTag(video_tag_at(0, 1, 0, 0, vec![1, 0x64, 0, 0x1F])),
        PackedContentToRemuxer::StartRemuxing,
    ] {
        remuxer.handle(to_remuxer(content)).unwrap();
    }
    assert!(remuxer.context().is_configured());
    remuxer
}

#[test]
fn fresh_context() {
    let ctx = RemuxContext::new();
    assert_eq!(TIME_SCALE, 1000);
    assert!(!ctx.is_configured());
    assert!(!ctx.is_header_sent());
    assert!(!ctx.header_sent());
    assert_eq!(ctx.fps, 0);
    assert_eq!(ctx.duration_ms, 0);
    assert_eq!(ctx.major_brand, "isom");
    assert_eq!(ctx.minor_version, "512");
    assert_eq!(ctx.compatible_brands, vec!["isom", "iso2", "avc1", "mp41"]);
    assert_eq!(ctx.video_codec_type, VideoCodecType::Unknown);
    assert_eq!(ctx.audio_codec_type, AudioCodecType::Unknown);
}

#[test]
fn context_is_configured_after_all_four_in_any_order() {
    let orders: [[usize; 4]; 6] =
        [[0, 1, 2, 3], [3, 2, 1, 0], [1, 3, 0, 2], [2, 0, 3, 1], [0, 2, 1, 3], [3, 0, 1, 2]];
    for order in orders {
        let mut ctx = RemuxContext::new();
        for (done, step) in order.iter().enumerate() {
            assert!(!ctx.is_configured(), "configured after {} of {:?}", done, order);
            match step {
                0 => ctx.parse_flv_header(&plain_header()),
                1 => ctx.parse_metadata(&metadata_of(vec![])),
                2 => ctx.configure_video_metadata(vec![1, 2, 3]),
                _ => ctx.configure_audio_metadata(&aac_config()),
            }
        }
        assert!(ctx.is_configured(), "not configured after {:?}", order);
    }
}

#[test]
fn repeated_calls_do_not_stand_in_for_a_missing_one() {
    let mut ctx = RemuxContext::new();
    ctx.parse_flv_header(&plain_header());
    ctx.parse_flv_header(&plain_header());
    ctx.parse_metadata(&metadata_of(vec![]));
    ctx.configure_audio_metadata(&aac_config());
    ctx.configure_audio_metadata(&aac_config());
    assert!(!ctx.is_configured());
    ctx.configure_video_metadata(vec![]);
    assert!(ctx.is_configured());
}

#[test]
fn header_sent_is_a_latch() {
    let mut ctx = RemuxContext::new();
    ctx.set_header_sent(false);
    assert!(!ctx.is_header_sent());
    ctx.set_header_sent(true);
    assert!(ctx.is_header_sent());
    ctx.set_header_sent(false);
    assert!(ctx.is_header_sent());
    assert!(ctx.header_sent());
}

#[test]
fn header_sent_flips_once_across_repeated_checks() {
    let mut ctx = RemuxContext::new();
    ctx.parse_flv_header(&plain_header());
    ctx.parse_metadata(&metadata_of(vec![]));
    ctx.configure_video_metadata(vec![]);
    ctx.configure_audio_metadata(&aac_config());
    let mut flips = 0;
    for _ in 0..5 {
        if ctx.is_configured() && !ctx.is_header_sent() {
            ctx.set_header_sent(true);
            flips += 1;
        }
    }
    assert_eq!(flips, 1);
}

#[test]
fn flv_header_sets_the_track_flags() {
    let mut ctx = RemuxContext::new();
    ctx.parse_flv_header(&FlvHeader::new([0x46, 0x4C, 0x56], 1, true, false, 9));
    assert!(ctx.has_audio);
    assert!(!ctx.has_video);
}

#[test]
fn metadata_fills_what_it_names() {
    let mut ctx = RemuxContext::new();
    ctx.parse_metadata(&metadata_of(vec![
        number_prop("duration", 12.345),
        number_prop("width", 1280.0),
        number_prop("height", 720.0),
        number_prop("framerate", 29.97),
        number_prop("audiocodecid", 10.0),
        number_prop("audiodatarate", 127.9),
        number_prop("videocodecid", 7.0),
        number_prop("videodatarate", 2500.5),
        text_prop("major_brand", "mp42"),
        ScriptDataObjectProp {
            name: text("minor_version"),
            value: ScriptData::LongString(ScriptDataLongString { length: 1, data: "0".to_string() }),
        },
        text_prop("compatible_brands", "isommp42dashXYZWtail"),
    ]));
    assert_eq!(ctx.duration_ms, 12345);
    assert_eq!(f64::from_bits(ctx.width), 1280.0);
    assert_eq!(f64::from_bits(ctx.height), 720.0);
    assert_eq!(f64::from_bits(ctx.fps), 29.97);
    assert_eq!(ctx.fps_num, 29970);
    assert_eq!(ctx.audio_codec_id, 10);
    assert_eq!(ctx.audio_data_rate, 127);
    assert_eq!(ctx.video_codec_id, 7);
    assert_eq!(ctx.video_data_rate, 2500);
    assert_eq!(ctx.major_brand, "mp42");
    assert_eq!(ctx.minor_version, "0");
    assert_eq!(
        ctx.compatible_brands,
        vec!["isom", "iso2", "avc1", "mp41", "isom", "mp42", "dash", "XYZW"]
    );
}

#[test]
fn metadata_keeps_what_it_does_not_name() {
    let mut ctx = RemuxContext::new();
    ctx.parse_metadata(&metadata_of(vec![
        number_prop("duration", 2.0),
        number_prop("framerate", 25.0),
        text_prop("major_brand", "mp42"),
    ]));
    ctx.parse_metadata(&metadata_of(vec![
        number_prop("width", 320.0),
        text_prop("duration", "long"),
        text_prop("compatible_brands", "tooshort"),
    ]));
    assert_eq!(ctx.duration_ms, 2000);
    assert_eq!(ctx.fps_num, 25000);
    assert_eq!(f64::from_bits(ctx.width), 320.0);
    assert_eq!(ctx.height, 0);
    assert_eq!(ctx.major_brand, "mp42");
    assert_eq!(ctx.minor_version, "512");
    assert_eq!(ctx.compatible_brands, vec!["isom", "iso2", "avc1", "mp41"]);
}

#[test]
fn audio_configuration_is_copied() {
    let mut ctx = RemuxContext::new();
    ctx.configure_audio_metadata(&aac_config());
    assert_eq!(ctx.audio_codec_type, AudioCodecType::Aac);
    assert_eq!(ctx.audio_sample_rate, 44100);
    assert_eq!(ctx.audio_channels, 2);
    ctx.configure_audio_metadata(&AudioConfigurationLike::Mp3(Mp3ParseResult {
        version: Mp3Version::Mp20,
        layer: Mp3Layer::L3,
        sample_rate: 22050,
        bitrate: 64,
        channel: Channel::Mono,
        channel_extended: 0,
    }));
    assert_eq!(ctx.audio_codec_type, AudioCodecType::Mp3);
    assert_eq!(ctx.audio_sample_rate, 22050);
    assert_eq!(ctx.audio_channels, 1);
    assert_eq!(aac_sample_rate_of(0), 96000);
    assert_eq!(aac_sample_rate_of(3), 48000);
    assert_eq!(aac_sample_rate_of(12), 7350);
    assert_eq!(aac_sample_rate_of(13), 0);
}

#[test]
fn video_configuration_is_kept() {
    let mut ctx = RemuxContext::new();
    ctx.configure_video_metadata(vec![1, 0x64, 0, 0x1F]);
    assert_eq!(ctx.video_codec_type, VideoCodecType::Avc1);
    assert_eq!(ctx.video_sequence_header, vec![1, 0x64, 0, 0x1F]);
}

#[test]
fn sample_builder_sets_field_by_field() {
    let sample = SampleContextBuilder::new()
        .set_decode_time(40)
        .set_sample_size(1000)
        .set_sample_duration(33)
        .set_composition_time_offset(-7)
        .set_has_redundancy(true)
        .set_is_leading(true)
        .set_is_keyframe(true)
        .set_is_non_sync(true)
        .build();
    assert_eq!(
        sample,
        SampleContext {
            decode_time: 40,
            sample_size: 1000,
            sample_duration: 33,
            composition_time_offset: -7,
            is_keyframe: true,
            is_leading: true,
            is_non_sync: true,
            has_redundancy: true,
        }
    );
    assert_eq!(
        SampleContextBuilder::new().build(),
        SampleContext {
            decode_time: 0,
            sample_size: 0,
            sample_duration: 0,
            composition_time_offset: 0,
            is_keyframe: false,
            is_leading: false,
            is_non_sync: false,
            has_redundancy: false,
        }
    );
    assert_eq!(
        TrackContext::new(9, TrackType::Audio),
        TrackContext { track_id: 9, track_type: TrackType::Audio, sequence_number: 1 }
    );
}

#[test]
fn remuxer_emits_nothing_while_switched_off() {
    let mut remuxer = Remuxer::new();
    for content in [
        PackedContentToRemuxer::PushFlvHeader(plain_header()),
        PackedContentToRemuxer::PushMetadata(metadata_of(vec![])),
        PackedContentToRemuxer::PushTag(audio_tag_at(0, 10, 0, vec![0x12, 0x10])),
        PackedContentToRemuxer::PushTag(video_tag_at(0, 1, 0, 0, vec![1])),
        PackedContentToRemuxer::PushTag(video_tag_at(0, 1, 1, 0, vec![2])),
        PackedContentToRemuxer::Now,
    ] {
        assert_eq!(remuxer.handle(to_remuxer(content)), Ok(()));
    }
    assert!(!remuxer.context().is_configured());
    assert_eq!(outputs_of(&mut remuxer), vec![]);
}

#[test]
fn init_segment_goes_out_alone_then_the_queue_drains() {
    let mut remuxer = configured_remuxer();
    assert!(!remuxer.context().is_header_sent());
    remuxer
        .handle(to_remuxer(PackedContentToRemuxer::PushTag(video_tag_at(40, 1, 1, 0, vec![9]))))
        .unwrap();
    assert!(remuxer.context().is_header_sent());
    assert_eq!(outputs_of(&mut remuxer), vec![RemuxOutput::InitSegment]);
    remuxer.handle(to_remuxer(PackedContentToRemuxer::Now)).unwrap();
    let outputs = outputs_of(&mut remuxer);
    assert_eq!(outputs.len(), 1);
    assert!(matches!(outputs[0], RemuxOutput::Fragment(_)));
}

#[test]
fn samples_carry_time_size_and_flags() {
    let mut remuxer = configured_remuxer();
    for tag in [
        video_tag_at(40, 1, 1, 80, vec![1, 2, 3]),
        audio_tag_at(46, 10, 1, vec![4, 5]),
        video_tag_at(80, 2, 1, -40, vec![6]),
        video_tag_at(120, 1, 2, 0, vec![]),
        audio_tag_at(0x01000010, 10, 1, vec![7]),
    ] {
        remuxer.handle(to_remuxer(PackedContentToRemuxer::PushTag(tag))).unwrap();
    }
    let video = |sequence_number| TrackContext {
        track_id: DEFAULT_VIDEO_TRACK_ID,
        track_type: TrackType::Video,
        sequence_number,
    };
    let audio = |sequence_number| TrackContext {
        track_id: DEFAULT_AUDIO_TRACK_ID,
        track_type: TrackType::Audio,
        sequence_number,
    };
    assert_eq!(
        outputs_of(&mut remuxer),
        vec![
            RemuxOutput::InitSegment,
            RemuxOutput::Fragment(Fragment {
                track: video(1),
                sample: SampleContext {
                    decode_time: 40,
                    sample_size: 3,
                    sample_duration: 40,
                    composition_time_offset: 80,
                    is_keyframe: true,
                    is_leading: true,
                    is_non_sync: false,
                    has_redundancy: false,
                },
                payload: vec![1, 2, 3],
            }),
            RemuxOutput::Fragment(Fragment {
                track: audio(1),
                sample: SampleContext {
                    decode_time: 46,
                    sample_size: 2,
                    sample_duration: 23,
                    composition_time_offset: 0,
                    is_keyframe: false,
                    is_leading: false,
                    is_non_sync: false,
                    has_redundancy: false,
                },
                payload: vec![4, 5],
            }),
            RemuxOutput::Fragment(Fragment {
                track: video(2),
                sample: SampleContext {
                    decode_time: 80,
                    sample_size: 1,
                    sample_duration: 40,
                    composition_time_offset: -40,
                    is_keyframe: false,
                    is_leading: false,
                    is_non_sync: true,
                    has_redundancy: false,
                },
                payload: vec![6],
            }),
            RemuxOutput::Fragment(Fragment {
                track: audio(2),
                sample: SampleContext {
                    decode_time: 0x01000010,
                    sample_size: 1,
                    sample_duration: 23,
                    composition_time_offset: 0,
                    is_keyframe: false,
                    is_leading: false,
                    is_non_sync: false,
                    has_redundancy: false,
                },
                payload: vec![7],
            }),
        ]
    );
}

#[test]
fn mp3_frames_configure_and_then_flow() {
    let mut remuxer = Remuxer::new();
    let frame = vec![0xFF, 0xFB, 0x90, 0x64, 1, 2, 3, 4];
    for content in [
        PackedContentToRemuxer::StartRemuxing,
        PackedContentToRemuxer::PushFlvHeader(plain_header()),
        PackedContentToRemuxer::PushMetadata(metadata_of(vec![])),
        PackedContentToRemuxer::PushTag(video_tag_at(0, 1, 0, 0, vec![1])),
        PackedContentToRemuxer::PushTag(audio_tag_at(0, 2, 0, frame.clone())),
    ] {
        remuxer.handle(to_remuxer(content)).unwrap();
    }
    assert!(remuxer.context().is_configured());
    assert_eq!(remuxer.context().audio_codec_type, AudioCodecType::Mp3);
    assert_eq!(outputs_of(&mut remuxer), vec![]);
    remuxer
        .handle(to_remuxer(PackedContentToRemuxer::PushTag(audio_tag_at(26, 2, 0, frame.clone()))))
        .unwrap();
    remuxer.handle(to_remuxer(PackedContentToRemuxer::Now)).unwrap();
    let outputs = outputs_of(&mut remuxer);
    assert_eq!(outputs.len(), 2);
    assert_eq!(outputs[0], RemuxOutput::InitSegment);
    match &outputs[1] {
        RemuxOutput::Fragment(fragment) => {
            assert_eq!(fragment.payload, frame);
            assert_eq!(fragment.sample.sample_size, 8);
            assert_eq!(fragment.sample.sample_duration, 26);
            assert_eq!(fragment.sample.decode_time, 26);
        }
        other => panic!("unexpected output {:?}", other),
    }
}

#[test]
fn sequence_header_after_configuration_is_fatal() {
    let mut remuxer = configured_remuxer();
    remuxer
        .handle(to_remuxer(PackedContentToRemuxer::PushTag(audio_tag_at(0, 10, 0, vec![0x12, 0x10]))))
        .unwrap();
    assert_eq!(
        remuxer.handle(to_remuxer(PackedContentToRemuxer::Now)),
        Err(FlvError::SequenceHeaderAfterConfig)
    );
    let mut remuxer = configured_remuxer();
    remuxer.handle(to_remuxer(PackedContentToRemuxer::Now)).unwrap();
    assert_eq!(
        remuxer
            .handle(to_remuxer(PackedContentToRemuxer::PushTag(video_tag_at(0, 1, 0, 0, vec![1])))),
        Err(FlvError::SequenceHeaderAfterConfig)
    );
    assert_eq!(outputs_of(&mut remuxer), vec![RemuxOutput::InitSegment]);
}

#[test]
fn a_fault_keeps_the_tags_behind_it() {
    let mut remuxer = configured_remuxer();
    remuxer.handle(to_remuxer(PackedContentToRemuxer::StopRemuxing)).unwrap();
    for tag in [
        video_tag_at(0, 1, 1, 0, vec![1]),
        audio_tag_at(0, 11, 0, vec![2]),
        video_tag_at(40, 2, 1, 0, vec![3]),
    ] {
        remuxer.handle(to_remuxer(PackedContentToRemuxer::PushTag(tag))).unwrap();
    }
    assert_eq!(remuxer.remux(), Err(FlvError::UnsupportedCodec));
    assert_eq!(outputs_of(&mut remuxer).len(), 2);
    assert_eq!(remuxer.remux(), Ok(()));
    let outputs = outputs_of(&mut remuxer);
    assert_eq!(outputs.len(), 1);
    match &outputs[0] {
        RemuxOutput::Fragment(fragment) => assert_eq!(fragment.payload, vec![3]),
        other => panic!("unexpected output {:?}", other),
    }
}

#[test]
fn script_and_filtered_tags_are_passed_over() {
    let mut remuxer = configured_remuxer();
    let script = Tag::new(
        false,
        TagType::Script,
        0,
        0,
        0,
        0,
        0,
        TagHeader::Script,
        TagBody::Normal(NormalTagBody::Placeholder),
        None,
        None,
    );
    let mut filtered = video_tag_at(0, 1, 1, 0, vec![]);
    filtered.filter = true;
    filtered.tag_body = TagBody::Encrypted(EncryptedTagBody::Placeholder);
    remuxer.handle(to_remuxer(PackedContentToRemuxer::Now)).unwrap();
    remuxer.handle(to_remuxer(PackedContentToRemuxer::PushTag(script))).unwrap();
    remuxer.handle(to_remuxer(PackedContentToRemuxer::PushTag(filtered))).unwrap();
    assert_eq!(outputs_of(&mut remuxer), vec![RemuxOutput::InitSegment]);
}

#[test]
fn content_for_others_is_passed_over() {
    let mut remuxer = configured_remuxer();
    remuxer.handle(PackedContent::ToCore(PackedContentToCore::Data(vec![1, 2]))).unwrap();
    remuxer.handle(PackedContent::ToCore(PackedContentToCore::Command)).unwrap();
    assert_eq!(outputs_of(&mut remuxer), vec![RemuxOutput::InitSegment]);
}

#[test]
fn run_stops_at_close() {
    let mut exchange = Exchange::new();
    let mut remuxer = Remuxer::new();
    assert_eq!(remuxer.run(&mut exchange), Ok(()));
    exchange.register(&mut remuxer);
    for content in [
        PackedContentToRemuxer::StartRemuxing,
        PackedContentToRemuxer::CloseWorkerThread,
        PackedContentToRemuxer::PushFlvHeader(plain_header()),
    ] {
        exchange.send(Packed {
            packed_routing: Destination::Remuxer,
            packed_content: to_remuxer(content),
        });
        exchange.process_incoming().unwrap();
    }
    assert_eq!(remuxer.run(&mut exchange), Ok(()));
    assert!(!remuxer.context().has_audio);
    assert!(matches!(
        exchange.receive(Destination::Remuxer),
        Some(PackedContent::ToRemuxer(PackedContentToRemuxer::PushFlvHeader(_)))
    ));
    assert_eq!(remuxer.run(&mut exchange), Ok(()));
}

fn wire_key(text: &str) -> Vec<u8> {
    let mut bytes = vec![2];
    bytes.extend_from_slice(&(text.len() as u16).to_be_bytes());
    bytes.extend_from_slice(text.as_bytes());
    bytes
}

fn wire_number(value: f64) -> Vec<u8> {
    let mut bytes = vec![0];
    bytes.extend_from_slice(&value.to_bits().to_be_bytes());
    bytes
}

fn wire_tag(tag_type: u8, timestamp: u32, payload: &[u8]) -> Vec<u8> {
    let mut bytes = vec![tag_type];
    bytes.extend_from_slice(&(payload.len() as u32).to_be_bytes()[1..]);
    bytes.extend_from_slice(&timestamp.to_be_bytes()[1..]);
    bytes.push(timestamp.to_be_bytes()[0]);
    bytes.extend_from_slice(&[0, 0, 0]);
    bytes.extend_from_slice(payload);
    bytes
}

fn synthetic_flv() -> Vec<u8> {
    let mut script = wire_key("onMetaData");
    script.extend_from_slice(&[8, 0, 0, 0, 3]);
    script.extend_from_slice(&wire_key("duration"));
    script.extend_from_slice(&wire_number(0.08));
    script.extend_from_slice(&wire_key("framerate"));
    script.extend_from_slice(&wire_number(25.0));
    script.extend_from_slice(&wire_key(""));
    script.push(9);
    let tags = vec![
        wire_tag(18, 0, &script),
        wire_tag(8, 0, &[0xAF, 0x00, 0x12, 0x10]),
        wire_tag(8, 0, &[0xAF, 0x01, 0x21, 0x00, 0x49]),
        wire_tag(9, 0, &[0x17, 0x00, 0, 0, 0, 1, 0x64, 0, 0x1F]),
        wire_tag(9, 40, &[0x17, 0x01, 0, 0, 0x28, 0, 0, 0, 1, 0x65]),
    ];
    let mut bytes = vec![0x46, 0x4C, 0x56, 1, 5, 0, 0, 0, 9];
    let mut previous: u32 = 0;
    for tag in &tags {
        bytes.extend_from_slice(&previous.to_be_bytes());
        bytes.extend_from_slice(tag);
        previous = tag.len() as u32;
    }
    bytes.extend_from_slice(&previous.to_be_bytes());
    bytes
}

fn envelopes_of(bytes: &[u8]) -> Vec<Packed> {
    let mut decoder = Decoder::new(VecDeque::new());
    decoder.push_bytes(bytes);
    let header = decoder.decode_header().unwrap();
    let mut tags = Vec::new();
    decoder.decode_body(&mut tags).unwrap();
    assert_eq!(tags.len(), 5);
    assert_eq!(decoder.remaining(), 0);
    let mut envelopes = vec![Demuxer::route_header(header)];
    for tag in tags {
        envelopes.push(Demuxer::route_tag(tag));
    }
    envelopes
}

fn directive(content: PackedContentToRemuxer) -> Packed {
    Packed { packed_routing: Destination::Remuxer, packed_content: to_remuxer(content) }
}

#[test]
fn demuxer_addresses_the_remuxer() {
    assert_eq!(
        Demuxer::route_header(plain_header()),
        directive(PackedContentToRemuxer::PushFlvHeader(plain_header()))
    );
    assert_eq!(
        Demuxer::route_tag(audio_tag_at(7, 10, 1, vec![1])),
        directive(PackedContentToRemuxer::PushTag(audio_tag_at(7, 10, 1, vec![1])))
    );
    let envelopes = envelopes_of(&synthetic_flv());
    assert_eq!(envelopes.len(), 6);
    match &envelopes[1].packed_content {
        PackedContent::ToRemuxer(PackedContentToRemuxer::PushMetadata(metadata)) => {
            assert_eq!(metadata.properties.len(), 3);
            assert_eq!(metadata.try_get_number("framerate"), Some(25.0f64.to_bits()));
        }
        other => panic!("unexpected content {:?}", other),
    }
    assert!(envelopes.iter().all(|packed| packed.packed_routing == Destination::Remuxer));
}

fn expected_fragment() -> RemuxOutput {
    RemuxOutput::Fragment(Fragment {
        track: TrackContext {
            track_id: DEFAULT_VIDEO_TRACK_ID,
            track_type: TrackType::Video,
            sequence_number: 1,
        },
        sample: SampleContext {
            decode_time: 40,
            sample_size: 5,
            sample_duration: 40,
            composition_time_offset: 40,
            is_keyframe: true,
            is_leading: true,
            is_non_sync: false,
            has_redundancy: false,
        },
        payload: vec![0, 0, 0, 1, 0x65],
    })
}

#[test]
fn end_to_end_everything_queued_before_start() {
    let mut exchange = Exchange::new();
    let mut remuxer = Remuxer::new();
    exchange.register(&mut remuxer);
    let mut envelopes = envelopes_of(&synthetic_flv());
    envelopes.push(directive(PackedContentToRemuxer::StartRemuxing));
    for packed in envelopes {
        exchange.send(packed);
    }
    while exchange.pending() > 0 {
        exchange.process_incoming().unwrap();
    }
    assert_eq!(remuxer.run(&mut exchange), Ok(()));
    assert_eq!(remuxer.context().duration_ms, 80);
    assert_eq!(remuxer.context().fps_num, 25000);
    assert_eq!(remuxer.context().audio_sample_rate, 44100);
    assert_eq!(remuxer.context().video_sequence_header, vec![1, 0x64, 0, 0x1F]);
    assert_eq!(outputs_of(&mut remuxer), vec![RemuxOutput::InitSegment, expected_fragment()]);
    assert_eq!(remuxer.run(&mut exchange), Ok(()));
    assert_eq!(outputs_of(&mut remuxer), vec![]);
}

#[test]
fn end_to_end_message_by_message() {
    let mut exchange = Exchange::new();
    let mut remuxer = Remuxer::new();
    exchange.register(&mut remuxer);
    let mut envelopes = vec![directive(PackedContentToRemuxer::StartRemuxing)];
    envelopes.extend(envelopes_of(&synthetic_flv()));
    envelopes.push(directive(PackedContentToRemuxer::Now));
    envelopes.push(directive(PackedContentToRemuxer::Now));
    let mut outputs = Vec::new();
    for packed in envelopes {
        exchange.send(packed);
        exchange.process_incoming().unwrap();
        assert_eq!(remuxer.run(&mut exchange), Ok(()));
        outputs.extend(outputs_of(&mut remuxer));
    }
    assert_eq!(outputs, vec![RemuxOutput::InitSegment, expected_fragment()]);
}
