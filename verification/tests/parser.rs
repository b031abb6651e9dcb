use flv_remux::error::FlvError;
use flv_remux::flv::header::{AudioTagHeader, TagHeader, VideoTagHeader};
use flv_remux::flv::tag::{EncryptedTagBody, NormalTagBody, Tag, TagBody, TagType};
use flv_remux::fmpeg::parser::{
    parse_aac_timescale, parse_avc_timescale, parse_mp3_timescale, parse_timescale,
    AacSequenceHeader, AudioParseResult, Avc1ParseResult, AvcNalu, Channel, KeyframeType,
    Mp3Layer, Mp3ParseResult, Mp3Version, Parser, VideoParseResult, AUDIO_BITRATE_TABLE_L1,
    AUDIO_BITRATE_TABLE_L2, AUDIO_BITRATE_TABLE_L3, AUDIO_SAMPLE_RATE_TABLE_M10,
    AUDIO_SAMPLE_RATE_TABLE_M20, AUDIO_SAMPLE_RATE_TABLE_M25,
};

fn audio_tag(sound_format: u8, aac_packet_type: u8, payload: Vec<u8>) -> Tag {
    Tag::new(
        false,
        TagType::Audio,
        payload.len() as u32 + 1,
        0,
        0,
        0,
        0,
        TagHeader::Audio(AudioTagHeader::new(sound_format, 3, true, 1, aac_packet_type)),
        TagBody::Normal(NormalTagBody::Audio(payload)),
        None,
        None,
    )
}

fn video_tag(frame_type: u8, codec_id: u8, avc_packet_type: u8, payload: Vec<u8>) -> Tag {
    Tag::new(
        false,
        TagType::Video,
        payload.len() as u32 + 5,
        0,
        0,
        0,
        0,
        TagHeader::Video(VideoTagHeader::new(frame_type, codec_id, avc_packet_type, 0)),
        TagBody::Normal(NormalTagBody::Video(payload)),
        None,
        None,
    )
}

fn mp3_of(tag: &Tag) -> Mp3ParseResult {
    match Parser::parse_audio(tag) {
        Ok(AudioParseResult::Mp3(frame)) => frame,
        other => panic!("unexpected result {:?}", other),
    }
}

#[test]
fn canonical_mp3_header() {
    let frame = mp3_of(&audio_tag(2, 0, vec![0xFF, 0xFB, 0x90, 0x64, 0, 0]));
    assert_eq!(frame.sample_rate, 44100);
    assert_eq!(frame.bitrate, 128);
    assert_eq!(frame.layer, Mp3Layer::L3);
    assert_eq!(frame.version, Mp3Version::Mp10);
    assert_eq!(frame.channel, Channel::JointStereo);
    assert_eq!(frame.channel_extended, 2);
}

#[test]
fn mp3_versions_and_layers() {
    let frame = mp3_of(&audio_tag(2, 0, vec![0xFF, 0xF5, 0x54, 0xC0]));
    assert_eq!(
        frame,
        Mp3ParseResult {
            version: Mp3Version::Mp20,
            layer: Mp3Layer::L2,
            sample_rate: 24000,
            bitrate: 80,
            channel: Channel::Mono,
            channel_extended: 0,
        }
    );
    let frame = mp3_of(&audio_tag(2, 0, vec![0xFF, 0xE7, 0x28, 0xB0]));
    assert_eq!(
        frame,
        Mp3ParseResult {
            version: Mp3Version::Mp25,
            layer: Mp3Layer::L1,
            sample_rate: 8000,
            bitrate: 64,
            channel: Channel::Dual,
            channel_extended: 0,
        }
    );
}

#[test]
fn mp3_free_and_reserved_rates_pass_as_zero() {
    let frame = mp3_of(&audio_tag(2, 0, vec![0xFF, 0xFB, 0x0C, 0x00]));
    assert_eq!(frame.bitrate, 0);
    assert_eq!(frame.sample_rate, 0);
    assert_eq!(frame.channel, Channel::Stereo);
    let frame = mp3_of(&audio_tag(2, 0, vec![0xFF, 0xFB, 0xF0, 0x00]));
    assert_eq!(frame.bitrate, 0);
    assert_eq!(frame.sample_rate, 44100);
}

#[test]
fn mp3_failures() {
    let bad_sync = audio_tag(2, 0, vec![0xFF, 0xDB, 0x90, 0x64]);
    assert_eq!(Parser::parse_audio(&bad_sync), Err(FlvError::SyncWordMismatch));
    let reserved_version = audio_tag(2, 0, vec![0xFF, 0xEB, 0x90, 0x64]);
    assert_eq!(Parser::parse_audio(&reserved_version), Err(FlvError::ReservedValue));
    let reserved_layer = audio_tag(2, 0, vec![0xFF, 0xF9, 0x90, 0x64]);
    assert_eq!(Parser::parse_audio(&reserved_layer), Err(FlvError::ReservedValue));
    let short = audio_tag(2, 0, vec![0xFF, 0xFB, 0x90]);
    assert_eq!(Parser::parse_audio(&short), Err(FlvError::InsufficientData));
}

#[test]
fn mp3_tables() {
    assert_eq!(AUDIO_SAMPLE_RATE_TABLE_M10, [44100, 48000, 32000, 0]);
    assert_eq!(AUDIO_SAMPLE_RATE_TABLE_M20, [22050, 24000, 16000, 0]);
    assert_eq!(AUDIO_SAMPLE_RATE_TABLE_M25, [11025, 12000, 8000, 0]);
    assert_eq!(AUDIO_BITRATE_TABLE_L1[14], 448);
    assert_eq!(AUDIO_BITRATE_TABLE_L2[14], 384);
    assert_eq!(AUDIO_BITRATE_TABLE_L3[14], 320);
    assert_eq!(AUDIO_BITRATE_TABLE_L3[0], 0);
    assert_eq!(AUDIO_BITRATE_TABLE_L3[15], 0);
}

#[test]
fn mp3_codes() {
    assert_eq!(Mp3Version::from(0), Mp3Version::Mp25);
    assert_eq!(Mp3Version::from(1), Mp3Version::Reserved);
    assert_eq!(Mp3Version::from(2), Mp3Version::Mp20);
    assert_eq!(Mp3Version::from(3), Mp3Version::Mp10);
    assert_eq!(Mp3Layer::from(0), Mp3Layer::Reserved);
    assert_eq!(Mp3Layer::from(1), Mp3Layer::L3);
    assert_eq!(Mp3Layer::from(2), Mp3Layer::L2);
    assert_eq!(Mp3Layer::from(3), Mp3Layer::L1);
    assert_eq!(Channel::from(0), Channel::Stereo);
    assert_eq!(Channel::from(1), Channel::JointStereo);
    assert_eq!(Channel::from(2), Channel::Dual);
    assert_eq!(Channel::from(3), Channel::Mono);
}

#[test]
fn aac_sequence_header() {
    let tag = audio_tag(10, 0, vec![0x12, 0x10, 0x56]);
    assert_eq!(
        Parser::parse_audio(&tag),
        Ok(AudioParseResult::AacSeqHdr(AacSequenceHeader {
            audio_object_type: 2,
            sampling_frequency_index: 4,
            channel_configuration: 2,
        }))
    );
    let tag = audio_tag(10, 0, vec![0x2B, 0x8A]);
    assert_eq!(
        Parser::parse_audio(&tag),
        Ok(AudioParseResult::AacSeqHdr(AacSequenceHeader {
            audio_object_type: 5,
            sampling_frequency_index: 7,
            channel_configuration: 1,
        }))
    );
    let short = audio_tag(10, 0, vec![0x12]);
    assert_eq!(Parser::parse_audio(&short), Err(FlvError::InsufficientData));
}

#[test]
fn aac_raw_passes_through() {
    let tag = audio_tag(10, 1, vec![0x21, 0x00, 0x49, 0x90]);
    assert_eq!(
        Parser::parse_audio(&tag),
        Ok(AudioParseResult::AacRaw(vec![0x21, 0x00, 0x49, 0x90]))
    );
    assert_eq!(Parser::parse_aac_raw(&vec![]), Ok(AudioParseResult::AacRaw(vec![])));
}

#[test]
fn audio_failures() {
    let other_packet = audio_tag(10, 2, vec![1, 2]);
    assert_eq!(Parser::parse_audio(&other_packet), Err(FlvError::UnsupportedCodec));
    let other_codec = audio_tag(11, 0, vec![1, 2]);
    assert_eq!(Parser::parse_audio(&other_codec), Err(FlvError::UnsupportedCodec));
    assert_eq!(
        Parser::parse_audio(&video_tag(1, 7, 1, vec![1])),
        Err(FlvError::TagKindMismatch)
    );
    let mut encrypted = audio_tag(10, 1, vec![1]);
    encrypted.tag_body = TagBody::Encrypted(EncryptedTagBody::Placeholder);
    assert_eq!(Parser::parse_audio(&encrypted), Err(FlvError::TagKindMismatch));
    let mut mixed = audio_tag(10, 1, vec![1]);
    mixed.tag_body = TagBody::Normal(NormalTagBody::Video(vec![1]));
    assert_eq!(Parser::parse_audio(&mixed), Err(FlvError::TagKindMismatch));
}

#[test]
fn parts_of_the_audio_parser() {
    let header = AudioTagHeader::new(10, 3, true, 1, 0);
    assert_eq!(
        Parser::parse_aac(&header, &vec![0x12, 0x10]),
        Parser::parse_aac_seq_hdr(&vec![0x12, 0x10])
    );
    let header = AudioTagHeader::new(10, 3, true, 1, 1);
    assert_eq!(Parser::parse_aac(&header, &vec![9]), Ok(AudioParseResult::AacRaw(vec![9])));
    let header = AudioTagHeader::new(2, 3, true, 1, 0);
    assert!(matches!(
        Parser::parse_mp3(&header, &vec![0xFF, 0xFB, 0x90, 0x64]),
        Ok(AudioParseResult::Mp3(_))
    ));
}

#[test]
fn video_packets() {
    assert_eq!(
        Parser::parse_video(&video_tag(1, 7, 0, vec![1, 0x64, 0, 0x1F])),
        Ok(VideoParseResult::Avc1(Avc1ParseResult::AvcSequenceHeader(vec![1, 0x64, 0, 0x1F])))
    );
    assert_eq!(
        Parser::parse_video(&video_tag(1, 7, 1, vec![5, 6])),
        Ok(VideoParseResult::Avc1(Avc1ParseResult::AvcNalu(AvcNalu {
            keyframe_type: KeyframeType::Keyframe,
            payload: vec![5, 6],
        })))
    );
    assert_eq!(
        Parser::parse_video(&video_tag(2, 7, 1, vec![7])),
        Ok(VideoParseResult::Avc1(Avc1ParseResult::AvcNalu(AvcNalu {
            keyframe_type: KeyframeType::Interframe,
            payload: vec![7],
        })))
    );
    assert_eq!(
        Parser::parse_video(&video_tag(1, 7, 2, vec![])),
        Ok(VideoParseResult::Avc1(Avc1ParseResult::AvcEndOfSequence))
    );
}

#[test]
fn video_failures() {
    assert_eq!(
        Parser::parse_video(&video_tag(1, 7, 3, vec![])),
        Err(FlvError::UnsupportedCodec)
    );
    assert_eq!(
        Parser::parse_video(&video_tag(1, 2, 0, vec![])),
        Err(FlvError::UnsupportedCodec)
    );
    assert_eq!(
        Parser::parse_video(&audio_tag(10, 1, vec![1])),
        Err(FlvError::TagKindMismatch)
    );
}

#[test]
fn durations_on_the_output_clock() {
    assert_eq!(parse_timescale(0), 0);
    assert_eq!(parse_timescale(0xAB123456), 0xAB123456);
    assert_eq!(parse_aac_timescale(44100), 23);
    assert_eq!(parse_aac_timescale(48000), 21);
    assert_eq!(parse_aac_timescale(0), 0);
    assert_eq!(parse_mp3_timescale(44100, Mp3Version::Mp10), 26);
    assert_eq!(parse_mp3_timescale(22050, Mp3Version::Mp20), 26);
    assert_eq!(parse_mp3_timescale(8000, Mp3Version::Mp25), 72);
    assert_eq!(parse_mp3_timescale(0, Mp3Version::Mp10), 0);
    assert_eq!(parse_avc_timescale(25000), 40);
    assert_eq!(parse_avc_timescale(29970), 33);
    assert_eq!(parse_avc_timescale(0), 0);
}
