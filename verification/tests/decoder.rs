use std::collections::VecDeque;

use flv_remux::error::FlvError;
use flv_remux::flv::decoder::Decoder;
use flv_remux::flv::header::{
    AudioTagHeader, EncryptionTagHeader, FilterParameters, FlvHeader, TagHeader, VideoTagHeader,
};
use flv_remux::flv::tag::{EncryptedTagBody, NormalTagBody, Tag, TagBody, TagType};

fn decoder_over(bytes: &[u8]) -> Decoder {
    let mut decoder = Decoder::new(VecDeque::new());
    decoder.push_bytes(bytes);
    decoder
}

fn framed_tag(first_byte: u8, timestamp: u32, payload: &[u8]) -> Vec<u8> {
    let mut bytes = vec![first_byte];
    bytes.extend_from_slice(&(payload.len() as u32).to_be_bytes()[1..]);
    bytes.extend_from_slice(&timestamp.to_be_bytes()[1..]);
    bytes.push(timestamp.to_be_bytes()[0]);
    bytes.extend_from_slice(&[0, 0, 0]);
    bytes.extend_from_slice(payload);
    bytes
}

fn framed_body(tags: &[Vec<u8>]) -> Vec<u8> {
    let mut bytes = Vec::new();
    let mut previous: u32 = 0;
    for tag in tags {
        bytes.extend_from_slice(&previous.to_be_bytes());
        bytes.extend_from_slice(tag);
        previous = tag.len() as u32;
    }
    bytes.extend_from_slice(&previous.to_be_bytes());
    bytes
}

#[test]
fn composite_timestamp_examples() {
    assert_eq!(Decoder::concat_ts(0x123456, 0xAB), 0xAB123456);
    assert_eq!(Decoder::concat_ts(0, 0xAB), 0xAB000000);
    assert_eq!(Decoder::concat_ts(0x00FFFFFF, 0xFF), 0xFFFFFFFF);
    assert_eq!(Decoder::concat_ts(0xFF123456, 0x01), 0x01123456);
}

#[test]
fn composite_timestamp_matches_the_formula() {
    for ts in [0u32, 1, 0x7FFFFF, 0x800000, 0xFFFFFF, 0x123456] {
        for ext in [0u8, 1, 0x7F, 0x80, 0xFF] {
            assert_eq!(Decoder::concat_ts(ts, ext), (ts & 0x00FFFFFF) | ((ext as u32) << 24));
        }
    }
}

#[test]
fn header_is_decoded_from_nine_bytes() {
    let mut decoder = decoder_over(&[0x46, 0x4C, 0x56, 1, 0b0000_0101, 0, 0, 0, 9, 0xAA]);
    let header = decoder.decode_header().unwrap();
    assert_eq!(header, FlvHeader::new([0x46, 0x4C, 0x56], 1, true, true, 9));
    assert_eq!(decoder.remaining(), 1);
}

#[test]
fn header_flags_are_read_bit_by_bit() {
    let mut audio_only = decoder_over(&[0x46, 0x4C, 0x56, 1, 0b0000_0100, 0, 0, 1, 0]);
    let header = audio_only.decode_header().unwrap();
    assert!(header.type_flags_audio);
    assert!(!header.type_flags_video);
    assert_eq!(header.data_offset, 256);
    let mut video_only = decoder_over(&[0x46, 0x4C, 0x56, 3, 0b0000_0001, 0, 0, 0, 9]);
    let header = video_only.decode_header().unwrap();
    assert!(!header.type_flags_audio);
    assert!(header.type_flags_video);
    assert_eq!(header.version, 3);
}

#[test]
fn short_header_is_malformed_and_untouched() {
    let mut decoder = decoder_over(&[0x46, 0x4C, 0x56, 1, 5, 0, 0, 0]);
    assert_eq!(decoder.decode_header(), Err(FlvError::MalformedHeader));
    assert_eq!(decoder.remaining(), 8);
}

#[test]
fn wrong_signature_is_malformed() {
    let mut decoder = decoder_over(&[0x46, 0x4C, 0x57, 1, 5, 0, 0, 0, 9, 1, 2]);
    assert_eq!(decoder.decode_header(), Err(FlvError::MalformedHeader));
    assert_eq!(decoder.remaining(), 2);
}

#[test]
fn tag_type_codes() {
    assert_eq!(TagType::from(8), Ok(TagType::Audio));
    assert_eq!(TagType::from(9), Ok(TagType::Video));
    assert_eq!(TagType::from(18), Ok(TagType::Script));
    assert_eq!(TagType::from(0), Err(FlvError::InvalidTagType));
    assert_eq!(TagType::from(10), Err(FlvError::InvalidTagType));
}

#[test]
fn audio_header_fields() {
    let mut size: usize = 0;
    let mut aac = decoder_over(&[0xAF, 0x01, 0x99]);
    let header = AudioTagHeader::parse(&mut aac, &mut size).unwrap();
    assert_eq!(header, AudioTagHeader::new(10, 3, true, 1, 1));
    assert_eq!(size, 2);
    assert_eq!(aac.remaining(), 1);
    let mut mp3 = decoder_over(&[0x2C, 0x99]);
    let header = AudioTagHeader::parse(&mut mp3, &mut size).unwrap();
    assert_eq!(header, AudioTagHeader::new(2, 3, false, 0, 0));
    assert_eq!(size, 3);
    assert_eq!(mp3.remaining(), 1);
}

#[test]
fn video_header_fields() {
    let mut size: usize = 0;
    let mut avc = decoder_over(&[0x17, 0x01, 0x00, 0x00, 0x28, 0x99]);
    let header = VideoTagHeader::parse(&mut avc, &mut size).unwrap();
    assert_eq!(header, VideoTagHeader::new(1, 7, 1, 40));
    assert_eq!(size, 5);
    let mut negative = decoder_over(&[0x27, 0x01, 0xFF, 0xFF, 0xD8]);
    let header = VideoTagHeader::parse(&mut negative, &mut size).unwrap();
    assert_eq!(header, VideoTagHeader::new(2, 7, 1, -40));
    assert_eq!(size, 10);
    let mut other = decoder_over(&[0x12, 0x55]);
    let mut fresh: usize = 0;
    let header = VideoTagHeader::parse(&mut other, &mut fresh).unwrap();
    assert_eq!(header, VideoTagHeader::new(1, 2, 0, 0));
    assert_eq!(fresh, 1);
    assert_eq!(other.remaining(), 1);
}

#[test]
fn truncated_typed_headers_fail() {
    let mut size: usize = 0;
    let mut empty = decoder_over(&[]);
    assert_eq!(AudioTagHeader::parse(&mut empty, &mut size), Err(FlvError::InsufficientData));
    let mut aac = decoder_over(&[0xAF]);
    assert_eq!(AudioTagHeader::parse(&mut aac, &mut size), Err(FlvError::InsufficientData));
    let mut avc = decoder_over(&[0x17, 0x01, 0x00]);
    assert_eq!(VideoTagHeader::parse(&mut avc, &mut size), Err(FlvError::InsufficientData));
}

#[test]
fn placeholder_headers_read_nothing() {
    let mut size: usize = 7;
    let mut decoder = decoder_over(&[1, 2, 3]);
    assert_eq!(EncryptionTagHeader::parse(&mut decoder, &mut size), Ok(EncryptionTagHeader {}));
    assert_eq!(FilterParameters::parse(&mut decoder, &mut size), Ok(FilterParameters {}));
    assert_eq!(size, 7);
    assert_eq!(decoder.remaining(), 3);
}

#[test]
fn audio_tag_is_decoded() {
    let bytes = framed_tag(8, 0xAB123456, &[0xAF, 0x01, 0xDE, 0xAD, 0xBE]);
    let mut decoder = decoder_over(&bytes);
    let tag = decoder.decode_tag().unwrap();
    assert_eq!(
        tag,
        Tag::new(
            false,
            TagType::Audio,
            5,
            0x123456,
            0xAB,
            0xAB123456,
            0,
            TagHeader::Audio(AudioTagHeader::new(10, 3, true, 1, 1)),
            TagBody::Normal(NormalTagBody::Audio(vec![0xDE, 0xAD, 0xBE])),
            None,
            None,
        )
    );
    assert_eq!(decoder.remaining(), 0);
}

#[test]
fn video_tag_is_decoded() {
    let bytes = framed_tag(9, 40, &[0x17, 0x01, 0x00, 0x00, 0x50, 1, 2, 3, 4]);
    let mut decoder = decoder_over(&bytes);
    decoder.push_bytes(&[0xEE]);
    let tag = decoder.decode_tag().unwrap();
    assert_eq!(tag.tag_type, TagType::Video);
    assert_eq!(tag.data_size, 9);
    assert_eq!(tag.timestamp, 40);
    assert_eq!(tag.tag_header, TagHeader::Video(VideoTagHeader::new(1, 7, 1, 0x50)));
    assert_eq!(tag.tag_body, TagBody::Normal(NormalTagBody::Video(vec![1, 2, 3, 4])));
    assert_eq!(decoder.remaining(), 1);
}

#[test]
fn filtered_tag_keeps_placeholders() {
    let bytes = framed_tag(0x20 | 9, 7, &[9, 9, 9, 9]);
    let mut decoder = decoder_over(&bytes);
    decoder.push_bytes(&[0xEE, 0xEF]);
    let tag = decoder.decode_tag().unwrap();
    assert!(tag.filter);
    assert_eq!(tag.tag_type, TagType::Video);
    assert_eq!(tag.data_size, 4);
    assert_eq!(tag.tag_header, TagHeader::Encryption(EncryptionTagHeader {}));
    assert_eq!(tag.tag_body, TagBody::Encrypted(EncryptedTagBody::Placeholder));
    assert_eq!(tag.encryption_tag_header, Some(EncryptionTagHeader {}));
    assert_eq!(tag.filter_parameters, Some(FilterParameters {}));
    assert_eq!(decoder.remaining(), 2);
}

#[test]
fn unknown_tag_type_fails_at_the_first_byte() {
    let bytes = framed_tag(10, 0, &[1, 2, 3]);
    let total = bytes.len();
    let mut decoder = decoder_over(&bytes);
    assert_eq!(decoder.decode_tag(), Err(FlvError::InvalidTagType));
    assert_eq!(decoder.remaining(), total - 1);
}

#[test]
fn tag_shorter_than_its_header_fails() {
    let mut bytes = framed_tag(9, 0, &[0x17, 0x01, 0x00, 0x00, 0x00]);
    bytes[3] = 3;
    let mut decoder = decoder_over(&bytes);
    assert_eq!(decoder.decode_tag(), Err(FlvError::DataSizeMismatch));
}

#[test]
fn tag_with_missing_payload_fails() {
    let mut bytes = framed_tag(8, 0, &[0x2C, 1, 2, 3]);
    bytes.pop();
    let mut decoder = decoder_over(&bytes);
    assert_eq!(decoder.decode_tag(), Err(FlvError::InsufficientData));
    let mut prefix_only = decoder_over(&[8, 0, 0]);
    assert_eq!(prefix_only.decode_tag(), Err(FlvError::InsufficientData));
}

#[test]
fn body_yields_every_tag_in_order() {
    let tags = vec![
        framed_tag(8, 0, &[0x2C, 1, 2, 3]),
        framed_tag(9, 40, &[0x27, 0x01, 0, 0, 0, 5, 6]),
        framed_tag(8, 80, &[0xAF, 0x01, 7]),
    ];
    let mut decoder = decoder_over(&framed_body(&tags));
    let mut decoded = Vec::new();
    assert_eq!(decoder.decode_body(&mut decoded), Ok(()));
    assert_eq!(decoded.len(), 3);
    assert_eq!(decoded[0].tag_type, TagType::Audio);
    assert_eq!(decoded[0].tag_body, TagBody::Normal(NormalTagBody::Audio(vec![1, 2, 3])));
    assert_eq!(decoded[1].tag_type, TagType::Video);
    assert_eq!(decoded[1].timestamp, 40);
    assert_eq!(decoded[1].tag_body, TagBody::Normal(NormalTagBody::Video(vec![5, 6])));
    assert_eq!(decoded[2].timestamp, 80);
    assert_eq!(decoded[2].tag_body, TagBody::Normal(NormalTagBody::Audio(vec![7])));
    assert_eq!(decoder.remaining(), 0);
}

#[test]
fn body_of_nothing_is_empty() {
    let mut tags = Vec::new();
    let mut decoder = decoder_over(&[]);
    assert_eq!(decoder.decode_body(&mut tags), Ok(()));
    let mut only_size = decoder_over(&[0, 0, 0, 0]);
    assert_eq!(only_size.decode_body(&mut tags), Ok(()));
    assert_eq!(only_size.remaining(), 0);
    assert_eq!(tags, vec![]);
}

#[test]
fn body_resumes_with_the_running_size() {
    let first = framed_tag(8, 0, &[0x2C, 1, 2, 3]);
    let second = framed_tag(8, 26, &[0x2C, 4]);
    let mut decoder = decoder_over(&[0, 0, 0, 0]);
    decoder.push_bytes(&first);
    let mut tags = Vec::new();
    assert_eq!(decoder.decode_body(&mut tags), Ok(()));
    assert_eq!(tags.len(), 1);
    decoder.push_bytes(&(first.len() as u32).to_be_bytes());
    decoder.push_bytes(&second);
    assert_eq!(decoder.decode_body(&mut tags), Ok(()));
    assert_eq!(tags.len(), 2);
    assert_eq!(tags[0].tag_body, TagBody::Normal(NormalTagBody::Audio(vec![1, 2, 3])));
    assert_eq!(tags[1].tag_body, TagBody::Normal(NormalTagBody::Audio(vec![4])));
}

#[test]
fn wrong_previous_size_is_a_frame_size_mismatch() {
    let tags = vec![framed_tag(8, 0, &[0x2C, 1, 2, 3]), framed_tag(8, 26, &[0x2C, 4])];
    let mut bytes = framed_body(&tags);
    let second_size_at = 4 + tags[0].len() + 3;
    bytes[second_size_at] += 1;
    let mut decoder = decoder_over(&bytes);
    let mut decoded = Vec::new();
    assert_eq!(decoder.decode_body(&mut decoded), Err(FlvError::FrameSizeMismatch));
    assert_eq!(decoded.len(), 1);
    assert_eq!(decoded[0].tag_body, TagBody::Normal(NormalTagBody::Audio(vec![1, 2, 3])));
}

#[test]
fn nonzero_first_previous_size_is_a_frame_size_mismatch() {
    let mut bytes = vec![0, 0, 0, 1];
    bytes.extend_from_slice(&framed_tag(8, 0, &[0x2C, 1]));
    let mut decoder = decoder_over(&bytes);
    let mut decoded = Vec::new();
    assert_eq!(decoder.decode_body(&mut decoded), Err(FlvError::FrameSizeMismatch));
    assert_eq!(decoded, vec![]);
}

#[test]
fn torn_previous_size_is_insufficient_data() {
    let mut decoder = decoder_over(&[0, 0, 0]);
    let mut decoded = Vec::new();
    assert_eq!(decoder.decode_body(&mut decoded), Err(FlvError::InsufficientData));
    assert_eq!(decoder.remaining(), 3);
}

#[test]
fn a_tag_that_fails_keeps_the_tags_before_it() {
    let tags = vec![framed_tag(8, 0, &[0x2C, 1, 2, 3]), framed_tag(11, 26, &[0x2C, 4])];
    let mut decoder = decoder_over(&framed_body(&tags));
    let mut decoded = Vec::new();
    assert_eq!(decoder.decode_body(&mut decoded), Err(FlvError::InvalidTagType));
    assert_eq!(decoded.len(), 1);
}

#[test]
fn stream_id_is_read_and_ignored() {
    let mut bytes = framed_tag(8, 0, &[0x2C, 1]);
    bytes[8] = 0x12;
    bytes[9] = 0x34;
    bytes[10] = 0x56;
    let mut decoder = decoder_over(&bytes);
    let tag = decoder.decode_tag().unwrap();
    assert_eq!(tag.stream_id, 0x123456);
    assert_eq!(tag.tag_body, TagBody::Normal(NormalTagBody::Audio(vec![1])));
}

#[test]
fn reserved_bits_of_the_first_byte_are_ignored() {
    let bytes = framed_tag(0xC0 | 9, 0, &[0x27, 0x01, 0, 0, 0, 5]);
    let mut decoder = decoder_over(&bytes);
    let tag = decoder.decode_tag().unwrap();
    assert!(!tag.filter);
    assert_eq!(tag.tag_type, TagType::Video);
}
