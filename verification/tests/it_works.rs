use std::collections::{HashMap, VecDeque};

use flv_remux::exchange::Destination;
use flv_remux::flv::decoder::Decoder;
use flv_remux::flv::tag::TagType;
use flv_remux::io::bit::BitIO;

#[test]
fn it_works() {
    let byte = 0b10101011;
    let bit_io = BitIO::new(byte);
    assert_eq!(bit_io.read(), true);

    assert_eq!(Decoder::concat_ts(0x123456, 0xAB), 0xAB123456);
    assert_eq!(Decoder::concat_ts(0x00123456, 0xAB), 0xAB123456);
    assert_eq!(Decoder::concat_ts(0x00000000, 0xAB), 0xAB000000);
    assert_eq!(Decoder::concat_ts(0x123456, 0x00), 0x00123456);
    assert_eq!(Decoder::concat_ts(0x00FFFFFF, 0xFF), 0xFFFFFFFF);
    assert_eq!(Decoder::concat_ts(0x00000000, 0x00), 0x00000000);
    assert_eq!(255u8 as i8, -1);

    let mut vec_i24_be = 0x00FFFFFFi32.to_be_bytes().to_vec();
    assert_eq!(vec_i24_be.remove(0), 0);

    let mut vec_u24_be = 0x00ffffffu32.to_be_bytes().to_vec();
    assert_eq!(vec_u24_be.remove(0), 0);

    let map: HashMap<Destination, String> = HashMap::from([
        (Destination::Core, "core".to_string()),
        (Destination::Decoder, "decoder".to_string()),
        (Destination::Demuxer, "demuxer".to_string()),
    ]);
    assert_eq!(map.get(&Destination::Core).unwrap(), "core");
    assert_eq!(map.get(&Destination::Decoder).unwrap(), "decoder");
    assert_eq!(map.get(&Destination::Demuxer).unwrap(), "demuxer");

    assert_eq!(TagType::Audio, TagType::Audio);
    assert_eq!(TagType::Video, TagType::Video);
}

#[test]
fn scalar_readers_take_bytes_in_order() {
    let mut vec: Vec<u8> = vec![];
    vec.extend_from_slice(&32767i16.to_be_bytes());
    vec.extend_from_slice(&0x00FFFFFFi32.to_be_bytes()[1..]);
    vec.extend_from_slice(&0x1234abcdi32.to_be_bytes());
    vec.extend_from_slice(&0x1234abcd1234abcdi64.to_be_bytes());
    vec.extend_from_slice(&std::f32::consts::PI.to_be_bytes());
    vec.extend_from_slice(&std::f64::consts::PI.to_be_bytes());
    vec.extend_from_slice(&65535u16.to_be_bytes());
    vec.extend_from_slice(&0x00ffffffu32.to_be_bytes()[1..]);
    vec.extend_from_slice(&4294967295u32.to_be_bytes());
    vec.extend_from_slice(&18446744073709551615u64.to_be_bytes());

    let mut decoder = Decoder::new(VecDeque::from(vec));
    assert_eq!(decoder.drain_i16(), 32767);
    assert_eq!(decoder.drain_i24(), 0x00FFFFFFi32);
    assert_eq!(decoder.drain_i32(), 0x1234abcdi32);
    assert_eq!(decoder.drain_i64(), 0x1234abcd1234abcdi64);
    assert_eq!(f32::from_bits(decoder.drain_f32()), std::f32::consts::PI);
    assert_eq!(f64::from_bits(decoder.drain_f64()), std::f64::consts::PI);
    assert_eq!(decoder.drain_u16(), 65535);
    assert_eq!(decoder.drain_u24(), 0x00ffffff);
    assert_eq!(decoder.drain_u32(), 4294967295);
    assert_eq!(decoder.drain_u64(), 18446744073709551615u64);
    assert_eq!(decoder.remaining(), 0);
}

#[test]
fn signed_readers_are_twos_complement() {
    let mut decoder = Decoder::new(VecDeque::new());
    decoder.push_bytes(&[0xFF, 0x80, 0x00, 0xFF, 0xFF, 0xFF, 0xFE]);
    decoder.push_bytes(&(-2i64).to_be_bytes());
    assert_eq!(decoder.drain_i8(), -1);
    assert_eq!(decoder.drain_i16(), -32768);
    assert_eq!(decoder.drain_i32(), -2);
    assert_eq!(decoder.drain_i64(), -2);
}

#[test]
fn little_endian_readers_reverse_the_bytes() {
    let mut decoder = Decoder::new(VecDeque::new());
    decoder.push_bytes(&0xBEEFu16.to_le_bytes());
    decoder.push_bytes(&0x00C0FFEEu32.to_le_bytes()[..3]);
    decoder.push_bytes(&0xDEADBEEFu32.to_le_bytes());
    decoder.push_bytes(&std::f32::consts::E.to_le_bytes());
    decoder.push_bytes(&std::f64::consts::E.to_le_bytes());
    assert_eq!(decoder.drain_u16_le(), 0xBEEF);
    assert_eq!(decoder.drain_u24_le(), 0x00C0FFEE);
    assert_eq!(decoder.drain_u32_le(), 0xDEADBEEF);
    assert_eq!(f32::from_bits(decoder.drain_f32_le()), std::f32::consts::E);
    assert_eq!(f64::from_bits(decoder.drain_f64_le()), std::f64::consts::E);
}

#[test]
fn byte_runs_come_off_the_front() {
    let mut decoder = Decoder::new(VecDeque::from(vec![1u8, 2, 3]));
    let mut more: VecDeque<u8> = VecDeque::from(vec![4u8, 5, 6, 7]);
    decoder.push_data(&mut more);
    assert!(more.is_empty());
    assert_eq!(decoder.drain_u8(), 1);
    assert_eq!(decoder.drain_bytes::<2>(), [2, 3]);
    assert_eq!(decoder.drain_bytes_vec(3), vec![4, 5, 6]);
    assert_eq!(decoder.remaining(), 1);
}

#[test]
fn addition_adds() {
    assert_eq!(flv_remux::add(2, 2), 4);
}
