use flv_remux::error::FlvError;
use flv_remux::io::bit::BitIO;

#[test]
fn bit_extraction_by_index() {
    let bits = BitIO::new(0b10101011);
    assert!(bits.read());
    assert!(bits.read_bit(0));
    assert!(!bits.read_bit(2));
    assert!(bits.read_bit(7));
    assert_eq!(bits.read_range(3, 7), 0b10101);
    assert_eq!(bits.read_range(0, 3), 0b1011);
}

#[test]
fn bit_ranges() {
    let bits = BitIO::new(0b10101011);
    assert_eq!(bits.read_range(0, 7), 0b10101011);
    assert_eq!(bits.read_range(0, 0), 1);
    assert_eq!(bits.read_range(7, 7), 1);
    assert_eq!(bits.read_range(2, 2), 0);
    assert_eq!(bits.read_range(1, 5), 0b10101);
    assert_eq!(bits.read_range(5, 1), 0);
    assert_eq!(BitIO::new(0).read(), false);
}

#[test]
fn bit_index_out_of_range_is_rejected() {
    let bits = BitIO::new(0b10101011);
    assert_eq!(bits.read_bit_safe(2), Ok(false));
    assert_eq!(bits.read_bit_safe(7), Ok(true));
    assert_eq!(bits.read_bit_safe(8), Err(FlvError::IndexOutOfRange));
}
