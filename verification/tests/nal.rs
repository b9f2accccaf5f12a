use mysimpledecoder::nal::{nal_units, nth_nal_index, NAL_MIN_0_COUNT};

fn bounds(stream: &[u8]) -> Vec<(usize, usize)> {
    let mut units = nal_units(stream);
    let mut found = Vec::new();
    while let Some(unit) = units.next() {
        assert_eq!(unit.bytes, &stream[unit.start..unit.end]);
        found.push((unit.start, unit.end));
    }
    assert!(units.next().is_none());
    found
}

#[test]
fn zero_count_is_two() {
    assert_eq!(NAL_MIN_0_COUNT, 2);
}

#[test]
fn empty_stream_has_no_units() {
    assert_eq!(bounds(&[]), vec![]);
    assert_eq!(nth_nal_index(&[], 0), None);
}

#[test]
fn stream_without_start_code_has_no_units() {
    let stream = [0x00, 0x01, 0x02, 0x00, 0x00, 0x02, 0x01, 0x00, 0x00];
    assert_eq!(bounds(&stream), vec![]);
    assert_eq!(nth_nal_index(&stream, 0), None);
    assert_eq!(nth_nal_index(&stream, 1), None);
}

#[test]
fn one_start_code_gives_one_unit_to_the_end() {
    let stream = [0x00, 0x00, 0x01, 0x65, 0x88, 0x84, 0x21];
    assert_eq!(bounds(&stream), vec![(0, 7)]);
    let mut units = nal_units(&stream);
    let unit = units.next().unwrap();
    assert_eq!(unit.bytes, &stream[..]);
}

#[test]
fn one_start_code_with_no_payload() {
    assert_eq!(bounds(&[0x00, 0x00, 0x01]), vec![(0, 3)]);
}

#[test]
fn bytes_before_the_first_start_code_belong_to_no_unit() {
    let stream = [0xff, 0x01, 0x00, 0x00, 0x01, 0x09, 0x10];
    assert_eq!(bounds(&stream), vec![(2, 7)]);
}

#[test]
fn two_units_split_at_the_second_start_code() {
    let stream = [0x00, 0x00, 0x01, 0xaa, 0x00, 0x00, 0x01, 0xbb, 0xbb];
    let mut units = nal_units(&stream);
    let first = units.next().unwrap();
    assert_eq!(first.bytes, &[0x00, 0x00, 0x01, 0xaa]);
    assert_eq!((first.start, first.end), (0, 4));
    let second = units.next().unwrap();
    assert_eq!(second.bytes, &[0x00, 0x00, 0x01, 0xbb, 0xbb]);
    assert_eq!((second.start, second.end), (4, 9));
    assert!(units.next().is_none());
}

#[test]
fn four_byte_prefix_gives_one_unit() {
    let stream = [0x00, 0x00, 0x00, 0x01, 0xaa];
    let found = bounds(&stream);
    assert_eq!(found.len(), 1);
    // The unit begins two bytes before the `01` of its start code.
    assert_eq!(found, vec![(1, 5)]);
    assert_eq!(nth_nal_index(&stream, 0), Some(1));
    let mut units = nal_units(&stream);
    assert_eq!(units.next().unwrap().bytes, &[0x00, 0x00, 0x01, 0xaa]);
}

#[test]
fn extra_zero_before_a_later_start_code_ends_the_unit_before_it() {
    let stream = [0x00, 0x00, 0x01, 0xaa, 0x00, 0x00, 0x00, 0x01, 0xbb];
    assert_eq!(bounds(&stream), vec![(0, 5), (5, 9)]);
}

#[test]
fn trailing_zeros_stay_in_the_last_unit() {
    let stream = [0x00, 0x00, 0x01, 0x67, 0x42, 0x00, 0x00, 0x00];
    assert_eq!(bounds(&stream), vec![(0, 8)]);
}

#[test]
fn units_lie_end_to_end() {
    let stream = [
        0x07, 0x00, 0x00, 0x01, 0x67, 0x00, 0x00, 0x01, 0x68, 0x01, 0x00, 0x00, 0x00, 0x00, 0x01,
        0x65, 0x00, 0x01, 0x00,
    ];
    let found = bounds(&stream);
    assert_eq!(found, vec![(1, 5), (5, 12), (12, 19)]);
    for pair in found.windows(2) {
        assert_eq!(pair[0].1, pair[1].0);
    }
    assert_eq!(found.last().unwrap().1, stream.len());
}

#[test]
fn nth_index_counts_start_codes_from_zero() {
    let stream = [0x00, 0x00, 0x01, 0xaa, 0x00, 0x00, 0x01, 0xbb, 0x00, 0x00, 0x01];
    assert_eq!(nth_nal_index(&stream, 0), Some(0));
    assert_eq!(nth_nal_index(&stream, 1), Some(4));
    assert_eq!(nth_nal_index(&stream, 2), Some(8));
    assert_eq!(nth_nal_index(&stream, 3), None);
    assert_eq!(nth_nal_index(&stream, usize::MAX), None);
}

#[test]
fn a_one_after_a_single_zero_is_no_start_code() {
    let stream = [0x00, 0x01, 0x00, 0x01, 0x00, 0x02, 0x00, 0x01];
    assert_eq!(nth_nal_index(&stream, 0), None);
}

#[test]
fn adjacent_start_codes_give_units_of_three_bytes() {
    let stream = [0x00, 0x00, 0x01, 0x00, 0x00, 0x01];
    assert_eq!(bounds(&stream), vec![(0, 3), (3, 6)]);
}
