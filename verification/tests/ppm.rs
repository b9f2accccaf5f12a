use mysimpledecoder::ppm::{ppm_header, push_decimal};

#[test]
fn header_of_a_common_size() {
    assert_eq!(ppm_header(640, 480), b"P6\n640 480\n255\n".to_vec());
}

#[test]
fn header_of_an_empty_picture() {
    assert_eq!(ppm_header(0, 0), b"P6\n0 0\n255\n".to_vec());
}

#[test]
fn header_matches_formatted_text() {
    for (width, height) in [(1usize, 1usize), (9, 10), (10, 99), (100, 1080), (1920, 1088)] {
        let text = format!("P6\n{} {}\n255\n", width, height);
        assert_eq!(ppm_header(width, height), text.into_bytes());
    }
    let text = format!("P6\n{} {}\n255\n", usize::MAX, usize::MAX - 1);
    assert_eq!(ppm_header(usize::MAX, usize::MAX - 1), text.into_bytes());
}

#[test]
fn digits_are_appended() {
    let mut out = vec![b'x'];
    push_decimal(&mut out, 0);
    push_decimal(&mut out, 7);
    push_decimal(&mut out, 10);
    push_decimal(&mut out, 4096);
    assert_eq!(out, b"x07104096".to_vec());
}
