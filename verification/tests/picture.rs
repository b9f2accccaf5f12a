use mysimpledecoder::color::yuv_to_rgb;
use mysimpledecoder::picture::{convert, DecodedYUV, SSysMEMBuffer};

fn geometry(width: i32, height: i32, stride_y: i32, stride_uv: i32) -> SSysMEMBuffer {
    SSysMEMBuffer { iWidth: width, iHeight: height, iFormat: 23, iStride: [stride_y, stride_uv] }
}

#[test]
fn dimensions_are_width_and_height() {
    let y = [0u8; 12];
    let u = [0u8; 4];
    let v = [0u8; 4];
    let picture = DecodedYUV { info: geometry(3, 2, 6, 4), y: &y, u: &u, v: &v };
    assert_eq!(picture.dimensions(), (3, 2));
}

#[test]
fn plane_lengths_follow_the_strides() {
    assert_eq!(geometry(3, 2, 6, 4).plane_lengths(), Some((12, 4)));
    assert_eq!(geometry(640, 480, 704, 352).plane_lengths(), Some((337_920, 84_480)));
    assert_eq!(geometry(1, 3, 1, 1).plane_lengths(), Some((3, 1)));
    assert_eq!(geometry(0, 0, 0, 0).plane_lengths(), Some((0, 0)));
}

#[test]
fn plane_lengths_refuse_what_cannot_be_counted() {
    assert_eq!(geometry(1, -1, 1, 1).plane_lengths(), None);
    assert_eq!(geometry(1, 1, -1, 1).plane_lengths(), None);
    assert_eq!(geometry(1, 1, 1, -1).plane_lengths(), None);
    assert_eq!(geometry(1, 65_536, 32_768, 1).plane_lengths(), None);
    assert_eq!(geometry(1, 65_536, 1, 32_768).plane_lengths(), None);
    assert_eq!(geometry(1, 32_768, 65_535, 1).plane_lengths(), Some((2_147_450_880, 16_384)));
}

#[test]
fn well_formed_pictures_are_recognised() {
    let y = [0u8; 12];
    let u = [0u8; 4];
    let v = [0u8; 4];
    assert!(DecodedYUV { info: geometry(3, 2, 6, 4), y: &y, u: &u, v: &v }.is_well_formed());
    assert!(DecodedYUV { info: geometry(6, 2, 6, 4), y: &y, u: &u, v: &v }.is_well_formed());
    // a chroma stride of half the width is enough
    assert!(DecodedYUV { info: geometry(4, 2, 6, 2), y: &y, u: &u[..2], v: &v[..2] }
        .is_well_formed());
    let none: [u8; 0] = [];
    assert!(DecodedYUV { info: geometry(0, 0, 0, 0), y: &none, u: &none, v: &none }
        .is_well_formed());
}

#[test]
fn ill_formed_pictures_are_recognised() {
    let y = [0u8; 12];
    let u = [0u8; 4];
    let v = [0u8; 4];
    // luma stride below the width
    assert!(!DecodedYUV { info: geometry(7, 2, 6, 4), y: &y, u: &u, v: &v }.is_well_formed());
    // luma plane too short
    assert!(!DecodedYUV { info: geometry(3, 2, 6, 4), y: &y[..11], u: &u, v: &v }
        .is_well_formed());
    // chroma planes of different sizes
    assert!(!DecodedYUV { info: geometry(3, 2, 6, 4), y: &y, u: &u, v: &v[..3] }
        .is_well_formed());
    // chroma plane longer than the geometry says
    assert!(!DecodedYUV { info: geometry(3, 2, 6, 3), y: &y, u: &u, v: &v }.is_well_formed());
    // negative sizes
    assert!(!DecodedYUV { info: geometry(-1, 2, 6, 4), y: &y, u: &u, v: &v }.is_well_formed());
    assert!(!DecodedYUV { info: geometry(3, -2, 6, 4), y: &y, u: &u, v: &v }.is_well_formed());
    // chroma stride too small for the last column
    assert!(!DecodedYUV { info: geometry(6, 2, 6, 2), y: &y, u: &u[..2], v: &v[..2] }
        .is_well_formed());
}

#[test]
fn odd_sizes_need_room_for_the_last_chroma_sample() {
    // One pixel with strides of one: the chroma planes would be empty.
    let y = [0u8; 1];
    let none: [u8; 0] = [];
    assert!(!DecodedYUV { info: geometry(1, 1, 1, 1), y: &y, u: &none, v: &none }
        .is_well_formed());
    let one = [0u8; 1];
    assert!(DecodedYUV { info: geometry(1, 1, 1, 2), y: &y, u: &one, v: &one }.is_well_formed());
}

#[test]
fn one_black_and_one_white_pixel() {
    let y = [16u8, 235];
    let u = [128u8];
    let v = [128u8];
    let picture = DecodedYUV { info: geometry(2, 1, 2, 2), y: &y, u: &u, v: &v };
    assert!(picture.is_well_formed());
    assert_eq!(convert(&picture), vec![0, 0, 0, 254, 254, 254]);
}

#[test]
fn chroma_is_shared_by_blocks_of_two_by_two() {
    // 4 x 4 pixels, luma stride 5, chroma stride 3
    let mut y = [0u8; 20];
    for (k, sample) in y.iter_mut().enumerate() {
        *sample = 40 + 9 * k as u8;
    }
    let u = [10u8, 60, 99, 110, 160, 99];
    let v = [200u8, 130, 99, 90, 20, 99];
    let picture = DecodedYUV { info: geometry(4, 4, 5, 3), y: &y, u: &u, v: &v };
    assert!(picture.is_well_formed());
    let rgb = convert(&picture);
    assert_eq!(rgb.len(), 4 * 4 * 3);
    for j in 0..4usize {
        for i in 0..4usize {
            let luma = y[j * 5 + i];
            let at = (j / 2) * 3 + i / 2;
            let (r, g, b) = yuv_to_rgb(luma, u[at], v[at]);
            let idx = (j * 4 + i) * 3;
            assert_eq!((rgb[idx], rgb[idx + 1], rgb[idx + 2]), (r, g, b), "pixel {} {}", i, j);
        }
    }
    // exact values of the first and the last pixel
    assert_eq!(&rgb[..3], &[142, 15, 0]);
    assert_eq!(&rgb[45..], &[44, 255, 255]);
}

#[test]
fn padding_never_shows() {
    // the same 3 x 2 picture, once without padding and once with
    let tight_y = [50u8, 60, 70, 80, 90, 100];
    let tight_u = [30u8, 140, 0];
    let tight_v = [220u8, 120, 0];
    let tight = DecodedYUV { info: geometry(3, 2, 3, 3), y: &tight_y, u: &tight_u, v: &tight_v };
    let padded_y = [50u8, 60, 70, 255, 255, 80, 90, 100, 1, 2];
    let padded_u = [30u8, 140, 7, 8, 9];
    let padded_v = [220u8, 120, 77, 88, 99];
    let padded =
        DecodedYUV { info: geometry(3, 2, 5, 5), y: &padded_y, u: &padded_u, v: &padded_v };
    assert!(tight.is_well_formed());
    assert!(padded.is_well_formed());
    assert_eq!(convert(&tight), convert(&padded));
    // other padding bytes, same raster
    let other_y = [50u8, 60, 70, 0, 0, 80, 90, 100, 0, 0];
    let other_u = [30u8, 140, 0, 0, 0];
    let other_v = [220u8, 120, 0, 0, 0];
    let other = DecodedYUV { info: geometry(3, 2, 5, 5), y: &other_y, u: &other_u, v: &other_v };
    assert_eq!(convert(&padded), convert(&other));
}

#[test]
fn write_rgb8_leaves_the_rest_of_the_target() {
    let y = [16u8, 235];
    let u = [128u8];
    let v = [128u8];
    let picture = DecodedYUV { info: geometry(2, 1, 2, 2), y: &y, u: &u, v: &v };
    let mut target = [9u8; 8];
    picture.write_rgb8(&mut target);
    assert_eq!(target, [0, 0, 0, 254, 254, 254, 9, 9]);
}

#[test]
fn picture_without_pixels_has_an_empty_raster() {
    let none: [u8; 0] = [];
    let picture = DecodedYUV { info: geometry(0, 0, 0, 0), y: &none, u: &none, v: &none };
    assert_eq!(convert(&picture), Vec::<u8>::new());
    let mut target = [5u8; 2];
    picture.write_rgb8(&mut target);
    assert_eq!(target, [5, 5]);
}
