use image::{DynamicImage, GrayImage, RgbImage, RgbaImage};
use rust_imageconv::{conv_argb32, conv_to_type, rgba8_buffer_len, DstType};

fn rgba_image(width: u32, height: u32, samples: Vec<u8>) -> DynamicImage {
    DynamicImage::ImageRgba8(RgbaImage::from_raw(width, height, samples).unwrap())
}

#[test]
fn one_pixel_image_is_converted() {
    let img = rgba_image(1, 1, vec![0x10, 0x20, 0x30, 0x40]);
    assert_eq!(conv_to_type(&img, DstType::Argb32), Ok(vec![0x40, 0x10, 0x20, 0x30]));
}

#[test]
fn two_pixel_image_is_converted() {
    let img = rgba_image(2, 1, vec![1, 2, 3, 4, 5, 6, 7, 8]);
    assert_eq!(conv_to_type(&img, DstType::Argb32), Ok(vec![4, 1, 2, 3, 8, 5, 6, 7]));
    assert_eq!(conv_argb32(&img), Ok(vec![4, 1, 2, 3, 8, 5, 6, 7]));
}

#[test]
fn rows_follow_each_other_from_the_top() {
    let img = rgba_image(1, 2, vec![1, 2, 3, 4, 5, 6, 7, 8]);
    assert_eq!(conv_argb32(&img), Ok(vec![4, 1, 2, 3, 8, 5, 6, 7]));
}

#[test]
fn image_without_pixels_gives_no_bytes() {
    assert_eq!(conv_to_type(&rgba_image(0, 0, vec![]), DstType::Argb32), Ok(vec![]));
    assert_eq!(conv_to_type(&rgba_image(0, 3, vec![]), DstType::Argb32), Ok(vec![]));
    assert_eq!(conv_to_type(&DynamicImage::new_rgb8(5, 0), DstType::Argb32), Ok(vec![]));
}

#[test]
fn output_has_four_bytes_for_each_pixel() {
    let img = DynamicImage::new_rgba16(7, 5);
    assert_eq!(conv_to_type(&img, DstType::Argb32).unwrap().len(), 7 * 5 * 4);
    let img = DynamicImage::new_luma8(3, 11);
    assert_eq!(conv_to_type(&img, DstType::Argb32).unwrap().len(), 3 * 11 * 4);
}

#[test]
fn rgb_image_gets_full_alpha() {
    let rgb = RgbImage::from_raw(2, 1, vec![0x10, 0x20, 0x30, 0x40, 0x50, 0x60]).unwrap();
    let img = DynamicImage::ImageRgb8(rgb);
    assert_eq!(
        conv_argb32(&img),
        Ok(vec![0xff, 0x10, 0x20, 0x30, 0xff, 0x40, 0x50, 0x60])
    );
}

#[test]
fn gray_image_spreads_over_the_colour_channels() {
    let gray = GrayImage::from_raw(1, 2, vec![7, 200]).unwrap();
    let img = DynamicImage::ImageLuma8(gray);
    assert_eq!(conv_argb32(&img), Ok(vec![255, 7, 7, 7, 255, 200, 200, 200]));
}

#[test]
fn bytes_beyond_the_pixels_are_left_out() {
    let img = rgba_image(1, 1, vec![1, 2, 3, 4, 5, 6, 7]);
    assert_eq!(conv_argb32(&img), Ok(vec![4, 1, 2, 3]));
    let img = rgba_image(1, 1, vec![1, 2, 3, 4, 5, 6, 7, 8]);
    assert_eq!(conv_argb32(&img), Ok(vec![4, 1, 2, 3]));
}

#[test]
fn buffer_length_is_four_times_the_pixels() {
    assert_eq!(rgba8_buffer_len(0, 0), Some(0));
    assert_eq!(rgba8_buffer_len(0, 9), Some(0));
    assert_eq!(rgba8_buffer_len(1, 1), Some(4));
    assert_eq!(rgba8_buffer_len(2, 1), Some(8));
    assert_eq!(rgba8_buffer_len(640, 480), Some(1_228_800));
    assert_eq!(rgba8_buffer_len(16_384, 16_384), Some(1_073_741_824));
}

#[test]
fn buffer_length_stops_at_the_longest_vector() {
    let longest = isize::MAX as u128;
    for (width, height) in [
        (u32::MAX, u32::MAX),
        (u32::MAX, 1),
        (1 << 31, 1 << 30),
        ((1 << 31) - 1, 1 << 30),
        (1 << 15, 1 << 14),
        ((1 << 15) - 1, 1 << 14),
        (1 << 16, 1 << 16),
    ] {
        let len = 4 * (width as u128) * (height as u128);
        let got = rgba8_buffer_len(width, height);
        if len <= longest {
            assert_eq!(got, Some(len as usize));
        } else {
            assert_eq!(got, None);
        }
    }
    assert_eq!(rgba8_buffer_len(u32::MAX, u32::MAX), None);
}
