use png2ico::metadata::{ico_bit_depth, payload_length};
use png2ico::{get_png_metadata, record_from_header, IcoError, PngHeader};

fn encode_png(width: u32, height: u32, color: png::ColorType, depth: png::BitDepth) -> Vec<u8> {
    let bits_per_row = width as usize * color.samples() * depth as usize;
    let pixels = vec![0u8; (bits_per_row + 7) / 8 * height as usize];
    let mut bytes: Vec<u8> = Vec::new();
    let mut encoder = png::Encoder::new(&mut bytes, width, height);
    encoder.set_color(color);
    encoder.set_depth(depth);
    let mut writer = encoder.write_header().unwrap();
    writer.write_image_data(&pixels).unwrap();
    writer.finish().unwrap();
    bytes
}

fn header(bit_depth: u8, samples: usize, width: u32, height: u32) -> PngHeader {
    PngHeader { bit_depth, samples, width, height }
}

#[test]
fn depth_is_bit_depth_times_samples() {
    assert!(matches!(ico_bit_depth(8, 4), Ok(32)));
    assert!(matches!(ico_bit_depth(16, 4), Ok(64)));
    assert!(matches!(ico_bit_depth(1, 1), Ok(1)));
    assert!(matches!(ico_bit_depth(8, 3), Ok(24)));
    assert!(matches!(ico_bit_depth(0, usize::MAX), Ok(0)));
    assert!(matches!(ico_bit_depth(255, 0), Ok(0)));
}

#[test]
fn depth_may_fill_its_field() {
    assert!(matches!(ico_bit_depth(255, 257), Ok(65535)));
    assert!(matches!(ico_bit_depth(1, 65535), Ok(65535)));
}

#[test]
fn depth_past_its_field_is_refused() {
    assert!(matches!(
        ico_bit_depth(1, 65536),
        Err(IcoError::DepthOverflow { bit_depth: 1, samples: 65536 })
    ));
    assert!(matches!(
        ico_bit_depth(16, 5000),
        Err(IcoError::DepthOverflow { bit_depth: 16, samples: 5000 })
    ));
    assert!(matches!(
        ico_bit_depth(2, usize::MAX),
        Err(IcoError::DepthOverflow { bit_depth: 2, samples: usize::MAX })
    ));
}

#[test]
fn length_that_fits_is_kept() {
    assert!(matches!(payload_length(0), Ok(0)));
    assert!(matches!(payload_length(9000), Ok(9000)));
    assert!(matches!(payload_length(0xffff_ffff), Ok(u32::MAX)));
}

#[test]
fn length_past_its_field_is_refused() {
    if usize::BITS > 32 {
        let size = (1u64 << 32) as usize;
        match payload_length(size) {
            Err(IcoError::LengthOverflow(reported)) => assert_eq!(reported, size),
            other => panic!("unexpected: {:?}", other),
        }
        match payload_length(usize::MAX) {
            Err(IcoError::LengthOverflow(reported)) => assert_eq!(reported, usize::MAX),
            other => panic!("unexpected: {:?}", other),
        }
    }
}

#[test]
fn record_holds_the_directory_fields_and_the_payload() {
    let data: Vec<u8> = (0..500u32).map(|i| (i % 251) as u8).collect();
    let record = record_from_header(&header(8, 1, 16, 16), data.clone()).unwrap();
    assert_eq!(record.depth(), 8);
    assert_eq!(record.length(), 500);
    assert_eq!(record.width(), 16);
    assert_eq!(record.height(), 16);
    assert_eq!(record.data(), &data[..]);
}

#[test]
fn record_of_the_largest_image_has_zero_fields() {
    let record = record_from_header(&header(8, 4, 256, 256), vec![7u8; 9000]).unwrap();
    assert_eq!(record.depth(), 32);
    assert_eq!(record.length(), 9000);
    assert_eq!(record.width(), 0);
    assert_eq!(record.height(), 0);
    assert_eq!(record.data().len(), 9000);
}

#[test]
fn record_maps_width_and_height_each_on_its_own() {
    let wide = record_from_header(&header(8, 3, 256, 1), vec![1, 2, 3]).unwrap();
    assert_eq!((wide.width(), wide.height()), (0, 1));
    let tall = record_from_header(&header(8, 3, 255, 256), vec![1, 2, 3]).unwrap();
    assert_eq!((tall.width(), tall.height()), (255, 0));
}

#[test]
fn record_of_an_empty_payload() {
    let record = record_from_header(&header(1, 1, 1, 1), Vec::new()).unwrap();
    assert_eq!(record.length(), 0);
    assert!(record.data().is_empty());
}

#[test]
fn record_refuses_a_width_out_of_range() {
    assert!(matches!(
        record_from_header(&header(8, 4, 257, 16), vec![0u8; 10]),
        Err(IcoError::Dimension(257))
    ));
    assert!(matches!(
        record_from_header(&header(8, 4, 0, 16), vec![0u8; 10]),
        Err(IcoError::Dimension(0))
    ));
}

#[test]
fn record_refuses_a_height_out_of_range() {
    assert!(matches!(
        record_from_header(&header(8, 4, 16, 300), vec![0u8; 10]),
        Err(IcoError::Dimension(300))
    ));
    assert!(matches!(
        record_from_header(&header(8, 4, 16, 0), vec![0u8; 10]),
        Err(IcoError::Dimension(0))
    ));
}

#[test]
fn record_reports_the_width_before_the_height() {
    assert!(matches!(
        record_from_header(&header(8, 4, 1000, 2000), vec![0u8; 10]),
        Err(IcoError::Dimension(1000))
    ));
}

#[test]
fn record_reports_the_depth_before_the_dimensions() {
    assert!(matches!(
        record_from_header(&header(200, 400, 0, 0), vec![0u8; 10]),
        Err(IcoError::DepthOverflow { bit_depth: 200, samples: 400 })
    ));
}

#[test]
fn metadata_of_a_small_grayscale_png() {
    let png = encode_png(16, 16, png::ColorType::Grayscale, png::BitDepth::Eight);
    let record = get_png_metadata(png.clone()).unwrap();
    assert_eq!(record.depth(), 8);
    assert_eq!(record.width(), 16);
    assert_eq!(record.height(), 16);
    assert_eq!(record.length() as usize, png.len());
    assert_eq!(record.data(), &png[..]);
}

#[test]
fn metadata_of_the_largest_rgba_png() {
    let png = encode_png(256, 256, png::ColorType::Rgba, png::BitDepth::Eight);
    let record = get_png_metadata(png.clone()).unwrap();
    assert_eq!(record.depth(), 32);
    assert_eq!(record.width(), 0);
    assert_eq!(record.height(), 0);
    assert_eq!(record.length() as usize, png.len());
    assert_eq!(record.data(), &png[..]);
}

#[test]
fn metadata_depth_for_every_colour_type() {
    let cases = [
        (png::ColorType::Grayscale, png::BitDepth::One, 1u16),
        (png::ColorType::Grayscale, png::BitDepth::Sixteen, 16),
        (png::ColorType::Indexed, png::BitDepth::Four, 4),
        (png::ColorType::GrayscaleAlpha, png::BitDepth::Eight, 16),
        (png::ColorType::Rgb, png::BitDepth::Eight, 24),
        (png::ColorType::Rgb, png::BitDepth::Sixteen, 48),
        (png::ColorType::Rgba, png::BitDepth::Sixteen, 64),
    ];
    for (color, depth, expected) in cases {
        let mut bytes: Vec<u8> = Vec::new();
        let mut encoder = png::Encoder::new(&mut bytes, 3, 5);
        encoder.set_color(color);
        encoder.set_depth(depth);
        if color == png::ColorType::Indexed {
            encoder.set_palette(vec![0u8; 3 * 16]);
        }
        let bits_per_row = 3 * color.samples() * depth as usize;
        let mut writer = encoder.write_header().unwrap();
        writer
            .write_image_data(&vec![0u8; (bits_per_row + 7) / 8 * 5])
            .unwrap();
        writer.finish().unwrap();
        let record = get_png_metadata(bytes).unwrap();
        assert_eq!(record.depth(), expected);
        assert_eq!((record.width(), record.height()), (3, 5));
    }
}

#[test]
fn metadata_refuses_a_png_that_is_too_wide() {
    let png = encode_png(257, 1, png::ColorType::Grayscale, png::BitDepth::Eight);
    assert!(matches!(get_png_metadata(png), Err(IcoError::Dimension(257))));
}

#[test]
fn metadata_refuses_a_png_that_is_too_tall() {
    let png = encode_png(2, 400, png::ColorType::Grayscale, png::BitDepth::Eight);
    assert!(matches!(get_png_metadata(png), Err(IcoError::Dimension(400))));
}

#[test]
fn metadata_hands_on_the_decoder_error() {
    assert!(matches!(
        get_png_metadata(b"this is no image".to_vec()),
        Err(IcoError::Decode(_))
    ));
    assert!(matches!(get_png_metadata(Vec::new()), Err(IcoError::Decode(_))));
}

#[test]
fn metadata_refuses_a_png_cut_off_in_its_header() {
    let png = encode_png(16, 16, png::ColorType::Rgba, png::BitDepth::Eight);
    assert!(matches!(
        get_png_metadata(png[..20].to_vec()),
        Err(IcoError::Decode(_))
    ));
}

#[test]
fn metadata_does_not_decode_the_pixels() {
    let mut png = encode_png(16, 16, png::ColorType::Rgba, png::BitDepth::Eight);
    let end = png.len();
    for byte in &mut png[end - 24..end - 12] {
        *byte ^= 0xff;
    }
    let record = get_png_metadata(png.clone()).unwrap();
    assert_eq!(record.depth(), 32);
    assert_eq!((record.width(), record.height()), (16, 16));
    assert_eq!(record.data(), &png[..]);
}
