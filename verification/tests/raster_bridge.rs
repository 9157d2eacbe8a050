use quad::errors::CommandError;
use quad::messages::{ImageMessage, ImageSize, ImagesMessage, ImagesMessageGif};
use quad::raster::{
    check_buffer, check_buffers, export_animated_gif, export_image_png, export_sequence_pngs,
    frame_delay_ms, import_from_bytes, sequence_file_name, suggested_file_name,
};
use quad::textnum::format_decimal;

fn checker_pixels() -> Vec<u8> {
    // A 2x2 image: red, green, blue, and a transparent pixel.
    vec![
        255, 0, 0, 255, //
        0, 255, 0, 255, //
        0, 0, 255, 255, //
        0, 0, 0, 0,
    ]
}

#[test]
fn buffer_check_matches_dimensions() {
    assert!(check_buffer(2, 2, &checker_pixels()));
    assert!(!check_buffer(2, 2, &vec![0; 15]));
    assert!(!check_buffer(3, 2, &checker_pixels()));
    // Huge dimensions must be handled without overflow.
    assert!(!check_buffer(u32::MAX, u32::MAX, &checker_pixels()));
}

#[test]
fn png_export_round_trips_through_import() {
    let msg = ImageMessage { width: 2, height: 2, name: b"tile.png".to_vec(), data: checker_pixels() };
    let png = export_image_png(&msg).unwrap();
    assert_eq!(&png[..4], &[137, 80, 78, 71]);
    let back = import_from_bytes(&png, b"tile.png".to_vec(), &ImageSize { width: 2, height: 2 })
        .unwrap();
    assert_eq!(back.width, 2);
    assert_eq!(back.height, 2);
    assert_eq!(back.name, b"tile.png".to_vec());
    assert_eq!(back.data, checker_pixels());
}

#[test]
fn png_export_rejects_mismatched_buffer() {
    let msg = ImageMessage { width: 4, height: 4, name: b"t.png".to_vec(), data: checker_pixels() };
    assert!(matches!(export_image_png(&msg), Err(CommandError::InvalidBuffer)));
}

#[test]
fn import_rejects_undecodable_bytes() {
    let r = import_from_bytes(
        &vec![1, 2, 3, 4, 5],
        b"x.png".to_vec(),
        &ImageSize { width: 2, height: 2 },
    );
    assert!(matches!(r, Err(CommandError::DecodeFailure(_))));
}

#[test]
fn import_resizes_to_exact_target() {
    let msg = ImageMessage { width: 2, height: 2, name: b"tile.png".to_vec(), data: checker_pixels() };
    let png = export_image_png(&msg).unwrap();
    let back = import_from_bytes(&png, b"tile.png".to_vec(), &ImageSize { width: 4, height: 4 })
        .unwrap();
    assert_eq!(back.width, 4);
    assert_eq!(back.height, 4);
    assert_eq!(back.data.len(), 4 * 4 * 4);
    // Nearest-neighbor doubling keeps the hard edge: the top-left block
    // stays pure red.
    assert_eq!(&back.data[..4], &[255, 0, 0, 255]);
}

#[test]
fn sequence_export_names_and_counts_files() {
    let msg = ImagesMessage {
        width: 2,
        height: 2,
        name: b"walk".to_vec(),
        data: vec![checker_pixels(), checker_pixels(), checker_pixels()],
    };
    let files = export_sequence_pngs(&msg).unwrap();
    assert_eq!(files.len(), 3);
    assert_eq!(files[0].0, b"walk-0.png".to_vec());
    assert_eq!(files[1].0, b"walk-1.png".to_vec());
    assert_eq!(files[2].0, b"walk-2.png".to_vec());
    for (_, bytes) in &files {
        assert_eq!(&bytes[..4], &[137, 80, 78, 71]);
    }
}

#[test]
fn sequence_export_fails_whole_batch_on_one_bad_buffer() {
    let msg = ImagesMessage {
        width: 2,
        height: 2,
        name: b"walk".to_vec(),
        data: vec![checker_pixels(), vec![0; 3], checker_pixels()],
    };
    assert!(matches!(export_sequence_pngs(&msg), Err(CommandError::InvalidBuffer)));
    assert!(!check_buffers(2, 2, &vec![checker_pixels(), vec![0; 3]]));
}

#[test]
fn sequence_export_of_empty_batch_succeeds_with_zero_files() {
    let msg =
        ImagesMessage { width: 2, height: 2, name: b"walk".to_vec(), data: Vec::new() };
    let files = export_sequence_pngs(&msg).unwrap();
    assert!(files.is_empty());
}

#[test]
fn gif_export_of_empty_batch_succeeds() {
    let msg = ImagesMessageGif {
        width: 2,
        height: 2,
        name: b"spin".to_vec(),
        data: Vec::new(),
        fps: 10,
    };
    assert!(export_animated_gif(&msg).is_ok());
}

#[test]
fn png_export_of_zero_sized_image_reports_encode_failure() {
    let msg = ImageMessage { width: 0, height: 0, name: b"t.png".to_vec(), data: Vec::new() };
    assert!(matches!(export_image_png(&msg), Err(CommandError::EncodeFailure(_))));
}

#[test]
fn suggested_file_names_append_the_extension() {
    assert_eq!(suggested_file_name(&b"sprite".to_vec(), &b"quad".to_vec()), b"sprite.quad".to_vec());
    assert_eq!(suggested_file_name(&b"tile".to_vec(), &b"png".to_vec()), b"tile.png".to_vec());
}

#[test]
fn frame_delay_rounds_to_nearest_millisecond() {
    assert_eq!(frame_delay_ms(10), 100);
    assert_eq!(frame_delay_ms(3), 333);
    assert_eq!(frame_delay_ms(1), 1000);
    assert_eq!(frame_delay_ms(7), 143);
}

#[test]
fn gif_export_emits_an_animated_gif() {
    let msg = ImagesMessageGif {
        width: 2,
        height: 2,
        name: b"spin".to_vec(),
        data: vec![checker_pixels(), checker_pixels()],
        fps: 10,
    };
    let gif = export_animated_gif(&msg).unwrap();
    assert_eq!(&gif[..6], b"GIF89a");
}

#[test]
fn gif_export_rejects_zero_fps() {
    let msg = ImagesMessageGif {
        width: 2,
        height: 2,
        name: b"spin".to_vec(),
        data: vec![checker_pixels()],
        fps: 0,
    };
    assert!(matches!(export_animated_gif(&msg), Err(CommandError::InvalidInput)));
}

#[test]
fn gif_export_rejects_mismatched_buffers_before_fps() {
    let msg = ImagesMessageGif {
        width: 2,
        height: 2,
        name: b"spin".to_vec(),
        data: vec![vec![1, 2, 3]],
        fps: 0,
    };
    assert!(matches!(export_animated_gif(&msg), Err(CommandError::InvalidBuffer)));
}

#[test]
fn decimal_rendering_is_exact() {
    assert_eq!(format_decimal(0), b"0".to_vec());
    assert_eq!(format_decimal(7), b"7".to_vec());
    assert_eq!(format_decimal(10), b"10".to_vec());
    assert_eq!(format_decimal(30517), b"30517".to_vec());
}

#[test]
fn sequence_file_names_embed_the_index() {
    assert_eq!(sequence_file_name(&b"walk".to_vec(), 0), b"walk-0.png".to_vec());
    assert_eq!(sequence_file_name(&b"walk".to_vec(), 12), b"walk-12.png".to_vec());
    assert_eq!(sequence_file_name(&Vec::new(), 3), b"-3.png".to_vec());
}
