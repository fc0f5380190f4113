use imageflow_core::context::Context;
use imageflow_core::errors::ErrorKind;
use imageflow_core::types::{ExecutionSecurity, FrameSizeLimit, PixelLayout};

/// Encodes one frame as a PNG with the given color type and bit depth, so the
/// tests can feed the decoder real streams.
fn encode_png(width: u32, height: u32, color: png::ColorType, depth: png::BitDepth,
    data: &[u8]) -> Vec<u8> {
    let mut out: Vec<u8> = Vec::new();
    {
        let mut encoder = png::Encoder::new(&mut out, width, height);
        encoder.set_color(color);
        encoder.set_depth(depth);
        let mut writer = encoder.write_header().unwrap();
        writer.write_image_data(data).unwrap();
    }
    out
}

fn solid_rgba_png(width: u32, height: u32, rgba: [u8; 4]) -> Vec<u8> {
    let mut data = Vec::new();
    for _ in 0..(width * height) {
        data.extend_from_slice(&rgba);
    }
    encode_png(width, height, png::ColorType::Rgba, png::BitDepth::Eight, &data)
}

#[test]
fn png_rgba_passthrough() {
    // A 4×4 red RGBA image with alpha 128, registered as input 0 and
    // re-encoded to output 1.
    let source = solid_rgba_png(4, 4, [255, 0, 0, 128]);
    let mut context = Context::create().unwrap();
    context.add_input_buffer(0, &source).unwrap();
    context.add_output_buffer(1).unwrap();

    let decodes = context.get_image_decodes();
    assert_eq!(1, decodes.len());
    assert_eq!(0, decodes[0].io_id);
    assert_eq!(4, decodes[0].w);
    assert_eq!(4, decodes[0].h);
    assert_eq!("image/png", decodes[0].preferred_mime_type);
    assert_eq!("png", decodes[0].preferred_extension);

    let key = context.read_frame(0).unwrap();
    {
        let bitmaps = context.borrow_bitmaps_mut();
        let window = bitmaps.try_borrow_mut(key).unwrap();
        assert_eq!(PixelLayout::BGRA, window.bitmap.layout());
        assert_eq!((4, 4), (window.bitmap.width(), window.bitmap.height()));
        // BGRA of opaque-red-at-half-alpha: B=0, G=0, R=255, A=128.
        assert_eq!(Some((0, 0, 255, 128)), window.bitmap.get_pixel_bgra(0, 0));
        assert_eq!(Some((0, 0, 255, 128)), window.bitmap.get_pixel_bgra(3, 3));
        bitmaps.return_window(window).unwrap();
    }

    let encode = context.encode_frame_to_output(1, key).unwrap();
    assert_eq!(1, encode.io_id);
    assert_eq!((4, 4), (encode.w, encode.h));
    let written = context.get_output_buffer_slice(1).unwrap();
    assert_eq!(encode.bytes_written, written.len());
    assert!(written.starts_with(&[137, 80, 78, 71, 13, 10, 26, 10]));
}

#[test]
fn encoded_output_decodes_back_to_the_same_pixels() {
    let source = solid_rgba_png(2, 2, [10, 20, 30, 40]);
    let mut context = Context::create().unwrap();
    context.add_input_buffer(0, &source).unwrap();
    context.add_output_buffer(1).unwrap();
    let key = context.read_frame(0).unwrap();
    context.encode_frame_to_output(1, key).unwrap();
    let written = context.get_output_buffer_slice(1).unwrap().to_vec();

    // Feed the re-encoded bytes back in; the pixels must survive the trip.
    let mut second = Context::create().unwrap();
    second.add_input_vector(0, written).unwrap();
    let key2 = second.read_frame(0).unwrap();
    let bitmaps = second.borrow_bitmaps_mut();
    let window = bitmaps.try_borrow_mut(key2).unwrap();
    assert_eq!(Some((30, 20, 10, 40)), window.bitmap.get_pixel_bgra(1, 1));
    bitmaps.return_window(window).unwrap();
}

#[test]
fn grayscale_expands_to_bgra_with_opaque_alpha() {
    // An 8-bit 2×1 grayscale image holding the pixels {0, 255}.
    let source = encode_png(2, 1, png::ColorType::Grayscale, png::BitDepth::Eight, &[0, 255]);
    let mut context = Context::create().unwrap();
    context.add_input_buffer(0, &source).unwrap();
    let key = context.read_frame(0).unwrap();
    let bitmaps = context.borrow_bitmaps_mut();
    let window = bitmaps.try_borrow_mut(key).unwrap();
    assert_eq!(Some((0, 0, 0, 255)), window.bitmap.get_pixel_bgra(0, 0));
    assert_eq!(Some((255, 255, 255, 255)), window.bitmap.get_pixel_bgra(1, 0));
    bitmaps.return_window(window).unwrap();
}

#[test]
fn rgb_and_grayscale_alpha_convert_per_pixel() {
    let rgb = encode_png(2, 1, png::ColorType::Rgb, png::BitDepth::Eight, &[1, 2, 3, 4, 5, 6]);
    let mut context = Context::create().unwrap();
    context.add_input_buffer(0, &rgb).unwrap();
    let key = context.read_frame(0).unwrap();
    {
        let bitmaps = context.borrow_bitmaps_mut();
        let window = bitmaps.try_borrow_mut(key).unwrap();
        assert_eq!(Some((3, 2, 1, 255)), window.bitmap.get_pixel_bgra(0, 0));
        assert_eq!(Some((6, 5, 4, 255)), window.bitmap.get_pixel_bgra(1, 0));
        bitmaps.return_window(window).unwrap();
    }

    let ga = encode_png(2, 1, png::ColorType::GrayscaleAlpha, png::BitDepth::Eight,
        &[7, 100, 9, 200]);
    context.add_input_buffer(1, &ga).unwrap();
    let key2 = context.read_frame(1).unwrap();
    let bitmaps = context.borrow_bitmaps_mut();
    let window = bitmaps.try_borrow_mut(key2).unwrap();
    assert_eq!(Some((7, 7, 7, 100)), window.bitmap.get_pixel_bgra(0, 0));
    assert_eq!(Some((9, 9, 9, 200)), window.bitmap.get_pixel_bgra(1, 0));
    bitmaps.return_window(window).unwrap();
}

#[test]
fn sixteen_bit_input_is_normalized_to_eight_bit_channels() {
    // 1×1 16-bit grayscale; the decoder strips it to 8 bits.
    let source = encode_png(1, 1, png::ColorType::Grayscale, png::BitDepth::Sixteen, &[0xAB, 0xCD]);
    let mut context = Context::create().unwrap();
    context.add_input_buffer(0, &source).unwrap();
    let key = context.read_frame(0).unwrap();
    let bitmaps = context.borrow_bitmaps_mut();
    let window = bitmaps.try_borrow_mut(key).unwrap();
    assert_eq!(Some((0xAB, 0xAB, 0xAB, 255)), window.bitmap.get_pixel_bgra(0, 0));
    bitmaps.return_window(window).unwrap();
}

#[test]
fn size_limit_rejects_decode_before_allocating() {
    let source = solid_rgba_png(200, 200, [1, 2, 3, 4]);
    let mut context = Context::create().unwrap();
    context.configure_security(ExecutionSecurity {
        max_decode_size: None,
        // A hundredth of a megapixel.
        max_frame_size: Some(FrameSizeLimit { w: 100, h: 100, max_pixels: 10_000 }),
        max_encode_size: None,
    });
    context.add_input_buffer(0, &source).unwrap();
    let r = context.read_frame(0);
    assert_eq!(ErrorKind::SizeLimitExceeded, r.err().unwrap().kind);
    // No bitmap was allocated.
    assert_eq!(0, context.borrow_bitmaps().len());
}

#[test]
fn rotated_metadata_equals_unrotated_for_png() {
    // PNG carries no EXIF orientation, so the rotated queries change nothing.
    let source = solid_rgba_png(5, 3, [1, 1, 1, 1]);
    let mut context = Context::create().unwrap();
    context.add_input_buffer(0, &source).unwrap();
    assert_eq!(None, context.get_exif_rotation_flag(0).unwrap());
    let unrotated = context.get_unscaled_unrotated_image_info(0).unwrap();
    let rotated = context.get_unscaled_rotated_image_info(0).unwrap();
    assert_eq!((5, 3), (unrotated.image_width, unrotated.image_height));
    assert_eq!((5, 3), (rotated.image_width, rotated.image_height));
    let scaled = context.get_scaled_rotated_image_info(0).unwrap();
    assert_eq!((5, 3), (scaled.image_width, scaled.image_height));
}

#[test]
fn get_image_decodes_sorts_by_io_id_and_omits_failures() {
    let a = solid_rgba_png(1, 1, [1, 2, 3, 4]);
    let b = solid_rgba_png(2, 2, [5, 6, 7, 8]);
    let c = solid_rgba_png(3, 3, [9, 9, 9, 9]);
    let mut context = Context::create().unwrap();
    context.add_input_buffer(9, &a).unwrap();
    context.add_input_buffer(4, &c).unwrap();
    context.add_input_buffer(2, &b).unwrap();
    // An input whose metadata query fails — here because its codec is
    // exclusively borrowed by another scope — is silently omitted.
    let held = context.get_codec(4).unwrap();
    let decodes = context.get_image_decodes();
    assert_eq!(2, decodes.len());
    assert_eq!((2, 2, 2), (decodes[0].io_id, decodes[0].w, decodes[0].h));
    assert_eq!((9, 1, 1), (decodes[1].io_id, decodes[1].w, decodes[1].h));
    context.return_codec(held).unwrap();
    // With the codec returned, all three inputs are enumerated, once each.
    let all = context.get_image_decodes();
    assert_eq!(3, all.len());
    assert_eq!((2, 4, 9), (all[0].io_id, all[1].io_id, all[2].io_id));
}

#[test]
fn output_buffer_accumulates_writes_in_order() {
    let mut context = Context::create().unwrap();
    context.add_output_buffer(5).unwrap();
    assert_eq!(0, context.get_output_buffer_slice(5).unwrap().len());
    context.write_to_output_buffer(5, &[1, 2, 3]).unwrap();
    context.write_to_output_buffer(5, &[4, 5]).unwrap();
    assert_eq!(&[1, 2, 3, 4, 5], context.get_output_buffer_slice(5).unwrap());
    // Writing to an input io_id is refused.
    let src = solid_rgba_png(1, 1, [0, 0, 0, 0]);
    context.add_input_buffer(6, &src).unwrap();
    assert_eq!(
        ErrorKind::InvalidArgument,
        context.write_to_output_buffer(6, &[1]).err().unwrap().kind
    );
}

#[test]
fn tell_decoder_ignores_unknown_commands() {
    let source = solid_rgba_png(1, 1, [1, 2, 3, 4]);
    let mut context = Context::create().unwrap();
    context.add_input_buffer(0, &source).unwrap();
    context
        .tell_decoder(0, imageflow_core::types::DecoderCommand::JpegDownscaleHints {
            width: 10,
            height: 10,
            scale_luma_spatially: false,
        })
        .unwrap();
    context
        .tell_decoder(0, imageflow_core::types::DecoderCommand::WebPDecoderHints {
            width: 10,
            height: 10,
        })
        .unwrap();
}

#[test]
fn encoding_a_zero_width_bitmap_reports_encoding_error() {
    let mut context = Context::create().unwrap();
    context.add_output_buffer(0).unwrap();
    let key = {
        let bitmaps = context.borrow_bitmaps_mut();
        bitmaps
            .create_bitmap_u8(
                0,
                1,
                PixelLayout::BGRA,
                false,
                true,
                imageflow_core::types::ColorSpace::StandardRGB,
                imageflow_core::types::BitmapCompositing::ReplaceSelf,
                None,
            )
            .unwrap()
    };
    let r = context.encode_frame_to_output(0, key);
    assert_eq!(ErrorKind::ImageEncodingError, r.err().unwrap().kind);
}

#[test]
fn cancellation_stops_after_first_frame_and_nothing_leaks() {
    // Two registered inputs; the cancellation poll turns true after the
    // first frame, so exactly one frame is decoded and the job surfaces a
    // cancellation error.
    let a = solid_rgba_png(1, 1, [1, 2, 3, 4]);
    let b = solid_rgba_png(2, 2, [5, 6, 7, 8]);
    let mut context = Context::create().unwrap();
    context.add_input_buffer(0, &a).unwrap();
    context.add_input_buffer(1, &b).unwrap();
    let ptr = context.mem_calloc(128, 8, "job_test", 1).unwrap();

    let io_ids = vec![0, 1];
    let polls = [false, true];
    let mut decoded: Vec<imageflow_core::bitmaps::BitmapKey> = Vec::new();
    let mut cancelled = false;
    let mut index = 0usize;
    loop {
        match imageflow_core::context::next_job_step(&io_ids, index, polls[index]) {
            imageflow_core::context::JobStep::DecodeFrame { io_id } => {
                decoded.push(context.read_frame(io_id).unwrap());
                index += 1;
            }
            imageflow_core::context::JobStep::Cancelled => {
                cancelled = true;
                let stored = context.outward_error_mut().try_set_error(
                    imageflow_core::errors::FlowError::new(
                        ErrorKind::Cancelled,
                        String::from("the job was cancelled"),
                    ),
                );
                assert!(stored);
                break;
            }
            imageflow_core::context::JobStep::Finished => break,
        }
    }
    assert!(cancelled);
    assert_eq!(1, decoded.len());
    assert!(context.outward_error().has_error());
    assert_eq!(
        ErrorKind::Cancelled,
        context.outward_error().get_error().as_ref().unwrap().kind
    );
    // A later failure does not displace the first error.
    let stored_again = context.outward_error_mut().try_set_error(
        imageflow_core::errors::FlowError::new(ErrorKind::IoError, String::from("later")),
    );
    assert!(!stored_again);
    assert_eq!(
        ErrorKind::Cancelled,
        context.outward_error().get_error().as_ref().unwrap().kind
    );
    // All raw allocations are released before teardown.
    assert!(context.mem_free(ptr));
    assert_eq!(0, context.live_allocation_count());
    context.destroy().unwrap();
}
