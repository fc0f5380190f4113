use imageflow_core::context::{next_job_step, swap_dims_if_rotated, Context, JobStep};
use imageflow_core::errors::ErrorKind;
use imageflow_core::types::{
    Build001GraphRecording, ExecutionSecurity, FrameSizeLimit, ImageInfo, PixelFormat,
};

/// The PNG signature followed by a valid 1×1 RGBA information header: the
/// smallest stream that registers as an input (there is no frame to decode).
fn minimal_png_header() -> Vec<u8> {
    vec![
        137u8, 80, 78, 71, 13, 10, 26, 10, // signature
        0, 0, 0, 13, 73, 72, 68, 82, // IHDR length and type
        0, 0, 0, 1, 0, 0, 0, 1, 8, 6, 0, 0, 0, // 1x1, 8-bit RGBA
        31, 21, 196, 137, // header checksum
    ]
}

/// The PNG signature followed by bytes that do not parse as a header.
fn png_magic_with_junk() -> Vec<u8> {
    let mut bytes = vec![137u8, 80, 78, 71, 13, 10, 26, 10];
    bytes.extend_from_slice(&[1, 2, 3, 4]);
    bytes
}

#[test]
fn test_file_macro_for_this_build() {
    // This build keeps its tests in their own tree beside the library source.
    assert!(std::path::Path::new("tests").is_dir());
    assert!(std::path::Path::new("src").is_dir());
}

#[test]
fn test_context_size() {
    println!("std::mem::sizeof(Context) = {}", std::mem::size_of::<Context>());
    assert!(std::mem::size_of::<Context>() < 500);
}

#[test]
fn output_buffer_slice_on_input_io_id_reports_invalid_argument() {
    // The verified scenario of the same name, run once for real.
    imageflow_core::context::test_get_output_buffer_slice_wrong_type_error();
    let mut context = Context::create().unwrap();
    context.add_input_bytes(0, &minimal_png_header()).unwrap();
    assert_eq!(
        ErrorKind::InvalidArgument,
        context.get_output_buffer_slice(0).err().unwrap().kind
    );
}

#[test]
fn duplicate_io_id_is_refused_and_first_codec_stays() {
    let mut context = Context::create().unwrap();
    context.add_input_buffer(0, &minimal_png_header()).unwrap();
    let second = context.add_input_buffer(0, &minimal_png_header());
    assert_eq!(ErrorKind::DuplicateIoId, second.err().unwrap().kind);
    // The first registration is still accessible.
    let codec = context.get_codec(0).unwrap();
    assert_eq!(0, codec.io_id);
    context.return_codec(codec).unwrap();
}

#[test]
fn add_then_get_codec_succeeds_and_io_id_is_listed_once() {
    let mut context = Context::create().unwrap();
    assert!(!context.io_id_present(7));
    context.add_input_buffer(7, &minimal_png_header()).unwrap();
    assert!(context.io_id_present(7));
    let codec = context.get_codec(7).unwrap();
    assert_eq!(7, codec.io_id);
    context.return_codec(codec).unwrap();
    // While a codec is checked out, a second request for it fails.
    let held = context.get_codec(7).unwrap();
    assert_eq!(ErrorKind::FailedBorrow, context.get_codec(7).err().unwrap().kind);
    context.return_codec(held).unwrap();
}

#[test]
fn unknown_io_id_reports_io_id_not_found() {
    let mut context = Context::create().unwrap();
    assert_eq!(ErrorKind::IoIdNotFound, context.get_codec(3).err().unwrap().kind);
    assert_eq!(ErrorKind::IoIdNotFound, context.get_output_buffer_slice(3).err().unwrap().kind);
}

#[test]
fn codec_not_found_for_unknown_signature() {
    let mut context = Context::create().unwrap();
    let r = context.add_input_buffer(0, b"abcdef");
    assert_eq!(ErrorKind::CodecNotFound, r.err().unwrap().kind);
    assert!(!context.io_id_present(0));
}

#[test]
fn configure_security_twice_equals_once() {
    let overrides = ExecutionSecurity {
        max_decode_size: Some(FrameSizeLimit { w: 50, h: 60, max_pixels: 3_000 }),
        max_frame_size: None,
        max_encode_size: Some(FrameSizeLimit { w: 70, h: 80, max_pixels: 5_600 }),
    };
    let mut once = Context::create().unwrap();
    once.configure_security(overrides);
    let after_once = once.security();

    let mut twice = Context::create().unwrap();
    twice.configure_security(overrides);
    twice.configure_security(overrides);
    let after_twice = twice.security();

    assert_eq!(after_once, after_twice);
    // The cap the overrides left unset keeps its default.
    assert_eq!(
        Some(FrameSizeLimit { w: 10000, h: 10000, max_pixels: 100_000_000 }),
        after_once.max_frame_size
    );
    assert_eq!(Some(FrameSizeLimit { w: 50, h: 60, max_pixels: 3_000 }), after_once.max_decode_size);
}

#[test]
fn graph_recording_forced_off_when_ci_is_true() {
    let mut context = Context::create().unwrap();
    let wanted = Build001GraphRecording {
        record_graph_versions: Some(true),
        record_frame_images: Some(true),
        render_last_graph: Some(true),
        render_graph_versions: Some(true),
        render_animated_graph: Some(true),
    };
    context.configure_graph_recording(wanted, Some(String::from("tRuE")));
    assert_eq!(Build001GraphRecording::off(), context.graph_recording());
    context.configure_graph_recording(wanted, Some(String::from("false")));
    assert_eq!(wanted, context.graph_recording());
    context.configure_graph_recording(wanted, None);
    assert_eq!(wanted, context.graph_recording());
}

#[test]
fn mem_calloc_and_mem_free_track_allocations() {
    let mut context = Context::create().unwrap();
    assert_eq!(
        ErrorKind::AllocationFailed,
        context.mem_calloc(0, 16, "alloc_test", 1).err().unwrap().kind
    );
    assert_eq!(
        ErrorKind::AllocationFailed,
        context.mem_calloc(64, 3, "alloc_test", 2).err().unwrap().kind
    );
    let ptr = context.mem_calloc(64, 16, "alloc_test", 3).unwrap();
    assert_eq!(1, context.live_allocation_count());
    assert!(context.mem_free(ptr));
    // A duplicate free returns false without aborting.
    assert!(!context.mem_free(ptr));
    assert_eq!(0, context.live_allocation_count());
}

#[test]
fn exif_orientation_five_through_eight_swaps_dimensions() {
    let base = ImageInfo {
        frame_decodes_into: PixelFormat::Bgra32,
        image_width: 640,
        image_height: 480,
        preferred_mime_type: String::from("image/png"),
        preferred_extension: String::from("png"),
    };
    for flag in 1..=8 {
        let mut info = base.clone();
        swap_dims_if_rotated(Some(flag), &mut info);
        if (5..=8).contains(&flag) {
            assert_eq!((480, 640), (info.image_width, info.image_height));
        } else {
            assert_eq!((640, 480), (info.image_width, info.image_height));
        }
    }
    let mut info = base.clone();
    swap_dims_if_rotated(None, &mut info);
    assert_eq!((640, 480), (info.image_width, info.image_height));
}

#[test]
fn job_step_decision_prefers_cancellation() {
    let ids = vec![0, 2];
    assert_eq!(JobStep::DecodeFrame { io_id: 0 }, next_job_step(&ids, 0, false));
    assert_eq!(JobStep::DecodeFrame { io_id: 2 }, next_job_step(&ids, 1, false));
    assert_eq!(JobStep::Finished, next_job_step(&ids, 2, false));
    assert_eq!(JobStep::Cancelled, next_job_step(&ids, 1, true));
}

#[test]
fn destroy_clears_codecs() {
    let mut context = Context::create().unwrap();
    context.add_input_buffer(0, &minimal_png_header()).unwrap();
    assert!(context.abi_begin_terminate());
    assert!(!context.io_id_present(0));
    let context2 = Context::create().unwrap();
    context2.destroy().unwrap();
}

#[test]
fn truncated_png_is_rejected_at_registration() {
    // Construction reads the information header, so a PNG whose header does
    // not parse fails at add time, and nothing is registered.
    let mut context = Context::create().unwrap();
    let r = context.add_input_buffer(0, &png_magic_with_junk());
    assert_eq!(ErrorKind::ImageDecodingError, r.err().unwrap().kind);
    assert!(!context.io_id_present(0));
}

#[test]
fn header_only_png_registers_but_frame_decode_fails() {
    // A stream with a valid header and no image data registers and answers
    // metadata queries; only the frame decode reports the corrupt body.
    let mut context = Context::create().unwrap();
    context.add_input_buffer(0, &minimal_png_header()).unwrap();
    let info = context.get_unscaled_unrotated_image_info(0).unwrap();
    assert_eq!((1, 1), (info.image_width, info.image_height));
    let r = context.read_frame(0);
    assert_eq!(ErrorKind::ImageDecodingError, r.err().unwrap().kind);
}
