use imageflow_core::bitmaps::BitmapsContainer;
use imageflow_core::errors::ErrorKind;
use imageflow_core::types::{BitmapCompositing, ColorSpace, FrameSizeLimit, PixelLayout};

fn default_limit() -> Option<FrameSizeLimit> {
    Some(FrameSizeLimit { w: 10000, h: 10000, max_pixels: 100_000_000 })
}

#[test]
fn created_bitmap_has_requested_shape_and_is_zeroed() {
    let mut bitmaps = BitmapsContainer::with_capacity(4);
    let key = bitmaps
        .create_bitmap_u8(
            3,
            2,
            PixelLayout::BGRA,
            true,
            true,
            ColorSpace::StandardRGB,
            BitmapCompositing::ReplaceSelf,
            default_limit(),
        )
        .unwrap();
    let window = bitmaps.try_borrow_mut(key).unwrap();
    assert_eq!(3, window.bitmap.width());
    assert_eq!(2, window.bitmap.height());
    assert!(window.bitmap.stride() >= 12);
    assert_eq!(PixelLayout::BGRA, window.bitmap.layout());
    assert!(window.bitmap.alpha_meaningful());
    assert_eq!(2 * window.bitmap.stride(), window.bitmap.data().len());
    assert!(window.bitmap.data().iter().all(|b| *b == 0));
    bitmaps.return_window(window).unwrap();
}

#[test]
fn create_bitmap_over_the_cap_reports_size_limit() {
    let mut bitmaps = BitmapsContainer::with_capacity(4);
    let limit = Some(FrameSizeLimit { w: 100, h: 100, max_pixels: 500 });
    let too_wide = bitmaps.create_bitmap_u8(
        101,
        1,
        PixelLayout::BGRA,
        false,
        true,
        ColorSpace::StandardRGB,
        BitmapCompositing::ReplaceSelf,
        limit,
    );
    assert_eq!(ErrorKind::SizeLimitExceeded, too_wide.err().unwrap().kind);
    let too_many_pixels = bitmaps.create_bitmap_u8(
        30,
        30,
        PixelLayout::BGRA,
        false,
        true,
        ColorSpace::StandardRGB,
        BitmapCompositing::ReplaceSelf,
        limit,
    );
    assert_eq!(ErrorKind::SizeLimitExceeded, too_many_pixels.err().unwrap().kind);
    assert_eq!(0, bitmaps.len());
}

#[test]
fn second_mutable_borrow_fails_and_changes_nothing() {
    let mut bitmaps = BitmapsContainer::with_capacity(4);
    let key = bitmaps
        .create_bitmap_u8(
            2,
            2,
            PixelLayout::BGRA,
            false,
            true,
            ColorSpace::StandardRGB,
            BitmapCompositing::ReplaceSelf,
            default_limit(),
        )
        .unwrap();
    let mut window = bitmaps.try_borrow_mut(key).unwrap();
    // A second exclusive borrow of the same bitmap is refused.
    assert_eq!(ErrorKind::FailedBorrow, bitmaps.try_borrow_mut(key).err().unwrap().kind);
    // The refusal mutated nothing: the held window still works, and after
    // returning it the bitmap is unchanged and borrowable again.
    let row = vec![9u8, 9, 9, 9, 9, 9, 9, 9];
    window.bitmap.set_row_bytes(0, &row);
    bitmaps.return_window(window).unwrap();
    let again = bitmaps.try_borrow_mut(key).unwrap();
    assert_eq!(Some((9, 9, 9, 9)), again.bitmap.get_pixel_bgra(0, 0));
    assert_eq!(Some((0, 0, 0, 0)), again.bitmap.get_pixel_bgra(0, 1));
    bitmaps.return_window(again).unwrap();
}

#[test]
fn unknown_key_reports_invalid_argument() {
    let mut bitmaps = BitmapsContainer::with_capacity(4);
    let missing = imageflow_core::bitmaps::BitmapKey { value: 42 };
    assert_eq!(ErrorKind::InvalidArgument, bitmaps.try_borrow_mut(missing).err().unwrap().kind);
}

#[test]
fn keys_are_minted_in_increasing_order_and_never_reused() {
    let mut bitmaps = BitmapsContainer::with_capacity(4);
    let mut last = 0u32;
    for _ in 0..3 {
        let key = bitmaps
            .create_bitmap_u8(
                1,
                1,
                PixelLayout::BGRA,
                false,
                true,
                ColorSpace::StandardRGB,
                BitmapCompositing::ReplaceSelf,
                default_limit(),
            )
            .unwrap();
        assert!(key.value > last);
        last = key.value;
    }
    bitmaps.clear().unwrap();
    assert_eq!(0, bitmaps.len());
    let fresh = bitmaps
        .create_bitmap_u8(
            1,
            1,
            PixelLayout::BGRA,
            false,
            true,
            ColorSpace::StandardRGB,
            BitmapCompositing::ReplaceSelf,
            default_limit(),
        )
        .unwrap();
    // No key reuse within a container, even after a clear.
    assert!(fresh.value > last);
}

#[test]
fn clear_fails_while_a_window_is_outstanding() {
    let mut bitmaps = BitmapsContainer::with_capacity(4);
    let key = bitmaps
        .create_bitmap_u8(
            1,
            1,
            PixelLayout::Gray8,
            false,
            true,
            ColorSpace::StandardRGB,
            BitmapCompositing::BlendWithSelf,
            default_limit(),
        )
        .unwrap();
    let window = bitmaps.try_borrow_mut(key).unwrap();
    assert_eq!(ErrorKind::FailedBorrow, bitmaps.clear().err().unwrap().kind);
    bitmaps.return_window(window).unwrap();
    bitmaps.clear().unwrap();
}

#[test]
fn allocation_container_rejects_bad_arguments() {
    let mut allocations = imageflow_core::allocation_container::AllocationContainer::new();
    assert_eq!(
        ErrorKind::InvalidArgument,
        allocations.allocate(0, 8).err().unwrap().kind
    );
    assert_eq!(
        ErrorKind::InvalidArgument,
        allocations.allocate(16, 12).err().unwrap().kind
    );
    let a = allocations.allocate(16, 8).unwrap();
    let b = allocations.allocate(32, 16).unwrap();
    assert_ne!(a, b);
    assert_eq!(2, allocations.live_count());
    assert!(allocations.free(a));
    assert!(!allocations.free(a));
    assert_eq!(1, allocations.live_count());
    allocations.clear();
    assert_eq!(0, allocations.live_count());
}
