use vstd::prelude::*;
use crate::errors::{ErrorKind, FlowError};
use crate::types::{BitmapCompositing, ColorSpace, FrameSizeLimit, PixelLayout};

verus! {

/// Opaque, copyable handle to one bitmap in a container. Keys are minted from
/// a monotonically increasing counter and never reused within one job.
#[derive(Clone, Copy, Debug, PartialEq, Eq, Structural)]
pub struct BitmapKey {
    pub value: u32,
}

/// A contiguous pixel buffer of `height` rows of `stride` bytes each.
#[derive(Debug)]
pub struct Bitmap {
    width: u32,
    height: u32,
    stride: usize,
    layout: PixelLayout,
    color_space: ColorSpace,
    compositing: BitmapCompositing,
    alpha_meaningful: bool,
    data: Vec<u8>,
}

/// `data` with the bytes starting at `start` replaced by `bytes`.
pub open spec fn spec_splice(data: Seq<u8>, start: int, bytes: Seq<u8>) -> Seq<u8> {
    Seq::new(
        data.len(),
        |j: int| if start <= j < start + bytes.len() { bytes[j - start] } else { data[j] },
    )
}

impl Bitmap {
    pub closed spec fn spec_width(&self) -> u32 {
        self.width
    }

    pub closed spec fn spec_height(&self) -> u32 {
        self.height
    }

    pub closed spec fn spec_stride(&self) -> usize {
        self.stride
    }

    pub closed spec fn spec_layout(&self) -> PixelLayout {
        self.layout
    }

    pub closed spec fn spec_color_space(&self) -> ColorSpace {
        self.color_space
    }

    pub closed spec fn spec_compositing(&self) -> BitmapCompositing {
        self.compositing
    }

    pub closed spec fn spec_alpha_meaningful(&self) -> bool {
        self.alpha_meaningful
    }

    pub closed spec fn spec_data(&self) -> Seq<u8> {
        self.data@
    }

    /// The row byte count covers the pixels of one row, and the buffer holds
    /// exactly `height` rows.
    pub open spec fn wf(&self) -> bool {
        &&& self.spec_stride() >= self.spec_width() * self.spec_layout().spec_bytes_per_pixel()
        &&& self.spec_data().len() == self.spec_height() * self.spec_stride()
    }

    pub fn width(&self) -> (w: u32)
        ensures
            w == self.spec_width(),
    {
        self.width
    }

    pub fn height(&self) -> (h: u32)
        ensures
            h == self.spec_height(),
    {
        self.height
    }

    pub fn stride(&self) -> (s: usize)
        ensures
            s == self.spec_stride(),
    {
        self.stride
    }

    pub fn layout(&self) -> (l: PixelLayout)
        ensures
            l == self.spec_layout(),
    {
        self.layout
    }

    pub fn color_space(&self) -> (c: ColorSpace)
        ensures
            c == self.spec_color_space(),
    {
        self.color_space
    }

    pub fn compositing(&self) -> (c: BitmapCompositing)
        ensures
            c == self.spec_compositing(),
    {
        self.compositing
    }

    pub fn alpha_meaningful(&self) -> (a: bool)
        ensures
            a == self.spec_alpha_meaningful(),
    {
        self.alpha_meaningful
    }

    pub fn data(&self) -> (d: &Vec<u8>)
        ensures
            d@ == self.spec_data(),
    {
        &self.data
    }

    /// Replaces the first `bytes.len()` bytes of row `row` with the given bytes.
    pub fn set_row_bytes(&mut self, row: u32, bytes: &Vec<u8>)
        requires
            old(self).wf(),
            row < old(self).spec_height(),
            bytes@.len() <= old(self).spec_stride(),
        ensures
            final(self).wf(),
            final(self).spec_width() == old(self).spec_width(),
            final(self).spec_height() == old(self).spec_height(),
            final(self).spec_stride() == old(self).spec_stride(),
            final(self).spec_layout() == old(self).spec_layout(),
            final(self).spec_color_space() == old(self).spec_color_space(),
            final(self).spec_compositing() == old(self).spec_compositing(),
            final(self).spec_alpha_meaningful() == old(self).spec_alpha_meaningful(),
            final(self).spec_data() == spec_splice(
                old(self).spec_data(),
                row * old(self).spec_stride(),
                bytes@,
            ),
    {
        let len: usize = self.data.len();
        proof {
            let r = row as int;
            let s = self.stride as int;
            let h = self.height as int;
            assert(r * s + s <= h * s) by (nonlinear_arith)
                requires
                    r < h,
                    s >= 0,
            ;
            assert(self.data@.len() == h * s);
            assert(r * s + s <= len);
        }
        let start: usize = (row as usize) * self.stride;
        let mut i: usize = 0;
        while i < bytes.len()
            invariant
                i <= bytes@.len(),
                bytes@.len() <= old(self).spec_stride(),
                start == row * old(self).spec_stride(),
                start + old(self).spec_stride() <= old(self).spec_data().len(),
                self.width == old(self).spec_width(),
                self.height == old(self).spec_height(),
                self.stride == old(self).spec_stride(),
                self.layout == old(self).spec_layout(),
                self.color_space == old(self).spec_color_space(),
                self.compositing == old(self).spec_compositing(),
                self.alpha_meaningful == old(self).spec_alpha_meaningful(),
                self.data@.len() == old(self).spec_data().len(),
                self.data@.len() <= usize::MAX,
                forall|j: int| 0 <= j < self.data@.len() && !(start <= j < start + i) ==>
                    self.data@[j] == old(self).spec_data()[j],
                forall|j: int| start <= j < start + i ==> self.data@[j] == bytes@[j - start],
            decreases bytes@.len() - i,
        {
            self.data[start + i] = bytes[i];
            i = i + 1;
        }
        proof {
            assert(self.data@ =~= spec_splice(
                old(self).spec_data(),
                row * old(self).spec_stride(),
                bytes@,
            ));
        }
    }

    /// The four channel bytes of pixel (x, y) in a four-byte-per-pixel layout,
    /// in buffer order (for BGRA: blue, green, red, alpha). None when the
    /// coordinates are out of range or the layout is not four bytes wide.
    pub fn get_pixel_bgra(&self, x: u32, y: u32) -> (r: Option<(u8, u8, u8, u8)>)
        requires
            self.wf(),
        ensures
            r is Some <==> x < self.spec_width() && y < self.spec_height()
                && self.spec_layout() == PixelLayout::BGRA,
            r is Some ==> {
                let base = y * self.spec_stride() + 4 * x;
                r->0 == (
                    self.spec_data()[base],
                    self.spec_data()[base + 1],
                    self.spec_data()[base + 2],
                    self.spec_data()[base + 3],
                )
            },
    {
        if !(x < self.width && y < self.height && self.layout == PixelLayout::BGRA) {
            return None;
        }
        let len: usize = self.data.len();
        proof {
            let xx = x as int;
            let yy = y as int;
            let s = self.stride as int;
            let h = self.height as int;
            let w = self.width as int;
            assert(yy * s + s <= h * s) by (nonlinear_arith)
                requires
                    yy < h,
                    s >= 0,
            ;
            assert(4 * xx + 4 <= 4 * w) by (nonlinear_arith)
                requires
                    xx < w,
            ;
            assert(self.data@.len() == h * s);
            assert(s >= 4 * w);
            assert(yy * s + 4 * xx + 4 <= len);
        }
        let base: usize = (y as usize) * self.stride + 4 * (x as usize);
        Some((self.data[base], self.data[base + 1], self.data[base + 2], self.data[base + 3]))
    }
}

/// A scoped exclusive window onto one bitmap, checked out of its container.
/// While the window is live, the container refuses further borrows of the
/// same key.
#[derive(Debug)]
pub struct BitmapWindowMut {
    pub key: BitmapKey,
    pub bitmap: Bitmap,
}

/// Whether dimensions pass a frame-size cap.
pub open spec fn spec_fits_limit(limit: Option<FrameSizeLimit>, w: u32, h: u32) -> bool {
    match limit {
        Option::None => true,
        Option::Some(l) => w <= l.w && h <= l.h && w * h <= l.max_pixels,
    }
}

/// Whether a buffer of w×h pixels at the given layout fits the machine.
pub open spec fn spec_fits_machine(w: u32, h: u32, layout: PixelLayout) -> bool {
    &&& w * layout.spec_bytes_per_pixel() <= usize::MAX
    &&& w * h * layout.spec_bytes_per_pixel() <= usize::MAX
}

/// A vector of `len` zero bytes.
fn zero_vec(len: usize) -> (v: Vec<u8>)
    ensures
        v@.len() == len,
        forall|i: int| 0 <= i < len ==> v@[i] == 0u8,
{
    let mut v: Vec<u8> = Vec::with_capacity(len);
    let mut i: usize = 0;
    while i < len
        invariant
            i <= len,
            v@.len() == i,
            forall|j: int| 0 <= j < i ==> v@[j] == 0u8,
        decreases len - i,
    {
        v.push(0u8);
        i = i + 1;
    }
    v
}

struct BitmapSlot {
    key: u32,
    bitmap: Option<Bitmap>,
}

/// Keyed store of the bitmaps of one job. Bitmaps are addressed by opaque
/// keys; mutable access is handed out as exclusive windows, and a request
/// that would alias a live window fails rather than blocking.
pub struct BitmapsContainer {
    slots: Vec<BitmapSlot>,
    next_key: u32,
}

impl BitmapsContainer {
    pub closed spec fn spec_next_key(&self) -> u32 {
        self.next_key
    }

    pub closed spec fn slot_count(&self) -> nat {
        self.slots@.len()
    }

    /// Keys are strictly increasing across slots and below the counter, and
    /// every bitmap still in place is well formed.
    pub closed spec fn wf(&self) -> bool {
        &&& forall|i: int| 0 <= i < self.slots@.len() ==>
            (#[trigger] self.slots@[i].key) < self.next_key
        &&& forall|i: int, j: int| 0 <= i < j < self.slots@.len() ==>
            (#[trigger] self.slots@[i].key) < (#[trigger] self.slots@[j].key)
        &&& forall|i: int| 0 <= i < self.slots@.len() ==>
            ((#[trigger] self.slots@[i].bitmap) is Some ==> self.slots@[i].bitmap->0.wf())
    }

    /// Whether the key names a bitmap of this container (whether or not it is
    /// currently checked out).
    pub closed spec fn contains_key(&self, key: BitmapKey) -> bool {
        exists|i: int| 0 <= i < self.slots@.len() && (#[trigger] self.slots@[i].key) == key.value
    }

    /// Whether the bitmap under this key is currently checked out as a window.
    pub closed spec fn is_borrowed(&self, key: BitmapKey) -> bool {
        exists|i: int| 0 <= i < self.slots@.len() && (#[trigger] self.slots@[i].key) == key.value
            && self.slots@[i].bitmap is None
    }

    /// The bitmap stored under the key, when present and not checked out.
    pub closed spec fn bitmap_of(&self, key: BitmapKey) -> Option<Bitmap> {
        if exists|i: int| 0 <= i < self.slots@.len() && (#[trigger] self.slots@[i].key) == key.value
            && self.slots@[i].bitmap is Some {
            let i = choose|i: int| 0 <= i < self.slots@.len()
                && (#[trigger] self.slots@[i].key) == key.value && self.slots@[i].bitmap is Some;
            self.slots@[i].bitmap
        } else {
            Option::None
        }
    }

    /// Whether the slot at an index is checked out.
    pub closed spec fn spec_slot_borrowed(&self, i: int) -> bool {
        self.slots@[i].bitmap is None
    }

    /// What the three lookup spec functions say about the slot at index `i`,
    /// given that slot keys are unique.
    proof fn lemma_slot_lookup(&self, i: int)
        requires
            self.wf(),
            0 <= i < self.slots@.len(),
        ensures
            forall|j: int| 0 <= j < self.slots@.len() && j != i ==>
                (#[trigger] self.slots@[j].key) != self.slots@[i].key,
            self.contains_key(BitmapKey { value: self.slots@[i].key }),
            self.is_borrowed(BitmapKey { value: self.slots@[i].key })
                == (self.slots@[i].bitmap is None),
            self.bitmap_of(BitmapKey { value: self.slots@[i].key })
                == if self.slots@[i].bitmap is Some { self.slots@[i].bitmap } else {
                    Option::<Bitmap>::None
                },
    {
        let key = BitmapKey { value: self.slots@[i].key };
        assert forall|j: int| 0 <= j < self.slots@.len() && j != i implies
            (#[trigger] self.slots@[j].key) != self.slots@[i].key by {
            if j < i {
                assert(self.slots@[j].key < self.slots@[i].key);
            } else {
                assert(self.slots@[i].key < self.slots@[j].key);
            }
        }
        assert(self.contains_key(key));
        if self.slots@[i].bitmap is Some {
            assert(exists|j: int| 0 <= j < self.slots@.len()
                && (#[trigger] self.slots@[j].key) == key.value && self.slots@[j].bitmap is Some);
            let j = choose|j: int| 0 <= j < self.slots@.len()
                && (#[trigger] self.slots@[j].key) == key.value && self.slots@[j].bitmap is Some;
            assert(j == i);
            if self.is_borrowed(key) {
                let k = choose|k: int| 0 <= k < self.slots@.len()
                    && (#[trigger] self.slots@[k].key) == key.value
                    && self.slots@[k].bitmap is None;
                assert(k == i);
            }
        } else {
            assert(self.is_borrowed(key));
            if exists|j: int| 0 <= j < self.slots@.len()
                && (#[trigger] self.slots@[j].key) == key.value && self.slots@[j].bitmap is Some {
                let j = choose|j: int| 0 <= j < self.slots@.len()
                    && (#[trigger] self.slots@[j].key) == key.value
                    && self.slots@[j].bitmap is Some;
                assert(j == i);
            }
        }
    }

    /// A container stays well formed when one slot's bitmap is exchanged for
    /// a well-formed one (or for none) and everything else is unchanged.
    proof fn lemma_wf_after_update(&self, upd: &Self, i: int)
        requires
            self.wf(),
            0 <= i < self.slots@.len(),
            upd.slots@.len() == self.slots@.len(),
            upd.next_key == self.next_key,
            forall|j: int| 0 <= j < self.slots@.len() && j != i ==>
                #[trigger] upd.slots@[j] == self.slots@[j],
            upd.slots@[i].key == self.slots@[i].key,
            upd.slots@[i].bitmap is Some ==> upd.slots@[i].bitmap->0.wf(),
        ensures
            upd.wf(),
    {
        assert forall|j: int| 0 <= j < upd.slots@.len() implies
            (#[trigger] upd.slots@[j].key) < upd.next_key by {
            if j != i {
                assert(upd.slots@[j] == self.slots@[j]);
            }
        }
        assert forall|a: int, b: int| 0 <= a < b < upd.slots@.len() implies
            (#[trigger] upd.slots@[a].key) < (#[trigger] upd.slots@[b].key) by {
            assert(upd.slots@[a].key == self.slots@[a].key);
            assert(upd.slots@[b].key == self.slots@[b].key);
        }
        assert forall|j: int| 0 <= j < upd.slots@.len() implies
            ((#[trigger] upd.slots@[j].bitmap) is Some ==> upd.slots@[j].bitmap->0.wf()) by {
            if j != i {
                assert(upd.slots@[j] == self.slots@[j]);
            }
        }
    }

    /// Lookups of keys other than the one at the updated slot are unchanged by
    /// an update that keeps the slot's key.
    proof fn lemma_update_other_keys(&self, upd: &Self, i: int, key: BitmapKey)
        requires
            self.wf(),
            0 <= i < self.slots@.len(),
            upd.slots@.len() == self.slots@.len(),
            forall|j: int| 0 <= j < self.slots@.len() && j != i ==>
                #[trigger] upd.slots@[j] == self.slots@[j],
            upd.slots@[i].key == self.slots@[i].key,
            key.value != self.slots@[i].key,
        ensures
            upd.contains_key(key) == self.contains_key(key),
            upd.is_borrowed(key) == self.is_borrowed(key),
            upd.bitmap_of(key) == self.bitmap_of(key),
    {
        assert forall|j: int| 0 <= j < self.slots@.len() implies
            (#[trigger] upd.slots@[j].key) == self.slots@[j].key
                && ((#[trigger] self.slots@[j].key) == key.value ==>
                    upd.slots@[j].bitmap == self.slots@[j].bitmap) by {
            if j != i {
            } else {
            }
        }
        if self.contains_key(key) {
            let j = choose|j: int| 0 <= j < self.slots@.len()
                && (#[trigger] self.slots@[j].key) == key.value;
            self.lemma_slot_lookup(j);
            assert(upd.slots@[j].key == key.value);
            if self.is_borrowed(key) {
                let jb = choose|jb: int| 0 <= jb < self.slots@.len()
                    && (#[trigger] self.slots@[jb].key) == key.value
                    && self.slots@[jb].bitmap is None;
                assert(jb == j);
                assert(upd.slots@[j].bitmap is None);
            }
            if upd.is_borrowed(key) {
                let jb = choose|jb: int| 0 <= jb < upd.slots@.len()
                    && (#[trigger] upd.slots@[jb].key) == key.value
                    && upd.slots@[jb].bitmap is None;
                assert(self.slots@[jb].key == key.value);
                assert(jb == j);
                assert(self.slots@[j].bitmap is None);
            }
            if exists|js: int| 0 <= js < self.slots@.len()
                && (#[trigger] self.slots@[js].key) == key.value
                && self.slots@[js].bitmap is Some {
                let js = choose|js: int| 0 <= js < self.slots@.len()
                    && (#[trigger] self.slots@[js].key) == key.value
                    && self.slots@[js].bitmap is Some;
                assert(js == j);
                assert(self.bitmap_of(key) == self.slots@[j].bitmap);
                assert(upd.slots@[j].key == key.value && upd.slots@[j].bitmap is Some);
                let ju = choose|ju: int| 0 <= ju < upd.slots@.len()
                    && (#[trigger] upd.slots@[ju].key) == key.value
                    && upd.slots@[ju].bitmap is Some;
                assert(self.slots@[ju].key == key.value);
                assert(ju == j);
                assert(upd.bitmap_of(key) == upd.slots@[j].bitmap);
            } else {
                assert(self.bitmap_of(key) is None);
                if exists|ju: int| 0 <= ju < upd.slots@.len()
                    && (#[trigger] upd.slots@[ju].key) == key.value
                    && upd.slots@[ju].bitmap is Some {
                    let ju = choose|ju: int| 0 <= ju < upd.slots@.len()
                        && (#[trigger] upd.slots@[ju].key) == key.value
                        && upd.slots@[ju].bitmap is Some;
                    assert(self.slots@[ju].key == key.value && self.slots@[ju].bitmap is Some);
                    assert(false);
                }
                assert(upd.bitmap_of(key) is None);
            }
        } else {
            if upd.contains_key(key) {
                let j = choose|j: int| 0 <= j < upd.slots@.len()
                    && (#[trigger] upd.slots@[j].key) == key.value;
                assert(self.slots@[j].key == key.value);
                assert(false);
            }
            assert(!self.is_borrowed(key) && !upd.is_borrowed(key));
            assert(self.bitmap_of(key) is None && upd.bitmap_of(key) is None);
        }
    }

    pub fn with_capacity(capacity: usize) -> (c: BitmapsContainer)
        ensures
            c.wf(),
            c.slot_count() == 0,
            c.spec_next_key() == 1,
    {
        BitmapsContainer { slots: Vec::with_capacity(capacity), next_key: 1 }
    }

    pub fn len(&self) -> (n: usize)
        ensures
            n == self.slot_count(),
    {
        self.slots.len()
    }

    /// Allocates a zero-filled bitmap of the given shape, honoring the job's
    /// frame-size cap, and returns its key. `SizeLimitExceeded` reports a
    /// frame over the cap or too large for the machine.
    pub fn create_bitmap_u8(
        &mut self,
        w: u32,
        h: u32,
        layout: PixelLayout,
        alpha_meaningful: bool,
        zeroed: bool,
        color_space: ColorSpace,
        compositing: BitmapCompositing,
        max_frame_size: Option<FrameSizeLimit>,
    ) -> (r: Result<BitmapKey, FlowError>)
        requires
            old(self).wf(),
        ensures
            final(self).wf(),
            r is Ok <==> spec_fits_limit(max_frame_size, w, h)
                && spec_fits_machine(w, h, layout)
                && old(self).spec_next_key() < u32::MAX,
            r is Ok ==> r->Ok_0.value == old(self).spec_next_key()
                && !old(self).contains_key(r->Ok_0)
                && final(self).contains_key(r->Ok_0)
                && !final(self).is_borrowed(r->Ok_0)
                && final(self).bitmap_of(r->Ok_0) is Some,
            r is Ok ==> {
                let b = final(self).bitmap_of(r->Ok_0)->0;
                &&& b.wf()
                &&& b.spec_width() == w
                &&& b.spec_height() == h
                &&& b.spec_stride() == w * layout.spec_bytes_per_pixel()
                &&& b.spec_layout() == layout
                &&& b.spec_color_space() == color_space
                &&& b.spec_compositing() == compositing
                &&& b.spec_alpha_meaningful() == alpha_meaningful
                &&& b.spec_data().len() == h * b.spec_stride()
                &&& (zeroed ==> forall|i: int| 0 <= i < b.spec_data().len() ==>
                    b.spec_data()[i] == 0u8)
            },
            r is Ok ==> final(self).spec_next_key() == old(self).spec_next_key() + 1
                && final(self).slot_count() == old(self).slot_count() + 1,
            r is Ok ==> forall|k: BitmapKey|
                #![trigger final(self).contains_key(k)]
                #![trigger final(self).bitmap_of(k)]
                #![trigger final(self).is_borrowed(k)]
                k.value != r->Ok_0.value ==>
                    final(self).contains_key(k) == old(self).contains_key(k)
                        && final(self).bitmap_of(k) == old(self).bitmap_of(k)
                        && (final(self).is_borrowed(k) == old(self).is_borrowed(k)),
            r is Err ==> *final(self) == *old(self),
            r is Err ==> (r->Err_0.kind == ErrorKind::SizeLimitExceeded <==>
                !(spec_fits_limit(max_frame_size, w, h) && spec_fits_machine(w, h, layout))),
            r is Err ==> (r->Err_0.kind == ErrorKind::SizeLimitExceeded
                || r->Err_0.kind == ErrorKind::InternalError),
    {
        proof {
            assert((w as int) * (h as int) <= 0xffff_ffff * 0xffff_ffff) by (nonlinear_arith)
                requires
                    w <= 0xffff_ffffu32,
                    h <= 0xffff_ffffu32,
            ;
        }
        match max_frame_size {
            Option::Some(limit) => {
                if w > limit.w || h > limit.h {
                    return Err(FlowError::new(ErrorKind::SizeLimitExceeded, String::new()));
                }
                let pixels: u64 = (w as u64) * (h as u64);
                if pixels > limit.max_pixels {
                    return Err(FlowError::new(ErrorKind::SizeLimitExceeded, String::new()));
                }
            }
            Option::None => {}
        }
        let bpp: usize = layout.bytes_per_pixel();
        proof {
            assert((w as int) * (bpp as int) <= 0xffff_ffff * 4) by (nonlinear_arith)
                requires
                    w <= 0xffff_ffffu32,
                    bpp <= 4,
            ;
            assert((w as int) * (bpp as int) * (h as int) <= 0xffff_ffff * 4 * 0xffff_ffff)
                by (nonlinear_arith)
                requires
                    w <= 0xffff_ffffu32,
                    h <= 0xffff_ffffu32,
                    bpp <= 4,
            ;
            assert(((w as int) * (bpp as int)) * (h as int) == (w as int) * (h as int) * (bpp as int))
                by (nonlinear_arith);
        }
        let row_bytes: u128 = (w as u128) * (bpp as u128);
        let total: u128 = row_bytes * (h as u128);
        if row_bytes > usize::MAX as u128 || total > usize::MAX as u128 {
            return Err(FlowError::new(ErrorKind::SizeLimitExceeded, String::new()));
        }
        if self.next_key == u32::MAX {
            return Err(FlowError::new(ErrorKind::InternalError, String::new()));
        }
        let stride: usize = (w as usize) * bpp;
        proof {
            assert((h as int) * (stride as int) == (stride as int) * (h as int))
                by (nonlinear_arith);
        }
        let len: usize = stride * (h as usize);
        let data: Vec<u8> = zero_vec(len);
        let bitmap = Bitmap {
            width: w,
            height: h,
            stride,
            layout,
            color_space,
            compositing,
            alpha_meaningful,
            data,
        };
        let key_value = self.next_key;
        let ghost prev = *self;
        self.slots.push(BitmapSlot { key: key_value, bitmap: Some(bitmap) });
        self.next_key = self.next_key + 1;
        proof {
            let n = prev.slots@.len() as int;
            let key = BitmapKey { value: key_value };
            assert(self.slots@[n].key == key.value);
            assert(self.slots@[n].bitmap is Some);
            assert(self.slots@[n].bitmap->0.wf());
            assert forall|j: int| 0 <= j < self.slots@.len() implies
                (#[trigger] self.slots@[j].key) < self.next_key by {
                if j < n {
                    assert(self.slots@[j] == prev.slots@[j]);
                }
            }
            assert forall|a: int, b: int| 0 <= a < b < self.slots@.len() implies
                (#[trigger] self.slots@[a].key) < (#[trigger] self.slots@[b].key) by {
                if b < n {
                    assert(self.slots@[a] == prev.slots@[a]);
                    assert(self.slots@[b] == prev.slots@[b]);
                } else {
                    assert(self.slots@[a] == prev.slots@[a]);
                    assert(prev.slots@[a].key < prev.next_key);
                }
            }
            assert forall|j: int| 0 <= j < self.slots@.len() implies
                ((#[trigger] self.slots@[j].bitmap) is Some ==> self.slots@[j].bitmap->0.wf()) by {
                if j < n {
                    assert(self.slots@[j] == prev.slots@[j]);
                }
            }
            assert(self.wf());
            self.lemma_slot_lookup(n);
            if prev.contains_key(key) {
                let j = choose|j: int| 0 <= j < prev.slots@.len()
                    && (#[trigger] prev.slots@[j].key) == key.value;
                assert(prev.slots@[j].key < prev.next_key);
                assert(false);
            }
            assert forall|k: BitmapKey|
                #![trigger self.contains_key(k)]
                #![trigger self.bitmap_of(k)]
                #![trigger self.is_borrowed(k)]
                k.value != key.value implies
                    self.contains_key(k) == prev.contains_key(k)
                        && self.bitmap_of(k) == prev.bitmap_of(k)
                        && (self.is_borrowed(k) == prev.is_borrowed(k)) by {
                lemma_push_other_keys(&prev, self, k);
            }
        }
        Ok(BitmapKey { value: key_value })
    }

    /// Checks the bitmap under `key` out as an exclusive window. Fails with
    /// `FailedBorrow`, changing nothing, while a prior window on the same key
    /// is live; fails with `InvalidArgument` for an unknown key.
    pub fn try_borrow_mut(&mut self, key: BitmapKey) -> (r: Result<BitmapWindowMut, FlowError>)
        requires
            old(self).wf(),
        ensures
            final(self).wf(),
            r is Ok <==> old(self).contains_key(key) && !old(self).is_borrowed(key),
            r is Ok ==> {
                let win = r->Ok_0;
                &&& win.key == key
                &&& Some(win.bitmap) == old(self).bitmap_of(key)
                &&& win.bitmap.wf()
                &&& final(self).contains_key(key)
                &&& final(self).is_borrowed(key)
                &&& final(self).bitmap_of(key) is None
                &&& final(self).spec_next_key() == old(self).spec_next_key()
                &&& final(self).slot_count() == old(self).slot_count()
                &&& forall|k: BitmapKey|
                    #![trigger final(self).contains_key(k)]
                    #![trigger final(self).bitmap_of(k)]
                    #![trigger final(self).is_borrowed(k)]
                    k.value != key.value ==>
                        final(self).contains_key(k) == old(self).contains_key(k)
                            && final(self).bitmap_of(k) == old(self).bitmap_of(k)
                            && (final(self).is_borrowed(k) == old(self).is_borrowed(k))
            },
            r is Err ==> *final(self) == *old(self),
            r is Err ==> (r->Err_0.kind == ErrorKind::FailedBorrow <==> old(self).is_borrowed(key)),
            r is Err ==> (r->Err_0.kind == ErrorKind::FailedBorrow
                || r->Err_0.kind == ErrorKind::InvalidArgument),
    {
        let ghost orig = *old(self);
        let mut i: usize = 0;
        while i < self.slots.len()
            invariant
                *self == orig,
                orig == *old(self),
                orig.wf(),
                i <= self.slots@.len(),
                forall|k: int| 0 <= k < i ==> (#[trigger] self.slots@[k].key) != key.value,
            decreases self.slots@.len() - i,
        {
            if self.slots[i].key == key.value {
                proof {
                    orig.lemma_slot_lookup(i as int);
                }
                if self.slots[i].bitmap.is_some() {
                    let slot = &mut self.slots[i];
                    let taken = slot.bitmap.take();
                    let bitmap = match taken {
                        Some(b) => b,
                        None => {
                            proof {
                                assert(false);
                            }
                            return Err(FlowError::new(ErrorKind::InternalError, String::new()));
                        }
                    };
                    proof {
                        assert(self.slots@.len() == orig.slots@.len());
                        assert(self.slots@[i as int].key == key.value);
                        assert(self.slots@[i as int].bitmap is None);
                        self.lemma_slot_lookup(i as int);
                        assert forall|k: BitmapKey|
                            #![trigger self.contains_key(k)]
                            #![trigger self.bitmap_of(k)]
                            #![trigger self.is_borrowed(k)]
                            k.value != key.value implies
                                self.contains_key(k) == orig.contains_key(k)
                                    && self.bitmap_of(k) == orig.bitmap_of(k)
                                    && (self.is_borrowed(k) == orig.is_borrowed(k)) by {
                            orig.lemma_update_other_keys(self, i as int, k);
                        }
                    }
                    return Ok(BitmapWindowMut { key, bitmap });
                } else {
                    return Err(FlowError::new(ErrorKind::FailedBorrow, String::new()));
                }
            }
            i = i + 1;
        }
        proof {
            if orig.contains_key(key) {
                let j = choose|j: int| 0 <= j < orig.slots@.len()
                    && (#[trigger] orig.slots@[j].key) == key.value;
                assert(false);
            }
        }
        Err(FlowError::new(ErrorKind::InvalidArgument, String::new()))
    }

    /// Returns a window to its slot, ending the exclusive borrow. Fails with
    /// `InvalidArgument`, changing nothing, if the window's key does not name
    /// a checked-out slot of this container.
    pub fn return_window(&mut self, window: BitmapWindowMut) -> (r: Result<(), FlowError>)
        requires
            old(self).wf(),
            window.bitmap.wf(),
        ensures
            final(self).wf(),
            r is Ok <==> old(self).is_borrowed(window.key),
            r is Ok ==> {
                &&& final(self).contains_key(window.key)
                &&& !final(self).is_borrowed(window.key)
                &&& final(self).bitmap_of(window.key) == Some(window.bitmap)
                &&& final(self).spec_next_key() == old(self).spec_next_key()
                &&& final(self).slot_count() == old(self).slot_count()
                &&& forall|k: BitmapKey|
                    #![trigger final(self).contains_key(k)]
                    #![trigger final(self).bitmap_of(k)]
                    #![trigger final(self).is_borrowed(k)]
                    k.value != window.key.value ==>
                        final(self).contains_key(k) == old(self).contains_key(k)
                            && final(self).bitmap_of(k) == old(self).bitmap_of(k)
                            && (final(self).is_borrowed(k) == old(self).is_borrowed(k))
            },
            r is Err ==> *final(self) == *old(self)
                && r->Err_0.kind == ErrorKind::InvalidArgument,
    {
        let key = window.key;
        let ghost orig = *old(self);
        let mut i: usize = 0;
        while i < self.slots.len()
            invariant
                *self == orig,
                orig == *old(self),
                orig.wf(),
                window.bitmap.wf(),
                key == window.key,
                i <= self.slots@.len(),
                forall|k: int| 0 <= k < i ==> (#[trigger] self.slots@[k].key) != key.value,
            decreases self.slots@.len() - i,
        {
            if self.slots[i].key == key.value {
                proof {
                    orig.lemma_slot_lookup(i as int);
                }
                if self.slots[i].bitmap.is_none() {
                    let slot = &mut self.slots[i];
                    slot.bitmap = Some(window.bitmap);
                    proof {
                        assert(self.slots@.len() == orig.slots@.len());
                        assert(self.slots@[i as int].key == key.value);
                        assert(self.slots@[i as int].bitmap == Some(window.bitmap));
                        orig.lemma_wf_after_update(self, i as int);
                        self.lemma_slot_lookup(i as int);
                        assert forall|k: BitmapKey|
                            #![trigger self.contains_key(k)]
                            #![trigger self.bitmap_of(k)]
                            #![trigger self.is_borrowed(k)]
                            k.value != key.value implies
                                self.contains_key(k) == orig.contains_key(k)
                                    && self.bitmap_of(k) == orig.bitmap_of(k)
                                    && (self.is_borrowed(k) == orig.is_borrowed(k)) by {
                            orig.lemma_update_other_keys(self, i as int, k);
                        }
                    }
                    return Ok(());
                } else {
                    return Err(FlowError::new(ErrorKind::InvalidArgument, String::new()));
                }
            }
            i = i + 1;
        }
        proof {
            if orig.is_borrowed(key) {
                let j = choose|j: int| 0 <= j < orig.slots@.len()
                    && (#[trigger] orig.slots@[j].key) == key.value
                    && orig.slots@[j].bitmap is None;
                assert(false);
            }
        }
        Err(FlowError::new(ErrorKind::InvalidArgument, String::new()))
    }

    /// Releases every bitmap. Fails with `FailedBorrow`, changing nothing, if
    /// any bitmap is currently checked out.
    pub fn clear(&mut self) -> (r: Result<(), FlowError>)
        requires
            old(self).wf(),
        ensures
            final(self).wf(),
            r is Ok <==> !(exists|i: int| 0 <= i < old(self).slot_count()
                && old(self).spec_slot_borrowed(i)),
            r is Ok ==> final(self).slot_count() == 0
                && final(self).spec_next_key() == old(self).spec_next_key(),
            r is Err ==> *final(self) == *old(self)
                && r->Err_0.kind == ErrorKind::FailedBorrow,
    {
        let ghost orig = *old(self);
        let mut i: usize = 0;
        while i < self.slots.len()
            invariant
                *self == orig,
                orig == *old(self),
                orig.wf(),
                i <= self.slots@.len(),
                forall|k: int| 0 <= k < i ==> !(#[trigger] orig.spec_slot_borrowed(k)),
            decreases self.slots@.len() - i,
        {
            if self.slots[i].bitmap.is_none() {
                proof {
                    assert(orig.spec_slot_borrowed(i as int));
                }
                return Err(FlowError::new(ErrorKind::FailedBorrow, String::new()));
            }
            i = i + 1;
        }
        self.slots.clear();
        Ok(())
    }
}

/// Pushing a slot with a fresh key leaves every other key's lookups unchanged.
proof fn lemma_push_other_keys(orig: &BitmapsContainer, upd: &BitmapsContainer, k: BitmapKey)
    requires
        orig.wf(),
        upd.slots@.len() == orig.slots@.len() + 1,
        forall|j: int| 0 <= j < orig.slots@.len() ==>
            #[trigger] upd.slots@[j] == orig.slots@[j],
        k.value != upd.slots@[orig.slots@.len() as int].key,
    ensures
        upd.contains_key(k) == orig.contains_key(k),
        upd.is_borrowed(k) == orig.is_borrowed(k),
        upd.bitmap_of(k) == orig.bitmap_of(k),
{
    let n = orig.slots@.len() as int;
    if orig.contains_key(k) {
        let j = choose|j: int| 0 <= j < orig.slots@.len()
            && (#[trigger] orig.slots@[j].key) == k.value;
        orig.lemma_slot_lookup(j);
        assert(upd.slots@[j].key == k.value);
        if orig.is_borrowed(k) {
            let jb = choose|jb: int| 0 <= jb < orig.slots@.len()
                && (#[trigger] orig.slots@[jb].key) == k.value && orig.slots@[jb].bitmap is None;
            assert(jb == j);
            assert(upd.slots@[j].bitmap is None);
        }
        if upd.is_borrowed(k) {
            let jb = choose|jb: int| 0 <= jb < upd.slots@.len()
                && (#[trigger] upd.slots@[jb].key) == k.value && upd.slots@[jb].bitmap is None;
            assert(jb != n);
            assert(orig.slots@[jb].key == k.value);
            assert(jb == j);
            assert(orig.slots@[j].bitmap is None);
        }
        if exists|js: int| 0 <= js < orig.slots@.len()
            && (#[trigger] orig.slots@[js].key) == k.value && orig.slots@[js].bitmap is Some {
            let js = choose|js: int| 0 <= js < orig.slots@.len()
                && (#[trigger] orig.slots@[js].key) == k.value && orig.slots@[js].bitmap is Some;
            assert(js == j);
            assert(orig.bitmap_of(k) == orig.slots@[j].bitmap);
            assert(upd.slots@[j].key == k.value && upd.slots@[j].bitmap is Some);
            let ju = choose|ju: int| 0 <= ju < upd.slots@.len()
                && (#[trigger] upd.slots@[ju].key) == k.value && upd.slots@[ju].bitmap is Some;
            assert(ju != n);
            assert(orig.slots@[ju].key == k.value);
            assert(ju == j);
            assert(upd.bitmap_of(k) == upd.slots@[j].bitmap);
        } else {
            assert(orig.bitmap_of(k) is None);
            if exists|ju: int| 0 <= ju < upd.slots@.len()
                && (#[trigger] upd.slots@[ju].key) == k.value && upd.slots@[ju].bitmap is Some {
                let ju = choose|ju: int| 0 <= ju < upd.slots@.len()
                    && (#[trigger] upd.slots@[ju].key) == k.value && upd.slots@[ju].bitmap is Some;
                assert(ju != n);
                assert(orig.slots@[ju].key == k.value && orig.slots@[ju].bitmap is Some);
                assert(false);
            }
            assert(upd.bitmap_of(k) is None);
        }
    } else {
        if upd.contains_key(k) {
            let j = choose|j: int| 0 <= j < upd.slots@.len()
                && (#[trigger] upd.slots@[j].key) == k.value;
            assert(j != n);
            assert(orig.slots@[j].key == k.value);
            assert(false);
        }
        assert(!orig.is_borrowed(k) && !upd.is_borrowed(k));
        assert(orig.bitmap_of(k) is None && upd.bitmap_of(k) is None);
    }
}

} // verus!
