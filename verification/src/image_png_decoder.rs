use vstd::prelude::*;
use crate::bitmaps::{BitmapKey, BitmapsContainer};
use crate::errors::{ErrorKind, FlowError};
use crate::io::IoProxy;
use crate::pixel_convert::{PngColorKind, convert_row_to_bgra, spec_bgra_frame, spec_bgra_row};
use crate::types::{
    BitmapCompositing, ColorSpace, FrameSizeLimit, ImageInfo, PixelFormat, PixelLayout,
};

verus! {

/// The eight magic bytes that open every PNG stream.
pub open spec fn spec_png_signature() -> Seq<u8> {
    seq![137u8, 80u8, 78u8, 71u8, 13u8, 10u8, 26u8, 10u8]
}

/// Whether the bytes begin with the PNG magic.
pub open spec fn spec_has_png_signature(bytes: Seq<u8>) -> bool {
    bytes.len() >= 8 && bytes.subrange(0, 8) == spec_png_signature()
}

/// Runtime test matching `spec_has_png_signature`.
pub fn has_png_signature(bytes: &Vec<u8>) -> (r: bool)
    ensures
        r == spec_has_png_signature(bytes@),
{
    if bytes.len() < 8 {
        return false;
    }
    let r = bytes[0] == 137 && bytes[1] == 80 && bytes[2] == 78 && bytes[3] == 71
        && bytes[4] == 13 && bytes[5] == 10 && bytes[6] == 26 && bytes[7] == 10;
    proof {
        if r {
            assert(bytes@.subrange(0, 8) =~= spec_png_signature());
        } else {
            if bytes@.subrange(0, 8) == spec_png_signature() {
                assert(bytes@[0] == spec_png_signature()[0]);
                assert(bytes@[1] == spec_png_signature()[1]);
                assert(bytes@[2] == spec_png_signature()[2]);
                assert(bytes@[3] == spec_png_signature()[3]);
                assert(bytes@[4] == spec_png_signature()[4]);
                assert(bytes@[5] == spec_png_signature()[5]);
                assert(bytes@[6] == spec_png_signature()[6]);
                assert(bytes@[7] == spec_png_signature()[7]);
            }
        }
    }
    r
}

/// The image dimensions that the PNG header of these bytes declares, when the
/// header parses. The header parse is a function of the bytes alone.
pub uninterp spec fn png_dimensions_of(bytes: Seq<u8>) -> Option<(u32, u32)>;

/// What decoding the first frame of these bytes yields, with every color type
/// normalized to 8-bit channels: the pixel buffer, the frame's width and
/// height, the byte count of one buffer row, the PNG color-type code, and the
/// bit depth. The decode is a function of the bytes alone.
pub uninterp spec fn png_frame_of(bytes: Seq<u8>) -> Option<(Seq<u8>, u32, u32, int, u8, u8)>;

/// One decoded PNG frame, as handed back by the decoder: the normalized pixel
/// buffer together with the shape the decoder reported for it.
pub struct PngFrame {
    pub data: Vec<u8>,
    pub width: u32,
    pub height: u32,
    pub line_size: usize,
    pub color_type: u8,
    pub bit_depth: u8,
}

/// Relies on png::Decoder::read_header_info: parses the PNG signature and
/// header of the byte stream and reports the declared width and height.
#[verifier::external_body]
fn png_read_header(bytes: &Vec<u8>) -> (r: Result<(u32, u32), FlowError>)
    ensures
        r is Ok <==> png_dimensions_of(bytes@) is Some,
        r is Ok ==> r->Ok_0 == png_dimensions_of(bytes@)->0,
        r is Err ==> r->Err_0.kind == ErrorKind::ImageDecodingError,
{
    let mut decoder = png::Decoder::new(std::io::Cursor::new(bytes.as_slice()));
    match decoder.read_header_info() {
        Ok(info) => Ok((info.width, info.height)),
        Err(e) => Err(FlowError::new(ErrorKind::ImageDecodingError, format!("{}", e))),
    }
}

/// Relies on png::Reader::next_frame with Transformations::normalize_to_color8:
/// decodes the first frame into a buffer of at least `height * line_size`
/// bytes, where `line_size` is `width` times the channel count of the reported
/// color type when the reported bit depth is eight, and the color-type code is
/// one of the five the PNG format defines.
#[verifier::external_body]
fn png_decode_frame(bytes: &Vec<u8>) -> (r: Result<PngFrame, FlowError>)
    ensures
        r is Ok <==> png_frame_of(bytes@) is Some,
        r is Ok ==> {
            let (d, w, h, ls, ct, bd) = png_frame_of(bytes@)->0;
            &&& r->Ok_0.data@ == d
            &&& r->Ok_0.width == w
            &&& r->Ok_0.height == h
            &&& r->Ok_0.line_size == ls
            &&& r->Ok_0.color_type == ct
            &&& r->Ok_0.bit_depth == bd
        },
        r is Ok ==> r->Ok_0.data@.len() >= r->Ok_0.height * r->Ok_0.line_size,
        r is Ok ==> (r->Ok_0.color_type == 0 || r->Ok_0.color_type == 2
            || r->Ok_0.color_type == 3 || r->Ok_0.color_type == 4 || r->Ok_0.color_type == 6),
        r is Ok ==> (r->Ok_0.bit_depth == 8
            && PngColorKind::spec_from_code(r->Ok_0.color_type) is Some ==>
                r->Ok_0.line_size == r->Ok_0.width
                    * PngColorKind::spec_from_code(r->Ok_0.color_type)->0.spec_channels()),
        r is Err ==> r->Err_0.kind == ErrorKind::ImageDecodingError,
{
    let err = |e: png::DecodingError| FlowError::new(ErrorKind::ImageDecodingError, format!("{}", e));
    let mut decoder = png::Decoder::new(std::io::Cursor::new(bytes.as_slice()));
    decoder.set_transformations(png::Transformations::normalize_to_color8());
    let mut reader = decoder.read_info().map_err(err)?;
    let size = reader.output_buffer_size()
        .ok_or_else(|| FlowError::new(ErrorKind::ImageDecodingError, String::new()))?;
    let mut data = vec![0u8; size];
    let info = reader.next_frame(&mut data).map_err(err)?;
    Ok(PngFrame { data, width: info.width, height: info.height, line_size: info.line_size,
        color_type: info.color_type as u8, bit_depth: info.bit_depth as u8 })
}

/// The PNG reference decoder: holds the full input byte stream and decodes it
/// on demand, normalizing every color type to the canonical 32-bit BGRA.
pub struct ImagePngDecoder {
    io_id: i32,
    bytes: Vec<u8>,
}

impl ImagePngDecoder {
    pub closed spec fn spec_io_id(&self) -> i32 {
        self.io_id
    }

    pub closed spec fn spec_bytes(&self) -> Seq<u8> {
        self.bytes@
    }

    /// Consumes an input proxy whose bytes open with the PNG magic, and reads
    /// the information header at once. `CodecNotFound` reports a stream that
    /// is not a PNG; `ImageDecodingError` a PNG whose header does not parse;
    /// `InternalError` a proxy that is not an input.
    pub fn create(io: IoProxy, io_id: i32) -> (r: Result<ImagePngDecoder, FlowError>)
        ensures
            r is Ok <==> io.input_bytes() is Some
                && spec_has_png_signature(io.input_bytes()->0)
                && png_dimensions_of(io.input_bytes()->0) is Some,
            r is Ok ==> r->Ok_0.spec_io_id() == io_id
                && r->Ok_0.spec_bytes() == io.input_bytes()->0,
            r is Err ==> (r->Err_0.kind == ErrorKind::CodecNotFound <==>
                io.input_bytes() is Some
                    && !spec_has_png_signature(io.input_bytes()->0)),
            r is Err ==> (r->Err_0.kind == ErrorKind::ImageDecodingError <==>
                io.input_bytes() is Some
                    && spec_has_png_signature(io.input_bytes()->0)
                    && png_dimensions_of(io.input_bytes()->0) is None),
            r is Err ==> (r->Err_0.kind == ErrorKind::CodecNotFound
                || r->Err_0.kind == ErrorKind::ImageDecodingError
                || r->Err_0.kind == ErrorKind::InternalError),
    {
        let bytes = match io.backing {
            crate::io::IoBacking::InputBuffer(b) => b,
            crate::io::IoBacking::OutputBuffer(_) => {
                return Err(FlowError::new(ErrorKind::InternalError,
                    "a decoder needs an input stream".to_string()));
            }
        };
        if !has_png_signature(&bytes) {
            return Err(FlowError::new(ErrorKind::CodecNotFound,
                "the stream does not open with the PNG signature".to_string()));
        }
        match png_read_header(&bytes) {
            Ok(_) => Ok(ImagePngDecoder { io_id, bytes }),
            Err(e) => Err(e),
        }
    }

    /// Construction already confirmed the signature and read the header;
    /// nothing is left to do.
    pub fn initialize(&self) -> (r: Result<(), FlowError>)
        ensures
            r is Ok,
    {
        Ok(())
    }

    /// Metadata from the PNG header, without decoding pixels. Dimensions that
    /// do not fit the metadata record are reported as a decoding error.
    pub fn get_unscaled_image_info(&self) -> (r: Result<ImageInfo, FlowError>)
        ensures
            r is Ok <==> png_dimensions_of(self.spec_bytes()) is Some
                && (png_dimensions_of(self.spec_bytes())->0).0 <= i32::MAX
                && (png_dimensions_of(self.spec_bytes())->0).1 <= i32::MAX,
            r is Ok ==> {
                let (w, h) = png_dimensions_of(self.spec_bytes())->0;
                &&& r->Ok_0.image_width == w as i32
                &&& r->Ok_0.image_height == h as i32
                &&& r->Ok_0.frame_decodes_into == PixelFormat::Bgra32
                &&& r->Ok_0.preferred_mime_type@ == "image/png"@
                &&& r->Ok_0.preferred_extension@ == "png"@
            },
            r is Err ==> r->Err_0.kind == ErrorKind::ImageDecodingError,
    {
        let (w, h) = match png_read_header(&self.bytes) {
            Ok(dims) => dims,
            Err(e) => return Err(e),
        };
        if w > i32::MAX as u32 || h > i32::MAX as u32 {
            return Err(FlowError::new(ErrorKind::ImageDecodingError,
                "image dimensions overflow the metadata record".to_string()));
        }
        Ok(ImageInfo {
            frame_decodes_into: PixelFormat::Bgra32,
            image_width: w as i32,
            image_height: h as i32,
            preferred_mime_type: String::from_str("image/png"),
            preferred_extension: String::from_str("png"),
        })
    }

    /// PNG has no scale-on-decode mode, so this equals the unscaled query.
    pub fn get_scaled_image_info(&self) -> (r: Result<ImageInfo, FlowError>)
        ensures
            r is Ok <==> png_dimensions_of(self.spec_bytes()) is Some
                && (png_dimensions_of(self.spec_bytes())->0).0 <= i32::MAX
                && (png_dimensions_of(self.spec_bytes())->0).1 <= i32::MAX,
            r is Ok ==> {
                let (w, h) = png_dimensions_of(self.spec_bytes())->0;
                &&& r->Ok_0.image_width == w as i32
                &&& r->Ok_0.image_height == h as i32
                &&& r->Ok_0.frame_decodes_into == PixelFormat::Bgra32
                &&& r->Ok_0.preferred_mime_type@ == "image/png"@
                &&& r->Ok_0.preferred_extension@ == "png"@
            },
            r is Err ==> r->Err_0.kind == ErrorKind::ImageDecodingError,
    {
        self.get_unscaled_image_info()
    }

    /// PNG carries no EXIF orientation.
    pub fn get_exif_rotation_flag(&self) -> (r: Result<Option<i32>, FlowError>)
        ensures
            r is Ok,
            r->Ok_0 is None,
    {
        Ok(None)
    }

    /// The PNG decoder knows no commands; all are ignored.
    pub fn tell_decoder(&self, _tell: crate::types::DecoderCommand) -> (r: Result<(), FlowError>)
        ensures
            r is Ok,
    {
        Ok(())
    }

    /// A still format: there is never a further frame.
    pub fn has_more_frames(&self) -> (r: Result<bool, FlowError>)
        ensures
            r is Ok,
            r->Ok_0 == false,
    {
        Ok(false)
    }

    /// Whether a frame decode of this stream gets as far as a parsed frame:
    /// the header parses, the bitmap fits the cap and the machine, a key was
    /// available, and the frame itself parses. What error comes out beyond
    /// this point is decided by the frame's own shape.
    pub open spec fn spec_frame_reached(
        &self,
        bitmaps: &BitmapsContainer,
        max_frame_size: Option<FrameSizeLimit>,
    ) -> bool {
        &&& png_dimensions_of(self.spec_bytes()) is Some
        &&& {
            let (w, h) = png_dimensions_of(self.spec_bytes())->0;
            crate::bitmaps::spec_fits_limit(max_frame_size, w, h)
                && crate::bitmaps::spec_fits_machine(w, h, PixelLayout::BGRA)
        }
        &&& bitmaps.spec_next_key() < u32::MAX
        &&& png_frame_of(self.spec_bytes()) is Some
    }

    /// Whether a frame decode of this stream succeeds, given the frame-size
    /// cap: the header parses, the bitmap fits the cap and the machine, the
    /// frame decodes at the declared size, with eight-bit channels and a
    /// non-indexed color type.
    pub open spec fn spec_read_frame_ok(
        &self,
        bitmaps: &BitmapsContainer,
        max_frame_size: Option<FrameSizeLimit>,
    ) -> bool {
        &&& png_dimensions_of(self.spec_bytes()) is Some
        &&& {
            let (w, h) = png_dimensions_of(self.spec_bytes())->0;
            &&& crate::bitmaps::spec_fits_limit(max_frame_size, w, h)
            &&& crate::bitmaps::spec_fits_machine(w, h, PixelLayout::BGRA)
            &&& bitmaps.spec_next_key() < u32::MAX
            &&& png_frame_of(self.spec_bytes()) is Some
            &&& {
                let (d, fw, fh, ls, ct, bd) = png_frame_of(self.spec_bytes())->0;
                &&& bd == 8
                &&& PngColorKind::spec_from_code(ct) is Some
                &&& PngColorKind::spec_from_code(ct)->0 != PngColorKind::Indexed
                &&& fw == w
                &&& fh == h
            }
        }
    }

    /// Decodes the next frame: allocates a bitmap of the declared width and
    /// height in BGRA layout (replace-self compositing, standard RGB), honors
    /// the frame-size cap before allocating, converts the decoded rows to
    /// BGRA, and returns the bitmap's key.
    pub fn read_frame(
        &self,
        bitmaps: &mut BitmapsContainer,
        max_frame_size: Option<FrameSizeLimit>,
    ) -> (r: Result<BitmapKey, FlowError>)
        requires
            old(bitmaps).wf(),
        ensures
            final(bitmaps).wf(),
            r is Ok <==> self.spec_read_frame_ok(old(bitmaps), max_frame_size),
            r is Ok ==> {
                let (w, h) = png_dimensions_of(self.spec_bytes())->0;
                let (d, fw, fh, ls, ct, bd) = png_frame_of(self.spec_bytes())->0;
                let key = r->Ok_0;
                let b = final(bitmaps).bitmap_of(key)->0;
                &&& !old(bitmaps).contains_key(key)
                &&& final(bitmaps).contains_key(key)
                &&& !final(bitmaps).is_borrowed(key)
                &&& final(bitmaps).bitmap_of(key) is Some
                &&& b.wf()
                &&& b.spec_width() == w
                &&& b.spec_height() == h
                &&& b.spec_layout() == PixelLayout::BGRA
                &&& b.spec_stride() == 4 * w
                &&& b.spec_color_space() == ColorSpace::StandardRGB
                &&& b.spec_compositing() == BitmapCompositing::ReplaceSelf
                &&& b.spec_data() == spec_bgra_frame(
                    PngColorKind::spec_from_code(ct)->0, d, w as nat, h as nat, ls,
                )
            },
            forall|k: BitmapKey|
                #![trigger final(bitmaps).contains_key(k)]
                #![trigger final(bitmaps).bitmap_of(k)]
                #![trigger final(bitmaps).is_borrowed(k)]
                old(bitmaps).contains_key(k) ==>
                    final(bitmaps).contains_key(k)
                        && final(bitmaps).bitmap_of(k) == old(bitmaps).bitmap_of(k)
                        && (final(bitmaps).is_borrowed(k) == old(bitmaps).is_borrowed(k)),
            r is Err ==> (r->Err_0.kind == ErrorKind::SizeLimitExceeded ==>
                *final(bitmaps) == *old(bitmaps)),
            r is Err ==> (r->Err_0.kind == ErrorKind::SizeLimitExceeded <==>
                png_dimensions_of(self.spec_bytes()) is Some
                    && !{
                        let (w, h) = png_dimensions_of(self.spec_bytes())->0;
                        crate::bitmaps::spec_fits_limit(max_frame_size, w, h)
                            && crate::bitmaps::spec_fits_machine(w, h, PixelLayout::BGRA)
                    }),
            r is Err ==> (png_dimensions_of(self.spec_bytes()) is None ==>
                r->Err_0.kind == ErrorKind::ImageDecodingError),
            r is Err ==> (self.spec_frame_reached(old(bitmaps), max_frame_size) ==> {
                let (d, fw, fh, ls, ct, bd) = png_frame_of(self.spec_bytes())->0;
                &&& (bd != 8 ==> r->Err_0.kind == ErrorKind::ImageDecodingError)
                &&& (bd == 8 && PngColorKind::spec_from_code(ct) == Some(PngColorKind::Indexed)
                    ==> r->Err_0.kind == ErrorKind::InternalError)
                &&& (bd == 8 && PngColorKind::spec_from_code(ct) is Some
                    && PngColorKind::spec_from_code(ct)->0 != PngColorKind::Indexed
                    && !(fw == (png_dimensions_of(self.spec_bytes())->0).0
                        && fh == (png_dimensions_of(self.spec_bytes())->0).1)
                    ==> r->Err_0.kind == ErrorKind::ImageDecodingError)
            }),
            r is Err ==> (png_dimensions_of(self.spec_bytes()) is Some
                && {
                    let (w, h) = png_dimensions_of(self.spec_bytes())->0;
                    crate::bitmaps::spec_fits_limit(max_frame_size, w, h)
                        && crate::bitmaps::spec_fits_machine(w, h, PixelLayout::BGRA)
                }
                && old(bitmaps).spec_next_key() < u32::MAX
                && png_frame_of(self.spec_bytes()) is None ==>
                    r->Err_0.kind == ErrorKind::ImageDecodingError),
            r is Err ==> (r->Err_0.kind == ErrorKind::SizeLimitExceeded
                || r->Err_0.kind == ErrorKind::ImageDecodingError
                || r->Err_0.kind == ErrorKind::InternalError),
    {
        let (w, h) = match png_read_header(&self.bytes) {
            Ok(dims) => dims,
            Err(e) => return Err(e),
        };
        let key = match bitmaps.create_bitmap_u8(
            w,
            h,
            PixelLayout::BGRA,
            false,
            true,
            ColorSpace::StandardRGB,
            BitmapCompositing::ReplaceSelf,
            max_frame_size,
        ) {
            Ok(k) => k,
            Err(e) => return Err(e),
        };
        let ghost created = *bitmaps;
        proof {
            assert forall|k: BitmapKey|
                #![trigger bitmaps.contains_key(k)]
                #![trigger bitmaps.bitmap_of(k)]
                #![trigger bitmaps.is_borrowed(k)]
                old(bitmaps).contains_key(k) implies
                    bitmaps.contains_key(k)
                        && bitmaps.bitmap_of(k) == old(bitmaps).bitmap_of(k)
                        && (bitmaps.is_borrowed(k) == old(bitmaps).is_borrowed(k)) by {
                if k.value == key.value {
                    assert(k == key);
                    assert(false);
                }
            }
        }
        let frame = match png_decode_frame(&self.bytes) {
            Ok(f) => f,
            Err(e) => return Err(e),
        };
        if frame.bit_depth != 8 {
            return Err(FlowError::new(ErrorKind::ImageDecodingError,
                "the decoder did not expand to 8-bit channels".to_string()));
        }
        let color = match PngColorKind::from_code(frame.color_type) {
            Some(c) => c,
            None => {
                return Err(FlowError::new(ErrorKind::ImageDecodingError,
                    "unknown color type".to_string()));
            }
        };
        if color == PngColorKind::Indexed {
            return Err(FlowError::new(ErrorKind::InternalError,
                "an indexed image was not expanded despite the transformation flags".to_string()));
        }
        if frame.width != w || frame.height != h {
            return Err(FlowError::new(ErrorKind::ImageDecodingError,
                "the frame does not cover the declared dimensions".to_string()));
        }
        let mut window = match bitmaps.try_borrow_mut(key) {
            Ok(win) => win,
            Err(e) => {
                proof {
                    assert(false);
                }
                return Err(e);
            }
        };
        let ghost borrowed_state = *bitmaps;
        let ghost color_g = color;
        let ghost fdata = frame.data@;
        let ghost ls = frame.line_size as int;
        let stride: usize = window.bitmap.stride();
        let line_size: usize = frame.line_size;
        let data_len: usize = frame.data.len();
        let mut row_ix: u32 = 0;
        proof {
            assert((h as int) * (4 * w as int) == (h as int) * (4 * (w as int)));
            assert(window.bitmap.spec_data().len() == h * (4 * (w as int)));
        }
        while row_ix < h
            invariant
                row_ix <= h,
                window.key == key,
                window.bitmap.wf(),
                window.bitmap.spec_width() == w,
                window.bitmap.spec_height() == h,
                window.bitmap.spec_stride() == 4 * w,
                window.bitmap.spec_layout() == PixelLayout::BGRA,
                window.bitmap.spec_color_space() == ColorSpace::StandardRGB,
                window.bitmap.spec_compositing() == BitmapCompositing::ReplaceSelf,
                window.bitmap.spec_alpha_meaningful() == false,
                window.bitmap.spec_data().len() == h * (4 * (w as int)),
                stride == 4 * w,
                line_size == ls,
                fdata == frame.data@,
                frame.width == w,
                frame.height == h,
                color == color_g,
                color != PngColorKind::Indexed,
                ls == w * color.spec_channels(),
                fdata.len() >= h * ls,
                fdata.len() <= usize::MAX,
                4 * (w as int) <= usize::MAX,
                forall|j: int| 0 <= j < row_ix * (4 * (w as int)) ==>
                    window.bitmap.spec_data()[j]
                        == spec_bgra_frame(color_g, fdata, w as nat, h as nat, ls)[j],
            decreases h - row_ix,
        {
            proof {
                let r = row_ix as int;
                assert(r * ls + ls <= (h as int) * ls) by (nonlinear_arith)
                    requires
                        r < h as int,
                        ls >= 0,
                ;
            }
            let row_start: usize = (row_ix as usize) * line_size;
            let out_row = convert_row_to_bgra(color, &frame.data, row_start, w);
            let ghost before_row = window.bitmap.spec_data();
            window.bitmap.set_row_bytes(row_ix, &out_row);
            proof {
                lemma_row_written(
                    color_g, fdata, w as nat, h as nat, ls,
                    row_ix as int, before_row, window.bitmap.spec_data(), out_row@,
                );
            }
            row_ix = row_ix + 1;
        }
        proof {
            assert(window.bitmap.spec_data()
                =~= spec_bgra_frame(color_g, fdata, w as nat, h as nat, ls));
        }
        let ghost finished_bitmap = window.bitmap;
        match bitmaps.return_window(window) {
            Ok(()) => {}
            Err(e) => {
                proof {
                    assert(false);
                }
                return Err(e);
            }
        }
        proof {
            assert forall|k: BitmapKey|
                #![trigger bitmaps.contains_key(k)]
                #![trigger bitmaps.bitmap_of(k)]
                #![trigger bitmaps.is_borrowed(k)]
                old(bitmaps).contains_key(k) implies
                    bitmaps.contains_key(k)
                        && bitmaps.bitmap_of(k) == old(bitmaps).bitmap_of(k)
                        && (bitmaps.is_borrowed(k) == old(bitmaps).is_borrowed(k)) by {
                if k.value == key.value {
                    assert(k == key);
                    assert(false);
                } else {
                    assert(created.contains_key(k) == old(bitmaps).contains_key(k));
                    assert(borrowed_state.contains_key(k) == created.contains_key(k));
                    assert(borrowed_state.bitmap_of(k) == created.bitmap_of(k));
                    assert(borrowed_state.is_borrowed(k) == created.is_borrowed(k));
                }
            }
        }
        Ok(key)
    }
}

/// After writing the converted row `row` over a buffer whose earlier rows
/// already match the converted frame, the rows up to and including `row`
/// match it.
proof fn lemma_row_written(
    color: PngColorKind,
    fdata: Seq<u8>,
    w: nat,
    h: nat,
    ls: int,
    row: int,
    before: Seq<u8>,
    after: Seq<u8>,
    row_bytes: Seq<u8>,
)
    requires
        color != PngColorKind::Indexed,
        0 <= row < h,
        ls == w * color.spec_channels(),
        fdata.len() >= h * ls,
        before.len() == h * (4 * w),
        after == crate::bitmaps::spec_splice(before, row * (4 * w), row_bytes),
        row_bytes == spec_bgra_row(
            color,
            fdata.subrange(row * ls, row * ls + w * color.spec_channels()),
            w,
        ),
        forall|j: int| 0 <= j < row * (4 * w) ==>
            before[j] == spec_bgra_frame(color, fdata, w, h, ls)[j],
    ensures
        after.len() == before.len(),
        forall|j: int| 0 <= j < (row + 1) * (4 * w) ==>
            after[j] == spec_bgra_frame(color, fdata, w, h, ls)[j],
{
    let width4 = 4 * w as int;
    let start = row * width4;
    assert(row_bytes.len() == width4);
    assert((row + 1) * width4 == row * width4 + width4) by (nonlinear_arith);
    assert(row * width4 + width4 <= h * width4) by (nonlinear_arith)
        requires
            row + 1 <= h,
            width4 >= 0,
    ;
    assert forall|j: int| 0 <= j < (row + 1) * width4 implies
        after[j] == spec_bgra_frame(color, fdata, w, h, ls)[j] by {
        if j < start {
            assert(after[j] == before[j]);
        } else {
            let col = j - start;
            assert(after[j] == row_bytes[col]);
            vstd::arithmetic::div_mod::lemma_fundamental_div_mod_converse(
                j, width4, row, col,
            );
            assert(j / width4 == row && j % width4 == col);
            assert(spec_bgra_frame(color, fdata, w, h, ls)[j]
                == spec_bgra_row(
                    color,
                    fdata.subrange(row * ls, row * ls + w * color.spec_channels()),
                    w,
                )[col]);
        }
    }
}

} // verus!
