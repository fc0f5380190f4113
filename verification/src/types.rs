use vstd::prelude::*;

verus! {

/// Pixel format a decode produces; the canonical in-memory layout is 32-bit BGRA.
#[derive(Clone, Copy, Debug, PartialEq, Eq, Structural)]
pub enum PixelFormat {
    Bgra32,
    Bgr24,
    Gray8,
}

/// Byte layout of one pixel row in a bitmap.
#[derive(Clone, Copy, Debug, PartialEq, Eq, Structural)]
pub enum PixelLayout {
    BGRA,
    BGR,
    Gray8,
}

impl PixelLayout {
    /// Bytes per pixel of this layout.
    pub open spec fn spec_bytes_per_pixel(self) -> nat {
        match self {
            PixelLayout::BGRA => 4,
            PixelLayout::BGR => 3,
            PixelLayout::Gray8 => 1,
        }
    }

    pub fn bytes_per_pixel(self) -> (n: usize)
        ensures
            n == self.spec_bytes_per_pixel(),
    {
        match self {
            PixelLayout::BGRA => 4,
            PixelLayout::BGR => 3,
            PixelLayout::Gray8 => 1,
        }
    }
}

/// Color space tag carried by a bitmap.
#[derive(Clone, Copy, Debug, PartialEq, Eq, Structural)]
pub enum ColorSpace {
    StandardRGB,
    LinearRGB,
}

/// Directive to downstream stages: replace the pixels already there, or blend onto them.
#[derive(Clone, Copy, Debug, PartialEq, Eq, Structural)]
pub enum BitmapCompositing {
    ReplaceSelf,
    BlendWithSelf,
}

/// Metadata about one image, as reported by a decoder before any pixels are read.
#[derive(Debug, Clone)]
pub struct ImageInfo {
    pub frame_decodes_into: PixelFormat,
    pub image_width: i32,
    pub image_height: i32,
    pub preferred_mime_type: String,
    pub preferred_extension: String,
}

/// Summary of one registered input, as enumerated for a job result.
#[derive(Debug, Clone)]
pub struct DecodeResult {
    pub io_id: i32,
    pub preferred_mime_type: String,
    pub preferred_extension: String,
    pub w: i32,
    pub h: i32,
}

/// Summary of one encoded output.
#[derive(Debug, Clone)]
pub struct EncodeResult {
    pub io_id: i32,
    pub preferred_mime_type: String,
    pub preferred_extension: String,
    pub w: i32,
    pub h: i32,
    pub bytes_written: usize,
}

/// A cap on the size of one frame: maximum width, maximum height, and the
/// maximum total pixel count (one megapixel is one million pixels here).
#[derive(Clone, Copy, Debug, PartialEq, Eq, Structural)]
pub struct FrameSizeLimit {
    pub w: u32,
    pub h: u32,
    pub max_pixels: u64,
}

/// The per-job security policy: optional caps applied before decode, before
/// intermediate frame allocation, and before encode.
#[derive(Clone, Copy, Debug, PartialEq, Eq, Structural)]
pub struct ExecutionSecurity {
    pub max_decode_size: Option<FrameSizeLimit>,
    pub max_frame_size: Option<FrameSizeLimit>,
    pub max_encode_size: Option<FrameSizeLimit>,
}

/// Graph-recording mode for a job: which debugging artifacts to record.
#[derive(Clone, Copy, Debug, PartialEq, Eq, Structural)]
pub struct Build001GraphRecording {
    pub record_graph_versions: Option<bool>,
    pub record_frame_images: Option<bool>,
    pub render_last_graph: Option<bool>,
    pub render_graph_versions: Option<bool>,
    pub render_animated_graph: Option<bool>,
}

impl Build001GraphRecording {
    /// Recording switched off entirely.
    pub fn off() -> (r: Build001GraphRecording)
        ensures
            r == Build001GraphRecording::spec_off(),
    {
        Build001GraphRecording {
            record_graph_versions: Some(false),
            record_frame_images: Some(false),
            render_last_graph: Some(false),
            render_graph_versions: Some(false),
            render_animated_graph: Some(false),
        }
    }

    pub open spec fn spec_off() -> Build001GraphRecording {
        Build001GraphRecording {
            record_graph_versions: Some(false),
            record_frame_images: Some(false),
            render_last_graph: Some(false),
            render_graph_versions: Some(false),
            render_animated_graph: Some(false),
        }
    }
}

/// A command forwarded to a decoder; decoders ignore commands they do not know.
#[derive(Clone, Copy, Debug, PartialEq, Eq, Structural)]
pub enum DecoderCommand {
    JpegDownscaleHints { width: i64, height: i64, scale_luma_spatially: bool },
    WebPDecoderHints { width: i32, height: i32 },
}

} // verus!
