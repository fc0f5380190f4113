use vstd::prelude::*;
use crate::errors::{ErrorKind, FlowError};
use crate::image_png_decoder::spec_png_signature;

verus! {

/// What encoding w×h RGBA pixels as a PNG yields, when encoding succeeds.
/// The encoder is deterministic: the result is a function of its inputs alone.
pub uninterp spec fn png_encoding_of(width: u32, height: u32, rgba: Seq<u8>) -> Option<Seq<u8>>;

/// A BGRA pixel buffer reordered to RGBA: per pixel the red and blue bytes
/// swap places, green and alpha stay.
pub open spec fn spec_rgba_of_bgra(data: Seq<u8>) -> Seq<u8> {
    Seq::new(
        data.len(),
        |j: int|
            {
                let c = j % 4;
                if c == 0 {
                    data[j + 2]
                } else if c == 2 {
                    data[j - 2]
                } else {
                    data[j]
                }
            },
    )
}

/// Reorders a BGRA pixel buffer to RGBA.
pub fn rgba_of_bgra(data: &Vec<u8>) -> (out: Vec<u8>)
    requires
        data@.len() % 4 == 0,
    ensures
        out@ == spec_rgba_of_bgra(data@),
{
    let len: usize = data.len();
    let mut out: Vec<u8> = Vec::with_capacity(len);
    let mut base: usize = 0;
    while base < len
        invariant
            len == data@.len(),
            len % 4 == 0,
            base <= len,
            base % 4 == 0,
            out@.len() == base,
            forall|j: int| 0 <= j < base ==> out@[j] == spec_rgba_of_bgra(data@)[j],
        decreases len - base,
    {
        proof {
            assert(base + 4 <= len) by (nonlinear_arith)
                requires
                    base < len,
                    base % 4 == 0,
                    len % 4 == 0,
                    base >= 0,
                    len >= 0,
            ;
        }
        let ghost out_before = out@;
        out.push(data[base + 2]);
        out.push(data[base + 1]);
        out.push(data[base]);
        out.push(data[base + 3]);
        proof {
            let b = base as int;
            assert forall|j: int| 0 <= j < b + 4 implies
                out@[j] == spec_rgba_of_bgra(data@)[j] by {
                if j < b {
                    assert(out@[j] == out_before[j]);
                } else {
                    let c = j - b;
                    assert((b + c) % 4 == c) by (nonlinear_arith)
                        requires
                            b % 4 == 0,
                            0 <= c < 4,
                    ;
                }
            }
        }
        base = base + 4;
    }
    proof {
        assert(out@ =~= spec_rgba_of_bgra(data@));
    }
    out
}

/// Relies on png::Encoder with eight-bit RGBA color: writes the PNG signature
/// and header, then the compressed pixel data, into an in-memory buffer. The
/// signature is the first eight bytes of every successful encoding.
#[verifier::external_body]
pub fn png_encode_rgba(width: u32, height: u32, rgba: &Vec<u8>) -> (r: Result<Vec<u8>, FlowError>)
    ensures
        r is Ok <==> png_encoding_of(width, height, rgba@) is Some,
        r is Ok ==> r->Ok_0@ == png_encoding_of(width, height, rgba@)->0,
        r is Ok ==> r->Ok_0@.len() >= 8
            && r->Ok_0@.subrange(0, 8) == spec_png_signature(),
        r is Err ==> r->Err_0.kind == ErrorKind::ImageEncodingError,
{
    let mut out: Vec<u8> = Vec::new();
    let mut encoder = png::Encoder::new(&mut out, width, height);
    encoder.set_color(png::ColorType::Rgba);
    encoder.set_depth(png::BitDepth::Eight);
    let mut writer = match encoder.write_header() {
        Ok(w) => w,
        Err(e) => return Err(FlowError::new(ErrorKind::ImageEncodingError, format!("{}", e))),
    };
    if let Err(e) = writer.write_image_data(rgba.as_slice()) {
        return Err(FlowError::new(ErrorKind::ImageEncodingError, format!("{}", e)));
    }
    if let Err(e) = writer.finish() {
        return Err(FlowError::new(ErrorKind::ImageEncodingError, format!("{}", e)));
    }
    Ok(out)
}

} // verus!
