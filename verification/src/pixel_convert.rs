use vstd::prelude::*;

verus! {

/// The color types a PNG frame can carry, by the format's own codes.
#[derive(Clone, Copy, Debug, PartialEq, Eq, Structural)]
pub enum PngColorKind {
    Grayscale,
    Rgb,
    Indexed,
    GrayscaleAlpha,
    Rgba,
}

impl PngColorKind {
    /// The color type the given PNG color-type code names, if any.
    pub open spec fn spec_from_code(code: u8) -> Option<PngColorKind> {
        if code == 0 {
            Some(PngColorKind::Grayscale)
        } else if code == 2 {
            Some(PngColorKind::Rgb)
        } else if code == 3 {
            Some(PngColorKind::Indexed)
        } else if code == 4 {
            Some(PngColorKind::GrayscaleAlpha)
        } else if code == 6 {
            Some(PngColorKind::Rgba)
        } else {
            None
        }
    }

    pub fn from_code(code: u8) -> (r: Option<PngColorKind>)
        ensures
            r == PngColorKind::spec_from_code(code),
    {
        if code == 0 {
            Some(PngColorKind::Grayscale)
        } else if code == 2 {
            Some(PngColorKind::Rgb)
        } else if code == 3 {
            Some(PngColorKind::Indexed)
        } else if code == 4 {
            Some(PngColorKind::GrayscaleAlpha)
        } else if code == 6 {
            Some(PngColorKind::Rgba)
        } else {
            None
        }
    }

    /// Bytes per pixel of this color type at eight-bit depth.
    pub open spec fn spec_channels(self) -> nat {
        match self {
            PngColorKind::Grayscale => 1,
            PngColorKind::Rgb => 3,
            PngColorKind::Indexed => 1,
            PngColorKind::GrayscaleAlpha => 2,
            PngColorKind::Rgba => 4,
        }
    }

    pub fn channels(self) -> (n: usize)
        ensures
            n == self.spec_channels(),
    {
        match self {
            PngColorKind::Grayscale => 1,
            PngColorKind::Rgb => 3,
            PngColorKind::Indexed => 1,
            PngColorKind::GrayscaleAlpha => 2,
            PngColorKind::Rgba => 4,
        }
    }
}

/// One source row of `w` pixels converted to BGRA: per pixel, blue, green and
/// red bytes in that order, then alpha. Sources without an alpha channel get
/// alpha 255; gray sources repeat their value over blue, green and red.
/// (For the indexed type, which never reaches conversion, the row is zeros.)
pub open spec fn spec_bgra_row(color: PngColorKind, src: Seq<u8>, w: nat) -> Seq<u8> {
    Seq::new(
        4 * w,
        |j: int|
            {
                let p = j / 4;
                let c = j % 4;
                match color {
                    PngColorKind::Grayscale => if c == 3 { 255u8 } else { src[p] },
                    PngColorKind::Rgb => if c == 0 {
                        src[3 * p + 2]
                    } else if c == 1 {
                        src[3 * p + 1]
                    } else if c == 2 {
                        src[3 * p]
                    } else {
                        255u8
                    },
                    PngColorKind::Indexed => 0u8,
                    PngColorKind::GrayscaleAlpha => if c == 3 {
                        src[2 * p + 1]
                    } else {
                        src[2 * p]
                    },
                    PngColorKind::Rgba => if c == 0 {
                        src[4 * p + 2]
                    } else if c == 1 {
                        src[4 * p + 1]
                    } else if c == 2 {
                        src[4 * p]
                    } else {
                        src[4 * p + 3]
                    },
                }
            },
    )
}

/// A whole decoded frame converted to BGRA, row by row: row `r` of the result
/// is the conversion of the `w * channels` source bytes starting at `r`
/// times `line_size`.
pub open spec fn spec_bgra_frame(
    color: PngColorKind,
    data: Seq<u8>,
    w: nat,
    h: nat,
    line_size: int,
) -> Seq<u8> {
    Seq::new(
        h * (4 * w),
        |j: int|
            {
                let row = j / (4 * w as int);
                let col = j % (4 * w as int);
                spec_bgra_row(
                    color,
                    data.subrange(row * line_size, row * line_size + w * color.spec_channels()),
                    w,
                )[col]
            },
    )
}

/// Converts the row of `w` source pixels starting at `row_start` to BGRA.
pub fn convert_row_to_bgra(color: PngColorKind, data: &Vec<u8>, row_start: usize, w: u32) -> (out:
    Vec<u8>)
    requires
        color != PngColorKind::Indexed,
        row_start + w * color.spec_channels() <= data@.len(),
        4 * (w as int) <= usize::MAX,
    ensures
        out@.len() == 4 * w,
        out@ == spec_bgra_row(
            color,
            data@.subrange(row_start as int, row_start + w * color.spec_channels()),
            w as nat,
        ),
{
    let ghost src = data@.subrange(row_start as int, row_start + w * color.spec_channels());
    let data_len: usize = data.len();
    let ch: usize = color.channels();
    let mut out: Vec<u8> = Vec::with_capacity(4 * (w as usize));
    let mut p: usize = 0;
    while p < w as usize
        invariant
            color != PngColorKind::Indexed,
            p <= w,
            ch == color.spec_channels(),
            row_start + w * ch <= data@.len(),
            data@.len() <= usize::MAX,
            4 * (w as int) <= usize::MAX,
            src == data@.subrange(row_start as int, row_start + w * color.spec_channels()),
            out@.len() == 4 * p,
            forall|j: int| 0 <= j < 4 * p ==> out@[j] == spec_bgra_row(color, src, w as nat)[j],
        decreases w - p,
    {
        proof {
            let pp = p as int;
            let cc = ch as int;
            assert(pp * cc + cc <= (w as int) * cc) by (nonlinear_arith)
                requires
                    pp < w as int,
                    cc >= 0,
            ;
            assert(src.len() == w * ch);
        }
        let base: usize = row_start + p * ch;
        let ghost out_before = out@;
        match color {
            PngColorKind::Grayscale => {
                let v = data[base];
                out.push(v);
                out.push(v);
                out.push(v);
                out.push(255);
            }
            PngColorKind::Rgb => {
                let red = data[base];
                let green = data[base + 1];
                let blue = data[base + 2];
                out.push(blue);
                out.push(green);
                out.push(red);
                out.push(255);
            }
            PngColorKind::GrayscaleAlpha => {
                let v = data[base];
                let a = data[base + 1];
                out.push(v);
                out.push(v);
                out.push(v);
                out.push(a);
            }
            PngColorKind::Rgba => {
                let red = data[base];
                let green = data[base + 1];
                let blue = data[base + 2];
                let a = data[base + 3];
                out.push(blue);
                out.push(green);
                out.push(red);
                out.push(a);
            }
            PngColorKind::Indexed => {
                proof {
                    assert(false);
                }
            }
        }
        proof {
            let pp = p as int;
            assert(out@.len() == 4 * pp + 4);
            assert forall|j: int| 0 <= j < 4 * (pp + 1) implies
                out@[j] == spec_bgra_row(color, src, w as nat)[j] by {
                if j < 4 * pp {
                    assert(out@[j] == out_before[j]);
                } else {
                    let c = j - 4 * pp;
                    vstd::arithmetic::div_mod::lemma_fundamental_div_mod_converse(j, 4, pp, c);
                    assert(j / 4 == pp && j % 4 == c);
                }
            }
        }
        p = p + 1;
    }
    proof {
        assert(out@ =~= spec_bgra_row(color, src, w as nat));
    }
    out
}

/// In every converted frame the alpha byte of each pixel is 255 for the
/// source types without an alpha channel (gray and RGB), and the source's own
/// alpha byte for those with one (gray-alpha and RGBA).
pub proof fn lemma_bgra_frame_alpha(
    color: PngColorKind,
    data: Seq<u8>,
    w: nat,
    h: nat,
    line_size: int,
    x: int,
    y: int,
)
    requires
        0 <= x < w,
        0 <= y < h,
    ensures
        ({
            let alpha = spec_bgra_frame(color, data, w, h, line_size)[y * (4 * w) + 4 * x + 3];
            let src = data.subrange(y * line_size, y * line_size + w * color.spec_channels());
            &&& ((color == PngColorKind::Rgb || color == PngColorKind::Grayscale)
                ==> alpha == 255u8)
            &&& (color == PngColorKind::Rgba ==> alpha == src[4 * x + 3])
            &&& (color == PngColorKind::GrayscaleAlpha ==> alpha == src[2 * x + 1])
        }),
{
    let width4 = 4 * w as int;
    let j = y * width4 + 4 * x + 3;
    assert(0 <= 4 * x + 3 < width4) by (nonlinear_arith)
        requires
            0 <= x < w,
            width4 == 4 * w,
    ;
    vstd::arithmetic::div_mod::lemma_fundamental_div_mod_converse(j, width4, y, 4 * x + 3);
    assert(j / width4 == y && j % width4 == 4 * x + 3);
    assert((y + 1) * width4 == y * width4 + width4) by (nonlinear_arith);
    assert((y + 1) * width4 <= h * width4) by (nonlinear_arith)
        requires
            y + 1 <= h,
            width4 >= 0,
    ;
    assert(0 <= j < h * (4 * w));
    let src = data.subrange(y * line_size, y * line_size + w * color.spec_channels());
    lemma_bgra_row_alpha(color, src, w, x);
}

/// The alpha byte of each converted pixel: 255 for the source types without
/// an alpha channel, the source's own alpha for those with one.
pub proof fn lemma_bgra_row_alpha(color: PngColorKind, src: Seq<u8>, w: nat, p: int)
    requires
        0 <= p < w,
    ensures
        (color == PngColorKind::Rgb || color == PngColorKind::Grayscale) ==>
            spec_bgra_row(color, src, w)[4 * p + 3] == 255u8,
        color == PngColorKind::Rgba ==> spec_bgra_row(color, src, w)[4 * p + 3] == src[4 * p + 3],
        color == PngColorKind::GrayscaleAlpha ==>
            spec_bgra_row(color, src, w)[4 * p + 3] == src[2 * p + 1],
{
    vstd::arithmetic::div_mod::lemma_fundamental_div_mod_converse(4 * p + 3, 4, p, 3);
    assert(4 * p + 3 < 4 * w) by (nonlinear_arith)
        requires
            p < w,
    ;
}

} // verus!
