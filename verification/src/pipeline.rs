//! The capture pipeline: convert the stored logical rectangle to
//! physical pixels, clamp it to the captured frame, crop the frame,
//! derive the output filename, and encode the result as a JPEG.
//!
//! Everything here is a pure function of the frame, the configuration
//! and the clock instant it is handed; grabbing the frame and writing
//! the file stay with the caller.

use vstd::prelude::*;
use crate::config::Config;
use crate::geometry::PhysRect;
use crate::geometry::spec_to_physical;
use crate::geometry::to_physical;
use crate::numbers::fixed_digits;
use crate::numbers::push_fixed;
use crate::schedule::ClockTime;

verus! {

/// A full-frame raster: RGBA bytes, four per pixel, rows top to bottom.
pub struct Raster {
    pub pixels: Vec<u8>,
    pub width: u32,
    pub height: u32,
}

impl Raster {
    pub open spec fn wf(self) -> bool {
        self.pixels@.len() == self.width * self.height * 4
    }
}

/// A crop window that lies entirely inside a frame.
#[derive(Debug, Clone, Copy, PartialEq, Eq)]
pub struct CropRect {
    pub x: u32,
    pub y: u32,
    pub width: u32,
    pub height: u32,
}

pub open spec fn clamp_coord(v: int, hi: int) -> int {
    if v < 0 {
        0
    } else if v > hi {
        hi
    } else {
        v
    }
}

/// The intersection of a physical rectangle with the frame
/// `[0, fw) x [0, fh)`: clamp-and-crop, possibly empty.
pub open spec fn spec_clamp_to_frame(p: PhysRect, fw: u32, fh: u32) -> CropRect {
    let x0 = clamp_coord(p.x as int, fw as int);
    let y0 = clamp_coord(p.y as int, fh as int);
    let x1 = clamp_coord(p.x + p.width, fw as int);
    let y1 = clamp_coord(p.y + p.height, fh as int);
    CropRect {
        x: x0 as u32,
        y: y0 as u32,
        width: (x1 - x0) as u32,
        height: (y1 - y0) as u32,
    }
}

/// The clamped window holds exactly the pixels that lie both in the
/// physical rectangle and in the frame.
pub proof fn lemma_clamp_is_intersection(p: PhysRect, fw: u32, fh: u32, i: int, j: int)
    ensures
        ({
            let c = spec_clamp_to_frame(p, fw, fh);
            (c.x <= i < c.x + c.width && c.y <= j < c.y + c.height) <==> (p.x <= i < p.x + p.width
                && p.y <= j < p.y + p.height && 0 <= i < fw && 0 <= j < fh)
        }),
{
}

/// Clamp a physical rectangle to the frame bounds.
pub fn clamp_to_frame(p: &PhysRect, fw: u32, fh: u32) -> (c: CropRect)
    ensures
        c == spec_clamp_to_frame(*p, fw, fh),
        c.x + c.width <= fw,
        c.y + c.height <= fh,
{
    let x0: u32 = if p.x < 0 {
        0
    } else if p.x > fw as i64 {
        fw
    } else {
        p.x as u32
    };
    let y0: u32 = if p.y < 0 {
        0
    } else if p.y > fh as i64 {
        fh
    } else {
        p.y as u32
    };
    let xe: i128 = p.x as i128 + p.width as i128;
    let ye: i128 = p.y as i128 + p.height as i128;
    let x1: u32 = if xe < 0 {
        0
    } else if xe > fw as i128 {
        fw
    } else {
        xe as u32
    };
    let y1: u32 = if ye < 0 {
        0
    } else if ye > fh as i128 {
        fh
    } else {
        ye as u32
    };
    CropRect { x: x0, y: y0, width: x1 - x0, height: y1 - y0 }
}

/// The byte of the frame that position `i` of the cropped raster comes
/// from: position `i` names byte `i % 4` of the pixel at column
/// `(i / 4) % width` and row `(i / 4) / width` of the window.
pub open spec fn crop_src_index(fw: int, c: CropRect, i: int) -> int {
    ((c.y + (i / 4) / (c.width as int)) * fw + c.x + (i / 4) % (c.width as int)) * 4 + i % 4
}

/// The cropped raster: row-major RGBA bytes of the window `c` of a frame
/// that is `fw` pixels wide.
pub open spec fn spec_crop(pixels: Seq<u8>, fw: int, c: CropRect) -> Seq<u8> {
    Seq::new((c.width * c.height * 4) as nat, |i: int| pixels[crop_src_index(fw, c, i)])
}

/// Copy the window `c` out of a full frame.
#[verifier::loop_isolation(false)]
pub fn crop_raster(frame: &Raster, c: &CropRect) -> (out: Vec<u8>)
    requires
        frame.wf(),
        c.x + c.width <= frame.width,
        c.y + c.height <= frame.height,
    ensures
        out@ == spec_crop(frame.pixels@, frame.width as int, *c),
{
    let fw = frame.width;
    let cw = c.width;
    let ch = c.height;
    let plen = frame.pixels.len();
    let mut out: Vec<u8> = Vec::new();
    let mut row: u32 = 0;
    while row < ch
        invariant
            out@.len() == row * cw * 4,
            row <= ch,
            forall|i: int| 0 <= i < out@.len() ==> out@[i] == frame.pixels@[crop_src_index(
                fw as int,
                *c,
                i,
            )],
        decreases ch - row,
    {
        let mut col: u32 = 0;
        while col < cw
            invariant
                col <= cw,
                row < ch,
                out@.len() == (row * cw + col) * 4,
                forall|i: int| 0 <= i < out@.len() ==> out@[i] == frame.pixels@[crop_src_index(
                    fw as int,
                    *c,
                    i,
                )],
            decreases cw - col,
        {
            proof {
                assert((row * cw + col) * 4 + 4 == (row * cw + (col + 1)) * 4) by (nonlinear_arith);
                assert(((c.y + row) as int) < (frame.height as int));
                assert(((c.x + col) as int) < (fw as int));
                assert((((c.y + row) as int) * (fw as int) + ((c.x + col) as int)) * 4 + 3 < ((
                fw as int) * (frame.height as int)) * 4) by (nonlinear_arith)
                    requires
                        ((c.y + row) as int) < (frame.height as int),
                        ((c.x + col) as int) < (fw as int),
                        0 <= c.y,
                        0 <= c.x,
                ;
                assert((fw as int) * (frame.height as int) * 4 == plen as int);
            }
            let yy: u64 = c.y as u64 + row as u64;
            let xx: u64 = c.x as u64 + col as u64;
            proof {
                assert((yy as int) * (fw as int) + (xx as int) <= 0xffff_ffff_ffff_ffff)
                    by (nonlinear_arith)
                    requires
                        yy <= 0xffff_ffffu64,
                        xx <= 0xffff_ffffu64,
                        fw <= 0xffff_ffffu32,
                ;
            }
            let src_pixel: u64 = yy * fw as u64 + xx;
            let src: u64 = src_pixel * 4;
            let b0 = frame.pixels[src as usize];
            let b1 = frame.pixels[(src + 1) as usize];
            let b2 = frame.pixels[(src + 2) as usize];
            let b3 = frame.pixels[(src + 3) as usize];
            out.push(b0);
            out.push(b1);
            out.push(b2);
            out.push(b3);
            proof {
                let pix = row as int * cw as int + col as int;
                let base = pix * 4;
                vstd::arithmetic::div_mod::lemma_fundamental_div_mod_converse(
                    pix,
                    cw as int,
                    row as int,
                    col as int,
                );
                vstd::arithmetic::div_mod::lemma_fundamental_div_mod_converse(base + 0, 4, pix, 0);
                vstd::arithmetic::div_mod::lemma_fundamental_div_mod_converse(base + 1, 4, pix, 1);
                vstd::arithmetic::div_mod::lemma_fundamental_div_mod_converse(base + 2, 4, pix, 2);
                vstd::arithmetic::div_mod::lemma_fundamental_div_mod_converse(base + 3, 4, pix, 3);
                assert(out@[base + 0] == frame.pixels@[crop_src_index(fw as int, *c, base + 0)]);
                assert(out@[base + 1] == frame.pixels@[crop_src_index(fw as int, *c, base + 1)]);
                assert(out@[base + 2] == frame.pixels@[crop_src_index(fw as int, *c, base + 2)]);
                assert(out@[base + 3] == frame.pixels@[crop_src_index(fw as int, *c, base + 3)]);
            }
            col += 1;
        }
        proof {
            assert((row * cw + cw) * 4 == (row + 1) * cw * 4) by (nonlinear_arith);
        }
        row += 1;
    }
    proof {
        assert((ch as int) * (cw as int) * 4 == ((cw as int) * (ch as int)) * 4)
            by (nonlinear_arith);
        assert(out@ =~= spec_crop(frame.pixels@, frame.width as int, *c));
    }
    out
}

pub open spec fn clamp_year(y: int) -> int {
    if y < 0 {
        0
    } else if y > 9999 {
        9999
    } else {
        y
    }
}

/// The timestamp part of an output filename: `YYYYMMDD_HHMMSS`, unique
/// to one-second granularity.
pub open spec fn spec_timestamp(t: ClockTime) -> Seq<char> {
    fixed_digits(clamp_year(t.year as int) as nat, 4) + fixed_digits(t.month as nat, 2)
        + fixed_digits(t.day as nat, 2) + seq!['_'] + fixed_digits(t.hour as nat, 2)
        + fixed_digits(t.minute as nat, 2) + fixed_digits(t.second as nat, 2)
}

pub open spec fn default_prefix() -> Seq<char> {
    seq!['c', 'a', 'p', 't', 'u', 'r', 'e']
}

/// The output filename: the configured prefix when one is set and
/// nonempty, the fixed default otherwise, then the timestamp, then the
/// extension.
pub open spec fn spec_filename(base: Option<Seq<char>>, t: ClockTime) -> Seq<char> {
    (match base {
        Some(b) => if b.len() > 0 {
            b
        } else {
            default_prefix()
        },
        None => default_prefix(),
    }) + seq!['_'] + spec_timestamp(t) + seq!['.', 'j', 'p', 'g']
}

fn push_chars(out: &mut Vec<char>, s: &Vec<char>)
    ensures
        final(out)@ == old(out)@ + s@,
{
    let n = s.len();
    let mut t: usize = 0;
    while t < n
        invariant
            n == s@.len(),
            t <= n,
            out@ == old(out)@ + s@.subrange(0, t as int),
        decreases n - t,
    {
        out.push(s[t]);
        proof {
            assert(s@.subrange(0, t + 1) =~= s@.subrange(0, t as int).push(s@[t as int]));
            assert(out@ =~= old(out)@ + s@.subrange(0, t + 1));
        }
        t += 1;
    }
    proof {
        assert(s@.subrange(0, n as int) =~= s@);
    }
}

/// Derive the output filename for a capture taken at instant `t`.
pub fn filename_for(base: &Option<Vec<char>>, t: &ClockTime) -> (out: Vec<char>)
    requires
        t.wf(),
    ensures
        out@ == spec_filename(
            match *base {
                Some(b) => Some(b@),
                None => None,
            },
            *t,
        ),
{
    let mut out: Vec<char> = Vec::new();
    let mut use_default = true;
    match base {
        Some(b) => {
            if b.len() > 0 {
                push_chars(&mut out, b);
                use_default = false;
            }
        },
        None => {},
    }
    if use_default {
        out.push('c');
        out.push('a');
        out.push('p');
        out.push('t');
        out.push('u');
        out.push('r');
        out.push('e');
        proof {
            assert(out@ =~= (match *base {
                Some(b) => if b@.len() > 0 {
                    b@
                } else {
                    default_prefix()
                },
                None => default_prefix(),
            }));
        }
    }
    out.push('_');
    let year: u64 = if t.year < 0 {
        0
    } else if t.year > 9999 {
        9999
    } else {
        t.year as u64
    };
    push_fixed(&mut out, year, 4);
    push_fixed(&mut out, t.month as u64, 2);
    push_fixed(&mut out, t.day as u64, 2);
    out.push('_');
    push_fixed(&mut out, t.hour as u64, 2);
    push_fixed(&mut out, t.minute as u64, 2);
    push_fixed(&mut out, t.second as u64, 2);
    out.push('.');
    out.push('j');
    out.push('p');
    out.push('g');
    proof {
        assert(out@ =~= spec_filename(
            match *base {
                Some(b) => Some(b@),
                None => None,
            },
            *t,
        ));
    }
    out
}

/// What the JPEG encoder produces for a raster: a function of the pixel
/// bytes and the dimensions alone.
pub uninterp spec fn jpeg_bytes(pixels: Seq<u8>, width: int, height: int) -> Seq<u8>;

/// Relies on image::codecs::jpeg::JpegEncoder at quality 90, writing
/// into an in-memory buffer (the raster is assembled for it with
/// image::ImageBuffer::from_raw): the encoding depends only on the
/// pixel bytes and the dimensions, and it succeeds exactly when both
/// dimensions are between 1 and 65535, a `Vec<u8>` writer never
/// failing.
#[verifier::external_body]
fn encode_jpeg(pixels: Vec<u8>, width: u32, height: u32) -> (r: Option<Vec<u8>>)
    requires
        pixels@.len() == width * height * 4,
    ensures
        r is Some <==> (1 <= width <= 65535 && 1 <= height <= 65535),
        r matches Some(v) ==> v@ == jpeg_bytes(pixels@, width as int, height as int),
{
    let img: image::RgbaImage = match image::ImageBuffer::from_raw(width, height, pixels) {
        Some(i) => i,
        None => return None,
    };
    let mut out: Vec<u8> = Vec::new();
    let mut enc = image::codecs::jpeg::JpegEncoder::new_with_quality(&mut out, 90);
    match enc.encode_image(&img) {
        Ok(()) => Some(out),
        Err(_) => None,
    }
}

/// One finished capture: the filename to write and the encoded bytes.
pub struct CaptureOutput {
    pub filename: Vec<char>,
    pub bytes: Vec<u8>,
}

/// The whole compute side of one capture: convert the stored rectangle
/// to physical pixels, clamp it to the frame, crop, name and encode.
/// With no stored rectangle nothing is produced (a normal state, not a
/// failure); otherwise the capture succeeds exactly when the clamped
/// window's dimensions suit the encoder.
pub fn prepare_capture(config: &Config, frame: &Raster, t: &ClockTime) -> (r: Option<
    CaptureOutput,
>)
    requires
        frame.wf(),
        t.wf(),
    ensures
        match config.capture_area {
            None => r is None,
            Some(rect) => {
                let c = spec_clamp_to_frame(spec_to_physical(rect), frame.width, frame.height);
                &&& (r is Some <==> (1 <= c.width <= 65535 && 1 <= c.height <= 65535))
                &&& match r {
                    Some(o) => o.filename@ == spec_filename(config@.base_filename, *t)
                        && o.bytes@ == jpeg_bytes(
                        spec_crop(frame.pixels@, frame.width as int, c),
                        c.width as int,
                        c.height as int,
                    ),
                    None => true,
                }
            },
        },
{
    match &config.capture_area {
        None => None,
        Some(rect) => {
            let p = to_physical(rect);
            let c = clamp_to_frame(&p, frame.width, frame.height);
            let cropped = crop_raster(frame, &c);
            match encode_jpeg(cropped, c.width, c.height) {
                Some(bytes) => Some(
                    CaptureOutput { filename: filename_for(&config.base_filename, t), bytes },
                ),
                None => None,
            }
        },
    }
}

} // verus!
