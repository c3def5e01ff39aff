//! Logical capture rectangles and their conversion to physical pixel
//! coordinates.
//!
//! A display's pixel density is carried as an integer number of
//! thousandths of physical pixels per logical point (`scale_milli`), so a
//! conventional scale factor of 1.0 is stored as 1000, 1.5 as 1500, and
//! so on. Each component converts as `round(logical * scale)`, rounding
//! half away from zero.

use vstd::prelude::*;

verus! {

/// A capture region: integer logical origin and size, plus the display's
/// pixel density in thousandths of physical pixels per logical point.
#[derive(Debug, Clone, Copy, PartialEq, Eq)]
pub struct Rect {
    pub x: i32,
    pub y: i32,
    pub width: u32,
    pub height: u32,
    pub scale_milli: u32,
}

impl Rect {
    /// A finalized region has a positive pixel density.
    pub open spec fn wf(self) -> bool {
        self.scale_milli > 0
    }
}

/// A capture region in physical pixel coordinates. Components are wide
/// enough that no conversion from a `Rect` can overflow them.
pub struct PhysRect {
    pub x: i64,
    pub y: i64,
    pub width: u64,
    pub height: u64,
}

/// `round(v * milli / 1000)`, rounding half away from zero: the physical
/// coordinate of logical coordinate `v` at pixel density `milli`
/// thousandths.
pub open spec fn round_scale(v: int, milli: int) -> int {
    if v >= 0 {
        (v * milli + 500) / 1000
    } else {
        -(((-v) * milli + 500) / 1000)
    }
}

/// The physical rectangle of `r`, componentwise.
pub open spec fn spec_to_physical(r: Rect) -> PhysRect {
    PhysRect {
        x: round_scale(r.x as int, r.scale_milli as int) as i64,
        y: round_scale(r.y as int, r.scale_milli as int) as i64,
        width: round_scale(r.width as int, r.scale_milli as int) as u64,
        height: round_scale(r.height as int, r.scale_milli as int) as u64,
    }
}

proof fn lemma_round_scale_bounds(v: int, milli: int)
    requires
        -0x8000_0000 <= v <= 0xffff_ffff,
        0 <= milli <= 0xffff_ffff,
    ensures
        -0x7fff_ffff_ffff_ffff <= round_scale(v, milli) <= 0x7fff_ffff_ffff_ffff,
        v >= 0 ==> 0 <= round_scale(v, milli),
{
    if v >= 0 {
        assert(v * milli <= 0xffff_ffff * 0xffff_ffff) by (nonlinear_arith)
            requires 0 <= v <= 0xffff_ffff && 0 <= milli <= 0xffff_ffff;
        assert(0 <= v * milli) by (nonlinear_arith)
            requires 0 <= v && 0 <= milli;
        assert(0 <= (v * milli + 500) / 1000 <= 0xffff_ffff * 0xffff_ffff);
    } else {
        assert((-v) * milli <= 0x8000_0000 * 0xffff_ffff) by (nonlinear_arith)
            requires 0 < -v <= 0x8000_0000 && 0 <= milli <= 0xffff_ffff;
        assert(0 <= (-v) * milli) by (nonlinear_arith)
            requires 0 < -v && 0 <= milli;
        assert(0 <= ((-v) * milli + 500) / 1000 <= 0x8000_0000 * 0xffff_ffff);
    }
}

/// Convert a logical rectangle to physical pixel coordinates:
/// `round(logical * scale)` applied componentwise. No clamping to screen
/// bounds happens here.
pub fn to_physical(r: &Rect) -> (p: PhysRect)
    ensures
        p == spec_to_physical(*r),
{
    proof {
        lemma_round_scale_bounds(r.x as int, r.scale_milli as int);
        lemma_round_scale_bounds(r.y as int, r.scale_milli as int);
        lemma_round_scale_bounds(r.width as int, r.scale_milli as int);
        lemma_round_scale_bounds(r.height as int, r.scale_milli as int);
    }
    let m: i128 = r.scale_milli as i128;
    let px: i64 = scale_signed(r.x, m);
    let py: i64 = scale_signed(r.y, m);
    let pw: u64 = scale_unsigned(r.width, m);
    let ph: u64 = scale_unsigned(r.height, m);
    PhysRect { x: px, y: py, width: pw, height: ph }
}

fn scale_signed(v: i32, m: i128) -> (r: i64)
    requires
        0 <= m <= 0xffff_ffff,
    ensures
        r == round_scale(v as int, m as int),
{
    proof {
        lemma_round_scale_bounds(v as int, m as int);
    }
    if v >= 0 {
        let t: i128 = v as i128 * m;
        assert(0 <= t <= 0xffff_ffff * 0xffff_ffff) by (nonlinear_arith)
            requires 0 <= v as i128 <= 0xffff_ffff && 0 <= m <= 0xffff_ffff && t == v as i128 * m;
        ((t + 500) / 1000) as i64
    } else {
        let neg: i128 = -(v as i128);
        let t: i128 = neg * m;
        assert(0 <= t <= 0x8000_0000 * 0xffff_ffff) by (nonlinear_arith)
            requires 0 < neg <= 0x8000_0000 && 0 <= m <= 0xffff_ffff && t == neg * m;
        (-((t + 500) / 1000)) as i64
    }
}

fn scale_unsigned(v: u32, m: i128) -> (r: u64)
    requires
        0 <= m <= 0xffff_ffff,
    ensures
        r == round_scale(v as int, m as int),
{
    proof {
        lemma_round_scale_bounds(v as int, m as int);
    }
    let t: i128 = v as i128 * m;
    assert(0 <= t <= 0xffff_ffff * 0xffff_ffff) by (nonlinear_arith)
        requires 0 <= v as i128 <= 0xffff_ffff && 0 <= m <= 0xffff_ffff && t == v as i128 * m;
    ((t + 500) / 1000) as u64
}

/// At unit pixel density (`scale_milli == 1000`) the conversion maps each
/// component to itself.
pub proof fn lemma_unit_scale_identity(v: int)
    requires
        -0x8000_0000 <= v <= 0xffff_ffff,
    ensures
        round_scale(v, 1000) == v,
{
    if v >= 0 {
        vstd::arithmetic::div_mod::lemma_fundamental_div_mod_converse(
            v * 1000 + 500, 1000, v, 500);
    } else {
        vstd::arithmetic::div_mod::lemma_fundamental_div_mod_converse(
            (-v) * 1000 + 500, 1000, -v, 500);
    }
}

/// Converting a rectangle of unit pixel density is idempotent: applying
/// the conversion to the already-converted components changes nothing.
/// (At other densities this fails in general; for instance the origin
/// component 10 at density 2000 converts to 20, which re-converts to 40.)
pub proof fn lemma_unit_scale_idempotent(v: int)
    requires
        -0x8000_0000 <= v <= 0xffff_ffff,
    ensures
        round_scale(round_scale(v, 1000), 1000) == round_scale(v, 1000),
{
    lemma_unit_scale_identity(v);
}

} // verus!
