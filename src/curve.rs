use vstd::prelude::*;

use crate::field::{
    fadd, fmul, fsub, inverse, mod_add, mod_inverse, mod_mul, mod_sub, AssignedInteger, IntegerChip,
};
use crate::Error;

verus! {

/// Bits of a scalar that a scalar multiplication walks through.
pub const SCALAR_BITS: u32 = 64;

/// Rows of the witness region that one point addition takes.
pub const ADD_ROWS: usize = 1;

/// Rows of the witness region that one assigned point takes.
pub const ASSIGN_POINT_ROWS: usize = 1;

/// Rows of the witness region that one scalar multiplication takes with the
/// smallest window.
pub const MUL_ROWS: usize = 128;

/// Rows of the witness region that one scalar multiplication takes with a
/// window of `window_size` bits: a doubling for each bit of the scalar and an
/// addition for each window, whatever the scalar's value.
pub open spec fn mul_rows(window_size: int) -> int {
    SCALAR_BITS + ((SCALAR_BITS - 1) / window_size + 1)
}

/// The rows that `mul_rows` names, on machine words.
pub fn mul_row_count(window_size: usize) -> (r: usize)
    requires
        window_size >= 1,
    ensures
        r == mul_rows(window_size as int),
        SCALAR_BITS < r <= MUL_ROWS,
{
    let windows: usize = (SCALAR_BITS as usize - 1) / window_size + 1;
    proof {
        vstd::arithmetic::div_mod::lemma_div_is_ordered_by_denominator(63, 1, window_size as int);
    }
    SCALAR_BITS as usize + windows
}

/// A point of the group of a curve `y^2 = x^3 + a*x + b`: the identity, or an
/// affine point.
#[derive(Clone, Copy, Debug, PartialEq, Eq, Structural)]
pub enum CurvePoint {
    Identity,
    Affine(u64, u64),
}

/// An affine point off-circuit.
#[derive(Clone, Copy, Debug, PartialEq, Eq, Structural)]
pub struct Point {
    pub x: u64,
    pub y: u64,
}

/// An affine point assigned to the witness region: two base-field elements.
#[derive(Clone, Copy, Debug, PartialEq, Eq, Structural)]
pub struct AssignedPoint {
    pub x: AssignedInteger,
    pub y: AssignedInteger,
}

impl AssignedPoint {
    pub open spec fn curve_point(&self) -> CurvePoint {
        CurvePoint::Affine(self.x.value, self.y.value)
    }

    /// The point of the group this assigned point is.
    pub fn to_curve_point(&self) -> (r: CurvePoint)
        ensures
            r == self.curve_point(),
    {
        CurvePoint::Affine(self.x.value, self.y.value)
    }

    /// The x-coordinate, a base-field element.
    pub fn get_x(&self) -> (r: AssignedInteger)
        ensures
            r == self.x,
    {
        self.x
    }
}

/// Whether `(x, y)` is a reduced point of `y^2 = x^3 + a*x + b` modulo `p`.
pub open spec fn on_curve(x: int, y: int, a: int, b: int, p: int) -> bool {
    &&& 0 <= x < p
    &&& 0 <= y < p
    &&& fmul(y, y, p) == fadd(fadd(fmul(fmul(x, x, p), x, p), fmul(a, x, p), p), b, p)
}

/// The third point on the line of slope `l` through `(x1, y1)` and a point of
/// x-coordinate `x2`, reflected: the sum in the chord-and-tangent law.
pub open spec fn chord(l: int, x1: int, y1: int, x2: int, p: int) -> CurvePoint {
    let x3 = fsub(fsub(fmul(l, l, p), x1, p), x2, p);
    let y3 = fsub(fmul(l, fsub(x1, x3, p), p), y1, p);
    CurvePoint::Affine(x3 as u64, y3 as u64)
}

/// The slope of the tangent at `(x1, y1)` on a curve with coefficient `a`,
/// where `d` is the inverse of `2 * y1`.
pub open spec fn tangent_slope(x1: int, a: int, d: int, p: int) -> int {
    fmul(fadd(fmul(3, fmul(x1, x1, p), p), a, p), d, p)
}

/// The group law of the curve with coefficient `a` modulo `p`, by the affine
/// chord-and-tangent formulas. `None` where a needed inverse does not exist.
pub open spec fn point_add_spec(pt: CurvePoint, qt: CurvePoint, a: int, p: int) -> Option<CurvePoint> {
    match pt {
        CurvePoint::Identity => Some(qt),
        CurvePoint::Affine(x1, y1) => match qt {
            CurvePoint::Identity => Some(pt),
            CurvePoint::Affine(x2, y2) => {
                if (x1 as int) % p == (x2 as int) % p {
                    if fadd(y1 as int, y2 as int, p) == 0 {
                        Some(CurvePoint::Identity)
                    } else {
                        match inverse(fadd(y1 as int, y1 as int, p), p) {
                            None => None,
                            Some(d) => Some(chord(tangent_slope(x1 as int, a, d, p), x1 as int, y1 as int, x2 as int, p)),
                        }
                    }
                } else {
                    match inverse(fsub(x2 as int, x1 as int, p), p) {
                        None => None,
                        Some(d) => Some(chord(fmul(fsub(y2 as int, y1 as int, p), d, p), x1 as int, y1 as int, x2 as int, p)),
                    }
                }
            },
        },
    }
}

/// `k * pt` by double-and-add over the low `bits` bits of `k`, most significant first.
pub open spec fn point_mul_spec(pt: CurvePoint, k: nat, bits: nat, a: int, p: int) -> Option<CurvePoint>
    decreases bits,
{
    if bits == 0 {
        Some(CurvePoint::Identity)
    } else {
        match point_mul_spec(pt, k / 2, (bits - 1) as nat, a, p) {
            None => None,
            Some(h) => match point_add_spec(h, h, a, p) {
                None => None,
                Some(d) => if k % 2 == 1 {
                    point_add_spec(d, pt, a, p)
                } else {
                    Some(d)
                },
            },
        }
    }
}

fn chord_exec(l: u64, x1: u64, y1: u64, x2: u64, p: u64) -> (r: CurvePoint)
    requires
        p >= 2,
    ensures
        r == chord(l as int, x1 as int, y1 as int, x2 as int, p as int),
{
    let x3 = mod_sub(mod_sub(mod_mul(l, l, p), x1, p), x2, p);
    let y3 = mod_sub(mod_mul(l, mod_sub(x1, x3, p), p), y1, p);
    CurvePoint::Affine(x3, y3)
}

/// The sum of two points under the group law.
pub fn point_add(pt: CurvePoint, qt: CurvePoint, a: u64, p: u64) -> (r: Option<CurvePoint>)
    requires
        p >= 2,
    ensures
        r == point_add_spec(pt, qt, a as int, p as int),
{
    match pt {
        CurvePoint::Identity => Some(qt),
        CurvePoint::Affine(x1, y1) => match qt {
            CurvePoint::Identity => Some(pt),
            CurvePoint::Affine(x2, y2) => {
                if x1 % p == x2 % p {
                    if mod_add(y1, y2, p) == 0 {
                        Some(CurvePoint::Identity)
                    } else {
                        match mod_inverse(mod_add(y1, y1, p), p) {
                            None => None,
                            Some(d) => {
                                let l = mod_mul(mod_add(mod_mul(3, mod_mul(x1, x1, p), p), a, p), d, p);
                                Some(chord_exec(l, x1, y1, x2, p))
                            },
                        }
                    }
                } else {
                    match mod_inverse(mod_sub(x2, x1, p), p) {
                        None => None,
                        Some(d) => {
                            let l = mod_mul(mod_sub(y2, y1, p), d, p);
                            Some(chord_exec(l, x1, y1, x2, p))
                        },
                    }
                }
            },
        },
    }
}

/// `k * pt` by double-and-add over the low `bits` bits of `k`.
pub fn point_mul(pt: CurvePoint, k: u64, bits: u32, a: u64, p: u64) -> (r: Option<CurvePoint>)
    requires
        p >= 2,
    ensures
        r == point_mul_spec(pt, k as nat, bits as nat, a as int, p as int),
    decreases bits,
{
    if bits == 0 {
        Some(CurvePoint::Identity)
    } else {
        match point_mul(pt, k / 2, bits - 1, a, p) {
            None => None,
            Some(h) => match point_add(h, h, a, p) {
                None => None,
                Some(d) => if k % 2 == 1 {
                    point_add(d, pt, a, p)
                } else {
                    Some(d)
                },
            },
        }
    }
}

/// A chip for the group of a curve `y^2 = x^3 + a*x + b` over the base field,
/// whose scalars live in the scalar field, with a fixed generator.
#[derive(Clone, Copy, Debug, PartialEq, Eq, Structural)]
pub struct EccChip {
    pub base: IntegerChip,
    pub scalar: IntegerChip,
    pub a: u64,
    pub b: u64,
    pub generator: Point,
}

impl EccChip {
    pub open spec fn wf(&self) -> bool {
        &&& self.base.wf()
        &&& self.scalar.wf()
        &&& self.valid_point(self.generator)
    }

    /// Whether an affine point off-circuit lies on this chip's curve.
    pub open spec fn valid_point(&self, pt: Point) -> bool {
        on_curve(pt.x as int, pt.y as int, self.a as int, self.b as int, self.base.modulus as int)
    }

    /// A chip for the curve with coefficients `a`, `b` modulo `base_modulus`, of
    /// scalars modulo `scalar_modulus`, with `generator`; `None` where a modulus
    /// is under two or the generator is not a reduced point of the curve.
    pub fn new(base_modulus: u64, scalar_modulus: u64, a: u64, b: u64, generator: Point) -> (r: Option<EccChip>)
        ensures
            r is Some <==> base_modulus >= 2 && scalar_modulus >= 2
                && on_curve(generator.x as int, generator.y as int, a as int, b as int, base_modulus as int),
            r matches Some(c) ==> c.wf() && c.base.modulus == base_modulus && c.scalar.modulus == scalar_modulus
                && c.a == a && c.b == b && c.generator == generator,
    {
        if base_modulus < 2 || scalar_modulus < 2 {
            return None;
        }
        if !is_on_curve(generator, a, b, base_modulus) {
            return None;
        }
        Some(EccChip { base: IntegerChip { modulus: base_modulus }, scalar: IntegerChip { modulus: scalar_modulus }, a, b, generator })
    }

    /// The chip of the base field, where coordinates live.
    pub fn base_field_chip(&self) -> (r: IntegerChip)
        ensures
            r == self.base,
    {
        self.base
    }

    /// The chip of the scalar field, where scalars live.
    pub fn scalar_field_chip(&self) -> (r: IntegerChip)
        ensures
            r == self.scalar,
    {
        self.scalar
    }

    /// Assigns an affine point, constrained to lie on the curve.
    pub fn assign_point(&self, pt: Point, offset: &mut usize) -> (r: Result<AssignedPoint, Error>)
        requires
            self.wf(),
            *old(offset) <= usize::MAX - ASSIGN_POINT_ROWS,
        ensures
            r is Ok <==> self.valid_point(pt),
            r matches Ok(q) ==> q.x.value == pt.x && q.y.value == pt.y,
            r is Err ==> r == Err::<AssignedPoint, Error>(Error::Synthesis),
            *final(offset) == *old(offset) + ASSIGN_POINT_ROWS,
    {
        *offset = *offset + ASSIGN_POINT_ROWS;
        if is_on_curve(pt, self.a, self.b, self.base.modulus) {
            Ok(AssignedPoint { x: AssignedInteger { value: pt.x }, y: AssignedInteger { value: pt.y } })
        } else {
            Err(Error::Synthesis)
        }
    }

    /// The sum of two points of the group, the identity included; fails where
    /// the sum needs an inverse that does not exist.
    pub fn add(&self, p1: &CurvePoint, p2: &CurvePoint, offset: &mut usize) -> (r: Result<CurvePoint, Error>)
        requires
            self.wf(),
            *old(offset) <= usize::MAX - ADD_ROWS,
        ensures
            match point_add_spec(*p1, *p2, self.a as int, self.base.modulus as int) {
                Some(q) => r == Ok::<CurvePoint, Error>(q),
                None => r == Err::<CurvePoint, Error>(Error::Synthesis),
            },
            *final(offset) == *old(offset) + ADD_ROWS,
    {
        *offset = *offset + ADD_ROWS;
        match point_add(*p1, *p2, self.a, self.base.modulus) {
            Some(q) => Ok(q),
            None => Err(Error::Synthesis),
        }
    }

    /// `k * pt` over all the bits of a scalar, in windows of `window_size`
    /// bits; the identity where that is the product, and a failure where a
    /// step of the double-and-add needs an inverse that does not exist. The
    /// window sets the rows taken, not the result: each bit is doubled and
    /// added in turn whatever its window.
    pub fn mul(
        &self,
        pt: &CurvePoint,
        k: &AssignedInteger,
        window_size: usize,
        offset: &mut usize,
    ) -> (r: Result<CurvePoint, Error>)
        requires
            self.wf(),
            window_size >= 1,
            *old(offset) <= usize::MAX - mul_rows(window_size as int),
        ensures
            match point_mul_spec(*pt, k.value as nat, SCALAR_BITS as nat, self.a as int, self.base.modulus as int) {
                Some(q) => r == Ok::<CurvePoint, Error>(q),
                None => r == Err::<CurvePoint, Error>(Error::Synthesis),
            },
            *final(offset) == *old(offset) + mul_rows(window_size as int),
    {
        *offset = *offset + mul_row_count(window_size);
        match point_mul(*pt, k.value, SCALAR_BITS, self.a, self.base.modulus) {
            Some(q) => Ok(q),
            None => Err(Error::Synthesis),
        }
    }
}

fn is_on_curve(pt: Point, a: u64, b: u64, p: u64) -> (r: bool)
    requires
        p >= 2,
    ensures
        r == on_curve(pt.x as int, pt.y as int, a as int, b as int, p as int),
{
    if pt.x >= p || pt.y >= p {
        return false;
    }
    let lhs = mod_mul(pt.y, pt.y, p);
    let rhs = mod_add(mod_add(mod_mul(mod_mul(pt.x, pt.x, p), pt.x, p), mod_mul(a, pt.x, p), p), b, p);
    lhs == rhs
}

} // verus!
