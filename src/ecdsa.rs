use vstd::prelude::*;
use vstd::arithmetic::div_mod::*;

use crate::curve::{
    mul_row_count, mul_rows, point_add_spec, point_mul_spec, AssignedPoint, CurvePoint, EccChip,
    ADD_ROWS, ASSIGN_POINT_ROWS, SCALAR_BITS,
};
use crate::field::{fmul, inverse, lemma_reduce_idempotent, AssignedInteger, Integer, IntegerChip, INTEGER_OP_ROWS};
use crate::Error;

verus! {

/// The window that a gadget made by `EcdsaChip::new` multiplies points with.
pub const DEFAULT_WINDOW_SIZE: usize = 2;

/// Rows of the witness region that one signature check takes with a window of
/// `window_size` bits, whatever the values checked and whether it passes:
/// eight integer operations, the generator, two scalar multiplications and
/// one addition.
pub open spec fn verify_rows(window_size: int) -> int {
    8 * INTEGER_OP_ROWS + ASSIGN_POINT_ROWS + 2 * mul_rows(window_size) + ADD_ROWS
}

/// A signature off-circuit: two scalar-field elements.
#[derive(Clone, Copy, Debug, PartialEq, Eq, Structural)]
pub struct EcdsaSig {
    pub r: Integer,
    pub s: Integer,
}

/// A signature assigned to the witness region.
#[derive(Clone, Copy, Debug, PartialEq, Eq, Structural)]
pub struct AssignedEcdsaSig {
    pub r: AssignedInteger,
    pub s: AssignedInteger,
}

/// A public key assigned to the witness region: one curve point.
#[derive(Clone, Copy, Debug, PartialEq, Eq, Structural)]
pub struct AssignedPublicKey {
    pub point: AssignedPoint,
}

/// The point `Q = u1 * G + u2 * pk`, where it is an affine point; either
/// term may be the identity.
pub open spec fn q_point(chip: EccChip, pk: CurvePoint, u1: int, u2: int) -> Option<CurvePoint> {
    let g = CurvePoint::Affine(chip.generator.x, chip.generator.y);
    let a = chip.a as int;
    let p = chip.base.modulus as int;
    match point_mul_spec(g, u1 as nat, SCALAR_BITS as nat, a, p) {
        None => None,
        Some(g1) => match point_mul_spec(pk, u2 as nat, SCALAR_BITS as nat, a, p) {
            None => None,
            Some(g2) => match point_add_spec(g1, g2, a, p) {
                Some(CurvePoint::Affine(qx, qy)) => Some(CurvePoint::Affine(qx, qy)),
                _ => None,
            },
        },
    }
}

/// The x-coordinate of `Q = u1 * G + u2 * pk`, reduced in the base field and
/// then in the scalar field; `None` where `Q`, or one of its two terms, is not
/// an affine point.
pub open spec fn reduced_qx(chip: EccChip, pk: CurvePoint, u1: int, u2: int) -> Option<int> {
    match q_point(chip, pk, u1, u2) {
        Some(CurvePoint::Affine(qx, _)) => Some(((qx as int) % (chip.base.modulus as int)) % (chip.scalar.modulus as int)),
        _ => None,
    }
}

/// The outcome of asserting that `v` is a nonzero scalar in canonical form.
pub open spec fn nonzero_outcome(v: int, n: int) -> Result<(), Error> {
    if v % n == 0 {
        Err(Error::ZeroValue)
    } else if v >= n {
        Err(Error::Synthesis)
    } else {
        Ok(())
    }
}

/// The outcome of the ECDSA check of `(r, s)` on the hash `h` under the key
/// `pk`: both signature values lie in `(0, n)`, `s` is invertible with inverse
/// `w`, and the x-coordinate of `(h * w) * G + (r * w) * pk`, reduced into the
/// scalar field, is `r`.
pub open spec fn verify_outcome(chip: EccChip, r: int, s: int, pk: CurvePoint, h: int) -> Result<(), Error> {
    let n = chip.scalar.modulus as int;
    if nonzero_outcome(r, n) is Err {
        nonzero_outcome(r, n)
    } else if nonzero_outcome(s, n) is Err {
        nonzero_outcome(s, n)
    } else {
        match inverse(s, n) {
            None => Err(Error::NonInvertible),
            Some(w) => match reduced_qx(chip, pk, fmul(h, w, n), fmul(r, w, n)) {
                Some(x) => if x == r {
                    Ok(())
                } else {
                    Err(Error::Synthesis)
                },
                None => Err(Error::Synthesis),
            },
        }
    }
}

/// The values a passing signature check assigns on the way: `w = s^-1`,
/// `u1 = h * w`, `u2 = r * w`, `Q = u1 * G + u2 * pk`, and the x-coordinate
/// of `Q` reduced in the base field and then in the scalar field.
#[derive(Clone, Copy, Debug, PartialEq, Eq, Structural)]
pub struct VerifyTrace {
    pub w: AssignedInteger,
    pub u1: AssignedInteger,
    pub u2: AssignedInteger,
    pub q: AssignedPoint,
    pub qx_in_base: AssignedInteger,
    pub qx_in_scalar: AssignedInteger,
}

/// A gadget that checks ECDSA signatures on the curve of its chip,
/// multiplying points in windows of `window_size` bits.
#[derive(Clone, Copy, Debug, PartialEq, Eq, Structural)]
pub struct EcdsaChip {
    pub ecc_chip: EccChip,
    pub window_size: usize,
}

impl EcdsaChip {
    pub open spec fn wf(&self) -> bool {
        &&& self.ecc_chip.wf()
        &&& self.window_size >= 1
    }

    /// A gadget on the curve of `ecc_chip`, with the default window.
    pub fn new(ecc_chip: EccChip) -> (r: EcdsaChip)
        ensures
            r.ecc_chip == ecc_chip,
            r.window_size == DEFAULT_WINDOW_SIZE,
    {
        EcdsaChip { ecc_chip, window_size: DEFAULT_WINDOW_SIZE }
    }

    /// A gadget on the curve of `ecc_chip` with a window of `window_size`
    /// bits; `None` for a window of no bits.
    pub fn with_window(ecc_chip: EccChip, window_size: usize) -> (r: Option<EcdsaChip>)
        ensures
            r is Some <==> window_size >= 1,
            r matches Some(c) ==> c.ecc_chip == ecc_chip && c.window_size == window_size,
    {
        if window_size >= 1 {
            Some(EcdsaChip { ecc_chip, window_size })
        } else {
            None
        }
    }

    /// The chip of the scalar field, to assign signatures and hashes with.
    pub fn scalar_field_chip(&self) -> (r: IntegerChip)
        ensures
            r == self.ecc_chip.scalar,
    {
        self.ecc_chip.scalar_field_chip()
    }

    fn ecc_chip(&self) -> (r: EccChip)
        ensures
            r == self.ecc_chip,
    {
        self.ecc_chip
    }

    /// The rows that one signature check of this gadget takes.
    pub fn verify_row_count(&self) -> (r: usize)
        requires
            self.wf(),
        ensures
            r == verify_rows(self.window_size as int),
    {
        8 * INTEGER_OP_ROWS + ASSIGN_POINT_ROWS + 2 * mul_row_count(self.window_size) + ADD_ROWS
    }

    fn verify_steps(
        &self,
        sig: &AssignedEcdsaSig,
        pk: &AssignedPublicKey,
        msg_hash: &AssignedInteger,
        offset: &mut usize,
    ) -> (r: Result<VerifyTrace, Error>)
        requires
            self.wf(),
            *old(offset) <= usize::MAX - verify_rows(self.window_size as int),
        ensures
            r is Ok <==> verify_outcome(self.ecc_chip, sig.r.value as int, sig.s.value as int, pk.point.curve_point(), msg_hash.value as int) is Ok,
            r matches Err(e) ==> verify_outcome(self.ecc_chip, sig.r.value as int, sig.s.value as int, pk.point.curve_point(), msg_hash.value as int) == Err::<(), Error>(e),
            r matches Ok(t) ==> {
                let n = self.ecc_chip.scalar.modulus as int;
                &&& inverse(sig.s.value as int, n) == Some(t.w.value as int)
                &&& t.u1.value == fmul(msg_hash.value as int, t.w.value as int, n)
                &&& t.u2.value == fmul(sig.r.value as int, t.w.value as int, n)
                &&& q_point(self.ecc_chip, pk.point.curve_point(), t.u1.value as int, t.u2.value as int) == Some(t.q.curve_point())
                &&& t.qx_in_base.value == t.q.x.value % self.ecc_chip.base.modulus
                &&& t.qx_in_scalar.value == t.qx_in_base.value % self.ecc_chip.scalar.modulus
                &&& t.qx_in_scalar.value == sig.r.value
            },
            *old(offset) <= *final(offset) <= *old(offset) + verify_rows(self.window_size as int),
    {
        let ecc_chip = self.ecc_chip();
        let scalar_chip = ecc_chip.scalar_field_chip();
        let base_chip = ecc_chip.base_field_chip();
        let window_size = self.window_size;
        proof {
            let n = self.ecc_chip.scalar.modulus;
            if sig.r.value < n {
                lemma_small_mod(sig.r.value as nat, n as nat);
            }
            if sig.s.value < n {
                lemma_small_mod(sig.s.value as nat, n as nat);
            }
        }

        // 0 < r, s < n
        scalar_chip.assert_not_zero(&sig.r, offset)?;
        scalar_chip.assert_not_zero(&sig.s, offset)?;

        // w = s^-1, u1 = h * w, u2 = r * w
        let w = scalar_chip.invert(&sig.s, offset)?;
        let u1 = scalar_chip.mul(msg_hash, &w, offset);
        let u2 = scalar_chip.mul(&sig.r, &w, offset);

        // Q = u1 * G + u2 * pk
        let e_gen = ecc_chip.assign_point(ecc_chip.generator, offset)?;
        let g1 = ecc_chip.mul(&e_gen.to_curve_point(), &u1, window_size, offset)?;
        let g2 = ecc_chip.mul(&pk.point.to_curve_point(), &u2, window_size, offset)?;
        let q = match ecc_chip.add(&g1, &g2, offset)? {
            CurvePoint::Affine(x, y) => AssignedPoint { x: AssignedInteger { value: x }, y: AssignedInteger { value: y } },
            CurvePoint::Identity => return Err(Error::Synthesis),
        };

        // Q.x, reduced into the scalar field, is r
        let q_x = q.get_x();
        let q_x_reduced_in_q = base_chip.reduce(&q_x, offset);
        let q_x_reduced_in_r = scalar_chip.reduce(&q_x_reduced_in_q, offset);
        scalar_chip.assert_strict_equal(&q_x_reduced_in_r, &sig.r, offset)?;

        Ok(VerifyTrace { w, u1, u2, q, qx_in_base: q_x_reduced_in_q, qx_in_scalar: q_x_reduced_in_r })
    }

    /// Checks that `sig` is a signature of `msg_hash` under `pk`, and hands
    /// back the values assigned on the way; these are the field and curve
    /// arithmetic of the check, value for value. The check takes
    /// `verify_rows(window_size)` rows whether it passes or not.
    pub fn verify_trace(
        &self,
        sig: &AssignedEcdsaSig,
        pk: &AssignedPublicKey,
        msg_hash: &AssignedInteger,
        offset: &mut usize,
    ) -> (r: Result<VerifyTrace, Error>)
        requires
            self.wf(),
            *old(offset) <= usize::MAX - verify_rows(self.window_size as int),
        ensures
            r is Ok <==> verify_outcome(self.ecc_chip, sig.r.value as int, sig.s.value as int, pk.point.curve_point(), msg_hash.value as int) is Ok,
            r matches Err(e) ==> verify_outcome(self.ecc_chip, sig.r.value as int, sig.s.value as int, pk.point.curve_point(), msg_hash.value as int) == Err::<(), Error>(e),
            r matches Ok(t) ==> {
                let n = self.ecc_chip.scalar.modulus as int;
                let p = self.ecc_chip.base.modulus as int;
                &&& inverse(sig.s.value as int, n) == Some(t.w.value as int)
                &&& t.u1.value == fmul(msg_hash.value as int, t.w.value as int, n)
                &&& t.u2.value == fmul(sig.r.value as int, t.w.value as int, n)
                &&& q_point(self.ecc_chip, pk.point.curve_point(), t.u1.value as int, t.u2.value as int) == Some(t.q.curve_point())
                &&& t.qx_in_base.value as int == (t.q.x.value as int) % p
                &&& (t.qx_in_base.value as int) % p == t.qx_in_base.value as int
                &&& t.qx_in_scalar.value as int == (t.qx_in_base.value as int) % n
                &&& ((t.qx_in_scalar.value as int) % p) % n == t.qx_in_scalar.value as int
                &&& t.qx_in_scalar.value == sig.r.value
            },
            *final(offset) == *old(offset) + verify_rows(self.window_size as int),
    {
        let rows = self.verify_row_count();
        let start = *offset;
        let mut cursor = start;
        let outcome = self.verify_steps(sig, pk, msg_hash, &mut cursor);
        *offset = start + rows;
        proof {
            if let Ok(t) = outcome {
                lemma_reduce_idempotent(t.q.x.value as int, self.ecc_chip.base.modulus as int);
                lemma_two_stage_reduction_idempotent(t.q.x.value as int, self.ecc_chip.base.modulus as int, self.ecc_chip.scalar.modulus as int);
            }
        }
        outcome
    }

    /// Checks that `sig` is a signature of `msg_hash` under `pk`.
    ///
    /// The check takes `verify_rows(window_size)` rows whether it passes or
    /// not: the circuit's shape does not depend on the values in it. A region
    /// without that many rows left fails, and the cursor stays where it was.
    ///
    /// The x-coordinate of `Q` is reduced in the base field and then in the
    /// scalar field. Both fields hold a value as one machine word, so the value
    /// reduced in the scalar field is exactly the integer that the base field
    /// held, modulo the scalar field's modulus.
    ///
    /// Either term of `Q` may be the identity, as `u1 * G` is for a hash that
    /// is zero modulo the group order; `Q` itself must be an affine point,
    /// since the check reads its x-coordinate.
    pub fn verify(
        &self,
        sig: &AssignedEcdsaSig,
        pk: &AssignedPublicKey,
        msg_hash: &AssignedInteger,
        offset: &mut usize,
    ) -> (r: Result<(), Error>)
        requires
            self.wf(),
        ensures
            *old(offset) > usize::MAX - verify_rows(self.window_size as int) ==> {
                &&& r == Err::<(), Error>(Error::Synthesis)
                &&& *final(offset) == *old(offset)
            },
            *old(offset) <= usize::MAX - verify_rows(self.window_size as int) ==> {
                &&& r == verify_outcome(self.ecc_chip, sig.r.value as int, sig.s.value as int, pk.point.curve_point(), msg_hash.value as int)
                &&& *final(offset) == *old(offset) + verify_rows(self.window_size as int)
            },
            sig.r.value == 0 || sig.s.value == 0 ==> r is Err,
    {
        proof {
            if sig.r.value == 0 || sig.s.value == 0 {
                lemma_zero_rejected(self.ecc_chip, sig.r.value as int, sig.s.value as int, pk.point.curve_point(), msg_hash.value as int);
            }
        }
        let rows = self.verify_row_count();
        if *offset > usize::MAX - rows {
            return Err(Error::Synthesis);
        }
        match self.verify_trace(sig, pk, msg_hash, offset) {
            Ok(_) => Ok(()),
            Err(e) => Err(e),
        }
    }
}

/// Reducing an x-coordinate into the scalar field a second time, through the
/// base field and then the scalar field, leaves it as it is.
pub proof fn lemma_two_stage_reduction_idempotent(x: int, p: int, n: int)
    requires
        x >= 0,
        p > 0,
        n > 0,
    ensures
        (((x % p) % n) % p) % n == (x % p) % n,
{
    let y = (x % p) % n;
    lemma_mod_decreases((x % p) as nat, n as nat);
    lemma_small_mod(y as nat, p as nat);
    lemma_small_mod(y as nat, n as nat);
}

/// A signature with `r` or `s` assigned unreduced, at or above the scalar
/// field's modulus, is rejected, as is one with `r` or `s` zero.
pub proof fn lemma_out_of_range_rejected(chip: EccChip, r: int, s: int, pk: CurvePoint, h: int)
    requires
        chip.wf(),
        r >= chip.scalar.modulus || s >= chip.scalar.modulus || r == 0 || s == 0,
    ensures
        verify_outcome(chip, r, s, pk, h) is Err,
{
    lemma_mod_self_0(chip.scalar.modulus as int);
    lemma_small_mod(0, chip.scalar.modulus as nat);
}

/// A zero `r` or `s` is rejected whatever the key and the hash, and a zero `r`,
/// or a zero `s` beside an `r` in range, as zero.
pub proof fn lemma_zero_rejected(chip: EccChip, r: int, s: int, pk: CurvePoint, h: int)
    requires
        chip.wf(),
        0 <= r,
        0 <= s,
        r == 0 || s == 0,
    ensures
        verify_outcome(chip, r, s, pk, h) is Err,
        r == 0 ==> verify_outcome(chip, r, s, pk, h) == Err::<(), Error>(Error::ZeroValue),
        s == 0 && 0 < r < chip.scalar.modulus ==> verify_outcome(chip, r, s, pk, h) == Err::<(), Error>(Error::ZeroValue),
{
    lemma_small_mod(0, chip.scalar.modulus as nat);
}

} // verus!
