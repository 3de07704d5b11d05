use vstd::prelude::*;
use vstd::arithmetic::div_mod::*;

use crate::Error;

verus! {

/// `a * b` in the integers modulo `m`.
pub open spec fn fmul(a: int, b: int, m: int) -> int {
    (a * b) % m
}

/// `a + b` in the integers modulo `m`.
pub open spec fn fadd(a: int, b: int, m: int) -> int {
    (a + b) % m
}

/// `a - b` in the integers modulo `m`.
pub open spec fn fsub(a: int, b: int, m: int) -> int {
    (a - b) % m
}

/// Whether `w` is an inverse of `a` modulo `m`, written in canonical form.
pub open spec fn is_inverse(a: int, w: int, m: int) -> bool {
    0 <= w < m && (a * w) % m == 1
}

/// The inverse of `a` modulo `m`, if `a` has one.
pub open spec fn inverse(a: int, m: int) -> Option<int> {
    if exists|w: int| is_inverse(a, w, m) {
        Some(choose|w: int| is_inverse(a, w, m))
    } else {
        None
    }
}

/// An inverse modulo `m` is unique.
pub proof fn lemma_inverse_unique(a: int, w1: int, w2: int, m: int)
    requires
        m > 0,
        is_inverse(a, w1, m),
        is_inverse(a, w2, m),
    ensures
        w1 == w2,
{
    lemma_mul_mod_noop_right(w1, a * w2, m);
    lemma_mul_mod_noop_left(a * w1, w2, m);
    assert(w1 * (a * w2) == (a * w1) * w2) by (nonlinear_arith);
    lemma_small_mod(w1 as nat, m as nat);
    lemma_small_mod(w2 as nat, m as nat);
}

/// Any inverse that exists is the one that `inverse` names.
pub proof fn lemma_inverse_is(a: int, w: int, m: int)
    requires
        m > 0,
        is_inverse(a, w, m),
    ensures
        inverse(a, m) == Some(w),
{
    let c = choose|v: int| is_inverse(a, v, m);
    lemma_inverse_unique(a, c, w, m);
}

/// `a * b mod m` on machine words.
pub fn mod_mul(a: u64, b: u64, m: u64) -> (r: u64)
    requires
        m > 0,
    ensures
        r as int == fmul(a as int, b as int, m as int),
        r < m,
{
    let x: u128 = a as u128;
    let y: u128 = b as u128;
    proof {
        assert(x * y <= 0xffff_ffff_ffff_ffffu128 * 0xffff_ffff_ffff_ffffu128) by (nonlinear_arith)
            requires x <= 0xffff_ffff_ffff_ffffu128, y <= 0xffff_ffff_ffff_ffffu128;
    }
    ((x * y) % (m as u128)) as u64
}

/// `a + b mod m` on machine words.
pub fn mod_add(a: u64, b: u64, m: u64) -> (r: u64)
    requires
        m > 0,
    ensures
        r as int == fadd(a as int, b as int, m as int),
        r < m,
{
    (((a as u128) + (b as u128)) % (m as u128)) as u64
}

/// `a - b mod m` on machine words.
pub fn mod_sub(a: u64, b: u64, m: u64) -> (r: u64)
    requires
        m > 0,
    ensures
        r as int == fsub(a as int, b as int, m as int),
        r < m,
{
    let bm: u128 = (b as u128) % (m as u128);
    let r: u128 = ((a as u128) + (m as u128) - bm) % (m as u128);
    proof {
        lemma_sub_mod_noop_right(a as int, b as int, m as int);
        lemma_mod_add_multiples_vanish(a as int - bm as int, m as int);
    }
    r as u64
}

proof fn lemma_euclid_step(a: int, s0: int, s1: int, r0: int, r1: int, q: int, m: int)
    requires
        m > 0,
        (a * s0 - r0) % m == 0,
        (a * s1 - r1) % m == 0,
    ensures
        (a * ((s0 - q * s1) % m) - (r0 - q * r1)) % m == 0,
{
    let x = a * s0 - r0;
    let y = a * s1 - r1;
    let t = (s0 - q * s1) / m;
    lemma_fundamental_div_mod(x, m);
    lemma_fundamental_div_mod(y, m);
    lemma_fundamental_div_mod(s0 - q * s1, m);
    let xm = x / m;
    let ym = y / m;
    let rem = (s0 - q * s1) % m;
    let k = xm - q * ym - a * t;
    assert(a * rem - (r0 - q * r1) == k * m) by (nonlinear_arith)
        requires
            x == a * s0 - r0,
            y == a * s1 - r1,
            x == m * xm,
            y == m * ym,
            s0 - q * s1 == m * t + rem,
            k == xm - q * ym - a * t;
    lemma_mod_multiples_basic(k, m);
}

proof fn lemma_no_unit_multiple(g: int, k: int)
    requires
        g >= 2,
    ensures
        g * k != 1,
{
    if k <= 0 {
        assert(g * k <= 0) by (nonlinear_arith) requires g >= 2, k <= 0;
    } else {
        assert(g * k >= 2) by (nonlinear_arith) requires g >= 2, k >= 1;
    }
}

/// The inverse of `a` modulo `m`, by the extended Euclidean algorithm; `None`
/// exactly when `a` and `m` share a factor.
pub fn mod_inverse(a: u64, m: u64) -> (r: Option<u64>)
    requires
        m >= 2,
    ensures
        r is Some <==> inverse(a as int, m as int) is Some,
        r matches Some(w) ==> inverse(a as int, m as int) == Some(w as int),
{
    let a0: u64 = a % m;
    let mut r0: u64 = m;
    let mut r1: u64 = a0;
    let mut s0: u64 = 0;
    let mut s1: u64 = 1;
    let ghost mut c1: int = 0;
    let ghost mut c2: int = 1;
    let ghost mut c3: int = 1;
    let ghost mut c4: int = 0;
    proof {
        lemma_mod_multiples_basic(-1, m as int);
        lemma_small_mod(0, m as nat);
    }
    while r1 != 0
        invariant
            m >= 2,
            a0 < m,
            0 < r0 <= m,
            r1 < m,
            s0 < m,
            s1 < m,
            (a0 * s0 - r0) % (m as int) == 0,
            (a0 * s1 - r1) % (m as int) == 0,
            a0 == c1 * r0 + c2 * r1,
            m == c3 * r0 + c4 * r1,
        decreases r1,
    {
        let q: u64 = r0 / r1;
        let r2: u64 = r0 % r1;
        let qs: u64 = mod_mul(q, s1, m);
        let s2: u64 = mod_sub(s0, qs, m);
        proof {
            lemma_fundamental_div_mod(r0 as int, r1 as int);
            lemma_sub_mod_noop_right(s0 as int, q * s1, m as int);
            lemma_euclid_step(a0 as int, s0 as int, s1 as int, r0 as int, r1 as int, q as int, m as int);
            assert(r0 == r1 * q + r2);
            assert(a0 == (c1 * q + c2) * r1 + c1 * r2) by (nonlinear_arith)
                requires a0 == c1 * r0 + c2 * r1, r0 == r1 * q + r2;
            assert(m == (c3 * q + c4) * r1 + c3 * r2) by (nonlinear_arith)
                requires m == c3 * r0 + c4 * r1, r0 == r1 * q + r2;
            let n1 = c1 * q + c2;
            let n3 = c3 * q + c4;
            c2 = c1;
            c1 = n1;
            c4 = c3;
            c3 = n3;
        }
        r0 = r1;
        r1 = r2;
        s0 = s1;
        s1 = s2;
    }
    proof {
        lemma_mul_mod_noop_left(a as int, s0 as int, m as int);
    }
    if r0 == 1 {
        proof {
            lemma_fundamental_div_mod(a0 * s0 - 1, m as int);
            let k = (a0 * s0 - 1) / (m as int);
            lemma_mod_multiples_vanish(k, 1, m as int);
            assert(a0 * s0 == k * m + 1) by (nonlinear_arith)
                requires a0 * s0 - 1 == (m as int) * k + 0;
            lemma_small_mod(1, m as nat);
            assert(is_inverse(a as int, s0 as int, m as int));
            lemma_inverse_is(a as int, s0 as int, m as int);
        }
        Some(s0)
    } else {
        proof {
            if exists|w: int| is_inverse(a as int, w, m as int) {
                let w = choose|w: int| is_inverse(a as int, w, m as int);
                lemma_mul_mod_noop_left(a as int, w, m as int);
                lemma_fundamental_div_mod(a0 * w, m as int);
                let j = (a0 * w) / (m as int);
                assert(r0 * (c1 * w - c3 * j) == 1) by (nonlinear_arith)
                    requires
                        a0 == c1 * r0,
                        m == c3 * r0,
                        a0 * w == m * j + 1;
                lemma_no_unit_multiple(r0 as int, c1 * w - c3 * j);
            }
        }
        None
    }
}

/// Rows of the witness region that one operation of an integer chip takes.
pub const INTEGER_OP_ROWS: usize = 1;

/// A field element off-circuit: its raw value, not necessarily reduced.
#[derive(Clone, Copy, Debug, PartialEq, Eq, Structural)]
pub struct Integer {
    pub value: u64,
}

impl Integer {
    pub fn new(value: u64) -> (r: Integer)
        ensures
            r.value == value,
    {
        Integer { value }
    }
}

/// A field element assigned to a cell of the witness region. Its value is the
/// representation as assigned, which need not be reduced.
#[derive(Clone, Copy, Debug, PartialEq, Eq, Structural)]
pub struct AssignedInteger {
    pub value: u64,
}

impl AssignedInteger {
    pub fn value(&self) -> (r: u64)
        ensures
            r == self.value,
    {
        self.value
    }
}

/// A chip for the integers modulo one modulus: a base field or a scalar field.
#[derive(Clone, Copy, Debug, PartialEq, Eq, Structural)]
pub struct IntegerChip {
    pub modulus: u64,
}

impl IntegerChip {
    pub open spec fn wf(&self) -> bool {
        self.modulus >= 2
    }

    /// A chip for the integers modulo `modulus`, which must be at least two.
    pub fn new(modulus: u64) -> (r: Option<IntegerChip>)
        ensures
            r is Some <==> modulus >= 2,
            r matches Some(c) ==> c.modulus == modulus,
    {
        if modulus >= 2 {
            Some(IntegerChip { modulus })
        } else {
            None
        }
    }

    pub fn modulus(&self) -> (r: u64)
        ensures
            r == self.modulus,
    {
        self.modulus
    }

    /// Assigns an off-circuit value to the next row.
    pub fn assign_integer(&self, value: Integer, offset: &mut usize) -> (r: AssignedInteger)
        requires
            *old(offset) <= usize::MAX - INTEGER_OP_ROWS,
        ensures
            r.value == value.value,
            *final(offset) == *old(offset) + INTEGER_OP_ROWS,
    {
        *offset = *offset + INTEGER_OP_ROWS;
        AssignedInteger { value: value.value }
    }

    /// Asserts that `a` is a nonzero element of this field in canonical form:
    /// not zero modulo the modulus, and below the modulus.
    pub fn assert_not_zero(&self, a: &AssignedInteger, offset: &mut usize) -> (r: Result<(), Error>)
        requires
            self.wf(),
            *old(offset) <= usize::MAX - INTEGER_OP_ROWS,
        ensures
            r is Ok <==> 0 < a.value < self.modulus,
            a.value % self.modulus == 0 ==> r == Err::<(), Error>(Error::ZeroValue),
            a.value % self.modulus != 0 && a.value >= self.modulus ==> r == Err::<(), Error>(Error::Synthesis),
            *final(offset) == *old(offset) + INTEGER_OP_ROWS,
    {
        *offset = *offset + INTEGER_OP_ROWS;
        proof {
            if a.value < self.modulus {
                lemma_small_mod(a.value as nat, self.modulus as nat);
            }
        }
        if a.value % self.modulus == 0 {
            Err(Error::ZeroValue)
        } else if a.value >= self.modulus {
            Err(Error::Synthesis)
        } else {
            Ok(())
        }
    }

    /// The inverse of `a` in this field, reduced.
    pub fn invert(&self, a: &AssignedInteger, offset: &mut usize) -> (r: Result<AssignedInteger, Error>)
        requires
            self.wf(),
            *old(offset) <= usize::MAX - INTEGER_OP_ROWS,
        ensures
            match inverse(a.value as int, self.modulus as int) {
                Some(w) => r matches Ok(v) && v.value == w,
                None => r == Err::<AssignedInteger, Error>(Error::NonInvertible),
            },
            *final(offset) == *old(offset) + INTEGER_OP_ROWS,
    {
        *offset = *offset + INTEGER_OP_ROWS;
        match mod_inverse(a.value, self.modulus) {
            Some(w) => Ok(AssignedInteger { value: w }),
            None => Err(Error::NonInvertible),
        }
    }

    /// `a * b` in this field, reduced.
    pub fn mul(&self, a: &AssignedInteger, b: &AssignedInteger, offset: &mut usize) -> (r: AssignedInteger)
        requires
            self.wf(),
            *old(offset) <= usize::MAX - INTEGER_OP_ROWS,
        ensures
            r.value == fmul(a.value as int, b.value as int, self.modulus as int),
            *final(offset) == *old(offset) + INTEGER_OP_ROWS,
    {
        *offset = *offset + INTEGER_OP_ROWS;
        AssignedInteger { value: mod_mul(a.value, b.value, self.modulus) }
    }

    /// `a` in its canonical representation in this field.
    pub fn reduce(&self, a: &AssignedInteger, offset: &mut usize) -> (r: AssignedInteger)
        requires
            self.wf(),
            *old(offset) <= usize::MAX - INTEGER_OP_ROWS,
        ensures
            r.value == a.value % self.modulus,
            *final(offset) == *old(offset) + INTEGER_OP_ROWS,
    {
        *offset = *offset + INTEGER_OP_ROWS;
        AssignedInteger { value: a.value % self.modulus }
    }

    /// Asserts that `a` and `b` have the same representation, not merely the
    /// same value in the field.
    pub fn assert_strict_equal(
        &self,
        a: &AssignedInteger,
        b: &AssignedInteger,
        offset: &mut usize,
    ) -> (r: Result<(), Error>)
        requires
            *old(offset) <= usize::MAX - INTEGER_OP_ROWS,
        ensures
            r is Ok <==> a.value == b.value,
            r is Err ==> r == Err::<(), Error>(Error::Synthesis),
            *final(offset) == *old(offset) + INTEGER_OP_ROWS,
    {
        *offset = *offset + INTEGER_OP_ROWS;
        if a.value == b.value {
            Ok(())
        } else {
            Err(Error::Synthesis)
        }
    }
}

/// Reducing a value that is already reduced leaves it as it is.
pub proof fn lemma_reduce_idempotent(x: int, m: int)
    requires
        m > 0,
    ensures
        (x % m) % m == x % m,
{
    lemma_mod_twice(x, m);
}

} // verus!
