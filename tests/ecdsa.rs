use ecdsa_circuit::curve::{point_add, point_mul, AssignedPoint, CurvePoint, EccChip, Point, SCALAR_BITS};
use ecdsa_circuit::ecdsa::{AssignedEcdsaSig, AssignedPublicKey, EcdsaChip, EcdsaSig};
use ecdsa_circuit::field::{mod_inverse, mod_mul, AssignedInteger, Integer};
use ecdsa_circuit::Error;

// y^2 = x^3 + 7 over the integers modulo P, a group of prime order N.
const P: u64 = 1000003;
const N: u64 = 999007;
const GX: u64 = 2;
const GY: u64 = 579196;

fn curve() -> EccChip {
    EccChip::new(P, N, 0, 7, Point { x: GX, y: GY }).unwrap()
}

fn public_key(chip: &EccChip, sk: u64) -> Point {
    match point_mul(CurvePoint::Affine(chip.generator.x, chip.generator.y), sk, SCALAR_BITS, chip.a, chip.base.modulus).unwrap() {
        CurvePoint::Affine(x, y) => Point { x, y },
        CurvePoint::Identity => panic!("identity key"),
    }
}

fn sign(chip: &EccChip, sk: u64, m_hash: u64, randomness: u64) -> EcdsaSig {
    let n = chip.scalar.modulus;
    let g = CurvePoint::Affine(chip.generator.x, chip.generator.y);
    let r = match point_mul(g, randomness, SCALAR_BITS, chip.a, chip.base.modulus).unwrap() {
        CurvePoint::Affine(x, _) => x % n,
        CurvePoint::Identity => panic!("identity nonce point"),
    };
    let k_inv = mod_inverse(randomness, n).unwrap();
    let s = mod_mul(k_inv, (m_hash % n + mod_mul(r, sk, n)) % n, n);
    EcdsaSig { r: Integer::new(r), s: Integer::new(s) }
}

fn run(chip: &EccChip, sig: EcdsaSig, pk: Point, m_hash: u64) -> Result<(), Error> {
    let scalar_chip = chip.scalar_field_chip();
    let offset = &mut 0usize;
    let r = scalar_chip.assign_integer(sig.r, offset);
    let s = scalar_chip.assign_integer(sig.s, offset);
    let point = chip.assign_point(pk, offset)?;
    let h = scalar_chip.assign_integer(Integer::new(m_hash), offset);
    let ecdsa_chip = EcdsaChip::new(*chip);
    ecdsa_chip.verify(&AssignedEcdsaSig { r, s }, &AssignedPublicKey { point }, &h, offset)
}

#[test]
fn test_ecdsa_verifier() {
    let chip = curve();
    let sk = 424242;
    let m_hash = 987654;
    let pk = public_key(&chip, sk);
    assert_eq!(pk, Point { x: 564371, y: 979953 });
    let sig = sign(&chip, sk, m_hash, 55555);
    assert_eq!(sig.r.value, 677628);
    assert_eq!(sig.s.value, 501976);
    assert_eq!(run(&chip, sig, pk, m_hash), Ok(()));
}

#[test]
fn scenario_private_key_seven() {
    let chip = curve();
    let pk = public_key(&chip, 7);
    assert_eq!(pk, Point { x: 937358, y: 266696 });
    let sig = sign(&chip, 7, 123, 11);
    assert_eq!((sig.r.value, sig.s.value), (394536, 523536));
    assert_eq!(run(&chip, sig, pk, 123), Ok(()));
    let bumped = EcdsaSig { r: sig.r, s: Integer::new(sig.s.value + 1) };
    assert_eq!(run(&chip, bumped, pk, 123), Err(Error::Synthesis));
    let zero_r = EcdsaSig { r: Integer::new(0), s: sig.s };
    assert_eq!(run(&chip, zero_r, pk, 123), Err(Error::ZeroValue));
}

#[test]
fn valid_signatures_are_accepted() {
    let chip = curve();
    let keys = [1u64, 2, 3, 7, 1000, 65537, 424242, 999006];
    let hashes = [1u64, 123, 999006, 999008, 4000000000];
    let mut nonce: u64 = 5;
    for sk in keys {
        let pk = public_key(&chip, sk);
        for h in hashes {
            nonce = (nonce * 7919 + 13) % N;
            let sig = sign(&chip, sk, h, nonce);
            if sig.r.value == 0 || sig.s.value == 0 {
                continue;
            }
            assert_eq!(run(&chip, sig, pk, h), Ok(()), "sk {} h {} nonce {}", sk, h, nonce);
        }
    }
}

#[test]
fn hash_of_zero_is_accepted() {
    // u1 is zero, so u1 * G is the identity and Q = u2 * pk
    let chip = curve();
    let pk = public_key(&chip, 1);
    let sig = sign(&chip, 1, 0, 39608);
    assert_eq!(run(&chip, sig, pk, 0), Ok(()));
    assert_eq!(run(&chip, sign(&chip, 1, N, 39608), pk, N), Ok(()));
    // y^2 = x^3 + 2x + 2 modulo 17, a group of order 19 generated by (5, 1)
    let small = EccChip::new(17, 19, 2, 2, Point { x: 5, y: 1 }).unwrap();
    let pk = public_key(&small, 7);
    let sig = sign(&small, 7, 0, 14);
    assert_eq!((sig.r.value, sig.s.value), (9, 14));
    assert_eq!(run(&small, sig, pk, 0), Ok(()));
    assert_eq!(run(&small, sig, pk, 1), Err(Error::Synthesis));
}

#[test]
fn zero_values_are_rejected() {
    let chip = curve();
    let pk = public_key(&chip, 7);
    let sig = sign(&chip, 7, 123, 11);
    assert_eq!(run(&chip, EcdsaSig { r: sig.r, s: Integer::new(0) }, pk, 123), Err(Error::ZeroValue));
    assert_eq!(run(&chip, EcdsaSig { r: Integer::new(N), s: sig.s }, pk, 123), Err(Error::ZeroValue));
    assert_eq!(run(&chip, EcdsaSig { r: Integer::new(0), s: Integer::new(0) }, pk, 5), Err(Error::ZeroValue));
}

#[test]
fn tampered_inputs_are_rejected() {
    let chip = curve();
    let pk = public_key(&chip, 7);
    let sig = sign(&chip, 7, 123, 11);
    for bit in 0..20 {
        let flip = 1u64 << bit;
        let r = EcdsaSig { r: Integer::new(sig.r.value ^ flip), s: sig.s };
        assert!(run(&chip, r, pk, 123).is_err());
        let s = EcdsaSig { r: sig.r, s: Integer::new(sig.s.value ^ flip) };
        assert!(run(&chip, s, pk, 123).is_err());
        assert!(run(&chip, sig, pk, 123 ^ flip).is_err());
    }
    // an unreduced r with the same value in the field is not strictly equal
    let unreduced = EcdsaSig { r: Integer::new(sig.r.value + N), s: sig.s };
    assert_eq!(run(&chip, unreduced, pk, 123), Err(Error::Synthesis));
    // another key, and a point off the curve
    assert_eq!(run(&chip, sig, public_key(&chip, 8), 123), Err(Error::Synthesis));
    assert_eq!(run(&chip, sig, Point { x: pk.x, y: pk.y ^ 1 }, 123), Err(Error::Synthesis));
}

#[test]
fn in_circuit_values_match_reference_arithmetic() {
    let chip = curve();
    let scalar_chip = chip.scalar_field_chip();
    let offset = &mut 0usize;
    let s = scalar_chip.assign_integer(Integer::new(523536), offset);
    let r = scalar_chip.assign_integer(Integer::new(394536), offset);
    let h = scalar_chip.assign_integer(Integer::new(123), offset);
    let w = scalar_chip.invert(&s, offset).unwrap();
    assert_eq!(w.value(), 926864);
    let u1 = scalar_chip.mul(&h, &w, offset);
    let u2 = scalar_chip.mul(&r, &w, offset);
    assert_eq!((u1.value(), u2.value()), (117474, 696796));
    let g = chip.assign_point(chip.generator, offset).unwrap();
    let pk = chip.assign_point(Point { x: 937358, y: 266696 }, offset).unwrap();
    let g1 = chip.mul(&g.to_curve_point(), &u1, 2, offset).unwrap();
    let g2 = chip.mul(&pk.to_curve_point(), &u2, 2, offset).unwrap();
    let q = chip.add(&g1, &g2, offset).unwrap();
    assert_eq!(q, CurvePoint::Affine(394536, 637178));
    assert_eq!(chip.mul(&g.to_curve_point(), &AssignedInteger { value: 0 }, 2, offset), Ok(CurvePoint::Identity));
    assert_eq!(chip.add(&CurvePoint::Identity, &g2, offset), Ok(g2));
}

#[test]
fn reduction_is_idempotent() {
    let chip = curve();
    let base = chip.base_field_chip();
    let scalar = chip.scalar_field_chip();
    let offset = &mut 0usize;
    for v in [0u64, 5, 999006, 999007, 999999, 1000002, 1000003, 1000004, u64::MAX] {
        let x = AssignedInteger { value: v };
        let once = scalar.reduce(&base.reduce(&x, offset), offset);
        let twice = scalar.reduce(&base.reduce(&once, offset), offset);
        assert_eq!(once, twice);
        assert!(once.value() < N);
    }
    assert_eq!(base.reduce(&AssignedInteger { value: 1000004 }, offset).value(), 1);
    assert_eq!(scalar.reduce(&AssignedInteger { value: 1000002 }, offset).value(), 995);
}

#[test]
fn verify_takes_a_fixed_number_of_rows() {
    let chip = curve();
    let pk = chip.assign_point(public_key(&chip, 7), &mut 0).unwrap();
    let sig = sign(&chip, 7, 123, 11);
    let good = AssignedEcdsaSig { r: AssignedInteger { value: sig.r.value }, s: AssignedInteger { value: sig.s.value } };
    let bad = AssignedEcdsaSig { r: AssignedInteger { value: 0 }, s: AssignedInteger { value: sig.s.value } };
    let h = AssignedInteger { value: 123 };
    let key = AssignedPublicKey { point: pk };
    for (window, rows) in [(1usize, 266usize), (2, 202), (4, 170), (64, 140), (1000, 140)] {
        let ecdsa_chip = EcdsaChip::with_window(chip, window).unwrap();
        assert_eq!(ecdsa_chip.verify_row_count(), rows);
        let mut offset: usize = 40;
        assert_eq!(ecdsa_chip.verify(&good, &key, &h, &mut offset), Ok(()));
        assert_eq!(offset, 40 + rows);
        assert_eq!(ecdsa_chip.verify(&bad, &key, &h, &mut offset), Err(Error::ZeroValue));
        assert_eq!(offset, 40 + 2 * rows);
    }
    assert!(EcdsaChip::with_window(chip, 0).is_none());
    let ecdsa_chip = EcdsaChip::new(chip);
    assert_eq!(ecdsa_chip.window_size, 2);
    assert_eq!(ecdsa_chip.scalar_field_chip().modulus(), N);
    let mut offset: usize = usize::MAX - 100;
    assert_eq!(ecdsa_chip.verify(&good, &key, &h, &mut offset), Err(Error::Synthesis));
    assert_eq!(offset, usize::MAX - 100);
}

#[test]
fn scalar_multiplication_does_not_depend_on_the_window() {
    let chip = curve();
    let g = chip.assign_point(chip.generator, &mut 0).unwrap().to_curve_point();
    for k in [1u64, 2, 7, 117474, 999006, u64::MAX] {
        let expected = chip.mul(&g, &AssignedInteger { value: k }, 1, &mut 0);
        for window in [2usize, 3, 4, 8, 64, 65] {
            let mut offset: usize = 0;
            assert_eq!(chip.mul(&g, &AssignedInteger { value: k }, window, &mut offset), expected);
            assert_eq!(offset, 64 + (63 / window + 1));
        }
    }
}

#[test]
fn unreduced_s_is_rejected() {
    // y^2 = x^3 + 2x + 2 modulo 17, a group of order 19 generated by (5, 1)
    let chip = EccChip::new(17, 19, 2, 2, Point { x: 5, y: 1 }).unwrap();
    let pk = Point { x: 0, y: 6 };
    assert_eq!(public_key(&chip, 7), pk);
    let good = EcdsaSig { r: Integer::new(7), s: Integer::new(2) };
    assert_eq!(run(&chip, good, pk, 123), Ok(()));
    let unreduced = EcdsaSig { r: Integer::new(7), s: Integer::new(21) };
    assert_eq!(run(&chip, unreduced, pk, 123), Err(Error::Synthesis));
    let unreduced_r = EcdsaSig { r: Integer::new(7 + 19), s: Integer::new(2) };
    assert_eq!(run(&chip, unreduced_r, pk, 123), Err(Error::Synthesis));
    // and on the larger curve
    let chip = curve();
    let pk = public_key(&chip, 7);
    let sig = sign(&chip, 7, 123, 11);
    assert_eq!(run(&chip, EcdsaSig { r: sig.r, s: Integer::new(sig.s.value + N) }, pk, 123), Err(Error::Synthesis));
}

#[test]
fn trace_holds_the_reference_values() {
    let chip = curve();
    let pk = chip.assign_point(Point { x: 937358, y: 266696 }, &mut 0).unwrap();
    let sig = AssignedEcdsaSig { r: AssignedInteger { value: 394536 }, s: AssignedInteger { value: 523536 } };
    let h = AssignedInteger { value: 123 };
    for window in [1usize, 2, 5] {
        let ecdsa_chip = EcdsaChip::with_window(chip, window).unwrap();
        let t = ecdsa_chip.verify_trace(&sig, &AssignedPublicKey { point: pk }, &h, &mut 0).unwrap();
        assert_eq!((t.w.value(), t.u1.value(), t.u2.value()), (926864, 117474, 696796));
        assert_eq!((t.q.x.value(), t.q.y.value()), (394536, 637178));
        assert_eq!((t.qx_in_base.value(), t.qx_in_scalar.value()), (394536, 394536));
    }
    let bumped = AssignedEcdsaSig { r: sig.r, s: AssignedInteger { value: 523537 } };
    let ecdsa_chip = EcdsaChip::new(chip);
    let mut offset: usize = 7;
    assert_eq!(ecdsa_chip.verify_trace(&bumped, &AssignedPublicKey { point: pk }, &h, &mut offset), Err(Error::Synthesis));
    assert_eq!(offset, 7 + 202);
}

#[test]
fn non_invertible_s_is_reported() {
    // an even scalar modulus, so that an even s has no inverse
    let chip = EccChip::new(P, 999006, 0, 7, Point { x: GX, y: GY }).unwrap();
    let ecdsa_chip = EcdsaChip::new(chip);
    let pk = chip.assign_point(Point { x: 937358, y: 266696 }, &mut 0).unwrap();
    let sig = AssignedEcdsaSig { r: AssignedInteger { value: 5 }, s: AssignedInteger { value: 4 } };
    let h = AssignedInteger { value: 9 };
    assert_eq!(ecdsa_chip.verify(&sig, &AssignedPublicKey { point: pk }, &h, &mut 0), Err(Error::NonInvertible));
}

#[test]
fn modular_inverse_values() {
    assert_eq!(mod_inverse(3, 7), Some(5));
    assert_eq!(mod_inverse(12345, N), Some(780674));
    assert_eq!(mod_inverse(10, 7), Some(5));
    assert_eq!(mod_inverse(4, 8), None);
    assert_eq!(mod_inverse(0, 7), None);
    assert_eq!(mod_inverse(1, 2), Some(1));
}

#[test]
fn point_arithmetic_values() {
    let g = CurvePoint::Affine(GX, GY);
    let two_g = point_add(g, g, 0, P).unwrap();
    assert_eq!(two_g, CurvePoint::Affine(199999, 174846));
    assert_eq!(point_add(two_g, g, 0, P).unwrap(), CurvePoint::Affine(259260, 238082));
    assert_eq!(point_add(g, CurvePoint::Affine(GX, P - GY), 0, P), Some(CurvePoint::Identity));
    assert_eq!(point_add(CurvePoint::Identity, g, 0, P), Some(g));
    assert_eq!(point_mul(g, 7, SCALAR_BITS, 0, P), Some(CurvePoint::Affine(937358, 266696)));
    assert_eq!(point_mul(g, N, SCALAR_BITS, 0, P), Some(CurvePoint::Identity));
    assert_eq!(point_mul(g, 0, SCALAR_BITS, 0, P), Some(CurvePoint::Identity));
}

#[test]
fn chips_reject_bad_parameters() {
    assert!(EccChip::new(P, N, 0, 7, Point { x: GX, y: GY + 1 }).is_none());
    assert!(EccChip::new(P, 1, 0, 7, Point { x: GX, y: GY }).is_none());
    assert!(EccChip::new(P, N, 0, 7, Point { x: GX + P, y: GY }).is_none());
    assert!(ecdsa_circuit::field::IntegerChip::new(1).is_none());
    assert_eq!(ecdsa_circuit::field::IntegerChip::new(2).unwrap().modulus(), 2);
    let chip = curve();
    assert_eq!(chip.assign_point(Point { x: 3, y: 3 }, &mut 0), Err(Error::Synthesis));
    let g = AssignedPoint { x: AssignedInteger { value: GX }, y: AssignedInteger { value: GY } };
    let minus_g = AssignedPoint { x: AssignedInteger { value: GX }, y: AssignedInteger { value: P - GY } };
    assert_eq!(g.get_x().value(), GX);
    let sum = chip.add(&g.to_curve_point(), &minus_g.to_curve_point(), &mut 0);
    assert_eq!(sum, Ok(CurvePoint::Identity));
    // an even modulus, where 2 * y has no inverse, so doubling fails
    let even = EccChip::new(16, N, 0, 0, Point { x: 0, y: 0 }).unwrap();
    assert_eq!(even.add(&CurvePoint::Affine(1, 1), &CurvePoint::Affine(1, 1), &mut 0), Err(Error::Synthesis));
}

#[test]
fn integer_chip_assertions() {
    let chip = curve().scalar_field_chip();
    let offset = &mut 3usize;
    let zero = AssignedInteger { value: N * 2 };
    let one = AssignedInteger { value: N + 1 };
    assert_eq!(chip.assert_not_zero(&zero, offset), Err(Error::ZeroValue));
    assert_eq!(chip.assert_not_zero(&one, offset), Err(Error::Synthesis));
    assert_eq!(chip.assert_not_zero(&AssignedInteger { value: 1 }, offset), Ok(()));
    assert_eq!(chip.assert_not_zero(&AssignedInteger { value: N - 1 }, offset), Ok(()));
    assert_eq!(chip.assert_strict_equal(&one, &AssignedInteger { value: 1 }, offset), Err(Error::Synthesis));
    assert_eq!(chip.assert_strict_equal(&one, &one, offset), Ok(()));
    assert_eq!(chip.invert(&zero, offset), Err(Error::NonInvertible));
    assert_eq!(*offset, 10);
}
