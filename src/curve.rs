//! BabyJubJub arithmetic: the prime field, twisted-Edwards point addition and
//! recovery of a y-coordinate from its compressed form.
use crate::error::FieldError;
use crate::uint::{add_rem, div_u256, le_value, lt_u256, mul_rem, rem_u256, sub_u256, U256};
use vstd::arithmetic::div_mod::*;
use vstd::arithmetic::power::*;
use vstd::arithmetic::power2::*;
use vstd::prelude::*;

verus! {

/// A 77-digit decimal literal, written as its leading digits and its last 38 digits.
pub open spec fn digits(high: nat, low: nat) -> nat {
    high * 100000000000000000000000000000000000000 + low
}

/// The field modulus q.
pub open spec fn baby_jub_q() -> nat {
    digits(218882428718392752222464057452572750885, 48364400416034343698204186575808495617)
}

/// The largest compressed coordinate, (q - 1) / 2.
pub open spec fn delta_max_value() -> nat {
    ((baby_jub_q() - 1) / 2) as nat
}

/// Curve parameter A.
pub open spec fn curve_a() -> nat {
    168700
}

/// Curve parameter D.
pub open spec fn curve_d() -> nat {
    168696
}

/// `A·x² + y² ≡ 1 + D·x²·y² (mod q)`.
pub open spec fn on_curve(x: nat, y: nat) -> bool {
    (curve_a() * x * x + y * y) % baby_jub_q() == (1 + curve_d() * x * x * y * y) % baby_jub_q()
}

/// The inverse by Fermat's little theorem: a^(q−2) mod q.
pub open spec fn field_inverse(a: nat) -> nat {
    (pow(a as int, (baby_jub_q() - 2) as nat) % baby_jub_q() as int) as nat
}

/// Twisted-Edwards sum, with (0, 0) standing for "no point yet".
pub open spec fn point_add_spec(x1: nat, y1: nat, x2: nat, y2: nat) -> Result<
    (nat, nat),
    FieldError,
> {
    let q = baby_jub_q() as int;
    if x1 == 0 && y1 == 0 {
        Ok((x2, y2))
    } else if x2 == 0 && y2 == 0 {
        Ok((x1, y1))
    } else {
        let t = ((curve_d() * x1 * x2 * y1 * y2) % baby_jub_q()) as int;
        let denom_x = (1 + t) % q;
        let denom_y = (1 - t) % q;
        if denom_x == 0 || denom_y == 0 {
            Err(FieldError::InverseUndefined)
        } else {
            Ok(
                (
                    (((x1 * y2 + y1 * x2) * field_inverse(denom_x as nat)) as int % q) as nat,
                    (((y1 * y2) as int - (curve_a() * x1 * x2) as int) * field_inverse(
                        denom_y as nat,
                    ) as int % q) as nat,
                ),
            )
        }
    }
}

/// The y-coordinate named by a compressed coordinate and its sign.
pub open spec fn recover_y_spec(x: nat, delta: nat, sign: bool) -> Result<nat, FieldError> {
    if delta > delta_max_value() {
        Err(FieldError::DeltaOutOfRange)
    } else if !on_curve(x, delta) {
        Err(FieldError::PointNotOnCurve)
    } else if sign {
        Ok(delta)
    } else {
        Ok(((baby_jub_q() - delta) % baby_jub_q() as int) as nat)
    }
}

/// The field modulus q.
pub fn curve_q() -> (r: U256)
    ensures
        r@ == baby_jub_q(),
{
    let r = U256::from_le_bytes(
        [
            1, 0, 0, 240, 147, 245, 225, 67, 145, 112, 185, 121, 72, 232, 51, 40, 93, 88, 129, 129,
            182, 69, 80, 184, 41, 160, 49, 225, 114, 78, 100, 48,
        ],
    );
    proof {
        reveal_with_fuel(le_value, 33);
    }
    r
}

/// The largest compressed coordinate, (q - 1) / 2.
pub fn delta_max() -> (r: U256)
    ensures
        r@ == delta_max_value(),
{
    let r = U256::from_le_bytes(
        [
            0, 0, 0, 248, 201, 250, 240, 161, 72, 184, 220, 60, 36, 244, 25, 148, 46, 172, 192, 64, 219, 34, 40, 220, 20, 208, 152, 112, 57, 39, 50, 24
        ],
    );
    proof {
        reveal_with_fuel(le_value, 33);
    }
    r
}

/// `(a + b) mod modulus`.
pub fn mod_add(a: &U256, b: &U256, modulus: &U256) -> (r: U256)
    requires
        modulus@ > 0,
    ensures
        r@ == (a@ + b@) % modulus@,
{
    add_rem(a, b, modulus)
}

/// `(a − b) mod modulus`, borrowing from the modulus when a < b.
pub fn mod_sub(a: &U256, b: &U256, modulus: &U256) -> (r: U256)
    requires
        modulus@ > 0,
        b@ <= modulus@,
    ensures
        r@ == (a@ - b@) % (modulus@ as int),
{
    if !lt_u256(a, b) {
        rem_u256(&sub_u256(a, b), modulus)
    } else {
        let diff = sub_u256(b, a);
        let t = sub_u256(modulus, &diff);
        proof {
            let m = modulus@ as int;
            assert(t@ == (a@ - b@) + m);
            lemma_mod_add_multiples_vanish(a@ - b@, m);
        }
        rem_u256(&t, modulus)
    }
}

/// `(a · b) mod modulus`.
pub fn mod_mul(a: &U256, b: &U256, modulus: &U256) -> (r: U256)
    requires
        modulus@ > 0,
    ensures
        r@ == (a@ * b@) % modulus@,
{
    mul_rem(a, b, modulus)
}

/// Whether `n` is odd.
pub fn is_odd(n: &U256) -> (r: bool)
    ensures
        r == (n@ % 2 == 1),
{
    proof {
        lemma2_to64();
    }
    n.get_bit(0)
}

/// One square-and-multiply step keeps `result · base^exp` fixed modulo m.
proof fn lemma_pow_step(result: int, base: int, e: nat, m: int)
    requires
        m > 0,
    ensures
        (if e % 2 == 1 {
            (result * base) % m
        } else {
            result
        }) * pow((base * base) % m, e / 2) % m == result * pow(base, e) % m,
{
    let half = e / 2;
    let odd = e % 2;
    let bb = (base * base) % m;
    assert(e == 2 * half + odd);
    lemma_square_is_pow2(base);
    lemma_pow_multiplies(base, 2, half);
    lemma_pow_adds(base, 2 * half, odd);
    lemma_pow_mod_noop(base * base, half, m);
    let ph = pow(base * base, half);
    let pbb = pow(bb, half);
    // pbb and ph agree modulo m
    assert(pbb % m == ph % m);
    if odd == 1 {
        lemma_pow1(base);
        let rb = result * base;
        lemma_mul_mod_noop_left(rb, pbb, m);
        lemma_mul_mod_noop_right(rb, pbb, m);
        lemma_mul_mod_noop_right(rb, ph, m);
        assert(rb * ph == result * (ph * base)) by (nonlinear_arith)
            requires
                rb == result * base,
        ;
    } else {
        lemma_pow0(base);
        lemma_mul_mod_noop_right(result, pbb, m);
        lemma_mul_mod_noop_right(result, ph, m);
    }
}

/// `base^exp mod modulus` by square-and-multiply.
pub fn mod_pow(base: &U256, exp: &U256, modulus: &U256) -> (r: U256)
    requires
        modulus@ > 1,
    ensures
        r@ == pow(base@ as int, exp@) % modulus@ as int,
{
    let two = U256::from_u128(2);
    let mut result = U256::one();
    let mut b = rem_u256(base, modulus);
    let mut e = *exp;
    proof {
        let m = modulus@ as int;
        lemma_pow_mod_noop(base@ as int, exp@, m);
        lemma_small_mod(1, modulus@);
    }
    while !e.is_zero()
        invariant
            modulus@ > 1,
            two@ == 2,
            result@ < modulus@,
            b@ < modulus@,
            (result@ * pow(b@ as int, e@)) % (modulus@ as int) == pow(base@ as int, exp@) % (
            modulus@ as int),
        decreases e@,
    {
        proof {
            lemma_pow_step(result@ as int, b@ as int, e@, modulus@ as int);
        }
        if is_odd(&e) {
            result = mod_mul(&result, &b, modulus);
        }
        e = div_u256(&e, &two);
        b = mod_mul(&b, &b, modulus);
    }
    proof {
        lemma_pow0(b@ as int);
        lemma_small_mod(result@, modulus@);
    }
    result
}

/// The inverse modulo a prime modulus, `value^(modulus − 2)`; zero has none.
pub fn mod_inverse(value: &U256, modulus: &U256) -> (r: Result<U256, FieldError>)
    requires
        modulus@ >= 2,
    ensures
        value@ == 0 ==> r == Err::<U256, FieldError>(FieldError::InverseUndefined),
        value@ != 0 ==> r is Ok && r->Ok_0@ == pow(value@ as int, (modulus@ - 2) as nat) %
            modulus@ as int,
{
    if value.is_zero() {
        return Err(FieldError::InverseUndefined);
    }
    let exponent = sub_u256(modulus, &U256::from_u128(2));
    Ok(mod_pow(value, &exponent, modulus))
}

/// `(a · b) mod q`, the product used to derive a game's nonce.
pub fn mul_mod_q(a: &U256, b: &U256) -> (r: U256)
    ensures
        r@ == (a@ * b@) % baby_jub_q(),
{
    mod_mul(a, b, &curve_q())
}

/// A field result seen as numbers.
pub open spec fn value_view(r: Result<U256, FieldError>) -> Result<nat, FieldError> {
    match r {
        Ok(v) => Ok(v@),
        Err(e) => Err(e),
    }
}

/// A point result seen as numbers.
pub open spec fn point_view(r: Result<(U256, U256), FieldError>) -> Result<(nat, nat), FieldError> {
    match r {
        Ok((x, y)) => Ok((x@, y@)),
        Err(e) => Err(e),
    }
}

/// `c · (u mod q) mod q == c·u mod q`, with the product regrouped.
proof fn lemma_scaled_mod(c: int, u: int, q: int)
    requires
        q > 0,
    ensures
        (c * (u % q)) % q == (c * u) % q,
{
    lemma_mul_mod_noop_right(c, u, q);
}

/// Whether (x, y) satisfies `A·x² + y² ≡ 1 + D·x²·y² (mod q)`.
pub fn is_on_curve(x: &U256, y: &U256) -> (r: bool)
    ensures
        r == on_curve(x@, y@),
{
    let q = curve_q();
    let a = U256::from_u128(168700);
    let d = U256::from_u128(168696);
    let x_sq = mod_mul(x, x, &q);
    let y_sq = mod_mul(y, y, &q);
    let lhs = mod_add(&mod_mul(&a, &x_sq, &q), &y_sq, &q);
    let rhs = mod_add(&U256::one(), &mod_mul(&mod_mul(&d, &x_sq, &q), &y_sq, &q), &q);
    proof {
        let qi = q@ as int;
        let xx = x@ as int * x@ as int;
        let yy = y@ as int * y@ as int;
        let av = curve_a() as int;
        let dv = curve_d() as int;
        lemma_scaled_mod(av, xx, qi);
        lemma_add_mod_noop(av * xx, yy, qi);
        assert(av * xx == curve_a() * x@ * x@) by (nonlinear_arith)
            requires
                av == curve_a(),
                xx == x@ as int * x@ as int,
        ;
        lemma_scaled_mod(dv, xx, qi);
        lemma_mul_mod_noop(dv * xx, yy, qi);
        assert(dv * xx * yy == curve_d() * x@ * x@ * y@ * y@) by (nonlinear_arith)
            requires
                dv == curve_d(),
                xx == x@ as int * x@ as int,
                yy == y@ as int * y@ as int,
        ;
        lemma_small_mod(1, q@);
        lemma_add_mod_noop(1, dv * xx * yy, qi);
    }
    lhs.equals(&rhs)
}

/// Twisted-Edwards addition; (0, 0) on either side returns the other point.
pub fn point_add(x1: &U256, y1: &U256, x2: &U256, y2: &U256) -> (r: Result<
    (U256, U256),
    FieldError,
>)
    ensures
        point_view(r) == point_add_spec(x1@, y1@, x2@, y2@),
{
    if x1.is_zero() && y1.is_zero() {
        return Ok((*x2, *y2));
    }
    if x2.is_zero() && y2.is_zero() {
        return Ok((*x1, *y1));
    }
    let q = curve_q();
    let a = U256::from_u128(168700);
    let d = U256::from_u128(168696);
    let x1x2 = mod_mul(x1, x2, &q);
    let y1y2 = mod_mul(y1, y2, &q);
    let dx1x2y1y2 = mod_mul(&d, &mod_mul(&x1x2, &y1y2, &q), &q);
    let x3_num = mod_add(&mod_mul(x1, y2, &q), &mod_mul(y1, x2, &q), &q);
    let y3_num = mod_sub(&y1y2, &mod_mul(&a, &x1x2, &q), &q);
    let denom_x = mod_add(&U256::one(), &dx1x2y1y2, &q);
    let denom_y = mod_sub(&U256::one(), &dx1x2y1y2, &q);
    proof {
        let qi = q@ as int;
        let p12 = x1@ as int * x2@ as int;
        let s12 = y1@ as int * y2@ as int;
        let dv = curve_d() as int;
        let av = curve_a() as int;
        lemma_mul_mod_noop(p12, s12, qi);
        lemma_scaled_mod(dv, p12 * s12, qi);
        assert(dv * (p12 * s12) == curve_d() * x1@ * x2@ * y1@ * y2@) by (nonlinear_arith)
            requires
                p12 == x1@ as int * x2@ as int,
                s12 == y1@ as int * y2@ as int,
                dv == curve_d(),
        ;
        lemma_add_mod_noop(x1@ as int * y2@ as int, y1@ as int * x2@ as int, qi);
        lemma_scaled_mod(av, p12, qi);
        lemma_sub_mod_noop(s12, av * p12, qi);
        assert(av * p12 == curve_a() * x1@ * x2@) by (nonlinear_arith)
            requires
                p12 == x1@ as int * x2@ as int,
                av == curve_a(),
        ;
    }
    let inv_dx = match mod_inverse(&denom_x, &q) {
        Ok(v) => v,
        Err(e) => {
            return Err(e);
        },
    };
    let inv_dy = match mod_inverse(&denom_y, &q) {
        Ok(v) => v,
        Err(e) => {
            return Err(e);
        },
    };
    let x3 = mod_mul(&x3_num, &inv_dx, &q);
    let y3 = mod_mul(&y3_num, &inv_dy, &q);
    proof {
        let qi = q@ as int;
        let nx = x1@ as int * y2@ as int + y1@ as int * x2@ as int;
        let ny = y1@ as int * y2@ as int - curve_a() as int * x1@ as int * x2@ as int;
        lemma_mul_mod_noop_left(nx, inv_dx@ as int, qi);
        lemma_mul_mod_noop_left(ny, inv_dy@ as int, qi);
    }
    Ok((x3, y3))
}

/// The y-coordinate of a compressed point: `delta` when `sign`, else q − delta.
pub fn recover_y(x: &U256, delta: &U256, sign: bool) -> (r: Result<U256, FieldError>)
    ensures
        value_view(r) == recover_y_spec(x@, delta@, sign),
{
    if lt_u256(&delta_max(), delta) {
        return Err(FieldError::DeltaOutOfRange);
    }
    if !is_on_curve(x, delta) {
        return Err(FieldError::PointNotOnCurve);
    }
    if sign {
        Ok(*delta)
    } else {
        let q = curve_q();
        Ok(mod_sub(&q, delta, &q))
    }
}

/// A value times its inverse is a^(q−1) mod q. (That this is 1 for every a
/// in (0, q) is Fermat's little theorem for the prime q, not shown here.)
pub proof fn law_inverse_product(a: nat)
    ensures
        (a * field_inverse(a)) % baby_jub_q() == pow(a as int, (baby_jub_q() - 1) as nat) % (
        baby_jub_q() as int),
{
    let q = baby_jub_q() as int;
    let e = (baby_jub_q() - 2) as nat;
    lemma_pow_adds(a as int, 1, e);
    lemma_pow1(a as int);
    assert((baby_jub_q() - 1) as nat == 1 + e);
    lemma_mul_mod_noop_right(a as int, pow(a as int, e), q);
}

/// Subtracting b after adding it gives a back, for a, b in [0, q).
pub proof fn law_sub_undoes_add(a: nat, b: nat)
    requires
        a < baby_jub_q(),
        b < baby_jub_q(),
    ensures
        (((a + b) % baby_jub_q()) as int - b as int) % (baby_jub_q() as int) == a,
{
    let q = baby_jub_q() as int;
    lemma_sub_mod_noop((a + b) as int, b as int, q);
    lemma_small_mod(b, baby_jub_q());
    lemma_small_mod(a, baby_jub_q());
}

/// Adding the empty accumulator (0, 0) or the identity (0, 1) to a point of
/// the curve gives the point back.
pub proof fn law_point_add_neutral(x: nat, y: nat)
    requires
        x < baby_jub_q(),
        y < baby_jub_q(),
        on_curve(x, y),
    ensures
        point_add_spec(x, y, 0, 0) == Ok::<(nat, nat), FieldError>((x, y)),
        point_add_spec(x, y, 0, 1) == Ok::<(nat, nat), FieldError>((x, y)),
{
    let q = baby_jub_q();
    lemma_small_mod(1, q);
    lemma_small_mod(0, q);
    lemma_small_mod(x, q);
    lemma_small_mod(y, q);
    assert(!(x == 0 && y == 0)) by {
        if x == 0 && y == 0 {
            assert(curve_a() * x * x + y * y == 0) by (nonlinear_arith)
                requires
                    x == 0,
                    y == 0,
            ;
            assert(1 + curve_d() * x * x * y * y == 1) by (nonlinear_arith)
                requires
                    x == 0,
                    y == 0,
            ;
        }
    }
    assert(curve_d() * x * 0 * y * 1 == 0) by (nonlinear_arith);
    assert(x * 1 + y * 0 == x && y * 1 == y && curve_a() * x * 0 == 0) by (nonlinear_arith);
    lemma1_pow((q - 2) as nat);
    assert(field_inverse(1) == 1);
}

/// Negating y keeps a point on the curve.
proof fn lemma_on_curve_negated(x: nat, y: nat)
    requires
        y < baby_jub_q(),
        on_curve(x, y),
    ensures
        on_curve(x, ((baby_jub_q() - y) % baby_jub_q() as int) as nat),
{
    let q = baby_jub_q() as int;
    let z = ((baby_jub_q() - y) % q) as nat;
    if y == 0 {
        lemma_mod_self_0(q);
        assert(z == y);
    } else {
        lemma_small_mod((baby_jub_q() - y) as nat, baby_jub_q());
        assert(z * z == q * (q - 2 * y) + y * y) by (nonlinear_arith)
            requires
                z == q - y,
        ;
        lemma_mod_multiples_vanish(q - 2 * y, (y * y) as int, q);
        let axx = (curve_a() * x * x) as int;
        let dxx = (curve_d() * x * x) as int;
        lemma_add_mod_noop(axx, (z * z) as int, q);
        lemma_add_mod_noop(axx, (y * y) as int, q);
        lemma_mul_mod_noop_right(dxx, (z * z) as int, q);
        lemma_mul_mod_noop_right(dxx, (y * y) as int, q);
        assert(curve_d() * x * x * z * z == dxx * (z * z)) by (nonlinear_arith)
            requires
                dxx == curve_d() * x * x,
        ;
        assert(curve_d() * x * x * y * y == dxx * (y * y)) by (nonlinear_arith)
            requires
                dxx == curve_d() * x * x,
        ;
        lemma_add_mod_noop(1, dxx * (z * z), q);
        lemma_add_mod_noop(1, dxx * (y * y), q);
    }
}

/// Compressing y to min(y, q − y) with its sign and recovering it gives y;
/// the other sign gives q − y; both are on the curve.
pub proof fn law_recover_compressed(x: nat, y: nat)
    requires
        x < baby_jub_q(),
        y < baby_jub_q(),
        on_curve(x, y),
    ensures
        ({
            let neg = ((baby_jub_q() - y) % baby_jub_q() as int) as nat;
            let delta = if y <= baby_jub_q() - y {
                y
            } else {
                (baby_jub_q() - y) as nat
            };
            let sign = delta == y;
            &&& recover_y_spec(x, delta, sign) == Ok::<nat, FieldError>(y)
            &&& recover_y_spec(x, delta, !sign) == Ok::<nat, FieldError>(neg)
            &&& on_curve(x, y)
            &&& on_curve(x, neg)
        }),
{
    let q = baby_jub_q();
    lemma_on_curve_negated(x, y);
    lemma_small_mod(y, q);
    if y > q - y {
        lemma_small_mod((q - y) as nat, q);
        assert(((q - (q - y)) as int) % (q as int) == y);
    }
}

/// A compressed coordinate above (q − 1) / 2 is refused, whatever x and sign.
pub proof fn law_delta_out_of_range(x: nat, delta: nat, sign: bool)
    requires
        delta > delta_max_value(),
    ensures
        recover_y_spec(x, delta, sign) == Err::<nat, FieldError>(FieldError::DeltaOutOfRange),
{
}

} // verus!
