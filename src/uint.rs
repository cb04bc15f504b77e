//! A 256-bit unsigned integer held as plain bytes, with its value as a `nat`.
//!
//! Bit access is computed here; the wide arithmetic (sums and products that
//! need 512 bits, remainders, quotients and comparisons) is done by
//! cosmwasm-std's `Uint256` / `Uint512`.
use cosmwasm_std::{Uint256, Uint512};
use vstd::arithmetic::div_mod::*;
use vstd::arithmetic::power2::*;
use vstd::bits::*;
use vstd::prelude::*;

verus! {

/// Value of a little-endian byte string.
pub open spec fn le_value(s: Seq<u8>) -> nat
    decreases s.len(),
{
    if s.len() == 0 {
        0
    } else {
        s[0] as nat + 256 * le_value(s.subrange(1, s.len() as int))
    }
}

/// Whether bit `i` of `v` is set.
pub open spec fn bit_of(v: nat, i: nat) -> bool {
    (v / pow2(i)) % 2 == 1
}

/// An unsigned 256-bit integer; `bytes[0]` is the least significant byte.
#[derive(Clone, Copy, Debug)]
pub struct U256 {
    pub bytes: [u8; 32],
}

impl View for U256 {
    type V = nat;

    open spec fn view(&self) -> nat {
        le_value(self.bytes@)
    }
}

proof fn lemma_pow2_8()
    ensures
        pow2(8) == 256,
        pow2(0) == 1,
{
    lemma2_to64();
}

/// Byte `j` of a little-endian string, read back from its value.
proof fn lemma_le_byte(s: Seq<u8>, j: nat)
    requires
        j < s.len(),
    ensures
        (le_value(s) / pow2(8 * j)) % 256 == s[j as int],
    decreases j,
{
    lemma_pow2_8();
    let rest = s.subrange(1, s.len() as int);
    let v = le_value(s) as int;
    lemma_fundamental_div_mod_converse(v, 256, le_value(rest) as int, s[0] as int);
    assert(v == s[0] as int + 256 * le_value(rest) as int);
    if j == 0 {
        assert(8 * j == 0);
    } else {
        assert(rest[(j - 1) as int] == s[j as int]);
        lemma_le_byte(rest, (j - 1) as nat);
        lemma_pow2_adds(8, 8 * (j - 1) as nat);
        assert(8 * j == 8 + 8 * (j - 1) as nat) by (nonlinear_arith)
            requires
                j > 0,
        ;
        lemma_pow2_pos(8 * (j - 1) as nat);
        lemma_div_denominator(v, 256, pow2(8 * (j - 1) as nat) as int);
    }
}

/// Replacing byte `j` moves the value by the difference times 2^(8j).
proof fn lemma_le_update(s: Seq<u8>, j: nat, b: u8)
    requires
        j < s.len(),
    ensures
        le_value(s.update(j as int, b)) as int == le_value(s) as int + (b as int - s[j as int] as int)
            * pow2(8 * j) as int,
    decreases j,
{
    lemma_pow2_8();
    let t = s.update(j as int, b);
    let rest = s.subrange(1, s.len() as int);
    let trest = t.subrange(1, t.len() as int);
    assert(le_value(t) == t[0] as nat + 256 * le_value(trest));
    assert(le_value(s) == s[0] as nat + 256 * le_value(rest));
    if j == 0 {
        assert(trest =~= rest);
        assert(8 * j == 0);
    } else {
        assert(trest =~= rest.update(j - 1, b));
        lemma_le_update(rest, (j - 1) as nat, b);
        lemma_pow2_adds(8, 8 * (j - 1) as nat);
        assert(8 * j == 8 + 8 * (j - 1) as nat) by (nonlinear_arith)
            requires
                j > 0,
        ;
        let p = pow2(8 * (j - 1) as nat) as int;
        let d = b as int - s[j as int] as int;
        assert(256 * (le_value(rest) as int + d * p) == 256 * le_value(rest) as int + d * (256
            * p)) by (nonlinear_arith);
    }
}

/// A byte string has value zero exactly when all its bytes are zero.
proof fn lemma_le_zero(s: Seq<u8>)
    ensures
        (le_value(s) == 0) <==> (forall|i: int| 0 <= i < s.len() ==> s[i] == 0),
    decreases s.len(),
{
    if s.len() > 0 {
        let rest = s.subrange(1, s.len() as int);
        lemma_le_zero(rest);
        if le_value(s) == 0 {
            assert forall|i: int| 0 <= i < s.len() implies s[i] == 0 by {
                if i > 0 {
                    assert(s[i] == rest[i - 1]);
                }
            }
        }
        if forall|i: int| 0 <= i < s.len() ==> s[i] == 0 {
            assert forall|i: int| 0 <= i < rest.len() implies rest[i] == 0 by {
                assert(rest[i] == s[i + 1]);
            }
        }
    }
}

/// Two byte strings of one length with one value are equal.
proof fn lemma_le_injective(s: Seq<u8>, t: Seq<u8>)
    requires
        s.len() == t.len(),
        le_value(s) == le_value(t),
    ensures
        s =~= t,
{
    assert forall|i: int| 0 <= i < s.len() implies s[i] == t[i] by {
        lemma_le_byte(s, i as nat);
        lemma_le_byte(t, i as nat);
    }
}

/// Bit 8j + r of a value is bit r of its byte j.
proof fn lemma_bit_in_byte(v: nat, j: nat, r: nat)
    requires
        r < 8,
    ensures
        bit_of(v, 8 * j + r) == ((((v / pow2(8 * j)) % 256) / pow2(r)) % 2 == 1),
{
    lemma_pow2_8();
    lemma_pow2_pos(8 * j);
    lemma_pow2_pos(r);
    lemma_pow2_adds(8 * j, r);
    lemma_div_denominator(v as int, pow2(8 * j) as int, pow2(r) as int);
    let w = (v / pow2(8 * j)) as int;
    let a = w / 256;
    let c = w % 256;
    lemma_fundamental_div_mod(w, 256);
    let pr = pow2(r) as int;
    let hi = pow2((8 - r) as nat) as int;
    lemma_pow2_adds(r, (8 - r) as nat);
    assert(pr * hi == 256);
    lemma_pow2_adds(1, (7 - r) as nat);
    lemma2_to64();
    let h = pow2((7 - r) as nat) as int;
    assert(hi == 2 * h);
    assert(w == pr * (a * hi) + c) by (nonlinear_arith)
        requires
            w == 256 * a + c,
            pr * hi == 256,
    ;
    lemma_hoist_over_denominator(c, a * hi, pr as nat);
    assert(w / pr == c / pr + a * hi);
    assert(c / pr + a * hi == 2 * (a * h) + c / pr) by (nonlinear_arith)
        requires
            hi == 2 * h,
    ;
    lemma_mod_multiples_vanish(a * h, c / pr, 2);
}

/// Bit `r` of a byte, as a shift and a mask.
proof fn lemma_byte_bit(b: u8, r: u8)
    requires
        r < 8,
    ensures
        (((b >> r) & 1) == 1) == ((b as nat / pow2(r as nat)) % 2 == 1),
{
    lemma_u8_shr_is_div(b, r);
    let y = b >> r;
    assert(y & 1 == y % 2) by (bit_vector);
}

/// Bit `i` of a value held as bytes, read from byte i / 8.
proof fn lemma_bit_of_bytes(s: Seq<u8>, i: nat)
    requires
        s.len() == 32,
        i < 256,
    ensures
        bit_of(le_value(s), i) == (((s[(i / 8) as int] >> ((i % 8) as u8)) & 1) == 1),
{
    let j = i / 8;
    let r = i % 8;
    lemma_le_byte(s, j);
    lemma_bit_in_byte(le_value(s), j, r);
    assert(i == 8 * j + r);
    lemma_byte_bit(s[j as int], r as u8);
}

impl U256 {
    /// The number zero.
    pub fn zero() -> (r: U256)
        ensures
            r@ == 0,
    {
        let r = U256 { bytes: [0u8; 32] };
        proof {
            lemma_le_zero(r.bytes@);
        }
        r
    }

    /// The number one.
    pub fn one() -> (r: U256)
        ensures
            r@ == 1,
    {
        let mut bytes = [0u8; 32];
        proof {
            lemma_le_zero(bytes@);
            lemma_le_update(bytes@, 0, 1);
            lemma_pow2_8();
        }
        bytes[0] = 1;
        U256 { bytes }
    }

    /// The number whose little-endian bytes are given.
    pub fn from_le_bytes(bytes: [u8; 32]) -> (r: U256)
        ensures
            r@ == le_value(bytes@),
    {
        U256 { bytes }
    }

    /// The little-endian bytes of this number.
    pub fn to_le_bytes(&self) -> (r: [u8; 32])
        ensures
            le_value(r@) == self@,
    {
        self.bytes
    }

    /// Whether this number is zero.
    pub fn is_zero(&self) -> (r: bool)
        ensures
            r == (self@ == 0),
    {
        proof {
            lemma_le_zero(self.bytes@);
        }
        let mut i: usize = 0;
        while i < 32
            invariant
                i <= 32,
                forall|k: int| 0 <= k < i ==> self.bytes@[k] == 0,
            decreases 32 - i,
        {
            if self.bytes[i] != 0 {
                proof {
                    lemma_le_zero(self.bytes@);
                    assert(self.bytes@[i as int] != 0);
                }
                return false;
            }
            i = i + 1;
        }
        true
    }

    /// Whether the two numbers are equal.
    pub fn equals(&self, other: &U256) -> (r: bool)
        ensures
            r == (self@ == other@),
    {
        let mut i: usize = 0;
        while i < 32
            invariant
                i <= 32,
                forall|k: int| 0 <= k < i ==> self.bytes@[k] == other.bytes@[k],
            decreases 32 - i,
        {
            if self.bytes[i] != other.bytes[i] {
                proof {
                    if self@ == other@ {
                        lemma_le_injective(self.bytes@, other.bytes@);
                    }
                }
                return false;
            }
            i = i + 1;
        }
        proof {
            assert(self.bytes@ =~= other.bytes@);
        }
        true
    }

    /// Bit `i` of this number.
    pub fn get_bit(&self, i: u32) -> (r: bool)
        requires
            i < 256,
        ensures
            r == bit_of(self@, i as nat),
    {
        let j = (i / 8) as usize;
        let s = (i % 8) as u8;
        proof {
            lemma_bit_of_bytes(self.bytes@, i as nat);
        }
        (self.bytes[j] >> s) & 1 == 1
    }
    /// This number with bit `i` set.
    pub fn set_bit(&mut self, i: u32)
        requires
            i < 256,
        ensures
            final(self)@ == if bit_of(old(self)@, i as nat) {
                old(self)@
            } else {
                old(self)@ + pow2(i as nat)
            },
            forall|k: nat| k < 256 ==> #[trigger] bit_of(final(self)@, k) == (k == i || bit_of(old(self)@, k)),
    {
        let j = (i / 8) as usize;
        let s = (i % 8) as u8;
        let b = self.bytes[j];
        let nb = b | (1u8 << s);
        proof {
            let old_bytes = self.bytes@;
            let new_bytes = old_bytes.update(j as int, nb);
            lemma_bit_of_bytes(old_bytes, i as nat);
            assert(b == old_bytes[j as int]);
            assert((i as nat / 8) as int == j as int && ((i as nat % 8) as u8) == s);
            lemma_le_update(old_bytes, j as nat, nb);
            lemma_shifted_one(s);
            assert(((b >> s) & 1) == 1 ==> nb == b) by (bit_vector)
                requires
                    s < 8,
                    nb == b | (1u8 << s),
            ;
            assert(((b >> s) & 1) != 1 ==> nb == b + (1u8 << s)) by (bit_vector)
                requires
                    s < 8,
                    nb == b | (1u8 << s),
            ;
            lemma_pow2_adds(8 * (j as nat), s as nat);
            assert(i as nat == 8 * (j as nat) + s as nat);
            assert(pow2(i as nat) == pow2(8 * (j as nat)) * pow2(s as nat));
            assert(bit_of(le_value(old_bytes), i as nat) == (((b >> s) & 1) == 1));
            assert forall|k: nat| k < 256 implies #[trigger] bit_of(le_value(new_bytes), k) == (k == i
                || bit_of(le_value(old_bytes), k)) by {
                lemma_bit_of_bytes(old_bytes, k);
                lemma_bit_of_bytes(new_bytes, k);
                let t = (k % 8) as u8;
                if k / 8 == j {
                    assert(((nb >> t) & 1 == 1) == (t == s || (b >> t) & 1 == 1)) by (bit_vector)
                        requires
                            s < 8,
                            t < 8,
                            nb == b | (1u8 << s),
                    ;
                }
            }
        }
        self.bytes[j] = nb;
        proof {
            assert(self.bytes@ =~= old(self).bytes@.update(j as int, nb));
            if bit_of(old(self)@, i as nat) {
                assert(nb == b);
                assert(self.bytes@ =~= old(self).bytes@);
            } else {
                let pj = pow2(8 * (j as nat)) as int;
                let ps = pow2(s as nat) as int;
                assert(nb as int - b as int == ps);
                assert((nb as int - b as int) * pj == ps * pj) by (nonlinear_arith)
                    requires
                        nb as int - b as int == ps,
                ;
                assert(pow2(i as nat) == pj * ps);
                assert(ps * pj == pj * ps) by (nonlinear_arith);
                assert(self@ == old(self)@ + pow2(i as nat));
            }
        }
    }

    /// This number with bit `i` cleared.
    pub fn clear_bit(&mut self, i: u32)
        requires
            i < 256,
        ensures
            final(self)@ == if bit_of(old(self)@, i as nat) {
                old(self)@ - pow2(i as nat)
            } else {
                old(self)@ as int
            },
            forall|k: nat| k < 256 ==> #[trigger] bit_of(final(self)@, k) == (k != i && bit_of(old(self)@, k)),
    {
        let j = (i / 8) as usize;
        let s = (i % 8) as u8;
        let b = self.bytes[j];
        let nb = b & !(1u8 << s);
        proof {
            let old_bytes = self.bytes@;
            let new_bytes = old_bytes.update(j as int, nb);
            lemma_bit_of_bytes(old_bytes, i as nat);
            assert(b == old_bytes[j as int]);
            assert((i as nat / 8) as int == j as int && ((i as nat % 8) as u8) == s);
            lemma_le_update(old_bytes, j as nat, nb);
            lemma_shifted_one(s);
            assert(((b >> s) & 1) != 1 ==> nb == b) by (bit_vector)
                requires
                    s < 8,
                    nb == b & !(1u8 << s),
            ;
            assert(((b >> s) & 1) == 1 ==> b == nb + (1u8 << s)) by (bit_vector)
                requires
                    s < 8,
                    nb == b & !(1u8 << s),
            ;
            lemma_pow2_adds(8 * (j as nat), s as nat);
            assert(i as nat == 8 * (j as nat) + s as nat);
            assert(pow2(i as nat) == pow2(8 * (j as nat)) * pow2(s as nat));
            assert(bit_of(le_value(old_bytes), i as nat) == (((b >> s) & 1) == 1));
            assert forall|k: nat| k < 256 implies #[trigger] bit_of(le_value(new_bytes), k) == (k != i
                && bit_of(le_value(old_bytes), k)) by {
                lemma_bit_of_bytes(old_bytes, k);
                lemma_bit_of_bytes(new_bytes, k);
                let t = (k % 8) as u8;
                if k / 8 == j {
                    assert(((nb >> t) & 1 == 1) == (t != s && (b >> t) & 1 == 1)) by (bit_vector)
                        requires
                            s < 8,
                            t < 8,
                            nb == b & !(1u8 << s),
                    ;
                }
            }
        }
        self.bytes[j] = nb;
        proof {
            assert(self.bytes@ =~= old(self).bytes@.update(j as int, nb));
            if bit_of(old(self)@, i as nat) {
                let pj = pow2(8 * (j as nat)) as int;
                let ps = pow2(s as nat) as int;
                assert(nb as int - b as int == -ps);
                assert((nb as int - b as int) * pj == -(ps * pj)) by (nonlinear_arith)
                    requires
                        nb as int - b as int == -ps,
                ;
                assert(self@ as int == old(self)@ as int + (nb as int - b as int) * pj);
                assert(pow2(i as nat) == pj * ps);
                assert(ps * pj == pj * ps) by (nonlinear_arith);
                assert(self@ == old(self)@ - pow2(i as nat));
            } else {
                assert(nb == b);
                assert(self.bytes@ =~= old(self).bytes@);
            }
        }
    }

    /// The number given as a `u128`.
    pub fn from_u128(v: u128) -> (r: U256)
        ensures
            r@ == v,
    {
        cw_from_u128(v)
    }
}

/// `1 << s` within a byte is 2^s.
proof fn lemma_shifted_one(s: u8)
    requires
        s < 8,
    ensures
        (1u8 << s) as nat == pow2(s as nat),
{
    lemma2_to64();
    if s == 0 {
        assert(1u8 << 0u8 == 1) by (bit_vector);
    } else if s == 1 {
        assert(1u8 << 1u8 == 2) by (bit_vector);
    } else if s == 2 {
        assert(1u8 << 2u8 == 4) by (bit_vector);
    } else if s == 3 {
        assert(1u8 << 3u8 == 8) by (bit_vector);
    } else if s == 4 {
        assert(1u8 << 4u8 == 16) by (bit_vector);
    } else if s == 5 {
        assert(1u8 << 5u8 == 32) by (bit_vector);
    } else if s == 6 {
        assert(1u8 << 6u8 == 64) by (bit_vector);
    } else {
        assert(1u8 << 7u8 == 128) by (bit_vector);
    }
}

/// Relies on cosmwasm-std's `Uint256::from_u128`: the same number, taken
/// back as its little-endian bytes.
#[verifier::external_body]
fn cw_from_u128(v: u128) -> (r: U256)
    ensures
        r@ == v,
{
    U256 { bytes: Uint256::from_u128(v).to_le_bytes() }
}

/// Relies on `Uint512`'s `+` and `%` (cosmwasm-std): the exact sum of two
/// 256-bit numbers, reduced by `m`; the remainder fits back into 256 bits.
#[verifier::external_body]
pub(crate) fn add_rem(a: &U256, b: &U256, m: &U256) -> (r: U256)
    requires
        m@ > 0,
    ensures
        r@ == (a@ + b@) % m@,
{
    let sum = Uint512::from(Uint256::from_le_bytes(a.bytes)) + Uint512::from(
        Uint256::from_le_bytes(b.bytes),
    );
    let rem = sum % Uint512::from(Uint256::from_le_bytes(m.bytes));
    U256 { bytes: Uint256::try_from(rem).unwrap().to_le_bytes() }
}

/// Relies on `Uint256::full_mul` and `Uint512`'s `%` (cosmwasm-std): the
/// exact 512-bit product, reduced by `m`; the remainder fits back into 256 bits.
#[verifier::external_body]
pub(crate) fn mul_rem(a: &U256, b: &U256, m: &U256) -> (r: U256)
    requires
        m@ > 0,
    ensures
        r@ == (a@ * b@) % m@,
{
    let product = Uint256::from_le_bytes(a.bytes).full_mul(Uint256::from_le_bytes(b.bytes));
    let rem = product % Uint512::from(Uint256::from_le_bytes(m.bytes));
    U256 { bytes: Uint256::try_from(rem).unwrap().to_le_bytes() }
}

/// Relies on `Uint256`'s `-` (cosmwasm-std), which panics on underflow.
#[verifier::external_body]
pub(crate) fn sub_u256(a: &U256, b: &U256) -> (r: U256)
    requires
        b@ <= a@,
    ensures
        r@ == a@ - b@,
{
    let d = Uint256::from_le_bytes(a.bytes) - Uint256::from_le_bytes(b.bytes);
    U256 { bytes: d.to_le_bytes() }
}

/// Relies on `Uint256`'s `%` (cosmwasm-std), which panics on a zero divisor.
#[verifier::external_body]
pub(crate) fn rem_u256(a: &U256, m: &U256) -> (r: U256)
    requires
        m@ > 0,
    ensures
        r@ == a@ % m@,
{
    let r = Uint256::from_le_bytes(a.bytes) % Uint256::from_le_bytes(m.bytes);
    U256 { bytes: r.to_le_bytes() }
}

/// Relies on `Uint256::checked_div` (cosmwasm-std): the quotient, rounded
/// down; it only fails on a zero divisor.
#[verifier::external_body]
pub(crate) fn div_u256(a: &U256, d: &U256) -> (r: U256)
    requires
        d@ > 0,
    ensures
        r@ == a@ / d@,
{
    let q = Uint256::from_le_bytes(a.bytes).checked_div(Uint256::from_le_bytes(d.bytes)).unwrap();
    U256 { bytes: q.to_le_bytes() }
}

/// Relies on the numeric order of cosmwasm-std's `Uint256` (`<`).
#[verifier::external_body]
pub(crate) fn lt_u256(a: &U256, b: &U256) -> (r: bool)
    ensures
        r == (a@ < b@),
{
    Uint256::from_le_bytes(a.bytes) < Uint256::from_le_bytes(b.bytes)
}

/// The value of 32 bytes, written out as a weighted sum.
pub proof fn lemma_le_value_32(s: Seq<u8>)
    requires
        s.len() == 32,
    ensures
        le_value(s) == s[0] as nat
            + 256 * s[1] as nat
            + 65536 * s[2] as nat
            + 16777216 * s[3] as nat
            + 4294967296 * s[4] as nat
            + 1099511627776 * s[5] as nat
            + 281474976710656 * s[6] as nat
            + 72057594037927936 * s[7] as nat
            + 18446744073709551616 * s[8] as nat
            + 4722366482869645213696 * s[9] as nat
            + 1208925819614629174706176 * s[10] as nat
            + 309485009821345068724781056 * s[11] as nat
            + 79228162514264337593543950336 * s[12] as nat
            + 20282409603651670423947251286016 * s[13] as nat
            + 5192296858534827628530496329220096 * s[14] as nat
            + 1329227995784915872903807060280344576 * s[15] as nat
            + 340282366920938463463374607431768211456 * s[16] as nat
            + 87112285931760246646623899502532662132736 * s[17] as nat
            + 22300745198530623141535718272648361505980416 * s[18] as nat
            + 5708990770823839524233143877797980545530986496 * s[19] as nat
            + 1461501637330902918203684832716283019655932542976 * s[20] as nat
            + 374144419156711147060143317175368453031918731001856 * s[21] as nat
            + 95780971304118053647396689196894323976171195136475136 * s[22] as nat
            + 24519928653854221733733552434404946937899825954937634816 * s[23] as nat
            + 6277101735386680763835789423207666416102355444464034512896 * s[24] as nat
            + 1606938044258990275541962092341162602522202993782792835301376 * s[25] as nat
            + 411376139330301510538742295639337626245683966408394965837152256 * s[26] as nat
            + 105312291668557186697918027683670432318895095400549111254310977536 * s[27] as nat
            + 26959946667150639794667015087019630673637144422540572481103610249216 * s[28] as nat
            + 6901746346790563787434755862277025452451108972170386555162524223799296 * s[29] as nat
            + 1766847064778384329583297500742918515827483896875618958121606201292619776 * s[30] as nat
            + 452312848583266388373324160190187140051835877600158453279131187530910662656 * s[31] as nat,
{
    reveal_with_fuel(le_value, 33);
}

impl PartialEq for U256 {
    fn eq(&self, other: &U256) -> (r: bool)
        ensures
            r == (self@ == other@),
    {
        self.equals(other)
    }
}

impl vstd::std_specs::cmp::PartialEqSpecImpl for U256 {
    open spec fn obeys_eq_spec() -> bool {
        true
    }

    open spec fn eq_spec(&self, other: &U256) -> bool {
        self@ == other@
    }
}

impl Eq for U256 {

}

} // verus!
