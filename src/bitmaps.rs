//! A fixed-width set of indices below 256, held as the bits of a 256-bit number.
use crate::uint::{bit_of, U256};
use vstd::arithmetic::div_mod::*;
use vstd::arithmetic::power2::*;
use vstd::prelude::*;

verus! {

/// Number of set bits of `v` at indices below `k`.
pub open spec fn bits_below(v: nat, k: nat) -> nat
    decreases k,
{
    if k == 0 {
        0
    } else {
        bits_below(v, (k - 1) as nat) + if bit_of(v, (k - 1) as nat) {
            1nat
        } else {
            0nat
        }
    }
}

/// The indices below `k` whose bit is set in `v`.
pub open spec fn members_below(v: nat, k: nat) -> Set<nat> {
    Set::new(|i: nat| i < k && bit_of(v, i))
}

/// The value after bit `i` is set.
pub open spec fn with_bit(v: nat, i: nat) -> nat {
    if bit_of(v, i) {
        v
    } else {
        v + pow2(i)
    }
}

/// The value after bit `i` is cleared.
pub open spec fn without_bit(v: nat, i: nat) -> nat {
    if bit_of(v, i) {
        (v - pow2(i)) as nat
    } else {
        v
    }
}

/// A set of indices in [0, 256); index i is a member iff bit i of `data` is set.
#[derive(Clone, Copy, Debug)]
pub struct BitMap256 {
    pub data: U256,
}

impl BitMap256 {
    /// The empty set.
    pub fn zero() -> (r: BitMap256)
        ensures
            r.data@ == 0,
    {
        BitMap256 { data: U256::zero() }
    }

    /// The set whose number is `value`.
    pub fn from_u128(value: u128) -> (r: BitMap256)
        ensures
            r.data@ == value,
    {
        BitMap256 { data: U256::from_u128(value) }
    }

    /// Whether `index` is a member.
    pub fn get(&self, index: u32) -> (r: bool)
        requires
            index < 256,
        ensures
            r == bit_of(self.data@, index as nat),
    {
        self.data.get_bit(index)
    }

    /// Adds `index`; the number grows by 2^index unless it was already a member.
    pub fn set(&mut self, index: u32)
        requires
            index < 256,
        ensures
            final(self).data@ == with_bit(old(self).data@, index as nat),
            bit_added(old(self).data@, final(self).data@, index as nat),
    {
        self.data.set_bit(index);
    }

    /// Removes `index`; the number shrinks by 2^index if it was a member.
    pub fn unset(&mut self, index: u32)
        requires
            index < 256,
        ensures
            final(self).data@ == without_bit(old(self).data@, index as nat),
            forall|k: nat|
                k < 256 ==> #[trigger] bit_of(final(self).data@, k) == (k != index && bit_of(
                    old(self).data@,
                    k,
                )),
    {
        self.data.clear_bit(index);
    }

    /// Adds or removes `index` as `value` says.
    pub fn set_to(&mut self, index: u32, value: bool)
        requires
            index < 256,
        ensures
            final(self).data@ == if value {
                with_bit(old(self).data@, index as nat)
            } else {
                without_bit(old(self).data@, index as nat)
            },
            forall|k: nat|
                k < 256 ==> #[trigger] bit_of(final(self).data@, k) == if k == index {
                    value
                } else {
                    bit_of(old(self).data@, k)
                },
    {
        if value {
            self.set(index);
        } else {
            self.unset(index);
        }
    }

    /// Number of members below `up_to`.
    pub fn member_count_up_to(&self, up_to: u32) -> (r: u32)
        requires
            up_to <= 256,
        ensures
            r == bits_below(self.data@, up_to as nat),
    {
        let mut count: u32 = 0;
        let mut idx: u32 = 0;
        while idx < up_to
            invariant
                idx <= up_to <= 256,
                count == bits_below(self.data@, idx as nat),
                count <= idx,
            decreases up_to - idx,
        {
            if self.get(idx) {
                count = count + 1;
            }
            idx = idx + 1;
        }
        count
    }

    /// Whether the set is empty.
    pub fn is_zero(&self) -> (r: bool)
        ensures
            r == (self.data@ == 0),
    {
        self.data.is_zero()
    }
}

impl Default for BitMap256 {
    fn default() -> (r: BitMap256)
        ensures
            r.data@ == 0,
    {
        BitMap256::zero()
    }
}

impl From<U256> for BitMap256 {
    fn from(value: U256) -> (r: BitMap256)
        ensures
            r.data == value,
    {
        BitMap256 { data: value }
    }
}

impl vstd::std_specs::convert::FromSpecImpl<U256> for BitMap256 {
    open spec fn obeys_from_spec() -> bool {
        true
    }

    open spec fn from_spec(value: U256) -> BitMap256 {
        BitMap256 { data: value }
    }
}

impl From<BitMap256> for U256 {
    fn from(value: BitMap256) -> (r: U256)
        ensures
            r == value.data,
    {
        value.data
    }
}

impl vstd::std_specs::convert::FromSpecImpl<BitMap256> for U256 {
    open spec fn obeys_from_spec() -> bool {
        true
    }

    open spec fn from_spec(value: BitMap256) -> U256 {
        value.data
    }
}

/// Setting a bit makes it a member.
pub proof fn law_set_then_get(v: nat, i: nat)
    ensures
        bit_of(with_bit(v, i), i),
{
    if !bit_of(v, i) {
        lemma_pow2_pos(i);
        let p = pow2(i) as int;
        lemma_hoist_over_denominator(v as int, 1, p as nat);
        lemma_fundamental_div_mod(v as int / p, 2);
    }
}

/// Clearing a bit makes it a non-member.
pub proof fn law_unset_then_get(v: nat, i: nat)
    ensures
        !bit_of(without_bit(v, i), i),
{
    if bit_of(v, i) {
        lemma_pow2_pos(i);
        let p = pow2(i) as int;
        lemma_fundamental_div_mod(v as int, p);
        let d = v as int / p;
        assert(d >= 1) by {
            lemma_fundamental_div_mod(d, 2);
        }
        assert(v as int >= p) by (nonlinear_arith)
            requires
                v as int == p * d + v as int % p,
                v as int % p >= 0,
                d >= 1,
                p > 0,
        ;
        lemma_hoist_over_denominator((v - p) as int, 1, p as nat);
        lemma_fundamental_div_mod(v as int / p, 2);
    }
}

/// The number of members below k counts the set of members below k.
pub proof fn lemma_bits_below_counts(v: nat, k: nat)
    ensures
        members_below(v, k).finite(),
        bits_below(v, k) == members_below(v, k).len(),
    decreases k,
{
    if k == 0 {
        assert(members_below(v, 0) =~= Set::<nat>::empty());
    } else {
        let km = (k - 1) as nat;
        lemma_bits_below_counts(v, km);
        let prev = members_below(v, km);
        if bit_of(v, km) {
            assert(members_below(v, k) =~= prev.insert(km));
        } else {
            assert(members_below(v, k) =~= prev);
        }
    }
}

/// When every member lies below k, counting below k counts every member.
pub proof fn law_count_of_members_below(v: nat, k: nat)
    requires
        k <= 256,
        forall|i: nat| i < 256 && #[trigger] bit_of(v, i) ==> i < k,
    ensures
        bits_below(v, k) == members_below(v, 256).len(),
{
    lemma_bits_below_counts(v, k);
    assert(members_below(v, k) =~= members_below(v, 256));
}

/// `post` is `pre` with bit `i` set, bit by bit, as `set` ensures.
pub open spec fn bit_added(pre: nat, post: nat, i: nat) -> bool {
    forall|k: nat| k < 256 ==> #[trigger] bit_of(post, k) == (k == i || bit_of(pre, k))
}

/// After the first j sets of `indices`, the members are those indices.
proof fn lemma_members_after_sets(values: Seq<nat>, indices: Seq<nat>, j: int)
    requires
        values.len() == indices.len() + 1,
        values[0] == 0,
        0 <= j <= indices.len(),
        forall|t: int|
            #![trigger indices[t]]
            0 <= t < indices.len() ==> indices[t] < 256 && bit_added(
                values[t],
                values[t + 1],
                indices[t],
            ),
    ensures
        members_below(values[j], 256) == indices.subrange(0, j).to_set(),
    decreases j,
{
    if j == 0 {
        assert forall|k: nat| !#[trigger] members_below(values[0], 256).contains(k) by {
            lemma_pow2_pos(k);
            vstd::arithmetic::div_mod::lemma_div_of0(pow2(k) as int);
        }
        assert(members_below(values[0], 256) =~= indices.subrange(0, 0).to_set());
    } else {
        lemma_members_after_sets(values, indices, j - 1);
        let prev = indices.subrange(0, j - 1);
        let cur = indices.subrange(0, j);
        let i = indices[j - 1];
        assert(bit_added(values[j - 1], values[j], i));
        assert(cur =~= prev.push(indices[j - 1]));
        assert forall|k: nat| #[trigger] members_below(values[j], 256).contains(k)
            == cur.to_set().contains(k) by {
            assert(members_below(values[j - 1], 256).contains(k) == prev.to_set().contains(k));
            if k < 256 {
                assert(bit_of(values[j], k) == (k == i || bit_of(values[j - 1], k)));
            }
            if prev.contains(k) {
                let w = choose|w: int| 0 <= w < prev.len() && prev[w] == k;
                assert(cur[w] == k);
            }
            if cur.contains(k) {
                let w = choose|w: int| 0 <= w < cur.len() && cur[w] == k;
                assert(indices[w] == k);
                if w < j - 1 {
                    assert(prev[w] == k);
                }
            }
            if k == i {
                assert(cur[j - 1] == k);
            }
        }
        assert(members_below(values[j], 256) =~= cur.to_set());
    }
}

/// Setting the indices of `indices`, all below k, one after another on an
/// empty bitmap, leaves as many members below k as there are distinct indices.
pub proof fn law_count_after_sets(values: Seq<nat>, indices: Seq<nat>, k: nat)
    requires
        k <= 256,
        values.len() == indices.len() + 1,
        values[0] == 0,
        forall|t: int|
            #![trigger indices[t]]
            0 <= t < indices.len() ==> indices[t] < k && bit_added(
                values[t],
                values[t + 1],
                indices[t],
            ),
    ensures
        bits_below(values.last(), k) == indices.to_set().len(),
{
    let n = indices.len() as int;
    lemma_members_after_sets(values, indices, n);
    assert(indices.subrange(0, n) =~= indices);
    let last = values.last();
    assert forall|i: nat| i < 256 && #[trigger] bit_of(last, i) implies i < k by {
        assert(members_below(last, 256).contains(i));
        assert(indices.to_set().contains(i));
        let w = choose|w: int| 0 <= w < indices.len() && indices[w] == i;
        assert(indices[w] < k);
    }
    law_count_of_members_below(last, k);
}

} // verus!
