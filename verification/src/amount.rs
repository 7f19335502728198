use vstd::prelude::*;

use crate::errors::EngineError;

verus! {

/// A fixed-width unsigned value. All arithmetic on this type is checked:
/// overflow is reported, never silently wrapped. The deliberate-wraparound
/// path of the overflow builder works on raw `u64` values instead, so it
/// cannot be reached through this type by accident.
#[derive(Clone, Copy, PartialEq, Eq, Structural, Debug)]
pub struct Amount {
    pub value: u64,
}

/// The raw denominations carried by a sequence of amounts.
pub open spec fn amounts(s: Seq<Amount>) -> Seq<u64> {
    s.map_values(|a: Amount| a.value)
}

/// Mathematical (unbounded) sum of a sequence of denominations.
pub open spec fn sum64(s: Seq<u64>) -> int
    decreases s.len(),
{
    if s.len() == 0 {
        0
    } else {
        sum64(s.drop_last()) + s.last()
    }
}

/// Sum of a sequence of denominations, wrapping modulo 2^64: the naive
/// accumulation a mint performs when it does not use checked arithmetic.
pub open spec fn wrap_sum(s: Seq<u64>) -> u64
    decreases s.len(),
{
    if s.len() == 0 {
        0u64
    } else {
        ((wrap_sum(s.drop_last()) + s.last()) % 0x1_0000_0000_0000_0000) as u64
    }
}

/// Whether a denomination is a power of two.
pub open spec fn is_pow2(n: u64) -> bool
    decreases n,
{
    if n == 0 {
        false
    } else if n == 1 {
        true
    } else {
        n % 2 == 0 && is_pow2(n / 2)
    }
}

/// Doubling that stays total on `u64`; callers only rely on it below 2^63.
pub open spec fn double(scale: u64) -> u64 {
    if scale < 0x8000_0000_0000_0000 {
        (scale * 2) as u64
    } else {
        0
    }
}

/// The canonical binary decomposition of `a`, scaled by `scale`: one
/// denomination `scale * 2^k` per set bit of `a`, in ascending order.
pub open spec fn split_rec(a: u64, scale: u64) -> Seq<u64>
    decreases a,
{
    if a == 0 {
        Seq::empty()
    } else {
        (if a % 2 == 1 {
            seq![scale]
        } else {
            Seq::empty()
        }) + split_rec(a / 2, double(scale))
    }
}

/// The decomposition used on the safe path.
pub open spec fn spec_split(a: u64) -> Seq<u64> {
    split_rec(a, 1)
}

pub proof fn lemma_sum64_nonneg(s: Seq<u64>)
    ensures
        sum64(s) >= 0,
    decreases s.len(),
{
    if s.len() > 0 {
        lemma_sum64_nonneg(s.drop_last());
    }
}

pub proof fn lemma_sum64_singleton(x: u64)
    ensures
        sum64(seq![x]) == x,
{
    assert(sum64(Seq::<u64>::empty()) == 0);
    assert(seq![x].drop_last() =~= Seq::<u64>::empty());
    assert(seq![x].last() == x);
}

pub proof fn lemma_sum64_push(s: Seq<u64>, x: u64)
    ensures
        sum64(s.push(x)) == sum64(s) + x,
{
    assert(s.push(x).drop_last() =~= s);
}

pub proof fn lemma_sum64_concat(x: Seq<u64>, y: Seq<u64>)
    ensures
        sum64(x + y) == sum64(x) + sum64(y),
    decreases y.len(),
{
    if y.len() == 0 {
        assert(x + y =~= x);
    } else {
        lemma_sum64_concat(x, y.drop_last());
        assert((x + y).drop_last() =~= x + y.drop_last());
        assert((x + y).last() == y.last());
    }
}

/// A prefix never sums to more than the whole sequence.
pub proof fn lemma_sum64_take_le(s: Seq<u64>, k: int)
    requires
        0 <= k <= s.len(),
    ensures
        sum64(s.take(k)) <= sum64(s),
    decreases s.len() - k,
{
    if k == s.len() {
        assert(s.take(k) =~= s);
    } else {
        lemma_sum64_take_le(s, k + 1);
        assert(s.take(k + 1).drop_last() =~= s.take(k));
        assert(s.take(k + 1).last() == s[k]);
    }
}

/// The scaled decomposition sums back exactly to the scaled value.
pub proof fn lemma_split_sum(a: u64, scale: u64)
    requires
        a * scale <= u64::MAX,
    ensures
        sum64(split_rec(a, scale)) == a * scale,
    decreases a,
{
    if a == 0 {
        assert(a * scale == 0) by (nonlinear_arith)
            requires
                a == 0,
        ;
    } else if a == 1 {
        assert(split_rec(0, double(scale)) =~= Seq::<u64>::empty());
        assert(split_rec(1, scale) =~= seq![scale] + split_rec(0, double(scale)));
        lemma_sum64_concat(seq![scale], split_rec(0, double(scale)));
        lemma_sum64_singleton(scale);
        assert(1 * scale == scale) by (nonlinear_arith);
    } else {
        assert(2 * scale <= a * scale) by (nonlinear_arith)
            requires
                a >= 2,
                scale >= 0,
        ;
        assert(scale < 0x8000_0000_0000_0000);
        let s2 = double(scale);
        assert(s2 == 2 * scale);
        assert((a / 2) * s2 + (a % 2) * scale == a * scale) by (nonlinear_arith)
            requires
                a >= 2,
                s2 == 2 * scale,
        ;
        assert((a / 2) * s2 <= a * scale) by (nonlinear_arith)
            requires
                (a / 2) * s2 + (a % 2) * scale == a * scale,
                a % 2 >= 0,
                scale >= 0,
        ;
        lemma_split_sum(a / 2, s2);
        let head = if a % 2 == 1 {
            seq![scale]
        } else {
            Seq::<u64>::empty()
        };
        lemma_sum64_concat(head, split_rec(a / 2, s2));
        if a % 2 == 1 {
            lemma_sum64_singleton(scale);
        }
    }
}

/// Every part of the scaled decomposition is a power of two at least `scale`.
pub proof fn lemma_split_pow2(a: u64, scale: u64)
    requires
        is_pow2(scale),
        a * scale <= u64::MAX,
    ensures
        forall|i: int|
            0 <= i < split_rec(a, scale).len() ==> is_pow2(split_rec(a, scale)[i])
                && scale <= split_rec(a, scale)[i],
    decreases a,
{
    if a == 0 {
        assert(split_rec(a, scale) =~= Seq::<u64>::empty());
    } else if a / 2 == 0 {
        assert(split_rec(0, double(scale)) =~= Seq::<u64>::empty());
        assert(split_rec(a, scale) =~= seq![scale]);
    } else {
        assert(2 * scale <= a * scale) by (nonlinear_arith)
            requires
                a >= 2,
                scale >= 1,
        ;
        let s2 = double(scale);
        assert(s2 == 2 * scale);
        assert(is_pow2(s2)) by {
            assert(s2 % 2 == 0 && s2 / 2 == scale);
        }
        assert((a / 2) * s2 <= a * scale) by (nonlinear_arith)
            requires
                s2 == 2 * scale,
                a >= 2,
                scale >= 0,
        ;
        lemma_split_pow2(a / 2, s2);
        let head = if a % 2 == 1 {
            seq![scale]
        } else {
            Seq::<u64>::empty()
        };
        let tail = split_rec(a / 2, s2);
        assert(split_rec(a, scale) =~= head + tail);
        assert forall|i: int|
            0 <= i < split_rec(a, scale).len() implies is_pow2(split_rec(a, scale)[i]) && scale
            <= split_rec(a, scale)[i] by {
            if i < head.len() {
                assert(split_rec(a, scale)[i] == scale);
            } else {
                assert(split_rec(a, scale)[i] == tail[i - head.len()]);
                assert(is_pow2(tail[i - head.len()]) && s2 <= tail[i - head.len()]);
            }
        }
    }
}

/// Every shifted-in power of two below the width satisfies `is_pow2`.
pub proof fn lemma_shl_is_pow2(k: u64)
    requires
        k < 64,
    ensures
        is_pow2(1u64 << k),
    decreases k,
{
    if k == 0 {
        assert(1u64 << 0u64 == 1) by (bit_vector);
    } else {
        lemma_shl_is_pow2((k - 1) as u64);
        let n = 1u64 << k;
        let m = 1u64 << ((k - 1) as u64);
        assert(1u64 << k == 2 * (1u64 << ((k - 1) as u64)) && 1u64 << ((k - 1) as u64) != 0)
            by (bit_vector)
            requires
                1 <= k < 64,
        ;
        assert(n % 2 == 0 && n / 2 == m);
    }
}

/// Decomposing a power of two yields exactly that one denomination.
pub proof fn lemma_split_single(a: u64, scale: u64)
    requires
        is_pow2(a),
        a * scale <= u64::MAX,
        scale >= 1,
    ensures
        split_rec(a, scale) =~= seq![(a * scale) as u64],
    decreases a,
{
    if a == 1 {
        assert(split_rec(0, double(scale)) =~= Seq::<u64>::empty());
        assert(split_rec(1, scale) =~= seq![scale] + split_rec(0, double(scale)));
        assert(1 * scale == scale) by (nonlinear_arith);
    } else {
        assert(2 * scale <= a * scale) by (nonlinear_arith)
            requires
                a >= 2,
                scale >= 1,
        ;
        let s2 = double(scale);
        assert(s2 == 2 * scale);
        assert((a / 2) * s2 == a * scale) by (nonlinear_arith)
            requires
                a % 2 == 0,
                s2 == 2 * scale,
        ;
        lemma_split_single(a / 2, s2);
        assert(split_rec(a, scale) =~= Seq::<u64>::empty() + split_rec(a / 2, s2));
    }
}

/// Law: for every amount, the canonical decomposition sums back to the amount
/// under unbounded arithmetic, so the checked sum of the parts is defined and
/// returns the amount (round-trip).
pub proof fn lemma_split_roundtrip(a: Amount)
    ensures
        sum64(spec_split(a.value)) == a.value,
{
    assert(a.value * 1 == a.value) by (nonlinear_arith);
    lemma_split_sum(a.value, 1);
}

impl Amount {
    /// Checked addition: reports overflow instead of wrapping.
    pub fn checked_add(self, other: Amount) -> (r: Option<Amount>)
        ensures
            (r is Some) <==> self.value + other.value <= u64::MAX,
            r matches Some(s) ==> s.value == self.value + other.value,
    {
        if u64::MAX - self.value < other.value {
            None
        } else {
            Some(Amount { value: self.value + other.value })
        }
    }

    /// Checked summation, mandatory on the safe path: the sum is exact or the
    /// call fails with `AmountOverflow`.
    pub fn try_sum(parts: &Vec<Amount>) -> (r: Result<Amount, EngineError>)
        ensures
            (r is Ok) <==> sum64(amounts(parts@)) <= u64::MAX,
            r matches Ok(total) ==> total.value == sum64(amounts(parts@)),
            r matches Err(e) ==> e == EngineError::AmountOverflow,
    {
        let ghost vals = amounts(parts@);
        let mut acc: u64 = 0;
        let mut i: usize = 0;
        while i < parts.len()
            invariant
                0 <= i <= parts.len(),
                vals == amounts(parts@),
                vals.len() == parts.len(),
                acc == sum64(vals.take(i as int)),
            decreases parts.len() - i,
        {
            let x = parts[i].value;
            proof {
                assert(vals[i as int] == x);
                assert(vals.take(i + 1).drop_last() =~= vals.take(i as int));
                assert(vals.take(i + 1).last() == x);
            }
            if u64::MAX - acc < x {
                proof {
                    lemma_sum64_take_le(vals, i + 1);
                }
                return Err(EngineError::AmountOverflow);
            }
            acc = acc + x;
            i = i + 1;
        }
        proof {
            assert(vals.take(parts.len() as int) =~= vals);
        }
        Ok(Amount { value: acc })
    }

    /// Canonical binary decomposition: one power-of-two denomination per set
    /// bit, in ascending order. The parts sum back to the amount exactly.
    pub fn split(self) -> (r: Vec<Amount>)
        ensures
            amounts(r@) == spec_split(self.value),
            sum64(amounts(r@)) == self.value,
            forall|i: int| 0 <= i < r@.len() ==> is_pow2(#[trigger] r@[i].value),
    {
        let mut out: Vec<Amount> = Vec::new();
        let mut cur: u64 = self.value;
        let mut scale: u64 = 1;
        proof {
            assert(amounts(out@) =~= Seq::<u64>::empty());
            lemma_sum64_nonneg(amounts(out@));
            assert(cur * scale == cur) by (nonlinear_arith)
                requires
                    scale == 1,
            ;
        }
        while cur > 0
            invariant
                1 <= scale,
                sum64(amounts(out@)) + cur * scale == self.value,
                sum64(amounts(out@)) >= 0,
                spec_split(self.value) =~= amounts(out@) + split_rec(cur, scale),
            decreases cur,
        {
            let ghost pre = amounts(out@);
            let ghost pre_cur = cur;
            let ghost pre_scale = scale;
            if cur % 2 == 1 {
                out.push(Amount { value: scale });
                proof {
                    assert(amounts(out@) =~= pre.push(pre_scale));
                    lemma_sum64_push(pre, pre_scale);
                }
            }
            cur = cur / 2;
            if cur > 0 {
                proof {
                    assert(2 * pre_scale <= pre_cur * pre_scale) by (nonlinear_arith)
                        requires
                            pre_cur >= 2,
                            pre_scale >= 1,
                    ;
                    assert(pre_cur * pre_scale <= u64::MAX) by {
                        lemma_sum64_nonneg(pre);
                    }
                }
                scale = scale * 2;
            }
            proof {
                let head = if pre_cur % 2 == 1 {
                    seq![pre_scale]
                } else {
                    Seq::<u64>::empty()
                };
                assert(split_rec(pre_cur, pre_scale) =~= head + split_rec(
                    pre_cur / 2,
                    double(pre_scale),
                ));
                if cur > 0 {
                    assert(double(pre_scale) == scale);
                } else {
                    assert(split_rec(cur, double(pre_scale)) =~= Seq::<u64>::empty());
                    assert(split_rec(cur, scale) =~= Seq::<u64>::empty());
                }
                assert(spec_split(self.value) =~= amounts(out@) + split_rec(cur, scale));
                assert((pre_cur / 2) * (2 * pre_scale) + (pre_cur % 2) * pre_scale == pre_cur
                    * pre_scale) by (nonlinear_arith);
                if pre_cur % 2 == 1 {
                    assert((pre_cur % 2) * pre_scale == pre_scale) by (nonlinear_arith)
                        requires
                            pre_cur % 2 == 1,
                    ;
                } else {
                    assert((pre_cur % 2) * pre_scale == 0) by (nonlinear_arith)
                        requires
                            pre_cur % 2 == 0,
                    ;
                }
                lemma_sum64_nonneg(amounts(out@));
            }
        }
        proof {
            assert(split_rec(0u64, scale) =~= Seq::<u64>::empty());
            assert(amounts(out@) + Seq::<u64>::empty() =~= amounts(out@));
            assert(cur * scale == 0) by (nonlinear_arith)
                requires
                    cur == 0,
            ;
            assert(self.value * 1 <= u64::MAX) by (nonlinear_arith);
            assert(is_pow2(1u64));
            lemma_split_pow2(self.value, 1);
            assert forall|i: int| 0 <= i < out@.len() implies is_pow2(
                #[trigger] out@[i].value,
            ) by {
                assert(amounts(out@)[i] == out@[i].value);
                assert(is_pow2(split_rec(self.value, 1)[i]));
            }
        }
        out
    }
}

} // verus!
