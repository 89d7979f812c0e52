use vstd::prelude::*;

verus! {

/// The sum of the samples.
pub open spec fn sum_of(d: Seq<u64>) -> int
    decreases d.len(),
{
    if d.len() == 0 {
        0
    } else {
        sum_of(d.drop_last()) + d.last()
    }
}

/// The mean of the samples, rounded down.
pub open spec fn mean_of(d: Seq<u64>) -> int {
    sum_of(d) / (d.len() as int)
}

/// The sum of the squared deviations of the samples from `m`.
pub open spec fn sq_dev_sum(d: Seq<u64>, m: int) -> int
    decreases d.len(),
{
    if d.len() == 0 {
        0
    } else {
        sq_dev_sum(d.drop_last(), m) + (d.last() - m) * (d.last() - m)
    }
}

/// `r` is the square root of `x`, rounded down.
pub open spec fn is_floor_sqrt(x: int, r: int) -> bool {
    0 <= r && r * r <= x && x < (r + 1) * (r + 1)
}

proof fn lemma_sq_dev_nonneg(d: Seq<u64>, m: int)
    ensures
        sq_dev_sum(d, m) >= 0,
    decreases d.len(),
{
    if d.len() > 0 {
        lemma_sq_dev_nonneg(d.drop_last(), m);
        assert((d.last() - m) * (d.last() - m) >= 0) by (nonlinear_arith);
    }
}

proof fn lemma_sq_dev_prefix(d: Seq<u64>, m: int, i: int)
    requires
        0 <= i <= d.len(),
    ensures
        sq_dev_sum(d.subrange(0, i), m) <= sq_dev_sum(d, m),
    decreases d.len(),
{
    if i == d.len() {
        assert(d.subrange(0, i) =~= d);
    } else {
        lemma_sq_dev_prefix(d.drop_last(), m, i);
        assert(d.drop_last().subrange(0, i) =~= d.subrange(0, i));
        assert((d.last() - m) * (d.last() - m) >= 0) by (nonlinear_arith);
    }
}

/// The square root of `x`, rounded down.
pub fn floor_sqrt(x: u128) -> (r: u64)
    ensures
        is_floor_sqrt(x as int, r as int),
{
    let mut lo: u128 = 0;
    let mut hi: u128 = 0x1_0000_0000_0000_0000;
    assert(hi * hi > u128::MAX) by (nonlinear_arith)
        requires
            hi == 0x1_0000_0000_0000_0000u128,
    ;
    while hi - lo > 1
        invariant
            lo < hi <= 0x1_0000_0000_0000_0000,
            lo * lo <= x,
            hi * hi > x,
        decreases hi - lo,
    {
        let mid: u128 = lo + (hi - lo) / 2;
        assert(mid * mid <= u128::MAX) by (nonlinear_arith)
            requires
                mid < 0x1_0000_0000_0000_0000,
        ;
        if mid * mid <= x {
            lo = mid;
        } else {
            hi = mid;
        }
    }
    lo as u64
}

/// The mean and the standard deviation of the samples, both rounded down: the mean
/// is `sum / n`, the deviation the square root of the mean squared deviation from
/// that mean. `None` when there is no sample or the squared deviations overflow
/// `u128`.
pub fn calc_mean_std(durs: &Vec<u64>) -> (r: Option<(u64, u64)>)
    ensures
        r is None <==> (durs@.len() == 0 || sq_dev_sum(durs@, mean_of(durs@)) > u128::MAX),
        r matches Some((m, s)) ==> m == mean_of(durs@) && is_floor_sqrt(
            sq_dev_sum(durs@, m as int) / (durs@.len() as int),
            s as int,
        ),
        durs@.len() == 1 ==> r == Some((durs@[0], 0u64)),
{
    let n: usize = durs.len();
    if n == 0 {
        return None;
    }
    let mut sum: u128 = 0;
    let mut i: usize = 0;
    while i < n
        invariant
            n == durs@.len(),
            i <= n,
            sum == sum_of(durs@.subrange(0, i as int)),
            sum <= i * 0xffff_ffff_ffff_ffffu128,
        decreases n - i,
    {
        assert(durs@.subrange(0, i + 1).drop_last() =~= durs@.subrange(0, i as int));
        assert(sum + durs@[i as int] <= (i + 1) * 0xffff_ffff_ffff_ffffu128) by (nonlinear_arith)
            requires
                sum <= i * 0xffff_ffff_ffff_ffffu128,
                durs@[i as int] <= 0xffff_ffff_ffff_ffffu64,
        ;
        assert((i + 1) * 0xffff_ffff_ffff_ffffu128 <= u128::MAX) by (nonlinear_arith)
            requires
                i < n,
                n <= usize::MAX,
        ;
        sum = sum + durs[i] as u128;
        i = i + 1;
    }
    assert(durs@.subrange(0, n as int) =~= durs@);
    assert(sum / (n as u128) <= 0xffff_ffff_ffff_ffffu128) by (nonlinear_arith)
        requires
            sum <= n * 0xffff_ffff_ffff_ffffu128,
            n > 0,
    ;
    let mean: u64 = (sum / (n as u128)) as u64;
    let mut ss: u128 = 0;
    let mut j: usize = 0;
    while j < n
        invariant
            n == durs@.len(),
            j <= n,
            mean == mean_of(durs@),
            ss == sq_dev_sum(durs@.subrange(0, j as int), mean as int),
        decreases n - j,
    {
        let x = durs[j];
        let dev: u128 = if x >= mean { (x - mean) as u128 } else { (mean - x) as u128 };
        assert(dev * dev <= u128::MAX) by (nonlinear_arith)
            requires
                dev <= 0xffff_ffff_ffff_ffffu128,
        ;
        let sq: u128 = dev * dev;
        assert(sq == (x - mean) * (x - mean)) by (nonlinear_arith)
            requires
                dev == (if x >= mean { x - mean } else { mean - x }),
                sq == dev * dev,
        ;
        assert(durs@.subrange(0, j + 1).drop_last() =~= durs@.subrange(0, j as int));
        if ss > u128::MAX - sq {
            proof {
                lemma_sq_dev_prefix(durs@, mean as int, j + 1);
            }
            return None;
        }
        ss = ss + sq;
        j = j + 1;
    }
    assert(durs@.subrange(0, n as int) =~= durs@);
    let s = floor_sqrt(ss / (n as u128));
    proof {
        if n == 1 {
            assert(durs@.drop_last() =~= Seq::<u64>::empty());
            assert(sum_of(durs@.drop_last()) == 0);
            assert(sum_of(durs@) == durs@[0]);
            assert(sum == durs@[0]);
            assert(sum / 1 == sum);
            assert(mean == durs@[0]);
            assert(durs@.last() == mean);
            assert(sq_dev_sum(durs@.drop_last(), mean as int) == 0);
            let t: int = durs@.last() - mean as int;
            assert(t == 0);
            assert(t * t == 0) by (nonlinear_arith)
                requires
                    t == 0,
            ;
            assert(sq_dev_sum(durs@, mean as int) == 0);
            assert(s == 0) by (nonlinear_arith)
                requires
                    0 <= s,
                    s * s <= 0,
            ;
        }
    }
    Some((mean, s))
}

} // verus!
