use vstd::prelude::*;

verus! {

/// Numerator of the kernel concentration parameter for `npts` sample
/// vectors: `min(100, 2 * (1 + npts / 9))` written as the exact fraction
/// `kernel_num / kernel_den`. The cap takes over from 441 vectors on,
/// where `(18 + 2 * npts) / 9` reaches 100.
pub open spec fn kernel_num(npts: nat) -> nat {
    if npts >= 441 {
        100
    } else {
        18 + 2 * npts
    }
}

/// Denominator of the kernel concentration parameter; see `kernel_num`.
pub open spec fn kernel_den(npts: nat) -> nat {
    if npts >= 441 {
        1
    } else {
        9
    }
}

/// The concentration parameter `k` of the spherical Gaussian kernel used by
/// the orientation-density estimate, as an exact fraction
/// `(numerator, denominator)`: `k = min(100, 2 * (1 + npts / 9))`.
///
/// `k` grows with the sample count but is capped at 100, and for any
/// non-empty sample it stays strictly above 2 (`k.0 > 2 * k.1`): at
/// exactly 2 the squared standard deviation of the statistic would be
/// zero and the density normalization would divide by zero.
pub fn gaussian_kernel_k(npts: u64) -> (k: (u64, u64))
    requires
        1 <= npts,
    ensures
        k.0 == kernel_num(npts as nat),
        k.1 == kernel_den(npts as nat),
        k.0 > 2 * k.1,
{
    if npts >= 441 {
        (100, 1)
    } else {
        (18 + 2 * npts, 9)
    }
}

/// The squared standard deviation of the kernel statistic,
/// `std_dev^2 = npts * (k / 2 - 1) / k^2`, as an exact fraction. With
/// `k = p / q` this is `npts * (p - 2 * q) * q / (2 * p * p)`. Both parts
/// are strictly positive, so the `3 * std_dev` normalization of the density
/// field never divides by zero.
pub fn gaussian_std_dev_squared(npts: u64) -> (r: (u64, u64))
    requires
        1 <= npts <= 0xffff_ffff,
    ensures
        r.0 == npts * (kernel_num(npts as nat) - 2 * kernel_den(npts as nat)) * kernel_den(
            npts as nat,
        ),
        r.1 == 2 * kernel_num(npts as nat) * kernel_num(npts as nat),
        r.0 > 0,
        r.1 > 0,
{
    if npts >= 441 {
        // k = 100 / 1: the numerator is npts * 98 * 1.
        (npts * 98, 2 * 100 * 100)
    } else {
        // k = (18 + 2 * npts) / 9: the numerator is npts * (2 * npts) * 9.
        let p = 18 + 2 * npts;
        assert(npts * (2 * npts) * 9 <= 441 * (2 * 441) * 9) by (nonlinear_arith)
            requires
                npts <= 441,
        ;
        assert(2 * p * p <= 2 * 900 * 900) by (nonlinear_arith)
            requires
                p <= 900,
        ;
        assert(npts * (2 * npts) * 9 > 0) by (nonlinear_arith)
            requires
                npts >= 1,
        ;
        assert(2 * p * p > 0) by (nonlinear_arith)
            requires
                p >= 1,
        ;
        (npts * (2 * npts) * 9, 2 * p * p)
    }
}

} // verus!
