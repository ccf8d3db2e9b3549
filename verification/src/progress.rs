//! Percentages shown for a link: rounded for a download pass, floored for a
//! reconciliation pass.

use vstd::prelude::*;

verus! {

/// `downloaded / total * 100`, rounded to the nearest integer with halves
/// going up: half of `total` is added before the division rounds down.
/// Meaningful for `total > 0`.
pub open spec fn rounded_percent(total: nat, downloaded: nat) -> nat {
    if total == 0 {
        0
    } else {
        (downloaded * 100 + total / 2) / total
    }
}

/// `downloaded * 100 / total`, rounded down. Meaningful for `total > 0`.
pub open spec fn floored_percent(total: nat, downloaded: nat) -> nat {
    if total == 0 {
        0
    } else {
        (downloaded * 100) / total
    }
}

/// The progress of a download pass that brought in `downloaded` of `total`
/// files: the rounded percentage. Where there was nothing to bring in, it is
/// `0` if nothing came and the largest value otherwise; a percentage beyond
/// what a counter holds is the largest value too.
pub open spec fn download_progress(total: usize, downloaded: usize) -> usize {
    if total == 0 {
        if downloaded == 0 {
            0
        } else {
            usize::MAX
        }
    } else if rounded_percent(total as nat, downloaded as nat) > usize::MAX {
        usize::MAX
    } else {
        rounded_percent(total as nat, downloaded as nat) as usize
    }
}

/// A rounded percentage never leaves `0..=100` while no more is downloaded
/// than exists, and is `100` when all is.
pub proof fn lemma_rounded_percent_bounded(total: nat, downloaded: nat)
    requires
        downloaded <= total,
    ensures
        rounded_percent(total, downloaded) <= 100,
        total > 0 && downloaded == total ==> rounded_percent(total, downloaded) == 100,
{
    if total > 0 {
        let half = total / 2;
        assert((downloaded * 100 + half) / total <= 100) by (nonlinear_arith)
            requires
                downloaded <= total,
                half < total,
                total > 0,
        ;
        if downloaded == total {
            assert((downloaded * 100 + half) / total == 100) by (nonlinear_arith)
                requires
                    downloaded == total,
                    0 <= half < total,
                    total > 0,
            ;
        }
    }
}

/// A floored percentage never leaves `0..=100` while no more is downloaded
/// than exists, and is `100` exactly when everything is.
pub proof fn lemma_floored_percent_bounded(total: nat, downloaded: nat)
    requires
        downloaded <= total,
    ensures
        floored_percent(total, downloaded) <= 100,
        total > 0 ==> (floored_percent(total, downloaded) == 100 <==> downloaded == total),
{
    if total > 0 {
        assert((downloaded * 100) / total <= 100) by (nonlinear_arith)
            requires
                downloaded <= total,
                total > 0,
        ;
        if downloaded == total {
            assert((downloaded * 100) / total == 100) by (nonlinear_arith)
                requires
                    downloaded == total,
                    total > 0,
            ;
        } else {
            assert((downloaded * 100) / total < 100) by (nonlinear_arith)
                requires
                    downloaded < total,
                    total > 0,
            ;
        }
    }
}

/// Progress of a download pass: the rounded share of `downloaded` in `total`.
pub fn calculate_progress(total: usize, downloaded: usize) -> (progress: usize)
    ensures
        progress == download_progress(total, downloaded),
        downloaded <= total ==> progress <= 100,
        downloaded == total && total > 0 ==> progress == 100,
{
    proof {
        if downloaded <= total {
            lemma_rounded_percent_bounded(total as nat, downloaded as nat);
        }
    }
    if total == 0 {
        if downloaded == 0 {
            0
        } else {
            usize::MAX
        }
    } else {
        let wide_total: u128 = total as u128;
        let wide_downloaded: u128 = downloaded as u128;
        let numerator: u128 = wide_downloaded * 100 + wide_total / 2;
        let quotient: u128 = numerator / wide_total;
        if quotient > usize::MAX as u128 {
            usize::MAX
        } else {
            quotient as usize
        }
    }
}

/// Progress of a reconciliation pass: the floored share of `downloaded` in
/// `total`, or `None` where that value does not fit a `usize`.
pub fn floor_progress(total: usize, downloaded: usize) -> (progress: Option<usize>)
    requires
        total > 0,
    ensures
        progress == if floored_percent(total as nat, downloaded as nat) <= usize::MAX as nat {
            Some(floored_percent(total as nat, downloaded as nat) as usize)
        } else {
            None
        },
        downloaded <= total ==> progress.is_some(),
{
    proof {
        if downloaded <= total {
            lemma_floored_percent_bounded(total as nat, downloaded as nat);
        }
    }
    let wide_total: u128 = total as u128;
    let wide_downloaded: u128 = downloaded as u128;
    let quotient: u128 = (wide_downloaded * 100) / wide_total;
    if quotient > usize::MAX as u128 {
        None
    } else {
        Some(quotient as usize)
    }
}

} // verus!
