use vstd::prelude::*;
use vstd::arithmetic::div_mod::lemma_div_is_ordered;

verus! {

/// The caller-facing progress figure, in thousandths:
/// `clamp(downloaded / total, 0, 1)`, and 0 while the total is unknown.
pub open spec fn spec_progress_per_mille(downloaded: u64, total: u64) -> int {
    if total == 0 {
        0
    } else if downloaded >= total {
        1000
    } else {
        downloaded * 1000 / (total as int)
    }
}

/// Computes the progress of `downloaded` of `total` bytes, in thousandths,
/// clamped to `[0, 1000]`; 0 when the total is unknown.
pub fn progress_per_mille(downloaded: u64, total: u64) -> (r: u64)
    ensures
        r == spec_progress_per_mille(downloaded, total),
        r <= 1000,
{
    if total == 0 {
        0
    } else if downloaded >= total {
        1000
    } else {
        proof {
            lemma_progress_bounds(downloaded, total);
            assert(downloaded * 1000 <= u64::MAX * 1000) by (nonlinear_arith)
                requires
                    downloaded <= u64::MAX,
            ;
        }
        let scaled: u128 = (downloaded as u128) * 1000;
        (scaled / (total as u128)) as u64
    }
}

/// Progress stays within the unit interval: between 0 and 1000 thousandths
/// at every observation.
pub proof fn lemma_progress_bounds(downloaded: u64, total: u64)
    ensures
        0 <= spec_progress_per_mille(downloaded, total) <= 1000,
{
    if total != 0 && downloaded < total {
        assert(downloaded * 1000 >= 0) by (nonlinear_arith)
            requires
                downloaded >= 0,
        ;
        assert(downloaded * 1000 <= (total - 1) * 1000) by (nonlinear_arith)
            requires
                downloaded <= total - 1,
        ;
        assert(downloaded * 1000 / (total as int) <= ((total - 1) * 1000) / (total as int)) by {
            lemma_div_is_ordered(
                downloaded * 1000,
                (total - 1) * 1000,
                total as int,
            );
        }
        assert(((total - 1) * 1000) / (total as int) < 1000) by (nonlinear_arith)
            requires
                total >= 1,
        ;
        assert(downloaded * 1000 / (total as int) >= 0) by (nonlinear_arith)
            requires
                downloaded * 1000 >= 0,
                total >= 1,
        ;
    }
}

/// Progress never decreases while the downloaded count grows: the shared
/// counter only ever increases, so the figure a caller polls is monotone.
pub proof fn lemma_progress_monotone(downloaded1: u64, downloaded2: u64, total: u64)
    requires
        downloaded1 <= downloaded2,
    ensures
        spec_progress_per_mille(downloaded1, total) <= spec_progress_per_mille(
            downloaded2,
            total,
        ),
{
    lemma_progress_bounds(downloaded1, total);
    lemma_progress_bounds(downloaded2, total);
    if total != 0 && downloaded2 < total {
        assert(downloaded1 * 1000 <= downloaded2 * 1000) by (nonlinear_arith)
            requires
                downloaded1 <= downloaded2,
        ;
        lemma_div_is_ordered(downloaded1 * 1000, downloaded2 * 1000, total as int);
    }
}

} // verus!
