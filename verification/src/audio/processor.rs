use vstd::prelude::*;
use vstd::arithmetic::mul::{lemma_mul_inequality, lemma_mul_is_distributive_add_other_way};
use vstd::arithmetic::div_mod::{lemma_fundamental_div_mod, lemma_div_is_ordered};
use crate::audio::buffer::{AudioBuffer, duration_ms_spec};
use crate::error::WhisperCatError;

verus! {

// ---------- regions ----------

/// A half-open range of sample frames marked for removal.
#[derive(Clone, Copy, Debug, PartialEq, Eq, Structural)]
pub struct SilenceRegion {
    pub start_frame: usize,
    pub end_frame: usize,
}

/// The mathematical shape of a region.
pub struct RegionView {
    pub start: int,
    pub end: int,
}

impl View for SilenceRegion {
    type V = RegionView;

    open spec fn view(&self) -> RegionView {
        RegionView { start: self.start_frame as int, end: self.end_frame as int }
    }
}

// ---------- windows and energy ----------

/// The sum of squared samples over the half-open range `[from, to)`.
pub open spec fn sumsq(samples: Seq<i32>, from: int, to: int) -> int
    decreases to - from,
{
    if from >= to {
        0
    } else {
        samples[from] * samples[from] + sumsq(samples, from + 1, to)
    }
}

pub proof fn lemma_sumsq_extend(samples: Seq<i32>, from: int, to: int)
    requires
        from <= to,
    ensures
        sumsq(samples, from, to + 1) == sumsq(samples, from, to) + samples[to] * samples[to],
    decreases to - from,
{
    if from < to {
        lemma_sumsq_extend(samples, from + 1, to);
    } else {
        assert(sumsq(samples, from, to) == 0);
        assert(sumsq(samples, to + 1, to + 1) == 0);
        assert(sumsq(samples, from, to + 1)
            == samples[to] * samples[to] + sumsq(samples, to + 1, to + 1));
    }
}

/// How many whole windows of `wl` samples cover `len` samples, the last one
/// possibly shorter.
pub open spec fn num_windows(len: nat, wl: nat) -> nat
    recommends
        wl >= 1,
{
    (((len + wl - 1) as int) / (wl as int)) as nat
}

pub open spec fn win_start(wl: nat, i: nat) -> int {
    (i * wl) as int
}

pub open spec fn win_end(len: nat, wl: nat, i: nat) -> int {
    if (i + 1) * wl > len {
        len as int
    } else {
        ((i + 1) * wl) as int
    }
}

pub open spec fn win_len(len: nat, wl: nat, i: nat) -> int {
    win_end(len, wl, i) - win_start(wl, i)
}

/// A window is silent when its root-mean-square amplitude is below the
/// threshold: its energy is below threshold squared times its sample count.
pub open spec fn win_silent(samples: Seq<i32>, wl: nat, threshold: nat, i: nat) -> bool {
    sumsq(samples, win_start(wl, i), win_end(samples.len(), wl, i)) < (threshold as int)
        * (threshold as int) * win_len(samples.len(), wl, i)
}

/// The basic facts about the window count: the windows cover the samples,
/// and window `i` starts inside the buffer exactly when `i` is below the
/// count.
pub proof fn lemma_num_windows(len: nat, wl: nat)
    requires
        wl >= 1,
    ensures
        num_windows(len, wl) * wl >= len,
        len == 0 ==> num_windows(len, wl) == 0,
        len > 0 ==> num_windows(len, wl) >= 1,
        forall|i: nat| #[trigger] (i * wl) < len ==> i < num_windows(len, wl),
        forall|i: nat| i < num_windows(len, wl) ==> #[trigger] (i * wl) < len,
{
    let nw = num_windows(len, wl) as int;
    lemma_fundamental_div_mod(len + wl - 1, wl as int);
    assert(len + wl - 1 == wl * nw + ((len + wl - 1) % (wl as int)));
    assert(0 <= (len + wl - 1) % (wl as int) < wl) by {
        vstd::arithmetic::div_mod::lemma_mod_bound(len + wl - 1, wl as int);
    }
    assert(nw * wl == wl * nw) by {
        vstd::arithmetic::mul::lemma_mul_is_commutative(nw, wl as int);
    }
    assert(nw * wl >= len);
    if len == 0 {
        vstd::arithmetic::div_mod::lemma_basic_div(wl - 1, wl as int);
    } else {
        vstd::arithmetic::div_mod::lemma_div_by_self(wl as int);
        lemma_div_is_ordered(wl as int, len + wl - 1, wl as int);
    }
    assert forall|i: nat| #[trigger] (i * wl) < len implies i < num_windows(len, wl) by {
        if i >= num_windows(len, wl) {
            lemma_mul_inequality(nw, i as int, wl as int);
            assert(i * wl >= nw * wl);
        }
    }
    assert forall|i: nat| i < num_windows(len, wl) implies #[trigger] (i * wl) < len by {
        assert(i + 1 <= nw);
        lemma_mul_inequality(i + 1 as int, nw, wl as int);
        lemma_mul_is_distributive_add_other_way(wl as int, i as int, 1);
        assert((i + 1) * wl == i * wl + wl);
        assert(i * wl + wl <= nw * wl);
        assert(nw * wl <= len + wl - 1);
    }
}

// ---------- integer square root ----------

/// The integer square root, by quartering.
pub open spec fn isqrt_spec(x: nat) -> nat
    decreases x,
{
    if x == 0 {
        0
    } else {
        let r = 2 * isqrt_spec(x / 4);
        if (r + 1) * (r + 1) <= x {
            r + 1
        } else {
            r
        }
    }
}

/// The defining property of the integer square root.
pub proof fn lemma_isqrt(x: nat)
    ensures
        (isqrt_spec(x) as int) * (isqrt_spec(x) as int) <= x as int,
        (x as int) < ((isqrt_spec(x) as int) + 1) * ((isqrt_spec(x) as int) + 1),
    decreases x,
{
    if x == 0 {
        assert(isqrt_spec(x) == 0);
        assert((isqrt_spec(x) as int) * (isqrt_spec(x) as int) == 0);
        assert(((isqrt_spec(x) as int) + 1) * ((isqrt_spec(x) as int) + 1) == 1);
    } else {
        lemma_isqrt(x / 4);
        let h = isqrt_spec(x / 4) as int;
        let r = 2 * h;
        let xi = x as int;
        let q = xi / 4;
        let m = xi % 4;
        lemma_fundamental_div_mod(xi, 4);
        vstd::arithmetic::div_mod::lemma_mod_bound(xi, 4);
        assert(h * h <= q);
        assert(q < (h + 1) * (h + 1));
        assert(r * r <= xi) by (nonlinear_arith)
            requires
                h * h <= q,
                r == 2 * h,
                xi == 4 * q + m,
                m >= 0,
        ;
        assert(xi < (r + 2) * (r + 2)) by (nonlinear_arith)
            requires
                q < (h + 1) * (h + 1),
                r == 2 * h,
                xi == 4 * q + m,
                m < 4,
        ;
        vstd::arithmetic::mul::lemma_mul_nonnegative(r, r);
        vstd::arithmetic::mul::lemma_mul_nonnegative(r + 1, r + 1);
        vstd::arithmetic::mul::lemma_mul_nonnegative(r + 2, r + 2);
        assert(isqrt_spec(x) as int == if (r + 1) * (r + 1) <= xi { r + 1 } else { r });
        if (r + 1) * (r + 1) <= xi {
            assert(isqrt_spec(x) == r + 1);
        } else {
            assert(isqrt_spec(x) == r);
        }
        let s = isqrt_spec(x) as int;
        vstd::arithmetic::mul::lemma_mul_nonnegative(s, s);
        vstd::arithmetic::mul::lemma_mul_nonnegative(s + 1, s + 1);
    }
}

/// Computes the integer square root, as `isqrt_spec` describes.
pub fn isqrt_u128(x: u128) -> (r: u128)
    ensures
        r == isqrt_spec(x as nat),
    decreases x,
{
    if x == 0 {
        0
    } else {
        let h = isqrt_u128(x / 4);
        proof {
            lemma_isqrt((x / 4) as nat);
            assert(h * h <= x / 4);
            lemma_div_is_ordered(x as int, u128::MAX as int, 4);
            assert(h < 0x8000_0000_0000_0000u128) by (nonlinear_arith)
                requires
                    h * h <= x / 4,
                    x / 4 < 0x4000_0000_0000_0000_0000_0000_0000_0000int,
            ;
        }
        let r = 2 * h;
        proof {
            assert((r as int + 1) * (r as int + 1) <= u128::MAX) by (nonlinear_arith)
                requires
                    h < 0x8000_0000_0000_0000u128,
                    r == 2 * h,
            ;
        }
        if (r + 1) * (r + 1) <= x {
            r + 1
        } else {
            r
        }
    }
}

// ---------- window statistics ----------

/// The integer root-mean-square of window `i`.
pub open spec fn win_rms(samples: Seq<i32>, wl: nat, i: nat) -> nat
    recommends
        wl >= 1,
        win_len(samples.len(), wl, i) > 0,
{
    isqrt_spec((sumsq(samples, win_start(wl, i), win_end(samples.len(), wl, i)) / win_len(
        samples.len(),
        wl,
        i,
    )) as nat)
}

/// The least window RMS among the first `i` windows (zero when none).
pub open spec fn rms_min_rec(samples: Seq<i32>, wl: nat, i: nat) -> nat
    decreases i,
{
    if i == 0 {
        0
    } else if i == 1 {
        win_rms(samples, wl, 0)
    } else {
        let prev = rms_min_rec(samples, wl, (i - 1) as nat);
        let cur = win_rms(samples, wl, (i - 1) as nat);
        if cur < prev {
            cur
        } else {
            prev
        }
    }
}

/// The greatest window RMS among the first `i` windows (zero when none).
pub open spec fn rms_max_rec(samples: Seq<i32>, wl: nat, i: nat) -> nat
    decreases i,
{
    if i == 0 {
        0
    } else {
        let prev = rms_max_rec(samples, wl, (i - 1) as nat);
        let cur = win_rms(samples, wl, (i - 1) as nat);
        if cur > prev {
            cur
        } else {
            prev
        }
    }
}

/// The sum of the first `i` window RMS values.
pub open spec fn rms_sum_rec(samples: Seq<i32>, wl: nat, i: nat) -> nat
    decreases i,
{
    if i == 0 {
        0
    } else {
        rms_sum_rec(samples, wl, (i - 1) as nat) + win_rms(samples, wl, (i - 1) as nat)
    }
}

// ---------- silence regions ----------

/// The scan over windows `i..nw` carrying the start of the current silent
/// run: a run of at least `minw` silent windows becomes a region, cut at
/// window boundaries, and a trailing run extends to the end of the buffer.
pub open spec fn regions_rec(
    samples: Seq<i32>,
    wl: nat,
    threshold: nat,
    minw: nat,
    nw: nat,
    i: nat,
    run: Option<nat>,
) -> Seq<RegionView>
    decreases nw - i,
{
    if i >= nw {
        match run {
            Option::None => Seq::<RegionView>::empty(),
            Option::Some(s) => {
                if nw - s >= minw {
                    seq![RegionView { start: (s * wl) as int, end: samples.len() as int }]
                } else {
                    Seq::<RegionView>::empty()
                }
            },
        }
    } else if win_silent(samples, wl, threshold, i) {
        regions_rec(
            samples,
            wl,
            threshold,
            minw,
            nw,
            i + 1,
            if run is Some {
                run
            } else {
                Some(i)
            },
        )
    } else {
        match run {
            Option::None => regions_rec(samples, wl, threshold, minw, nw, i + 1, None),
            Option::Some(s) => {
                (if i - s >= minw {
                    seq![RegionView { start: (s * wl) as int, end: (i * wl) as int }]
                } else {
                    Seq::<RegionView>::empty()
                }) + regions_rec(samples, wl, threshold, minw, nw, i + 1, None)
            },
        }
    }
}

/// The removable silence regions of a buffer.
pub open spec fn regions_spec(samples: Seq<i32>, wl: nat, threshold: nat, minw: nat) -> Seq<
    RegionView,
> {
    regions_rec(samples, wl, threshold, minw, num_windows(samples.len(), wl), 0, None)
}

/// Regions lie in `[lo, len]`, each is a proper range, and they ascend.
pub open spec fn regions_sorted(regions: Seq<RegionView>, lo: int, len: int) -> bool
    decreases regions.len(),
{
    if regions.len() == 0 {
        lo <= len
    } else {
        lo <= regions[0].start && regions[0].start <= regions[0].end && regions[0].end <= len
            && regions_sorted(regions.skip(1), regions[0].end, len)
    }
}

pub proof fn lemma_sorted_weaken(regions: Seq<RegionView>, lo: int, lo2: int, len: int)
    requires
        regions_sorted(regions, lo, len),
        lo2 <= lo,
    ensures
        regions_sorted(regions, lo2, len),
    decreases regions.len(),
{
}

/// The least frame the scan can still emit, given the open run and the
/// current window.
pub open spec fn run_lo(run: Option<nat>, i: nat, wl: nat, len: nat) -> int {
    let p: nat = match run {
        Option::Some(s) => s,
        Option::None => i,
    };
    if p * wl > len {
        len as int
    } else {
        (p * wl) as int
    }
}

/// The scan's output is sorted: every region it emits lies at or after the
/// open run's start, ranges are proper, and regions ascend.
pub proof fn lemma_regions_rec_sorted(
    samples: Seq<i32>,
    wl: nat,
    threshold: nat,
    minw: nat,
    nw: nat,
    i: nat,
    run: Option<nat>,
)
    requires
        wl >= 1,
        nw == num_windows(samples.len(), wl),
        i <= nw,
        run is Some ==> run->0 <= i && run->0 < nw,
    ensures
        regions_sorted(
            regions_rec(samples, wl, threshold, minw, nw, i, run),
            run_lo(run, i, wl, samples.len()),
            samples.len() as int,
        ),
    decreases nw - i,
{
    lemma_num_windows(samples.len(), wl);
    let len = samples.len() as int;
    let lo: int = run_lo(run, i, wl, samples.len());
    vstd::arithmetic::mul::lemma_mul_nonnegative(i as int, wl as int);
    vstd::arithmetic::mul::lemma_mul_nonnegative(i as int + 1, wl as int);
    assert(lo <= len);
    if i >= nw {
        match run {
            Option::None => {
                assert(regions_sorted(Seq::<RegionView>::empty(), lo, len));
            },
            Option::Some(s) => {
                vstd::arithmetic::mul::lemma_mul_nonnegative(s as int, wl as int);
                if nw - s >= minw {
                    assert(s < nw);
                    assert(s * wl < samples.len());
                    assert(lo == (s * wl) as int);
                    let result = regions_rec(samples, wl, threshold, minw, nw, i, run);
                    assert(result[0].start == (s * wl) as int);
                    assert(result[0].end == len);
                    assert(result.skip(1) =~= Seq::<RegionView>::empty());
                    assert(regions_sorted(Seq::<RegionView>::empty(), len, len));
                    assert(regions_sorted(result.skip(1), result[0].end, len));
                    assert(regions_sorted(result, lo, len));
                } else {
                    assert(regions_rec(samples, wl, threshold, minw, nw, i, run)
                        == Seq::<RegionView>::empty());
                    assert(regions_sorted(Seq::<RegionView>::empty(), lo, len));
                }
            },
        }
    } else {
        assert(i * wl < samples.len());
        if win_silent(samples, wl, threshold, i) {
            let newrun: Option<nat> = if run is Some {
                run
            } else {
                Some(i)
            };
            lemma_regions_rec_sorted(samples, wl, threshold, minw, nw, i + 1, newrun);
            if run is Some {
                vstd::arithmetic::mul::lemma_mul_nonnegative(run->0 as int, wl as int);
            }
            assert(run_lo(newrun, i + 1, wl, samples.len()) == lo);
            assert(regions_rec(samples, wl, threshold, minw, nw, i, run)
                == regions_rec(samples, wl, threshold, minw, nw, i + 1, newrun));
        } else {
            lemma_regions_rec_sorted(samples, wl, threshold, minw, nw, i + 1, None);
            let tail = regions_rec(samples, wl, threshold, minw, nw, i + 1, None);
            let tail_lo: int = run_lo(None, i + 1, wl, samples.len());
            assert(regions_sorted(tail, tail_lo, len));
            lemma_mul_inequality(i as int, i as int + 1, wl as int);
            assert((i * wl) as int <= tail_lo);
            match run {
                Option::None => {
                    lemma_sorted_weaken(tail, tail_lo, lo, len);
                    assert(regions_rec(samples, wl, threshold, minw, nw, i, run) == tail);
                },
                Option::Some(s) => {
                    vstd::arithmetic::mul::lemma_mul_nonnegative(s as int, wl as int);
                    assert(s * wl < samples.len());
                    lemma_mul_inequality(s as int, i as int, wl as int);
                    if i - s >= minw {
                        let head = RegionView { start: (s * wl) as int, end: (i * wl) as int };
                        let result = seq![head] + tail;
                        assert(result[0] == head);
                        assert(result.skip(1) =~= tail);
                        lemma_sorted_weaken(tail, tail_lo, (i * wl) as int, len);
                        assert(regions_sorted(result, lo, len));
                        assert(regions_rec(samples, wl, threshold, minw, nw, i, run) == result);
                    } else {
                        assert(Seq::<RegionView>::empty() + tail =~= tail);
                        lemma_sorted_weaken(tail, tail_lo, lo, len);
                        assert(regions_rec(samples, wl, threshold, minw, nw, i, run) == tail);
                    }
                },
            }
        }
    }
}

/// The whole region list is sorted from the start of the buffer.
pub proof fn lemma_regions_spec_sorted(samples: Seq<i32>, wl: nat, threshold: nat, minw: nat)
    requires
        wl >= 1,
    ensures
        regions_sorted(regions_spec(samples, wl, threshold, minw), 0, samples.len() as int),
{
    let nw = num_windows(samples.len(), wl);
    lemma_regions_rec_sorted(samples, wl, threshold, minw, nw, 0, None);
    let lo: int = run_lo(None, 0, wl, samples.len());
    assert(lo == 0);
    lemma_sorted_weaken(regions_spec(samples, wl, threshold, minw), lo, 0, samples.len() as int);
}

// ---------- removal ----------

/// The samples kept once every region at or after `last_end` is cut out.
pub open spec fn kept_rec(samples: Seq<i32>, regions: Seq<RegionView>, last_end: int) -> Seq<i32>
    recommends
        regions_sorted(regions, last_end, samples.len() as int),
        0 <= last_end,
    decreases regions.len(),
{
    if regions.len() == 0 {
        samples.subrange(last_end, samples.len() as int)
    } else {
        samples.subrange(last_end, regions[0].start) + kept_rec(
            samples,
            regions.skip(1),
            regions[0].end,
        )
    }
}

/// The output buffer: every sample range not covered by a region, in order.
pub open spec fn kept_samples(samples: Seq<i32>, regions: Seq<RegionView>) -> Seq<i32> {
    kept_rec(samples, regions, 0)
}

/// Cutting out regions never lengthens the buffer.
pub proof fn lemma_kept_len(samples: Seq<i32>, regions: Seq<RegionView>, last_end: int)
    requires
        regions_sorted(regions, last_end, samples.len() as int),
        0 <= last_end,
    ensures
        kept_rec(samples, regions, last_end).len() <= samples.len() - last_end,
    decreases regions.len(),
{
    if regions.len() > 0 {
        lemma_kept_len(samples, regions.skip(1), regions[0].end);
    }
}

/// The mean of the first `i` window RMS values, truncated (zero when none).
pub open spec fn rms_avg(samples: Seq<i32>, wl: nat, nw: nat) -> nat {
    if nw == 0 {
        0
    } else {
        rms_sum_rec(samples, wl, nw) / nw
    }
}

/// How much shorter the output is, in whole percent of the original
/// duration; zero for an empty original.
pub open spec fn reduction_spec(orig_ms: nat, new_ms: nat) -> nat
    recommends
        new_ms <= orig_ms,
{
    if orig_ms == 0 {
        0
    } else {
        ((((orig_ms - new_ms) * 100)) / (orig_ms as int)) as nat
    }
}

/// A shorter sample list never plays longer.
pub proof fn lemma_duration_monotone(len2: nat, len1: nat, channels: nat, rate: nat)
    requires
        len2 <= len1,
        channels >= 1,
        rate >= 1,
    ensures
        duration_ms_spec(len2, channels, rate) <= duration_ms_spec(len1, channels, rate),
{
    lemma_div_is_ordered(len2 as int, len1 as int, channels as int);
    lemma_mul_inequality((len2 / channels) as int, (len1 / channels) as int, 1000);
    vstd::arithmetic::mul::lemma_mul_nonnegative((len2 / channels) as int, 1000);
    lemma_div_is_ordered(
        ((len2 / channels) * 1000) as int,
        ((len1 / channels) * 1000) as int,
        rate as int,
    );
}

/// When no window is silent no region forms, and the buffer is unchanged.
pub proof fn lemma_no_silence_identity(
    samples: Seq<i32>,
    wl: nat,
    threshold: nat,
    minw: nat,
    nw: nat,
    i: nat,
)
    requires
        nw == num_windows(samples.len(), wl),
        i <= nw,
        forall|w: nat| w < nw ==> !win_silent(samples, wl, threshold, w),
    ensures
        regions_rec(samples, wl, threshold, minw, nw, i, None) == Seq::<RegionView>::empty(),
    decreases nw - i,
{
    if i < nw {
        assert(!win_silent(samples, wl, threshold, i));
        lemma_no_silence_identity(samples, wl, threshold, minw, nw, i + 1);
    }
}

// ---------- the analyzer ----------

/// Summary of one analysis, in the buffer's fixed-point amplitude units and
/// in milliseconds.
#[derive(Debug)]
pub struct SilenceAnalysis {
    pub min_rms: u64,
    pub max_rms: u64,
    pub avg_rms: u64,
    pub silence_regions: Vec<SilenceRegion>,
    pub reduction_percent: u64,
    pub original_duration_ms: u64,
    pub new_duration_ms: u64,
}

/// Windowed RMS analysis and region excision over a sample buffer: fixed
/// 100 ms windows, a window below the threshold is silent, and a run of
/// silent windows at least `min_duration_ms` long is cut out.
pub struct SilenceRemover {
    pub threshold: u32,
    pub min_duration_ms: u32,
    pub window_size_ms: u32,
}

/// The sum of squares over one sample range, with its coarse bound.
fn window_sumsq(samples: &Vec<i32>, from: usize, to: usize) -> (r: u128)
    requires
        from <= to,
        to <= samples@.len(),
    ensures
        r == sumsq(samples@, from as int, to as int),
        r <= (to - from) as int * 0x4000_0000_0000_0000,
{
    let mut acc: u128 = 0;
    let mut j = from;
    proof {
        assert(sumsq(samples@, from as int, from as int) == 0);
    }
    while j < to
        invariant
            from <= j <= to,
            to <= samples@.len(),
            acc == sumsq(samples@, from as int, j as int),
            acc <= (j - from) as int * 0x4000_0000_0000_0000,
        decreases to - j,
    {
        let s = samples[j];
        let v: i64 = s as i64;
        proof {
            assert(v * v <= 0x4000_0000_0000_0000i64 && v * v >= 0) by (nonlinear_arith)
                requires
                    -0x8000_0000i64 <= v <= 0x7FFF_FFFFi64,
            ;
            lemma_sumsq_extend(samples@, from as int, j as int);
        }
        let sq: i64 = v * v;
        acc = acc + (sq as u128);
        j = j + 1;
    }
    acc
}

/// Per-window analysis: one silence flag and one RMS value per window.
fn analyze_windows(samples: &Vec<i32>, wl: usize, threshold: u32) -> (r: (Vec<bool>, Vec<u64>))
    requires
        wl >= 1,
    ensures
        r.0@.len() == num_windows(samples@.len(), wl as nat),
        r.1@.len() == num_windows(samples@.len(), wl as nat),
        forall|k: int|
            0 <= k < r.0@.len() ==> r.0@[k] == win_silent(
                samples@,
                wl as nat,
                threshold as nat,
                k as nat,
            ),
        forall|k: int|
            0 <= k < r.1@.len() ==> r.1@[k] == win_rms(samples@, wl as nat, k as nat),
{
    let len = samples.len();
    let ghost nw = num_windows(samples@.len(), wl as nat);
    proof {
        lemma_num_windows(samples@.len(), wl as nat);
    }
    let tsq: u64 = {
        proof {
            assert((threshold as int) * (threshold as int) <= u64::MAX) by (nonlinear_arith)
                requires
                    threshold <= 0xFFFF_FFFFu32,
            ;
        }
        (threshold as u64) * (threshold as u64)
    };
    let mut flags: Vec<bool> = Vec::new();
    let mut rms_values: Vec<u64> = Vec::new();
    let mut w: usize = 0;
    let mut start: usize = 0;
    while start < len
        invariant
            wl >= 1,
            len == samples@.len(),
            nw == num_windows(samples@.len(), wl as nat),
            start as int == (if (w * wl) as int > len as int { len as int } else { (w * wl) as int }),
            w <= nw,
            start < len ==> w < nw,
            start >= len ==> w == nw,
            tsq == (threshold as int) * (threshold as int),
            flags@.len() == w,
            rms_values@.len() == w,
            forall|k: int|
                0 <= k < w ==> flags@[k] == win_silent(
                    samples@,
                    wl as nat,
                    threshold as nat,
                    k as nat,
                ),
            forall|k: int|
                0 <= k < w ==> rms_values@[k] == win_rms(samples@, wl as nat, k as nat),
        decreases len - start,
    {
        proof {
            lemma_num_windows(samples@.len(), wl as nat);
            vstd::arithmetic::mul::lemma_mul_nonnegative(w as int, wl as int);
            lemma_mul_is_distributive_add_other_way(wl as int, w as int, 1);
            assert((w + 1) * wl == w * wl + wl);
            assert(start == w * wl);
        }
        let end: usize = if wl <= len - start {
            start + wl
        } else {
            len
        };
        proof {
            assert(win_start(wl as nat, w as nat) == start as int);
            assert(win_end(samples@.len(), wl as nat, w as nat) == end as int);
        }
        let ss = window_sumsq(samples, start, end);
        let wlen: u128 = (end - start) as u128;
        proof {
            assert((tsq as int) * (wlen as int) <= u128::MAX) by (nonlinear_arith)
                requires
                    tsq <= 0xFFFF_FFFF_FFFF_FFFFu64,
                    wlen <= 0xFFFF_FFFF_FFFF_FFFFu128,
            ;
        }
        let silent = ss < (tsq as u128) * wlen;
        let mean: u128 = ss / wlen;
        let root = isqrt_u128(mean);
        proof {
            lemma_isqrt(mean as nat);
            assert(root < 0x8000_0000_0000_0000u128) by (nonlinear_arith)
                requires
                    (root as int) * (root as int) <= mean as int,
                    mean < 0x4000_0000_0000_0000_0000_0000_0000_0000u128,
            ;
            assert(mean as nat == (sumsq(samples@, start as int, end as int) / win_len(
                samples@.len(),
                wl as nat,
                w as nat,
            )) as nat);
        }
        let rms = root as u64;
        let ghost oldflags = flags@;
        let ghost oldrms = rms_values@;
        flags.push(silent);
        rms_values.push(rms);
        proof {
            assert(silent == win_silent(samples@, wl as nat, threshold as nat, w as nat));
            assert(rms == win_rms(samples@, wl as nat, w as nat));
            assert(flags@ =~= oldflags.push(silent));
            assert(rms_values@ =~= oldrms.push(rms));
            assert((w + 1) * wl >= len ==> w + 1 == nw);
            assert((w + 1) * wl < len ==> w + 1 < nw);
        }
        w = flags.len();
        start = end;
        proof {
            assert(flags@.len() == oldflags.len() + 1);
        }
    }
    proof {
        if len == 0 {
            assert(w == 0 && nw == 0);
        }
    }
    (flags, rms_values)
}


/// The spec-level shape of the open run.
pub open spec fn run_view(run: Option<usize>) -> Option<nat> {
    match run {
        Option::Some(s) => Some(s as nat),
        Option::None => None,
    }
}

/// Turns the per-window silence flags into removable regions, as
/// `regions_spec` describes.
fn find_regions(
    flags: &Vec<bool>,
    wl: usize,
    minw: usize,
    len: usize,
    Ghost(samples): Ghost<Seq<i32>>,
    Ghost(threshold): Ghost<nat>,
) -> (r: Vec<SilenceRegion>)
    requires
        wl >= 1,
        samples.len() == len,
        flags@.len() == num_windows(len as nat, wl as nat),
        forall|k: int|
            0 <= k < flags@.len() ==> flags@[k] == win_silent(samples, wl as nat, threshold, k as nat),
    ensures
        r@.map_values(|x: SilenceRegion| x@) == regions_spec(
            samples,
            wl as nat,
            threshold,
            minw as nat,
        ),
{
    let nw = flags.len();
    let mut done: Vec<SilenceRegion> = Vec::new();
    let mut run: Option<usize> = None;
    let mut i: usize = 0;
    proof {
        assert(done@.map_values(|x: SilenceRegion| x@) + regions_rec(
            samples,
            wl as nat,
            threshold,
            minw as nat,
            nw as nat,
            0,
            run_view(run),
        ) =~= regions_spec(samples, wl as nat, threshold, minw as nat));
    }
    while i < nw
        invariant
            wl >= 1,
            samples.len() == len,
            nw == num_windows(len as nat, wl as nat),
            flags@.len() == nw,
            forall|k: int|
                0 <= k < flags@.len() ==> flags@[k] == win_silent(
                    samples,
                    wl as nat,
                    threshold,
                    k as nat,
                ),
            i <= nw,
            run is Some ==> run->0 <= i && (run->0 as int) < nw,
            done@.map_values(|x: SilenceRegion| x@) + regions_rec(
                samples,
                wl as nat,
                threshold,
                minw as nat,
                nw as nat,
                i as nat,
                run_view(run),
            ) == regions_spec(samples, wl as nat, threshold, minw as nat),
        decreases nw - i,
    {
        let ghost olddone = done@;
        let ghost oldrun = run_view(run);
        proof {
            lemma_num_windows(len as nat, wl as nat);
        }
        if flags[i] {
            if run.is_none() {
                run = Some(i);
            }
            proof {
                assert(regions_rec(
                    samples,
                    wl as nat,
                    threshold,
                    minw as nat,
                    nw as nat,
                    i as nat,
                    oldrun,
                ) == regions_rec(
                    samples,
                    wl as nat,
                    threshold,
                    minw as nat,
                    nw as nat,
                    (i + 1) as nat,
                    run_view(run),
                ));
            }
        } else {
            match run {
                Some(s) => {
                    proof {
                        vstd::arithmetic::mul::lemma_mul_nonnegative(s as int, wl as int);
                        vstd::arithmetic::mul::lemma_mul_nonnegative(i as int, wl as int);
                        assert((s as nat) * (wl as nat) < len);
                        assert((i as nat) * (wl as nat) < len);
                    }
                    if i - s >= minw {
                        let region = SilenceRegion { start_frame: s * wl, end_frame: i * wl };
                        done.push(region);
                        proof {
                            let head = RegionView {
                                start: (s * wl) as int,
                                end: (i * wl) as int,
                            };
                            assert(region@ == head);
                            let tail = regions_rec(
                                samples,
                                wl as nat,
                                threshold,
                                minw as nat,
                                nw as nat,
                                (i + 1) as nat,
                                None,
                            );
                            assert(regions_rec(
                                samples,
                                wl as nat,
                                threshold,
                                minw as nat,
                                nw as nat,
                                i as nat,
                                oldrun,
                            ) == seq![head] + tail);
                            assert(done@.map_values(|x: SilenceRegion| x@)
                                =~= olddone.map_values(|x: SilenceRegion| x@) + seq![head]);
                            assert(done@.map_values(|x: SilenceRegion| x@) + tail
                                =~= olddone.map_values(|x: SilenceRegion| x@) + (seq![head]
                                + tail));
                        }
                    } else {
                        proof {
                            let tail = regions_rec(
                                samples,
                                wl as nat,
                                threshold,
                                minw as nat,
                                nw as nat,
                                (i + 1) as nat,
                                None,
                            );
                            assert(regions_rec(
                                samples,
                                wl as nat,
                                threshold,
                                minw as nat,
                                nw as nat,
                                i as nat,
                                oldrun,
                            ) == Seq::<RegionView>::empty() + tail);
                            assert(Seq::<RegionView>::empty() + tail =~= tail);
                        }
                    }
                    run = None;
                },
                None => {
                    proof {
                        assert(regions_rec(
                            samples,
                            wl as nat,
                            threshold,
                            minw as nat,
                            nw as nat,
                            i as nat,
                            oldrun,
                        ) == regions_rec(
                            samples,
                            wl as nat,
                            threshold,
                            minw as nat,
                            nw as nat,
                            (i + 1) as nat,
                            None,
                        ));
                    }
                },
            }
        }
        i = i + 1;
    }
    let ghost olddone = done@;
    let ghost oldrun = run_view(run);
    match run {
        Some(s) => {
            proof {
                lemma_num_windows(len as nat, wl as nat);
                vstd::arithmetic::mul::lemma_mul_nonnegative(s as int, wl as int);
                assert((s as nat) * (wl as nat) < len);
            }
            if nw - s >= minw {
                let region = SilenceRegion { start_frame: s * wl, end_frame: len };
                done.push(region);
                proof {
                    let head = RegionView { start: (s * wl) as int, end: len as int };
                    assert(region@ == head);
                    assert(regions_rec(
                        samples,
                        wl as nat,
                        threshold,
                        minw as nat,
                        nw as nat,
                        i as nat,
                        oldrun,
                    ) == seq![head]);
                    assert(done@.map_values(|x: SilenceRegion| x@)
                        =~= olddone.map_values(|x: SilenceRegion| x@) + seq![head]);
                    assert(done@.map_values(|x: SilenceRegion| x@)
                        =~= regions_spec(samples, wl as nat, threshold, minw as nat));
                }
            } else {
                proof {
                    assert(regions_rec(
                        samples,
                        wl as nat,
                        threshold,
                        minw as nat,
                        nw as nat,
                        i as nat,
                        oldrun,
                    ) == Seq::<RegionView>::empty());
                    assert(olddone.map_values(|x: SilenceRegion| x@)
                        + Seq::<RegionView>::empty()
                        =~= olddone.map_values(|x: SilenceRegion| x@));
                }
            }
        },
        None => {
            proof {
                assert(regions_rec(
                    samples,
                    wl as nat,
                    threshold,
                    minw as nat,
                    nw as nat,
                    i as nat,
                    oldrun,
                ) == Seq::<RegionView>::empty());
                assert(olddone.map_values(|x: SilenceRegion| x@) + Seq::<RegionView>::empty()
                    =~= olddone.map_values(|x: SilenceRegion| x@));
            }
        },
    }
    done
}

/// Concatenates, in original order, every sample range not covered by a
/// region, as `kept_samples` describes.
fn cut_regions(samples: &Vec<i32>, regions: &Vec<SilenceRegion>) -> (r: Vec<i32>)
    requires
        regions_sorted(
            regions@.map_values(|x: SilenceRegion| x@),
            0,
            samples@.len() as int,
        ),
    ensures
        r@ == kept_samples(samples@, regions@.map_values(|x: SilenceRegion| x@)),
{
    let ghost rs = regions@.map_values(|x: SilenceRegion| x@);
    let len = samples.len();
    let mut out: Vec<i32> = Vec::new();
    let mut last_end: usize = 0;
    let mut j: usize = 0;
    proof {
        assert(rs.skip(0) =~= rs);
        assert(out@ + kept_rec(samples@, rs, 0) =~= kept_samples(samples@, rs));
    }
    while j < regions.len()
        invariant
            len == samples@.len(),
            rs == regions@.map_values(|x: SilenceRegion| x@),
            j <= regions@.len(),
            last_end <= len,
            regions_sorted(rs.skip(j as int), last_end as int, len as int),
            out@ + kept_rec(samples@, rs.skip(j as int), last_end as int) == kept_samples(
                samples@,
                rs,
            ),
        decreases regions@.len() - j,
    {
        let ghost oldout = out@;
        let ghost rest = rs.skip(j as int);
        proof {
            assert(rest[0] == rs[j as int]);
            assert(rest.skip(1) =~= rs.skip(j + 1));
        }
        let region = regions[j];
        proof {
            assert(region@ == rs[j as int]);
            assert(last_end <= region.start_frame);
            assert(region.start_frame <= region.end_frame);
            assert(region.end_frame <= len);
        }
        let piece = vstd::slice::slice_subrange(
            samples.as_slice(),
            last_end,
            region.start_frame,
        );
        out.extend_from_slice(piece);
        proof {
            assert(out@ =~= oldout + samples@.subrange(
                last_end as int,
                region.start_frame as int,
            ));
            assert(kept_rec(samples@, rest, last_end as int)
                == samples@.subrange(last_end as int, rest[0].start) + kept_rec(
                samples@,
                rest.skip(1),
                rest[0].end,
            ));
            assert(out@ + kept_rec(samples@, rs.skip(j + 1), region.end_frame as int)
                =~= oldout + kept_rec(samples@, rest, last_end as int));
        }
        last_end = region.end_frame;
        j = j + 1;
    }
    let ghost oldout = out@;
    let tail = vstd::slice::slice_subrange(samples.as_slice(), last_end, len);
    out.extend_from_slice(tail);
    proof {
        assert(rs.skip(j as int) =~= Seq::<RegionView>::empty());
        assert(kept_rec(samples@, rs.skip(j as int), last_end as int) == samples@.subrange(
            last_end as int,
            len as int,
        ));
        assert(out@ =~= oldout + samples@.subrange(last_end as int, len as int));
    }
    out
}

impl SilenceRemover {
    /// A remover with the given RMS cutoff and minimum silence length, and
    /// the fixed 100 ms analysis window.
    pub fn new(threshold: u32, min_duration_ms: u32) -> (r: Self)
        ensures
            r.threshold == threshold,
            r.min_duration_ms == min_duration_ms,
            r.window_size_ms == 100,
    {
        SilenceRemover { threshold, min_duration_ms, window_size_ms: 100 }
    }
}


/// The least, greatest and mean window RMS, as the `rms_*` functions
/// describe.
fn window_stats(
    rms_values: &Vec<u64>,
    Ghost(samples): Ghost<Seq<i32>>,
    Ghost(wl): Ghost<nat>,
) -> (r: (u64, u64, u64))
    requires
        wl >= 1,
        rms_values@.len() == num_windows(samples.len(), wl),
        forall|k: int|
            0 <= k < rms_values@.len() ==> rms_values@[k] == win_rms(samples, wl, k as nat),
    ensures
        r.0 == rms_min_rec(samples, wl, num_windows(samples.len(), wl)),
        r.1 == rms_max_rec(samples, wl, num_windows(samples.len(), wl)),
        r.2 == rms_avg(samples, wl, num_windows(samples.len(), wl)),
{
    let nw = rms_values.len();
    let mut cur_min: u64 = 0;
    let mut cur_max: u64 = 0;
    let mut sum: u128 = 0;
    let mut k: usize = 0;
    while k < nw
        invariant
            nw == rms_values@.len(),
            nw == num_windows(samples.len(), wl),
            forall|j: int|
                0 <= j < rms_values@.len() ==> rms_values@[j] == win_rms(samples, wl, j as nat),
            k <= nw,
            cur_min == rms_min_rec(samples, wl, k as nat),
            cur_max == rms_max_rec(samples, wl, k as nat),
            sum == rms_sum_rec(samples, wl, k as nat),
            sum <= k as int * 0xFFFF_FFFF_FFFF_FFFF,
        decreases nw - k,
    {
        let v = rms_values[k];
        if k == 0 {
            cur_min = v;
        } else if v < cur_min {
            cur_min = v;
        }
        if v > cur_max {
            cur_max = v;
        }
        sum = sum + (v as u128);
        k = k + 1;
        proof {
            assert(cur_min == rms_min_rec(samples, wl, k as nat));
            assert(cur_max == rms_max_rec(samples, wl, k as nat));
            assert(sum == rms_sum_rec(samples, wl, k as nat));
        }
    }
    let avg: u64 = if nw == 0 {
        0
    } else {
        let q: u128 = sum / (nw as u128);
        proof {
            lemma_div_is_ordered(sum as int, nw as int * 0xFFFF_FFFF_FFFF_FFFF, nw as int);
            vstd::arithmetic::div_mod::lemma_div_multiples_vanish(
                0xFFFF_FFFF_FFFF_FFFF,
                nw as int,
            );
            assert((nw as int * 0xFFFF_FFFF_FFFF_FFFF) / (nw as int) == 0xFFFF_FFFF_FFFF_FFFF);
        }
        q as u64
    };
    (cur_min, cur_max, avg)
}

impl SilenceRemover {
    /// Trims silent stretches from a buffer: windows the samples, marks a
    /// window silent below the threshold, removes every silent run at
    /// least `min_duration_ms` long (a trailing run runs to the buffer's
    /// end), and reports the analysis.  A buffer that has no silent window
    /// comes back unchanged, and the output never plays longer than the
    /// input.
    pub fn remove_silence(&self, audio: &AudioBuffer) -> (r: Result<
        (AudioBuffer, SilenceAnalysis),
        WhisperCatError,
    >)
        requires
            self.window_size_ms == 100,
            audio.sample_rate >= 10,
            audio.channels >= 1,
        ensures
            r is Ok,
            ({
                let wl = (audio.sample_rate / 10) as nat;
                let t = self.threshold as nat;
                let minw = (self.min_duration_ms / 100) as nat;
                let nw = num_windows(audio.samples@.len(), wl);
                let rs = regions_spec(audio.samples@, wl, t, minw);
                let out = r->Ok_0.0;
                let an = r->Ok_0.1;
                &&& out.sample_rate == audio.sample_rate
                &&& out.channels == audio.channels
                &&& out.samples@ == kept_samples(audio.samples@, rs)
                &&& out.samples@.len() <= audio.samples@.len()
                &&& an.silence_regions@.map_values(|x: SilenceRegion| x@) == rs
                &&& ((forall|w: nat| w < nw ==> !win_silent(audio.samples@, wl, t, w))
                    ==> out.samples@ == audio.samples@)
                &&& an.min_rms == rms_min_rec(audio.samples@, wl, nw)
                &&& an.max_rms == rms_max_rec(audio.samples@, wl, nw)
                &&& an.avg_rms == rms_avg(audio.samples@, wl, nw)
                &&& an.original_duration_ms == duration_ms_spec(
                    audio.samples@.len(),
                    audio.channels as nat,
                    audio.sample_rate as nat,
                )
                &&& an.new_duration_ms == duration_ms_spec(
                    out.samples@.len(),
                    audio.channels as nat,
                    audio.sample_rate as nat,
                )
                &&& an.new_duration_ms <= an.original_duration_ms
                &&& an.reduction_percent == reduction_spec(
                    an.original_duration_ms as nat,
                    an.new_duration_ms as nat,
                )
            }),
    {
        let wl: usize = (audio.sample_rate / 10) as usize;
        let minw: usize = (self.min_duration_ms / 100) as usize;
        let ghost t = self.threshold as nat;
        let ghost nw = num_windows(audio.samples@.len(), wl as nat);
        let (flags, rms_values) = analyze_windows(&audio.samples, wl, self.threshold);
        let (min_rms, max_rms, avg_rms) = window_stats(
            &rms_values,
            Ghost(audio.samples@),
            Ghost(wl as nat),
        );
        let silence_regions = find_regions(
            &flags,
            wl,
            minw,
            audio.samples.len(),
            Ghost(audio.samples@),
            Ghost(t),
        );
        proof {
            lemma_regions_spec_sorted(audio.samples@, wl as nat, t, minw as nat);
            assert(silence_regions@.map_values(|x: SilenceRegion| x@)
                == regions_spec(audio.samples@, wl as nat, t, minw as nat));
        }
        let new_samples = cut_regions(&audio.samples, &silence_regions);
        proof {
            lemma_kept_len(
                audio.samples@,
                regions_spec(audio.samples@, wl as nat, t, minw as nat),
                0,
            );
            if forall|w: nat| w < nw ==> !win_silent(audio.samples@, wl as nat, t, w) {
                lemma_no_silence_identity(audio.samples@, wl as nat, t, minw as nat, nw, 0);
                assert(kept_rec(audio.samples@, Seq::<RegionView>::empty(), 0)
                    == audio.samples@.subrange(0, audio.samples@.len() as int));
                assert(audio.samples@.subrange(0, audio.samples@.len() as int)
                    =~= audio.samples@);
            }
        }
        let original_duration_ms = audio.duration_ms();
        let new_buffer = AudioBuffer {
            samples: new_samples,
            sample_rate: audio.sample_rate,
            channels: audio.channels,
        };
        let new_duration_ms = new_buffer.duration_ms();
        proof {
            lemma_duration_monotone(
                new_buffer.samples@.len(),
                audio.samples@.len(),
                audio.channels as nat,
                audio.sample_rate as nat,
            );
        }
        let reduction_percent: u64 = if original_duration_ms == 0 {
            0
        } else {
            let diff: u128 = (original_duration_ms - new_duration_ms) as u128;
            let pct: u128 = (diff * 100) / (original_duration_ms as u128);
            proof {
                lemma_mul_inequality(
                    diff as int,
                    original_duration_ms as int,
                    100,
                );
                lemma_div_is_ordered(
                    diff as int * 100,
                    original_duration_ms as int * 100,
                    original_duration_ms as int,
                );
                vstd::arithmetic::div_mod::lemma_div_multiples_vanish(
                    100,
                    original_duration_ms as int,
                );
                assert((original_duration_ms as int * 100) / (original_duration_ms as int)
                    == 100);
            }
            pct as u64
        };
        let analysis = SilenceAnalysis {
            min_rms,
            max_rms,
            avg_rms,
            silence_regions,
            reduction_percent,
            original_duration_ms,
            new_duration_ms,
        };
        Ok((new_buffer, analysis))
    }
}

} // verus!
