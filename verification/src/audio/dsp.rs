//! The integer side of audio processing: the rational resampling ratio,
//! which input samples each output sample reads, and where speech begins
//! and ends once frames are classified. The sample arithmetic itself is
//! floating point and is done around the library.
use vstd::arithmetic::div_mod::{
    lemma_div_denominator, lemma_div_multiples_vanish, lemma_fundamental_div_mod,
    lemma_mod_multiples_vanish,
};
use vstd::arithmetic::mul::lemma_mul_is_associative;
use vstd::prelude::*;

verus! {

/// Sample rate that the speech model expects, in hertz.
pub const WHISPER_SAMPLE_RATE: u32 = 16000;

/// Euclid's greatest common divisor.
pub open spec fn gcd(a: nat, b: nat) -> nat
    decreases b,
{
    if b == 0 {
        a
    } else {
        gcd(b, a % b)
    }
}

/// Greatest common divisor of `a` and `b` (`0` when both are `0`).
pub fn gcd_u64(a: u64, b: u64) -> (g: u64)
    ensures
        g == gcd(a as nat, b as nat),
{
    let mut x = a;
    let mut y = b;
    while y != 0
        invariant
            gcd(x as nat, y as nat) == gcd(a as nat, b as nat),
        decreases y,
    {
        let r = x % y;
        x = y;
        y = r;
    }
    x
}

proof fn lemma_divisor_step(x: int, y: int, d: int)
    requires
        x >= 0,
        y > 0,
        d > 0,
        y % d == 0,
    ensures
        x % d == 0 <==> (x % y) % d == 0,
{
    lemma_fundamental_div_mod(x, y);
    lemma_fundamental_div_mod(y, d);
    let q = x / y;
    let k = y / d;
    let r = x % y;
    assert(y == d * k);
    lemma_mul_is_associative(d, k, q);
    assert(y * q == d * (k * q));
    assert(x == d * (k * q) + r);
    lemma_mod_multiples_vanish(k * q, r, d);
}

/// `gcd` is the greatest common divisor: it divides both numbers, every
/// common divisor divides it, and it is `0` only for `gcd(0, 0)`.
pub proof fn lemma_gcd_is_greatest(a: nat, b: nat)
    ensures
        gcd(a, b) == 0 <==> (a == 0 && b == 0),
        gcd(a, b) > 0 ==> a % gcd(a, b) == 0 && b % gcd(a, b) == 0,
        forall|d: int|
            d > 0 && (a as int) % d == 0 && (b as int) % d == 0 ==> #[trigger] (gcd(a, b) as int % d)
                == 0,
    decreases b,
{
    if b == 0 {
        if a > 0 {
            assert(a % a == 0) by {
                lemma_mod_multiples_vanish(1, 0, a as int);
            }
        }
        assert((0int) % (a as int) == 0 || a == 0);
    } else {
        let r = a % b;
        lemma_gcd_is_greatest(b, r);
        let g = gcd(b, r);
        assert(g == gcd(a, b));
        if g > 0 {
            assert(r % g == 0 && b % g == 0);
            lemma_divisor_step(a as int, b as int, g as int);
        }
        assert forall|d: int| d > 0 && (a as int) % d == 0 && (b as int) % d == 0 implies #[trigger] (gcd(
            a,
            b,
        ) as int % d) == 0 by {
            lemma_divisor_step(a as int, b as int, d);
        }
        if g == 0 {
            assert(b == 0 && r == 0);
        }
    }
}

/// Most distinct fractional offsets kept for the filter: beyond it phases
/// are rounded (position error under 1/1024 of a sample).
pub const MAX_PHASES: u64 = 1024;

/// The reduced ratio `to/from = up/down`, and how long the output is.
#[derive(Debug, Clone, Copy, PartialEq, Eq)]
pub struct ResamplePlan {
    pub up: u64,
    pub down: u64,
    /// Fractional offsets for which filter weights are tabulated.
    pub phases: u64,
    /// Samples produced.
    pub out_len: usize,
}

/// The ratio's numerator once reduced.
pub open spec fn reduced_up(from_hz: u32, to_hz: u32) -> int {
    to_hz as int / gcd(from_hz as nat, to_hz as nat) as int
}

/// The ratio's denominator once reduced.
pub open spec fn reduced_down(from_hz: u32, to_hz: u32) -> int {
    from_hz as int / gcd(from_hz as nat, to_hz as nat) as int
}

/// Resampling is a plain copy: same rate, no input, or a rate of zero.
pub open spec fn is_plain_copy(in_len: usize, from_hz: u32, to_hz: u32) -> bool {
    from_hz == to_hz || in_len == 0 || from_hz == 0 || to_hz == 0
}

/// How `in_len` samples at `from_hz` become samples at `to_hz`, or `None`
/// when the input is to be copied as it is.
pub fn resample_plan(in_len: usize, from_hz: u32, to_hz: u32) -> (p: Option<ResamplePlan>)
    requires
        !is_plain_copy(in_len, from_hz, to_hz) ==> in_len as int * reduced_up(from_hz, to_hz)
            <= u64::MAX,
        !is_plain_copy(in_len, from_hz, to_hz) ==> in_len as int * reduced_up(from_hz, to_hz)
            / reduced_down(from_hz, to_hz) <= usize::MAX,
    ensures
        p is None <==> is_plain_copy(in_len, from_hz, to_hz),
        p matches Some(pl) ==> {
            &&& pl.up == reduced_up(from_hz, to_hz)
            &&& pl.down == reduced_down(from_hz, to_hz)
            &&& pl.up > 0 && pl.down > 0
            &&& pl.phases == if pl.up < MAX_PHASES {
                pl.up
            } else {
                MAX_PHASES
            }
            &&& pl.out_len == in_len as int * pl.up / (pl.down as int)
        },
{
    if from_hz == to_hz || in_len == 0 || from_hz == 0 || to_hz == 0 {
        return None;
    }
    let g = gcd_u64(from_hz as u64, to_hz as u64);
    proof {
        lemma_gcd_is_greatest(from_hz as nat, to_hz as nat);
        lemma_fundamental_div_mod(to_hz as int, g as int);
        lemma_fundamental_div_mod(from_hz as int, g as int);
    }
    let up = to_hz as u64 / g;
    let down = from_hz as u64 / g;
    assert(up > 0 && down > 0) by {
        if up == 0 {
            assert(to_hz as int == g * 0);
        }
        if down == 0 {
            assert(from_hz as int == g * 0);
        }
    }
    let phases = if up < MAX_PHASES {
        up
    } else {
        MAX_PHASES
    };
    let out_len = (in_len as u64 * up / down) as usize;
    Some(ResamplePlan { up, down, phases, out_len })
}

/// The output length is the input length scaled by `to/from`, rounded
/// down: reducing the ratio changes nothing.
pub proof fn lemma_resampled_length(in_len: nat, from_hz: u32, to_hz: u32)
    requires
        from_hz > 0,
        to_hz > 0,
    ensures
        in_len * reduced_up(from_hz, to_hz) / reduced_down(from_hz, to_hz) == in_len * to_hz
            as int / from_hz as int,
{
    let g = gcd(from_hz as nat, to_hz as nat) as int;
    lemma_gcd_is_greatest(from_hz as nat, to_hz as nat);
    let u = reduced_up(from_hz, to_hz);
    let d = reduced_down(from_hz, to_hz);
    lemma_fundamental_div_mod(to_hz as int, g);
    lemma_fundamental_div_mod(from_hz as int, g);
    assert(to_hz as int == g * u);
    assert(from_hz as int == g * d);
    assert(d > 0) by {
        if d <= 0 {
            assert(g * d <= 0) by (nonlinear_arith)
                requires
                    g > 0,
                    d <= 0,
            ;
        }
    }
    let x = in_len as int * u;
    lemma_mul_is_associative(in_len as int, g, u);
    lemma_mul_is_associative(g, in_len as int, u);
    assert(in_len * (to_hz as int) == g * x) by (nonlinear_arith)
        requires
            to_hz as int == g * u,
            x == in_len as int * u,
    ;
    lemma_div_denominator(g * x, g, d);
    lemma_div_multiples_vanish(x, g);
    assert(g * x / (g * d) == x / d);
}

/// Which input samples one output sample reads: the filter phase, the
/// input index under the filter's first tap, and the taps `lo..hi` that
/// fall inside the input.
#[derive(Debug, Clone, Copy, PartialEq, Eq)]
pub struct TapWindow {
    pub phase: usize,
    pub first: i64,
    pub lo: usize,
    pub hi: usize,
}

/// Tap `t` of a window whose first tap is at input index `first` reads
/// one of the `in_len` input samples.
pub open spec fn lands_in_input(first: int, t: int, in_len: int) -> bool {
    0 <= first + t < in_len
}

/// The window for output sample `n`, with taps at input offsets
/// `-reach ..= reach + 1` around the sample's position.
pub fn tap_window(plan: &ResamplePlan, n: u64, reach: i64, taps: usize, in_len: usize) -> (w:
    TapWindow)
    requires
        0 < plan.up <= u32::MAX,
        plan.down > 0,
        1 <= plan.phases <= MAX_PHASES,
        n < plan.out_len,
        plan.out_len == in_len as int * plan.up / (plan.down as int),
        in_len as int * plan.up <= u64::MAX,
        0 <= reach,
        in_len + reach <= i64::MAX,
        2 * reach + 2 <= i64::MAX,
        taps == 2 * reach + 2,
    ensures
        w.phase < plan.phases,
        w.phase == ((n * plan.down) % (plan.up as int)) * plan.phases / (plan.up as int),
        w.first == (n * plan.down) / (plan.up as int) - reach,
        w.lo < w.hi ==> 0 <= w.first + w.lo && w.first + w.hi <= in_len,
        w.lo <= taps && w.hi <= taps,
        forall|t: int|
            0 <= t < taps ==> (w.lo <= t < w.hi <==> #[trigger] lands_in_input(w.first as int, t, in_len as int)),
{
    proof {
        assert(n * plan.down < in_len * plan.up) by (nonlinear_arith)
            requires
                n < plan.out_len,
                plan.out_len == in_len as int * plan.up / (plan.down as int),
                plan.down > 0,
        ;
    }
    let pos = n * plan.down;
    let base = pos / plan.up;
    assert(base < in_len) by (nonlinear_arith)
        requires
            pos < in_len * plan.up,
            base == pos / plan.up,
            plan.up > 0,
    ;
    proof {
        assert(pos % plan.up < plan.up);
        assert((pos % plan.up) as int * plan.phases < plan.up * plan.phases) by (nonlinear_arith)
            requires
                pos % plan.up < plan.up,
                plan.phases >= 1,
        ;
        assert(plan.up * plan.phases <= plan.up * MAX_PHASES) by (nonlinear_arith)
            requires
                plan.phases <= MAX_PHASES,
                plan.up > 0,
        ;
        assert(plan.up * MAX_PHASES <= u64::MAX);
        assert((pos % plan.up) as int * plan.phases / (plan.up as int) < plan.phases) by (nonlinear_arith)
            requires
                (pos % plan.up) as int * plan.phases < plan.up * plan.phases,
                plan.up > 0,
        ;
    }
    let phase = ((pos % plan.up) * plan.phases / plan.up) as usize;
    let first = base as i64 - reach;
    let lo: usize = if first < 0 {
        (-first) as usize
    } else {
        0
    };
    let len = in_len as i64;
    assert(len as int == in_len as int);
    let room = len - first;
    assert(room as int == in_len as int - first as int);
    let hi: usize = if room <= 0 {
        0
    } else if room < taps as i64 {
        room as usize
    } else {
        taps
    };
    let lo = if lo < taps {
        lo
    } else {
        taps
    };
    assert(lo as int == if (first as int) < 0 {
        if -(first as int) < taps {
            -(first as int)
        } else {
            taps as int
        }
    } else {
        0
    });
    assert(hi as int == if in_len - first <= 0 {
        0
    } else if in_len - first < taps {
        in_len - first
    } else {
        taps as int
    });
    assert forall|t: int| 0 <= t < taps implies (lo <= t < hi <==> #[trigger] lands_in_input(
        first as int,
        t,
        in_len as int,
    )) by {}
    TapWindow { phase, first, lo, hi }
}

/// Frames classified as speech before a take counts as speech: 0.25 s of
/// 30 ms frames, rounded up.
pub const MIN_VOICED_FRAMES: usize = 9;

/// How many frames are voiced.
pub open spec fn count_voiced(v: Seq<bool>) -> nat
    decreases v.len(),
{
    if v.len() == 0 {
        0
    } else {
        count_voiced(v.drop_last()) + if v.last() {
            1nat
        } else {
            0nat
        }
    }
}

/// Index of the first voiced frame, `-1` when there is none.
pub open spec fn first_voiced(v: Seq<bool>) -> int
    decreases v.len(),
{
    if v.len() == 0 {
        -1
    } else {
        let f = first_voiced(v.drop_last());
        if f >= 0 {
            f
        } else if v.last() {
            v.len() - 1
        } else {
            -1
        }
    }
}

/// Index of the last voiced frame, `-1` when there is none.
pub open spec fn last_voiced(v: Seq<bool>) -> int
    decreases v.len(),
{
    if v.len() == 0 {
        -1
    } else if v.last() {
        v.len() - 1
    } else {
        last_voiced(v.drop_last())
    }
}

/// The part of a take to transcribe: samples `start..end`, and how many
/// frames in it are voiced.
#[derive(Debug, Clone, Copy, PartialEq, Eq)]
pub struct SpeechFrames {
    pub start: usize,
    pub end: usize,
    pub voiced: usize,
}

/// Where speech lies, given which frames of `frame` samples are voiced: from
/// the first voiced frame to the end of the last, widened by `pad` samples
/// on each side within the take; nothing when too few frames are voiced.
pub open spec fn speech_frames(v: Seq<bool>, frame: int, pad: int, n_samples: int) -> Option<
    SpeechFrames,
> {
    if count_voiced(v) < MIN_VOICED_FRAMES {
        None
    } else {
        let a = first_voiced(v) * frame;
        let b = (last_voiced(v) + 1) * frame + pad;
        Some(
            SpeechFrames {
                start: (if a > pad {
                    a - pad
                } else {
                    0
                }) as usize,
                end: (if b < n_samples {
                    b
                } else {
                    n_samples
                }) as usize,
                voiced: count_voiced(v) as usize,
            },
        )
    }
}

proof fn lemma_voiced_bounds(v: Seq<bool>)
    ensures
        count_voiced(v) <= v.len(),
        -1 <= first_voiced(v) <= last_voiced(v) < v.len(),
        count_voiced(v) > 0 ==> 0 <= first_voiced(v),
        count_voiced(v) == 0 ==> last_voiced(v) == -1,
    decreases v.len(),
{
    if v.len() > 0 {
        lemma_voiced_bounds(v.drop_last());
    }
}

/// Trims the silent edges of a take from its per-frame classification.
pub fn speech_span(voiced: &Vec<bool>, frame: usize, pad: usize, n_samples: usize) -> (r: Option<
    SpeechFrames,
>)
    requires
        count_voiced(voiced@) >= MIN_VOICED_FRAMES ==> (last_voiced(voiced@) + 1) * frame + pad
            <= usize::MAX,
    ensures
        r == speech_frames(voiced@, frame as int, pad as int, n_samples as int),
{
    let mut count: usize = 0;
    let mut first: usize = 0;
    let mut last: usize = 0;
    let mut i: usize = 0;
    while i < voiced.len()
        invariant
            i <= voiced.len(),
            count == count_voiced(voiced@.take(i as int)),
            count > 0 ==> first == first_voiced(voiced@.take(i as int)) && last == last_voiced(
                voiced@.take(i as int),
            ),
            count == 0 ==> first_voiced(voiced@.take(i as int)) == -1,
            count <= i,
        decreases voiced.len() - i,
    {
        let ghost prev = voiced@.take(i as int);
        let ghost next = voiced@.take(i as int + 1);
        assert(next.drop_last() == prev);
        assert(next.last() == voiced@[i as int]);
        proof {
            lemma_voiced_bounds(prev);
        }
        if voiced[i] {
            if count == 0 {
                first = i;
            }
            last = i;
            count = count + 1;
        }
        i = i + 1;
    }
    assert(voiced@.take(voiced.len() as int) == voiced@);
    proof {
        lemma_voiced_bounds(voiced@);
    }
    if count < MIN_VOICED_FRAMES {
        return None;
    }
    assert(first as int * frame <= (last as int + 1) * frame) by (nonlinear_arith)
        requires
            first <= last,
    ;
    let a = first * frame;
    let start = if a > pad {
        a - pad
    } else {
        0
    };
    let b = (last + 1) * frame + pad;
    let end = if b < n_samples {
        b
    } else {
        n_samples
    };
    Some(SpeechFrames { start, end, voiced: count })
}

/// When the frames cut the take into runs of `frame` samples (the last run
/// possibly shorter), the speech found lies within the take and is not
/// empty: `start < end <= n_samples`.
pub proof fn lemma_speech_within_take(v: Seq<bool>, frame: int, pad: int, n_samples: int)
    requires
        frame > 0,
        pad >= 0,
        0 <= n_samples <= usize::MAX,
        v.len() * frame < n_samples + frame,
    ensures
        speech_frames(v, frame, pad, n_samples) matches Some(s) ==> s.start < s.end <= n_samples,
{
    lemma_voiced_bounds(v);
    if count_voiced(v) >= MIN_VOICED_FRAMES {
        let f = first_voiced(v);
        let l = last_voiced(v);
        assert(f * frame <= (v.len() - 1) * frame) by (nonlinear_arith)
            requires
                0 <= f <= v.len() - 1,
                frame > 0,
        ;
        assert((v.len() - 1) * frame == v.len() * frame - frame) by (nonlinear_arith);
        assert((f + 1) * frame <= (l + 1) * frame) by (nonlinear_arith)
            requires
                f <= l,
                frame > 0,
        ;
        assert(f * frame >= 0) by (nonlinear_arith)
            requires
                f >= 0,
                frame > 0,
        ;
        assert((f + 1) * frame == f * frame + frame) by (nonlinear_arith);
        let a = f * frame;
        let b = (l + 1) * frame + pad;
        let start: int = if a > pad {
            a - pad
        } else {
            0
        };
        let end: int = if b < n_samples {
            b
        } else {
            n_samples
        };
        assert(0 <= start < end <= n_samples);
        let sf = speech_frames(v, frame, pad, n_samples).unwrap();
        assert(sf.start as int == start);
        assert(sf.end as int == end);
    }
}

/// A voiced frame counts once: `count_voiced` is the number of `true`
/// entries.
pub proof fn lemma_count_voiced_counts_true(v: Seq<bool>)
    ensures
        count_voiced(v) == v.filter(|b: bool| b).len(),
    decreases v.len(),
{
    reveal(Seq::filter);
    if v.len() > 0 {
        lemma_count_voiced_counts_true(v.drop_last());
    }
}

/// A take counts as speech exactly when enough of its frames are voiced,
/// however far apart they lie; the span then reports that many voiced
/// frames.
pub proof fn lemma_speech_needs_enough_voiced_frames(v: Seq<bool>, frame: int, pad: int, n_samples: int)
    ensures
        speech_frames(v, frame, pad, n_samples) is Some <==> v.filter(|b: bool| b).len()
            >= MIN_VOICED_FRAMES,
        v.len() <= usize::MAX ==> (speech_frames(v, frame, pad, n_samples) matches Some(s) ==> s.voiced
            == v.filter(|b: bool| b).len()),
{
    lemma_count_voiced_counts_true(v);
    lemma_voiced_bounds(v);
}

} // verus!
