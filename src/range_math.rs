use vstd::prelude::*;

verus! {

/// Fixed-point scale of every engine value: one whole unit is `UNIT` steps.
/// A MIDI note `n` stands at pitch `n * UNIT`.
pub const UNIT: i64 = 1000;

/// Largest magnitude of a value or a range bound handed to `convert_range`.
pub const MAX_MAGNITUDE: i64 = 1_000_000_000;

/// Largest width of an interval handed to `smoothstep`.
pub const MAX_WIDTH: u64 = 1_000_000;

pub open spec fn clamp(v: int, lo: int, hi: int) -> int {
    if v < lo {
        lo
    } else if v > hi {
        hi
    } else {
        v
    }
}

pub open spec fn abs(v: int) -> int {
    if v < 0 {
        -v
    } else {
        v
    }
}

/// How far `value`, clamped to the input range, lies from the start of that
/// range (the range may run downwards).
pub open spec fn input_offset(value: int, in_start: int, in_end: int) -> int {
    if in_start <= in_end {
        clamp(value, in_start, in_end) - in_start
    } else {
        in_start - clamp(value, in_end, in_start)
    }
}

/// The affine map from `[in_start, in_end]` onto `[out_min, out_max]`, with the
/// input clamped to its range and the result rounded down.
pub open spec fn remap(value: int, in_start: int, in_end: int, out_min: int, out_max: int) -> int {
    out_min + input_offset(value, in_start, in_end) * (out_max - out_min) / abs(in_end - in_start)
}

pub open spec fn bounded(v: int) -> bool {
    -MAX_MAGNITUDE <= v <= MAX_MAGNITUDE
}

/// Remaps `value` from the input range onto the output range, never leaving
/// the output range.
pub fn convert_range(value: i64, in_start: i64, in_end: i64, out_min: i64, out_max: i64) -> (r: i64)
    requires
        bounded(value as int),
        bounded(in_start as int),
        bounded(in_end as int),
        bounded(out_min as int),
        bounded(out_max as int),
        in_start != in_end,
        out_min <= out_max,
    ensures
        r == remap(value as int, in_start as int, in_end as int, out_min as int, out_max as int),
        out_min <= r <= out_max,
{
    let (offset, width): (u64, u64) = if in_start <= in_end {
        let v: i64 = if value < in_start {
            in_start
        } else if value > in_end {
            in_end
        } else {
            value
        };
        ((v - in_start) as u64, (in_end - in_start) as u64)
    } else {
        let v: i64 = if value < in_end {
            in_end
        } else if value > in_start {
            in_start
        } else {
            value
        };
        ((in_start - v) as u64, (in_start - in_end) as u64)
    };
    let span: u64 = (out_max - out_min) as u64;
    proof {
        assert(offset <= width);
        assert(offset * span <= width * span) by (nonlinear_arith)
            requires
                offset <= width,
        ;
        assert(width * span <= 2_000_000_000u64 * 2_000_000_000u64) by (nonlinear_arith)
            requires
                width <= 2_000_000_000u64,
                span <= 2_000_000_000u64,
        ;
        lemma_scaled_offset_within(offset as int, width as int, span as int);
    }
    let scaled: u64 = offset * span / width;
    out_min + scaled as i64
}

proof fn lemma_scaled_offset_within(offset: int, width: int, span: int)
    requires
        0 <= offset <= width,
        0 < width,
        0 <= span,
    ensures
        0 <= offset * span / width <= span,
{
    assert(0 <= offset * span) by (nonlinear_arith)
        requires
            0 <= offset,
            0 <= span,
    ;
    assert(offset * span <= width * span) by (nonlinear_arith)
        requires
            offset <= width,
            0 <= span,
    ;
    vstd::arithmetic::div_mod::lemma_div_is_ordered(offset * span, width * span, width);
    vstd::arithmetic::div_mod::lemma_div_multiples_vanish(span, width);
    assert(width * span == span * width) by (nonlinear_arith);
    vstd::arithmetic::div_mod::lemma_div_pos_is_pos(offset * span, width);
}

/// Whatever the input, the remapped value lies in the output range.
pub proof fn lemma_remap_within_output(
    value: int,
    in_start: int,
    in_end: int,
    out_min: int,
    out_max: int,
)
    requires
        in_start != in_end,
        out_min <= out_max,
    ensures
        out_min <= remap(value, in_start, in_end, out_min, out_max) <= out_max,
{
    let offset = input_offset(value, in_start, in_end);
    lemma_scaled_offset_within(offset, abs(in_end - in_start), out_max - out_min);
}

/// Remapping a range onto itself leaves every value of the range unchanged.
pub proof fn lemma_remap_identity(x: int, a: int, b: int)
    requires
        a < b,
        a <= x <= b,
    ensures
        remap(x, a, b, a, b) == x,
{
    assert((x - a) * (b - a) / (b - a) == x - a) by {
        vstd::arithmetic::div_mod::lemma_div_multiples_vanish(x - a, b - a);
        assert((x - a) * (b - a) == (b - a) * (x - a)) by (nonlinear_arith);
    }
}

/// Eased offset for an offset `t` in the lower half of an interval of width `w`:
/// `t² (3w − 2t) / w²`, rounded down.
pub open spec fn ease_low(t: int, w: int) -> int {
    t * t * (3 * w - 2 * t) / (w * w)
}

/// The cubic ease `3x² − 2x³` of an offset `t` over an interval of width `w`,
/// rounded toward the nearer edge so that it is symmetric about the middle.
pub open spec fn ease(t: int, w: int) -> int {
    if w == 0 {
        0
    } else if 2 * t <= w {
        ease_low(t, w)
    } else {
        w - ease_low(w - t, w)
    }
}

/// `value` after `n` smooth steps inside `[lo, hi]`.
pub open spec fn stairs(lo: int, hi: int, value: int, n: nat) -> int
    decreases n,
{
    if n == 0 {
        value
    } else {
        stairs(lo, hi, lo + ease(value - lo, hi - lo), (n - 1) as nat)
    }
}

/// The edge of `[lo, hi]` nearer to `value`.
pub open spec fn nearest_edge(lo: int, hi: int, value: int) -> int {
    if 2 * (value - lo) < hi - lo {
        lo
    } else {
        hi
    }
}

proof fn lemma_ease_low_bounds(t: int, w: int)
    requires
        0 <= t,
        2 * t <= w,
        0 < w,
    ensures
        0 <= ease_low(t, w) <= t,
        0 < t && 2 * t < w ==> ease_low(t, w) < t,
{
    let a = t * t * (3 * w - 2 * t);
    let b = w * w;
    assert(0 < b) by (nonlinear_arith)
        requires
            0 < w,
            b == w * w,
    ;
    assert(0 <= a) by (nonlinear_arith)
        requires
            0 <= t,
            2 * t <= w,
            a == t * t * (3 * w - 2 * t),
    ;
    assert(a <= t * b) by (nonlinear_arith)
        requires
            0 <= t,
            2 * t <= w,
            a == t * t * (3 * w - 2 * t),
            b == w * w,
    ;
    vstd::arithmetic::div_mod::lemma_div_pos_is_pos(a, b);
    vstd::arithmetic::div_mod::lemma_div_is_ordered(a, t * b, b);
    vstd::arithmetic::div_mod::lemma_div_multiples_vanish(t, b);
    assert(t * b == b * t) by (nonlinear_arith);
    if 0 < t && 2 * t < w {
        assert(a < t * b) by (nonlinear_arith)
            requires
                0 < t,
                2 * t < w,
                a == t * t * (3 * w - 2 * t),
                b == w * w,
        ;
        vstd::arithmetic::div_mod::lemma_fundamental_div_mod(a, b);
        vstd::arithmetic::div_mod::lemma_mod_pos_bound(a, b);
        assert(a / b < t) by (nonlinear_arith)
            requires
                a == b * (a / b) + a % b,
                0 <= a % b,
                a < t * b,
                0 < b,
        ;
    }
}

/// A smooth step keeps the value inside its interval.
proof fn lemma_ease_within(t: int, w: int)
    requires
        0 <= t <= w,
        0 < w,
    ensures
        0 <= ease(t, w) <= w,
        2 * t < w ==> ease(t, w) <= t,
        2 * t > w ==> ease(t, w) >= t,
{
    if 2 * t <= w {
        lemma_ease_low_bounds(t, w);
    } else {
        lemma_ease_low_bounds(w - t, w);
    }
}

/// From the lower half, enough smooth steps reach the lower edge.
proof fn lemma_stairs_reach_low(lo: int, hi: int, value: int, n: nat)
    requires
        lo < hi,
        lo <= value,
        2 * (value - lo) < hi - lo,
        n >= value - lo,
    ensures
        stairs(lo, hi, value, n) == lo,
    decreases n,
{
    let w = hi - lo;
    let t = value - lo;
    if n > 0 {
        lemma_ease_low_bounds(t, w);
        if t == 0 {
            assert(ease_low(0, w) == 0);
        }
        lemma_stairs_reach_low(lo, hi, lo + ease(t, w), (n - 1) as nat);
    }
}

/// From the upper half, enough smooth steps reach the upper edge.
proof fn lemma_stairs_reach_high(lo: int, hi: int, value: int, n: nat)
    requires
        lo < hi,
        value <= hi,
        2 * (value - lo) > hi - lo,
        n >= hi - value,
    ensures
        stairs(lo, hi, value, n) == hi,
    decreases n,
{
    let w = hi - lo;
    let t = value - lo;
    if n > 0 {
        lemma_ease_low_bounds(w - t, w);
        if t == w {
            assert(ease_low(0, w) == 0);
        }
        lemma_stairs_reach_high(lo, hi, lo + ease(t, w), (n - 1) as nat);
    }
}

/// Smooth steps keep the value inside its interval.
proof fn lemma_stairs_within(lo: int, hi: int, value: int, n: nat)
    requires
        lo <= value <= hi,
    ensures
        lo <= stairs(lo, hi, value, n) <= hi,
    decreases n,
{
    if n > 0 {
        if lo < hi {
            lemma_ease_within(value - lo, hi - lo);
        }
        lemma_stairs_within(lo, hi, lo + ease(value - lo, hi - lo), (n - 1) as nat);
    }
}

/// With at least as many steps as the interval is wide, the smooth steps land
/// exactly on the nearer edge, from anywhere but the very middle.
pub proof fn lemma_stairs_converge(lo: int, hi: int, value: int, n: nat)
    requires
        lo < hi,
        lo <= value <= hi,
        2 * (value - lo) != hi - lo,
        n >= hi - lo,
    ensures
        stairs(lo, hi, value, n) == nearest_edge(lo, hi, value),
{
    if 2 * (value - lo) < hi - lo {
        lemma_stairs_reach_low(lo, hi, value, n);
    } else {
        lemma_stairs_reach_high(lo, hi, value, n);
    }
}

/// One smooth step from within `w / d` of the lower edge lands within
/// `3w / d²` of it.
proof fn lemma_ease_low_scaled(t: int, w: int, d: int)
    requires
        0 <= t,
        2 * t <= w,
        0 < w,
        0 < d,
        t * d <= w,
    ensures
        ease_low(t, w) * d * d <= 3 * w,
{
    let a = t * t * (3 * w - 2 * t);
    let b = w * w;
    assert(0 < b) by (nonlinear_arith)
        requires
            0 < w,
            b == w * w,
    ;
    assert(a <= 3 * w * (t * t)) by (nonlinear_arith)
        requires
            0 <= t,
            a == t * t * (3 * w - 2 * t),
    ;
    assert((t * d) * (t * d) <= w * w) by (nonlinear_arith)
        requires
            0 <= t * d,
            t * d <= w,
    ;
    assert(a * (d * d) <= 3 * w * b) by (nonlinear_arith)
        requires
            a <= 3 * w * (t * t),
            (t * d) * (t * d) <= w * w,
            b == w * w,
            0 < w,
            0 <= a,
    ;
    vstd::arithmetic::div_mod::lemma_fundamental_div_mod(a, b);
    vstd::arithmetic::div_mod::lemma_mod_pos_bound(a, b);
    lemma_ease_low_bounds(t, w);
    assert((a / b) * d * d <= 3 * w) by (nonlinear_arith)
        requires
            a == b * (a / b) + a % b,
            0 <= a % b,
            a * (d * d) <= 3 * w * b,
            0 < b,
            0 <= a / b,
    ;
}

/// Steps from within `bound` of the lower edge stay within it.
proof fn lemma_stairs_stay_low(lo: int, hi: int, value: int, n: nat, bound: int)
    requires
        lo < hi,
        lo <= value <= lo + bound,
        2 * bound <= hi - lo,
    ensures
        lo <= stairs(lo, hi, value, n) <= lo + bound,
    decreases n,
{
    if n > 0 {
        lemma_ease_low_bounds(value - lo, hi - lo);
        lemma_stairs_stay_low(lo, hi, lo + ease(value - lo, hi - lo), (n - 1) as nat, bound);
    }
}

/// Steps from within `bound` of the upper edge stay within it.
proof fn lemma_stairs_stay_high(lo: int, hi: int, value: int, n: nat, bound: int)
    requires
        lo < hi,
        hi - bound <= value <= hi,
        2 * bound < hi - lo,
    ensures
        hi - bound <= stairs(lo, hi, value, n) <= hi,
    decreases n,
{
    if n > 0 {
        lemma_ease_low_bounds(hi - value, hi - lo);
        lemma_stairs_stay_high(lo, hi, lo + ease(value - lo, hi - lo), (n - 1) as nat, bound);
    }
}

/// Distances to an edge after each of five smooth steps, from `t`, while they
/// stay in the near half.
proof fn lemma_five_eases(t: int, w: int)
    requires
        0 <= t,
        4 * t <= w,
        0 < w,
    ensures
        ({
            let t1 = ease_low(t, w);
            let t2 = ease_low(t1, w);
            let t3 = ease_low(t2, w);
            let t4 = ease_low(t3, w);
            let t5 = ease_low(t4, w);
            &&& 0 <= t5 && 7203 * t5 <= w
            &&& 0 <= t1 && 5 * t1 <= w && 0 <= t2 && 8 * t2 <= w
            &&& 0 <= t3 && 21 * t3 <= w && 0 <= t4 && 147 * t4 <= w
        }),
{
    let t1 = ease_low(t, w);
    lemma_ease_low_scaled(t, w, 4);
    lemma_ease_low_bounds(t, w);
    let t2 = ease_low(t1, w);
    lemma_ease_low_scaled(t1, w, 5);
    lemma_ease_low_bounds(t1, w);
    let t3 = ease_low(t2, w);
    lemma_ease_low_scaled(t2, w, 8);
    lemma_ease_low_bounds(t2, w);
    let t4 = ease_low(t3, w);
    lemma_ease_low_scaled(t3, w, 21);
    lemma_ease_low_bounds(t3, w);
    let t5 = ease_low(t4, w);
    lemma_ease_low_scaled(t4, w, 147);
    lemma_ease_low_bounds(t4, w);
}

/// From within a quarter of an interval of one of its edges, five or more
/// smooth steps land within `1 / 7203` of the interval's width of that edge.
pub proof fn lemma_stairs_near_edge(lo: int, hi: int, value: int, n: nat)
    requires
        lo < hi,
        lo <= value <= hi,
        4 * (value - lo) <= hi - lo || 4 * (hi - value) <= hi - lo,
        n >= 5,
    ensures
        7203 * abs(stairs(lo, hi, value, n) - nearest_edge(lo, hi, value)) <= hi - lo,
{
    let w = hi - lo;
    if 4 * (value - lo) <= w {
        let t = value - lo;
        lemma_five_eases(t, w);
        let t1 = ease_low(t, w);
        let t2 = ease_low(t1, w);
        let t3 = ease_low(t2, w);
        let t4 = ease_low(t3, w);
        let t5 = ease_low(t4, w);
        assert(stairs(lo, hi, value, n) == stairs(lo, hi, lo + t1, (n - 1) as nat));
        assert(stairs(lo, hi, lo + t1, (n - 1) as nat) == stairs(lo, hi, lo + t2, (n - 2) as nat));
        assert(stairs(lo, hi, lo + t2, (n - 2) as nat) == stairs(lo, hi, lo + t3, (n - 3) as nat));
        assert(stairs(lo, hi, lo + t3, (n - 3) as nat) == stairs(lo, hi, lo + t4, (n - 4) as nat));
        assert(stairs(lo, hi, lo + t4, (n - 4) as nat) == stairs(lo, hi, lo + t5, (n - 5) as nat));
        lemma_stairs_stay_low(lo, hi, lo + t5, (n - 5) as nat, t5);
        if 2 * t == w {
            assert(4 * t <= w);
        }
    } else {
        let t = hi - value;
        lemma_five_eases(t, w);
        let t1 = ease_low(t, w);
        let t2 = ease_low(t1, w);
        let t3 = ease_low(t2, w);
        let t4 = ease_low(t3, w);
        let t5 = ease_low(t4, w);
        assert(ease(value - lo, w) == w - t1);
        assert(ease(w - t1, w) == w - t2);
        assert(ease(w - t2, w) == w - t3);
        assert(ease(w - t3, w) == w - t4);
        assert(ease(w - t4, w) == w - t5);
        assert(stairs(lo, hi, value, n) == stairs(lo, hi, hi - t1, (n - 1) as nat));
        assert(stairs(lo, hi, hi - t1, (n - 1) as nat) == stairs(lo, hi, hi - t2, (n - 2) as nat));
        assert(stairs(lo, hi, hi - t2, (n - 2) as nat) == stairs(lo, hi, hi - t3, (n - 3) as nat));
        assert(stairs(lo, hi, hi - t3, (n - 3) as nat) == stairs(lo, hi, hi - t4, (n - 4) as nat));
        assert(stairs(lo, hi, hi - t4, (n - 4) as nat) == stairs(lo, hi, hi - t5, (n - 5) as nat));
        lemma_stairs_stay_high(lo, hi, hi - t5, (n - 5) as nat, t5);
    }
}

/// Smooth step: maps `x` in `[lo, hi]` to `lo` plus the eased offset, which
/// pulls it toward the nearer edge.
pub fn smoothstep(lo: i64, hi: i64, x: i64) -> (r: i64)
    requires
        lo <= x <= hi,
        hi - lo <= MAX_WIDTH,
    ensures
        r == lo + ease(x - lo, hi - lo),
        lo <= r <= hi,
{
    let w: u64 = (hi - lo) as u64;
    if w == 0 {
        return lo;
    }
    let t: u64 = (x - lo) as u64;
    proof {
        lemma_ease_within(t as int, w as int);
    }
    let low_half: bool = 2 * t <= w;
    let u: u64 = if low_half { t } else { w - t };
    proof {
        assert(u * u <= 1_000_000_000_000u64) by (nonlinear_arith)
            requires
                u <= w,
                w <= 1_000_000,
        ;
        assert(w * w <= 1_000_000_000_000u64) by (nonlinear_arith)
            requires
                w <= 1_000_000,
        ;
        assert(w * w > 0) by (nonlinear_arith)
            requires
                w > 0,
        ;
    }
    let squared: u64 = u * u;
    let weight: u64 = 3 * w - 2 * u;
    proof {
        assert(squared * weight <= 3_000_000_000_000_000_000u64) by (nonlinear_arith)
            requires
                squared <= 1_000_000_000_000u64,
                weight <= 3_000_000u64,
        ;
    }
    let eased: u64 = squared * weight / (w * w);
    if low_half {
        lo + eased as i64
    } else {
        hi - eased as i64
    }
}

/// `s[i]` and `s[i + 1]`, as pitches, enclose `v`.
pub open spec fn encloses(s: Seq<u8>, i: int, v: int) -> bool {
    s[i] * UNIT <= v <= s[i + 1] * UNIT
}

/// Index of the first pair of neighbouring notes, from `i` on, that encloses
/// `v`; `-1` where none does.
pub open spec fn first_interval(s: Seq<u8>, v: int, i: int) -> int
    decreases s.len() - i,
{
    if i < 0 || i + 1 >= s.len() {
        -1
    } else if encloses(s, i, v) {
        i
    } else {
        first_interval(s, v, i + 1)
    }
}

/// `value` pulled `amount` smooth steps toward an edge of the first scale
/// interval that holds it; unchanged where no interval holds it.
pub open spec fn quantized(value: int, amount: nat, scale: Seq<u8>) -> int {
    let i = first_interval(scale, value, 0);
    if i < 0 {
        value
    } else {
        stairs(scale[i] * UNIT, scale[i + 1] * UNIT, value, amount)
    }
}

proof fn lemma_first_interval_found(s: Seq<u8>, v: int, i: int)
    requires
        0 <= i,
    ensures
        first_interval(s, v, i) == -1 || (i <= first_interval(s, v, i) && first_interval(s, v, i)
            + 1 < s.len() && encloses(s, first_interval(s, v, i), v)),
    decreases s.len() - i,
{
    if i + 1 < s.len() && !encloses(s, i, v) {
        lemma_first_interval_found(s, v, i + 1);
    }
}

/// Sticks `value` toward the scale notes: finds the first interval between
/// neighbouring notes (as pitches, `note * UNIT`) that holds it, then applies
/// `amount` smooth steps inside it. A value outside every interval passes
/// through unchanged.
pub fn smoothstairs(value: i64, amount: usize, scale: Vec<u8>) -> (r: i64)
    ensures
        r == quantized(value as int, amount as nat, scale@),
        amount == 0 ==> r == value,
        first_interval(scale@, value as int, 0) < 0 ==> r == value,
{
    let mut i: usize = 0;
    let n: usize = scale.len();
    while i < n && i + 1 < n
        invariant
            n == scale@.len(),
            0 <= i <= n,
            first_interval(scale@, value as int, i as int) == first_interval(scale@, value as int, 0),
        decreases n - i,
    {
        let lo: i64 = scale[i] as i64 * UNIT;
        let hi: i64 = scale[i + 1] as i64 * UNIT;
        if lo <= value && value <= hi {
            let mut v: i64 = value;
            let mut k: usize = 0;
            while k < amount
                invariant
                    lo <= v <= hi,
                    hi - lo <= MAX_WIDTH,
                    k <= amount,
                    stairs(lo as int, hi as int, v as int, (amount - k) as nat) == stairs(
                        lo as int,
                        hi as int,
                        value as int,
                        amount as nat,
                    ),
                decreases amount - k,
            {
                v = smoothstep(lo, hi, v);
                k = k + 1;
            }
            return v;
        }
        i = i + 1;
    }
    value
}

/// Zero steps leave every value unchanged.
pub proof fn lemma_quantized_zero_steps(value: int, scale: Seq<u8>)
    ensures
        quantized(value, 0, scale) == value,
{
}

/// With at least as many steps as the enclosing interval is wide, a value
/// inside the scale lands exactly on the nearer note of its interval (unless it
/// sits on the very middle, which stays put).
pub proof fn lemma_quantized_converges(value: int, amount: nat, scale: Seq<u8>)
    requires
        first_interval(scale, value, 0) >= 0,
        ({
            let i = first_interval(scale, value, 0);
            &&& scale[i] < scale[i + 1]
            &&& amount >= (scale[i + 1] - scale[i]) * UNIT
            &&& 2 * (value - scale[i] * UNIT) != (scale[i + 1] - scale[i]) * UNIT
        }),
    ensures
        ({
            let i = first_interval(scale, value, 0);
            quantized(value, amount, scale) == nearest_edge(
                scale[i] * UNIT,
                scale[i + 1] * UNIT,
                value,
            )
        }),
{
    let i = first_interval(scale, value, 0);
    lemma_first_interval_found(scale, value, 0);
    lemma_stairs_converge(scale[i] * UNIT, scale[i + 1] * UNIT, value, amount);
}

/// With five or more steps, a value within a quarter of its interval from one
/// of the interval's notes ends within `1 / 7203` of the interval's width of
/// that note.
pub proof fn lemma_quantized_near_note(value: int, amount: nat, scale: Seq<u8>)
    requires
        first_interval(scale, value, 0) >= 0,
        amount >= 5,
        ({
            let i = first_interval(scale, value, 0);
            let lo = scale[i] * UNIT;
            let hi = scale[i + 1] * UNIT;
            &&& lo < hi
            &&& 4 * (value - lo) <= hi - lo || 4 * (hi - value) <= hi - lo
        }),
    ensures
        ({
            let i = first_interval(scale, value, 0);
            let lo = scale[i] * UNIT;
            let hi = scale[i + 1] * UNIT;
            7203 * abs(quantized(value, amount, scale) - nearest_edge(lo, hi, value)) <= hi - lo
        }),
{
    let i = first_interval(scale, value, 0);
    lemma_first_interval_found(scale, value, 0);
    lemma_stairs_near_edge(scale[i] * UNIT, scale[i + 1] * UNIT, value, amount);
}

/// Quantizing keeps a value that fits the fixed-point range within it.
pub proof fn lemma_quantized_bounded(value: int, amount: nat, scale: Seq<u8>)
    requires
        bounded(value),
    ensures
        bounded(quantized(value, amount, scale)),
{
    let i = first_interval(scale, value, 0);
    lemma_first_interval_found(scale, value, 0);
    if i >= 0 {
        lemma_stairs_within(scale[i] * UNIT, scale[i + 1] * UNIT, value, amount);
    }
}

} // verus!
