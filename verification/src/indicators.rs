//! Exact semantics of the windowed indicator engine.
//!
//! Every indicator is defined here as a function of the candle sequence
//! and an index: the value of the indicator in the row emitted for that
//! index.  The executable engine in `calculator` is proved to produce
//! exactly these values.  The rolling state the engine maintains is, at
//! every index, a suffix window of a prefix of the input; that shape is
//! what makes resumption with a warm-up prefix exact (see `lemma_resume_consistency`).

use crate::model::{CandleV, IndicatorV, ZScoreV};
use crate::ratio::{rat, rat_le, rat_lt, rat_mul, rat_sub, Rat};
use crate::timefeat::{day_of_week_of, hour_of};
use vstd::prelude::*;

verus! {

/// Capacity of the rolling close-price window and of the rolling volume
/// window; also the number of leading candles that never produce a row.
pub const WINDOW_SIZE: usize = 50;

/// Number of price deltas over which RSI is averaged.
pub const RSI_PERIOD: usize = 14;

/// Period of the fast moving average.
pub const MA_FAST_PERIOD: usize = 10;

/// Period of the slow moving average.
pub const MA_SLOW_PERIOD: usize = 30;

/// How many candles ahead the forward label looks.
pub const LOOKAHEAD: usize = 15;

/// Sum of an integer sequence.
pub open spec fn isum(s: Seq<int>) -> int
    decreases s.len(),
{
    if s.len() == 0 {
        0
    } else {
        isum(s.drop_last()) + s.last()
    }
}

pub proof fn lemma_isum_push(s: Seq<int>, x: int)
    ensures
        isum(s.push(x)) == isum(s) + x,
{
    assert(s.push(x).drop_last() =~= s);
}

pub proof fn lemma_isum_drop_first(s: Seq<int>)
    requires
        s.len() > 0,
    ensures
        isum(s.drop_first()) == isum(s) - s[0],
    decreases s.len(),
{
    if s.len() == 1 {
        assert(s.drop_first() =~= Seq::<int>::empty());
        assert(s.drop_last() =~= Seq::<int>::empty());
    } else {
        let t = s.drop_last();
        lemma_isum_drop_first(t);
        assert(s.drop_first().drop_last() =~= t.drop_first());
        assert(isum(s.drop_first()) == isum(t.drop_first()) + s.last());
    }
}

pub proof fn lemma_isum_bound(s: Seq<int>, b: int)
    requires
        b >= 0,
        forall|j: int| 0 <= j < s.len() ==> -b <= #[trigger] s[j] <= b,
    ensures
        -(s.len() * b) <= isum(s) <= s.len() * b,
    decreases s.len(),
{
    if s.len() == 0 {
    } else {
        let t = s.drop_last();
        assert(forall|j: int| 0 <= j < t.len() ==> -b <= #[trigger] t[j] <= b);
        lemma_isum_bound(t, b);
        assert(t.len() * b + b == s.len() * b) by (nonlinear_arith)
            requires
                t.len() + 1 == s.len(),
        ;
    }
}

pub proof fn lemma_isum_nonneg(s: Seq<int>)
    requires
        forall|j: int| 0 <= j < s.len() ==> #[trigger] s[j] >= 0,
    ensures
        isum(s) >= 0,
    decreases s.len(),
{
    if s.len() > 0 {
        let t = s.drop_last();
        assert(forall|j: int| 0 <= j < t.len() ==> #[trigger] t[j] >= 0);
        lemma_isum_nonneg(t);
    }
}

/// The last `k` elements of `s`, or all of `s` if it is shorter.
pub open spec fn last_n(s: Seq<int>, k: int) -> Seq<int> {
    if s.len() <= k {
        s
    } else {
        s.skip(s.len() - k)
    }
}

/// One step of a rolling window of capacity `k`: append, then evict the
/// oldest element if the window was already full.
pub open spec fn win_push(w: Seq<int>, x: int, k: int) -> Seq<int> {
    if w.len() < k {
        w.push(x)
    } else {
        w.push(x).drop_first()
    }
}

/// Feeding the elements of `s` one by one through `win_push` leaves
/// exactly the last `k` elements of the prefix fed so far.
pub proof fn lemma_last_n_step(s: Seq<int>, i: int, k: int)
    requires
        0 <= i < s.len(),
        k >= 1,
    ensures
        last_n(s.take(i + 1), k) == win_push(last_n(s.take(i), k), s[i], k),
{
    let a = s.take(i);
    let b = s.take(i + 1);
    let w = last_n(a, k);
    if i < k {
        assert(b =~= w.push(s[i]));
    } else {
        assert(last_n(b, k) =~= w.push(s[i]).drop_first());
    }
}

/// Close prices of a candle sequence.
pub open spec fn closes(c: Seq<CandleV>) -> Seq<int> {
    c.map_values(|x: CandleV| x.close)
}

/// Volumes of a candle sequence.
pub open spec fn vols(c: Seq<CandleV>) -> Seq<int> {
    c.map_values(|x: CandleV| x.volume)
}

/// Close-to-close price deltas; `deltas(c)[j]` is the change from candle
/// `j` to candle `j + 1`.
pub open spec fn deltas(c: Seq<CandleV>) -> Seq<int> {
    Seq::new(if c.len() == 0 { 0 } else { (c.len() - 1) as nat }, |j: int| c[j + 1].close - c[j].close)
}

/// Gain part of a delta sequence: the delta when non-negative, else zero.
pub open spec fn gains_of(ds: Seq<int>) -> Seq<int> {
    ds.map_values(|d: int| if d >= 0 { d } else { 0 })
}

/// Loss part of a delta sequence: the negated delta when negative, else zero.
pub open spec fn losses_of(ds: Seq<int>) -> Seq<int> {
    ds.map_values(|d: int| if d >= 0 { 0 } else { -d })
}

/// Rolling close-price window after the candle at `i` has been processed.
pub open spec fn price_win_at(c: Seq<CandleV>, i: int) -> Seq<int> {
    last_n(closes(c).take(i + 1), WINDOW_SIZE as int)
}

/// Rolling gain window after the candle at `i` has been processed: the
/// last `RSI_PERIOD` gain parts of the deltas seen so far (the delta
/// ending at candle `j` is pushed while processing candle `j`).
pub open spec fn gain_win_at(c: Seq<CandleV>, i: int) -> Seq<int> {
    last_n(gains_of(deltas(c)).take(i), RSI_PERIOD as int)
}

/// Rolling loss window after the candle at `i` has been processed.
pub open spec fn loss_win_at(c: Seq<CandleV>, i: int) -> Seq<int> {
    last_n(losses_of(deltas(c)).take(i), RSI_PERIOD as int)
}

/// Rolling volume window after the candle at `i` has been processed.
pub open spec fn vol_win_at(c: Seq<CandleV>, i: int) -> Seq<int> {
    last_n(vols(c).take(i + 1), WINDOW_SIZE as int)
}

/// Simple moving average with period `k` over a window of buffered
/// prices: the mean of the last `k`, or zero while fewer than `k` prices
/// are buffered.
pub open spec fn sma_of(w: Seq<int>, k: int) -> Rat {
    if k <= 0 || w.len() == 0 || w.len() < k {
        rat(0, 1)
    } else {
        rat(isum(last_n(w, k)), k)
    }
}

/// Moving average of period `k` in the row for candle `i`; `i == -1`
/// denotes the state before any candle was processed.
pub open spec fn sma_at(c: Seq<CandleV>, i: int, k: int) -> Rat {
    sma_of(price_win_at(c, i), k)
}

/// RSI over buffered gain and loss windows.  Neutral 50 while fewer than
/// `RSI_PERIOD` deltas are buffered; 100 when the average loss is zero;
/// otherwise `100 - 100 / (1 + avg_gain / avg_loss)`, which reduces
/// exactly to `100 * gain_sum / (gain_sum + loss_sum)`.
pub open spec fn rsi_of(g: Seq<int>, l: Seq<int>) -> Rat {
    if g.len() < RSI_PERIOD || l.len() < RSI_PERIOD {
        rat(50, 1)
    } else if isum(l) == 0 {
        rat(100, 1)
    } else {
        rat(100 * isum(g), isum(g) + isum(l))
    }
}

/// RSI in the row for candle `i`.
pub open spec fn rsi_at(c: Seq<CandleV>, i: int) -> Rat {
    rsi_of(gain_win_at(c, i), loss_win_at(c, i))
}

/// RSI zone flag: 1 below 30, -1 above 70, else 0.
pub open spec fn zone_of(r: Rat) -> int {
    if rat_lt(r, rat(30, 1)) {
        1
    } else if rat_lt(rat(70, 1), r) {
        -1
    } else {
        0
    }
}

/// Moving-average crossover flag: +1 when the fast average moves from
/// `<=` the slow to `>` it, -1 when it moves from `>=` to `<`, else 0.
pub open spec fn cross_of(prev_fast: Rat, prev_slow: Rat, fast: Rat, slow: Rat) -> int {
    if rat_le(prev_fast, prev_slow) && rat_lt(slow, fast) {
        1
    } else if rat_le(prev_slow, prev_fast) && rat_lt(fast, slow) {
        -1
    } else {
        0
    }
}

/// Crossover flag in the row for candle `i`, comparing the averages of
/// the previous state (which includes any warm-up seed) with the current.
pub open spec fn cross_at(c: Seq<CandleV>, i: int) -> int {
    cross_of(
        sma_at(c, i - 1, MA_FAST_PERIOD as int),
        sma_at(c, i - 1, MA_SLOW_PERIOD as int),
        sma_at(c, i, MA_FAST_PERIOD as int),
        sma_at(c, i, MA_SLOW_PERIOD as int),
    )
}

/// Elementwise squares of a sequence.
pub open spec fn squares(s: Seq<int>) -> Seq<int> {
    s.map_values(|x: int| x * x)
}

/// Sum of squares of a sequence.
pub open spec fn sq_sum(s: Seq<int>) -> int {
    isum(squares(s))
}

/// Elementwise bound on the squares of a bounded sequence.
pub proof fn lemma_squares_bound(s: Seq<int>, b: int)
    requires
        b >= 0,
        forall|j: int| 0 <= j < s.len() ==> -b <= #[trigger] s[j] <= b,
    ensures
        forall|j: int| 0 <= j < squares(s).len() ==> 0 <= #[trigger] squares(s)[j] <= b * b,
{
    assert forall|j: int| 0 <= j < squares(s).len() implies 0 <= #[trigger] squares(s)[j] <= b
        * b by {
        let x = s[j];
        assert(0 <= x * x <= b * b) by (nonlinear_arith)
            requires
                -b <= x <= b,
        ;
    }
}

/// Mean of a buffered volume window, zero when empty.
pub open spec fn mean_of(w: Seq<int>) -> Rat {
    if w.len() == 0 {
        rat(0, 1)
    } else {
        rat(isum(w), w.len() as int)
    }
}

/// Numerator of the Bessel-corrected sample variance times `n * (n - 1)`:
/// `n * sum(w^2) - sum(w)^2`.
pub open spec fn varnum_of(w: Seq<int>) -> int {
    w.len() * sq_sum(w) - isum(w) * isum(w)
}

/// Bessel-corrected sample variance of a buffered volume window; zero
/// while fewer than two samples are buffered.
pub open spec fn var_of(w: Seq<int>) -> Rat {
    if w.len() <= 1 {
        rat(0, 1)
    } else {
        rat(varnum_of(w), w.len() * (w.len() - 1))
    }
}

/// Deviation of `v` from the window mean, zero when the window is empty.
pub open spec fn dev_of(w: Seq<int>, v: int) -> Rat {
    if w.len() == 0 {
        rat(0, 1)
    } else {
        rat(w.len() * v - isum(w), w.len() as int)
    }
}

/// The volume anomaly decision, exactly: with `n` samples, deviation
/// `d = n * v - sum(w)` and variance numerator `V = n * sq_sum - sum^2`,
/// the z-score `(v - mean) / sqrt(var)` strictly exceeds 2 iff
/// `n >= 2`, `V > 0`, `d > 0` and `(n - 1) * d^2 > 4 * n * V`
/// (cross-multiplying the square of the inequality through the positive
/// denominators).  A z-score of exactly 2, or an undefined one
/// (`n < 2` or zero variance), is no anomaly.
pub open spec fn anomaly_of(w: Seq<int>, v: int) -> int {
    let n = w.len() as int;
    let d = n * v - isum(w);
    if n >= 2 && varnum_of(w) > 0 && d > 0 && (n - 1) * (d * d) > 4 * (n * varnum_of(w)) {
        1
    } else {
        0
    }
}

/// Forward price change in percent, as an exact rational:
/// `((future / current) - 1) * 100`, zero when the current price is zero.
pub open spec fn pct_of(cur: int, fut: int) -> Rat {
    if cur == 0 {
        rat(0, 1)
    } else if cur > 0 {
        rat(100 * (fut - cur), cur)
    } else {
        rat(100 * (cur - fut), -cur)
    }
}

/// Forward signal: +1 when the percent change strictly exceeds 0.2,
/// -1 when strictly below -0.2, else 0.
pub open spec fn signal_of(cur: int, fut: int) -> int {
    if cur == 0 {
        0
    } else if rat_lt(rat(1, 5), pct_of(cur, fut)) {
        1
    } else if rat_lt(pct_of(cur, fut), rat(-1, 5)) {
        -1
    } else {
        0
    }
}

/// Forward percent change in the row for candle `i`: looks `LOOKAHEAD`
/// candles ahead within the same input slice, zero when that falls past
/// its end.
pub open spec fn pct_at(c: Seq<CandleV>, i: int) -> Rat {
    if i + LOOKAHEAD < c.len() {
        pct_of(c[i].close, c[i + LOOKAHEAD as int].close)
    } else {
        rat(0, 1)
    }
}

/// Forward signal in the row for candle `i`.
pub open spec fn signal_at(c: Seq<CandleV>, i: int) -> int {
    if i + LOOKAHEAD < c.len() {
        signal_of(c[i].close, c[i + LOOKAHEAD as int].close)
    } else {
        0
    }
}

/// The complete indicator row for candle `i` of `c`.
pub open spec fn record_at(c: Seq<CandleV>, i: int) -> IndicatorV {
    IndicatorV {
        uid: c[i].uid,
        time: c[i].time,
        open: c[i].open,
        high: c[i].high,
        low: c[i].low,
        close: c[i].close,
        volume: c[i].volume,
        rsi_14: rsi_at(c, i),
        ma_10: sma_at(c, i, MA_FAST_PERIOD as int),
        ma_30: sma_at(c, i, MA_SLOW_PERIOD as int),
        volume_norm: ZScoreV {
            dev: dev_of(vol_win_at(c, i), c[i].volume),
            var: var_of(vol_win_at(c, i)),
        },
        ma_diff: rat_sub(sma_at(c, i, MA_FAST_PERIOD as int), sma_at(c, i, MA_SLOW_PERIOD as int)),
        ma_cross: cross_at(c, i),
        rsi_zone: zone_of(rsi_at(c, i)),
        volume_anomaly: anomaly_of(vol_win_at(c, i), c[i].volume),
        hour_of_day: hour_of(c[i].time),
        day_of_week: day_of_week_of(c[i].time),
        price_change_15m: pct_at(c, i),
        signal_15m: signal_at(c, i),
    }
}

/// Index of the first candle that produces a row, for warm-up length
/// `w`: rows start after the warm-up prefix, and never before the
/// rolling window spans `WINDOW_SIZE` candles.
pub open spec fn emit_start(w: int) -> int {
    if w >= WINDOW_SIZE { w } else { WINDOW_SIZE as int }
}

/// Number of rows the engine emits for `c` with warm-up length `w`.
pub open spec fn emit_count(c: Seq<CandleV>, w: int) -> int {
    if c.len() > emit_start(w) {
        c.len() - emit_start(w)
    } else {
        0
    }
}


/// The candles that seed the rolling state on resumption: the last
/// `WINDOW_SIZE` candles of the already-processed history, or all of it
/// if it is shorter.
pub open spec fn warm_prefix(c: Seq<CandleV>) -> Seq<CandleV> {
    if c.len() <= WINDOW_SIZE {
        c
    } else {
        c.skip(c.len() - WINDOW_SIZE)
    }
}

/// A suffix window of a shifted prefix is a suffix window of the
/// unshifted prefix, once the prefix is at least as long as the window.
proof fn lemma_last_n_shift(s: Seq<int>, sh: int, m: int, k: int)
    requires
        0 <= sh,
        0 <= m,
        sh + m <= s.len(),
        1 <= k <= m,
    ensures
        last_n(s.skip(sh).take(m), k) == last_n(s.take(sh + m), k),
{
    assert(last_n(s.skip(sh).take(m), k) =~= last_n(s.take(sh + m), k));
}

/// A strictly rising close sequence yields no losses, so RSI is exactly
/// 100 at every index with a full delta window.
pub proof fn lemma_gain_only_rsi(c: Seq<CandleV>, i: int)
    requires
        forall|j: int| 1 <= j < c.len() ==> #[trigger] c[j].close > c[j - 1].close,
        RSI_PERIOD <= i < c.len(),
    ensures
        rsi_at(c, i) == rat(100, 1),
{
    let g = gain_win_at(c, i);
    let l = loss_win_at(c, i);
    assert(l.len() == RSI_PERIOD);
    assert(g.len() == RSI_PERIOD);
    assert forall|q: int| 0 <= q < l.len() implies #[trigger] l[q] == 0 by {
        let ls = losses_of(deltas(c));
        let p = i - RSI_PERIOD + q;
        assert(l[q] == ls[p]);
        assert(deltas(c)[p] == c[p + 1].close - c[p].close);
        assert(c[p + 1].close > c[p].close);
    }
    assert forall|q: int| 0 <= q < l.len() implies 0 <= #[trigger] l[q] <= 0 by {
        assert(l[q] == 0);
    }
    lemma_isum_bound(l, 0);
    assert(l.len() * 0 == 0);
}

/// The crossover flag is +1 exactly where the fast average moves from
/// `<=` the slow one to strictly above it — and so at no other index of
/// the same input.
pub proof fn lemma_crossover_exact(c: Seq<CandleV>, i: int)
    ensures
        cross_at(c, i) == 1 <==> rat_le(
            sma_at(c, i - 1, MA_FAST_PERIOD as int),
            sma_at(c, i - 1, MA_SLOW_PERIOD as int),
        ) && rat_lt(sma_at(c, i, MA_SLOW_PERIOD as int), sma_at(c, i, MA_FAST_PERIOD as int)),
        cross_at(c, i) == -1 <==> rat_le(
            sma_at(c, i - 1, MA_SLOW_PERIOD as int),
            sma_at(c, i - 1, MA_FAST_PERIOD as int),
        ) && rat_lt(sma_at(c, i, MA_FAST_PERIOD as int), sma_at(c, i, MA_SLOW_PERIOD as int)),
{
}

/// The volume anomaly flag is 1 exactly when the z-score strictly
/// exceeds 2: with at least two samples and a positive variance, a
/// positive deviation whose square exceeds `4 * var` — that is,
/// `dev / sqrt(var) > 2`.  At a z-score of exactly 2 the flag is 0.
pub proof fn lemma_anomaly_exact(w: Seq<int>, v: int)
    ensures
        anomaly_of(w, v) == 1 <==> w.len() >= 2 && rat_lt(rat(0, 1), var_of(w)) && rat_lt(
            rat(0, 1),
            dev_of(w, v),
        ) && rat_lt(rat_mul(rat(4, 1), var_of(w)), rat_mul(dev_of(w, v), dev_of(w, v))),
{
    if w.len() >= 2 {
        let n = w.len() as int;
        let d = n * v - isum(w);
        let vn = varnum_of(w);
        assert(rat_lt(rat(0, 1), var_of(w)) <==> vn > 0);
        assert(rat_lt(rat(0, 1), dev_of(w, v)) <==> d > 0);
        let lhs = rat_mul(rat(4, 1), var_of(w));
        let rhs = rat_mul(dev_of(w, v), dev_of(w, v));
        assert(lhs.num == 4 * vn);
        assert(lhs.den == 1 * (n * (n - 1)));
        assert(rhs.num == d * d);
        assert(rhs.den == n * n);
        assert((4 * vn) * (n * n) < (d * d) * (1 * (n * (n - 1))) <==> (n - 1) * (d * d) > 4 * (n
            * vn)) by (nonlinear_arith)
            requires
                n >= 2,
        ;
    }
}

/// Resume consistency: the row the engine emits for a candle is the
/// same whether the whole history is processed in one pass, or a prefix
/// is processed first and the run resumes over the suffix after
/// re-seeding from the prefix's `warm_prefix`.  `j` is the candle's
/// position within the suffix.
pub proof fn lemma_resume_consistency(pre: Seq<CandleV>, suf: Seq<CandleV>, j: int)
    requires
        0 <= j < suf.len(),
    ensures
        record_at(pre + suf, pre.len() + j) == record_at(
            warm_prefix(pre) + suf,
            warm_prefix(pre).len() + j,
        ),
{
    if pre.len() <= WINDOW_SIZE {
        assert(warm_prefix(pre) == pre);
    } else {
        let a = pre + suf;
        let b = warm_prefix(pre) + suf;
        let sh = pre.len() - WINDOW_SIZE;
        let ia = pre.len() + j;
        let ib = WINDOW_SIZE + j;
        assert(b =~= a.skip(sh));
        assert(closes(b) =~= closes(a).skip(sh));
        assert(vols(b) =~= vols(a).skip(sh));
        assert(deltas(b) =~= deltas(a).skip(sh));
        assert(gains_of(deltas(b)) =~= gains_of(deltas(a)).skip(sh));
        assert(losses_of(deltas(b)) =~= losses_of(deltas(a)).skip(sh));
        // current and previous rolling windows coincide
        lemma_last_n_shift(closes(a), sh, ib + 1, WINDOW_SIZE as int);
        lemma_last_n_shift(closes(a), sh, ib, WINDOW_SIZE as int);
        lemma_last_n_shift(vols(a), sh, ib + 1, WINDOW_SIZE as int);
        lemma_last_n_shift(gains_of(deltas(a)), sh, ib, RSI_PERIOD as int);
        lemma_last_n_shift(losses_of(deltas(a)), sh, ib, RSI_PERIOD as int);
        assert(price_win_at(b, ib) == price_win_at(a, ia));
        assert(price_win_at(b, ib - 1) == price_win_at(a, ia - 1));
        assert(vol_win_at(b, ib) == vol_win_at(a, ia));
        assert(gain_win_at(b, ib) == gain_win_at(a, ia));
        assert(loss_win_at(b, ib) == loss_win_at(a, ia));
        assert(b[ib] == a[ia]);
        assert(ib + LOOKAHEAD < b.len() <==> ia + LOOKAHEAD < a.len());
        if ib + LOOKAHEAD < b.len() {
            assert(b[ib + LOOKAHEAD as int] == a[ia + LOOKAHEAD as int]);
        }
        assert(record_at(a, ia) == record_at(b, ib));
    }
}

/// Resume consistency for the number of rows: resuming over the suffix
/// with warm-up seeding emits exactly the rows the single full pass
/// emits at suffix positions.
pub proof fn lemma_resume_emit_count(pre: Seq<CandleV>, suf: Seq<CandleV>)
    ensures
        emit_count(warm_prefix(pre) + suf, warm_prefix(pre).len() as int) == emit_count(
            pre + suf,
            0,
        ) - emit_count(pre, 0),
{
}

} // verus!
