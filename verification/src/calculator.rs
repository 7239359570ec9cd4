//! The windowed indicator engine, executable and exact.
//!
//! `IndicatorCalculator::calculate_indicators` walks the candles in
//! order, maintaining bounded rolling windows (close prices, RSI
//! gain/loss parts, volume statistics), and emits one indicator row per
//! candle from the emission start onward.  Each helper is proved to
//! compute exactly the corresponding specification function from
//! `indicators`.

use crate::indicators::{
    anomaly_of, closes, cross_of, deltas, dev_of, emit_count, emit_start, gains_of, isum, last_n,
    lemma_isum_bound, lemma_isum_drop_first, lemma_isum_nonneg, lemma_isum_push, lemma_last_n_step,
    lemma_squares_bound, losses_of, mean_of, pct_of, price_win_at, record_at, rsi_of, signal_of,
    sma_at, sma_of, sq_sum, squares, var_of, vols, win_push, zone_of, LOOKAHEAD,
    MA_FAST_PERIOD, MA_SLOW_PERIOD, RSI_PERIOD, WINDOW_SIZE,
};
use crate::model::{
    candle_ok, CandleV, DbCandleConverted, DbIndicator, ZScore, PRICE_NANO_ABS, VOLUME_ABS,
};
use crate::ratio::Ratio;
use crate::timefeat::{day_of_week, hour_of_day};
use std::collections::VecDeque;
use vstd::prelude::*;

verus! {

/// Largest magnitude of a close-to-close delta.
pub const DELTA_ABS: i128 = 2 * PRICE_NANO_ABS;

/// Largest magnitude of a moving-average numerator (a sum of at most
/// `WINDOW_SIZE` bounded prices).
pub const MA_NUM_ABS: i128 = 50 * PRICE_NANO_ABS;

/// Largest magnitude of an RSI numerator (`100 *` a sum of at most
/// `RSI_PERIOD` bounded deltas).
pub const RSI_NUM_ABS: i128 = 2800 * PRICE_NANO_ABS;

/// Largest RSI denominator (gain sum plus loss sum).
pub const RSI_DEN_ABS: i128 = 56 * PRICE_NANO_ABS;

/// Mathematical views of a sequence of converted candles.
pub open spec fn candle_views(v: Seq<DbCandleConverted>) -> Seq<CandleV> {
    v.map_values(|x: DbCandleConverted| x@)
}

/// All candles of the sequence satisfy the arithmetic bounds.
pub open spec fn candles_ok(c: Seq<CandleV>) -> bool {
    forall|j: int| 0 <= j < c.len() ==> candle_ok(#[trigger] c[j])
}

/// Integer views of a buffered window.
pub open spec fn buf_view(w: Seq<i128>) -> Seq<int> {
    w.map_values(|x: i128| x as int)
}

proof fn lemma_prod_in_range(x: int, y: int, a: int, b: int)
    requires
        -a <= x <= a,
        -b <= y <= b,
        a >= 0,
        b >= 0,
        a * b <= i128::MAX,
    ensures
        -(a * b) <= x * y <= a * b,
        i128::MIN <= x * y <= i128::MAX,
{
    assert(-(a * b) <= x * y <= a * b) by (nonlinear_arith)
        requires
            -a <= x <= a,
            -b <= y <= b,
            a >= 0,
            b >= 0,
    ;
}

/// Sum of the elements of `w` in `[from, to)`, exactly and in range.
fn sum_range(w: &VecDeque<i128>, from: usize, to: usize, Ghost(b): Ghost<int>) -> (s: i128)
    requires
        from <= to <= w@.len(),
        b >= 0,
        (to - from) * b <= i128::MAX,
        forall|j: int| from <= j < to ==> -b <= #[trigger] buf_view(w@)[j] <= b,
    ensures
        s as int == isum(buf_view(w@).subrange(from as int, to as int)),
        -((to - from) * b) <= s as int <= (to - from) * b,
{
    let ghost v = buf_view(w@);
    let mut acc: i128 = 0;
    let mut j: usize = from;
    while j < to
        invariant
            from <= j <= to <= w@.len(),
            v == buf_view(w@),
            b >= 0,
            (to - from) * b <= i128::MAX,
            forall|q: int| from <= q < to ==> -b <= #[trigger] v[q] <= b,
            acc as int == isum(v.subrange(from as int, j as int)),
            -((j - from) * b) <= acc as int <= (j - from) * b,
        decreases to - j,
    {
        proof {
            assert(v.subrange(from as int, j as int + 1).drop_last() =~= v.subrange(
                from as int,
                j as int,
            ));
            assert((j - from) * b + b == (j + 1 - from) * b) by (nonlinear_arith);
            assert((j + 1 - from) * b <= (to - from) * b) by (nonlinear_arith)
                requires
                    j + 1 <= to,
                    from <= j,
                    b >= 0,
            ;
            assert(v[j as int] == w@[j as int] as int);
        }
        acc = acc + w[j];
        j = j + 1;
    }
    acc
}

/// Simple moving average of the last `period` buffered prices; zero while
/// fewer than `period` prices are buffered.
pub fn calculate_sma(prices: &VecDeque<i128>, period: usize) -> (r: Ratio)
    requires
        prices@.len() <= WINDOW_SIZE,
        forall|j: int|
            0 <= j < prices@.len() ==> -PRICE_NANO_ABS <= #[trigger] buf_view(prices@)[j]
                <= PRICE_NANO_ABS,
    ensures
        r@ == sma_of(buf_view(prices@), period as int),
        r.wf(),
        -MA_NUM_ABS <= r@.num <= MA_NUM_ABS,
        1 <= r@.den <= WINDOW_SIZE,
{
    let n = prices.len();
    if n == 0 || period == 0 || n < period {
        Ratio::zero()
    } else {
        proof {
            assert((period as int) * PRICE_NANO_ABS <= MA_NUM_ABS) by (nonlinear_arith)
                requires
                    0 < period <= 50,
            ;
            assert(buf_view(prices@).subrange(n - period, n as int) =~= last_n(
                buf_view(prices@),
                period as int,
            ));
        }
        let s = sum_range(prices, n - period, n, Ghost(PRICE_NANO_ABS as int));
        Ratio::new(s, period as i128)
    }
}

/// RSI over the buffered gain and loss windows: neutral 50 while fewer
/// than `RSI_PERIOD` deltas are buffered, 100 when the loss sum is zero,
/// else `100 * gains / (gains + losses)`.
pub fn calculate_rsi(gains: &VecDeque<i128>, losses: &VecDeque<i128>) -> (r: Ratio)
    requires
        gains@.len() <= RSI_PERIOD,
        losses@.len() <= RSI_PERIOD,
        forall|j: int| 0 <= j < gains@.len() ==> 0 <= #[trigger] buf_view(gains@)[j] <= DELTA_ABS,
        forall|j: int| 0 <= j < losses@.len() ==> 0 <= #[trigger] buf_view(losses@)[j] <= DELTA_ABS,
    ensures
        r@ == rsi_of(buf_view(gains@), buf_view(losses@)),
        r.wf(),
        0 <= r@.num <= RSI_NUM_ABS,
        1 <= r@.den <= RSI_DEN_ABS,
{
    let ng = gains.len();
    let nl = losses.len();
    if ng < RSI_PERIOD || nl < RSI_PERIOD {
        return Ratio::new(50, 1);
    }
    proof {
        assert(buf_view(gains@).subrange(0, ng as int) =~= buf_view(gains@));
        assert(buf_view(losses@).subrange(0, nl as int) =~= buf_view(losses@));
        assert((ng as int) * DELTA_ABS <= 14 * DELTA_ABS) by (nonlinear_arith)
            requires
                ng <= 14,
        ;
        assert((nl as int) * DELTA_ABS <= 14 * DELTA_ABS) by (nonlinear_arith)
            requires
                nl <= 14,
        ;
        lemma_isum_nonneg(buf_view(gains@));
        lemma_isum_nonneg(buf_view(losses@));
    }
    let g = sum_range(gains, 0, ng, Ghost(DELTA_ABS as int));
    let l = sum_range(losses, 0, nl, Ghost(DELTA_ABS as int));
    if l == 0 {
        Ratio::new(100, 1)
    } else {
        Ratio::new(100 * g, g + l)
    }
}

/// Crossover flag from the previous and current (fast, slow) averages:
/// +1 on an upward crossing, -1 on a downward crossing, else 0.
pub fn determine_ma_cross(
    prev_ma_fast: &Ratio,
    prev_ma_slow: &Ratio,
    curr_ma_fast: &Ratio,
    curr_ma_slow: &Ratio,
) -> (r: i8)
    requires
        -MA_NUM_ABS <= prev_ma_fast@.num <= MA_NUM_ABS,
        -MA_NUM_ABS <= prev_ma_slow@.num <= MA_NUM_ABS,
        -MA_NUM_ABS <= curr_ma_fast@.num <= MA_NUM_ABS,
        -MA_NUM_ABS <= curr_ma_slow@.num <= MA_NUM_ABS,
        1 <= prev_ma_fast@.den <= WINDOW_SIZE,
        1 <= prev_ma_slow@.den <= WINDOW_SIZE,
        1 <= curr_ma_fast@.den <= WINDOW_SIZE,
        1 <= curr_ma_slow@.den <= WINDOW_SIZE,
    ensures
        r as int == cross_of(prev_ma_fast@, prev_ma_slow@, curr_ma_fast@, curr_ma_slow@),
        -1 <= r <= 1,
{
    proof {
        lemma_prod_in_range(prev_ma_fast@.num, prev_ma_slow@.den, MA_NUM_ABS as int, 50);
        lemma_prod_in_range(prev_ma_slow@.num, prev_ma_fast@.den, MA_NUM_ABS as int, 50);
        lemma_prod_in_range(curr_ma_fast@.num, curr_ma_slow@.den, MA_NUM_ABS as int, 50);
        lemma_prod_in_range(curr_ma_slow@.num, curr_ma_fast@.den, MA_NUM_ABS as int, 50);
    }
    if prev_ma_fast.le(prev_ma_slow) && curr_ma_slow.lt(curr_ma_fast) {
        1
    } else if prev_ma_slow.le(prev_ma_fast) && curr_ma_fast.lt(curr_ma_slow) {
        -1
    } else {
        0
    }
}

/// RSI zone flag of an RSI value: 1 below 30, -1 above 70, else 0.
pub fn rsi_zone_flag(rsi: &Ratio) -> (z: i8)
    requires
        rsi.wf(),
        0 <= rsi@.num <= RSI_NUM_ABS,
        1 <= rsi@.den <= RSI_DEN_ABS,
    ensures
        z as int == zone_of(rsi@),
        -1 <= z <= 1,
{
    proof {
        lemma_prod_in_range(70, rsi@.den, 70, RSI_DEN_ABS as int);
        lemma_prod_in_range(30, rsi@.den, 30, RSI_DEN_ABS as int);
    }
    let thirty = Ratio::new(30, 1);
    let seventy = Ratio::new(70, 1);
    if rsi.lt(&thirty) {
        1
    } else if seventy.lt(rsi) {
        -1
    } else {
        0
    }
}

/// Forward price change in percent and the derived trade signal:
/// +1 above 0.2 percent, -1 below -0.2 percent, else 0; both zero when
/// the current price is zero.
pub fn calculate_future_price_change(current_price: i128, future_price: i128) -> (r: (Ratio, i8))
    requires
        -PRICE_NANO_ABS <= current_price <= PRICE_NANO_ABS,
        -PRICE_NANO_ABS <= future_price <= PRICE_NANO_ABS,
    ensures
        r.0@ == pct_of(current_price as int, future_price as int),
        r.1 as int == signal_of(current_price as int, future_price as int),
        r.0.wf(),
        -1 <= r.1 <= 1,
{
    if current_price == 0 {
        return (Ratio::zero(), 0);
    }
    let pct = if current_price > 0 {
        Ratio::new(100 * (future_price - current_price), current_price)
    } else {
        Ratio::new(100 * (current_price - future_price), -current_price)
    };
    proof {
        lemma_prod_in_range(pct@.num, 5, 200 * PRICE_NANO_ABS as int, 5);
        lemma_prod_in_range(1, pct@.den, 1, PRICE_NANO_ABS as int);
        lemma_prod_in_range(-1, pct@.den, 1, PRICE_NANO_ABS as int);
    }
    let up = Ratio::new(1, 5);
    let down = Ratio::new(-1, 5);
    let signal: i8 = if up.lt(&pct) {
        1
    } else if pct.lt(&down) {
        -1
    } else {
        0
    };
    (pct, signal)
}

/// Rolling volume statistics over a bounded window: the element window
/// plus running sum and sum of squares, kept exactly consistent.
pub struct VolumeStatistics {
    volumes: VecDeque<i64>,
    window_size: usize,
    sum: i128,
    sum_sq: i128,
}

impl VolumeStatistics {
    /// Integer views of the buffered volumes.
    pub closed spec fn model(&self) -> Seq<int> {
        self.volumes@.map_values(|x: i64| x as int)
    }

    pub closed spec fn capacity(&self) -> int {
        self.window_size as int
    }

    pub closed spec fn wf(&self) -> bool {
        &&& 1 <= self.window_size <= WINDOW_SIZE
        &&& self.model().len() <= self.window_size
        &&& forall|j: int|
            0 <= j < self.model().len() ==> -VOLUME_ABS <= #[trigger] self.model()[j] <= VOLUME_ABS
        &&& self.sum as int == isum(self.model())
        &&& self.sum_sq as int == sq_sum(self.model())
    }

    pub fn new(window_size: usize) -> (r: VolumeStatistics)
        requires
            1 <= window_size <= WINDOW_SIZE,
        ensures
            r.wf(),
            r.model() == Seq::<int>::empty(),
            r.capacity() == window_size,
    {
        proof {
            assert(Seq::<i64>::empty().map_values(|x: i64| x as int) =~= Seq::<int>::empty());
            assert(Seq::<int>::empty().map_values(|x: int| x * x) =~= Seq::<int>::empty());
        }
        VolumeStatistics { volumes: VecDeque::new(), window_size, sum: 0, sum_sq: 0 }
    }

    /// Pushes one volume, evicting the oldest once the window is full.
    pub fn add(&mut self, volume: i64)
        requires
            old(self).wf(),
            -VOLUME_ABS <= volume <= VOLUME_ABS,
        ensures
            final(self).wf(),
            final(self).capacity() == old(self).capacity(),
            final(self).model() == win_push(old(self).model(), volume as int, old(self).capacity()),
    {
        proof {
            self.lemma_term_bounds();
            assert(0 <= volume as int * volume as int <= VOLUME_ABS as int * VOLUME_ABS as int)
                by (nonlinear_arith)
                requires
                    -VOLUME_ABS <= volume <= VOLUME_ABS,
            ;
        }
        let ghost pre = self.model();
        self.volumes.push_back(volume);
        self.sum = self.sum + volume as i128;
        self.sum_sq = self.sum_sq + (volume as i128) * (volume as i128);
        proof {
            assert(self.model() =~= pre.push(volume as int));
            lemma_isum_push(pre, volume as int);
            assert(squares(self.model()) =~= squares(pre).push(volume as int * volume as int));
            lemma_isum_push(squares(pre), volume as int * volume as int);
        }
        if self.volumes.len() > self.window_size {
            let ghost mid = self.model();
            let evicted = match self.volumes.pop_front() {
                Some(v) => v,
                None => 0,
            };
            proof {
                assert(evicted as int == mid[0]);
                assert(mid[0] == pre[0]);
                assert(-VOLUME_ABS <= evicted <= VOLUME_ABS);
                assert(self.model() =~= mid.drop_first());
                lemma_isum_drop_first(mid);
                assert(squares(self.model()) =~= squares(mid).drop_first());
                lemma_isum_drop_first(squares(mid));
                assert(squares(mid)[0] == mid[0] * mid[0]);
                assert(0 <= evicted as int * evicted as int <= VOLUME_ABS as int
                    * VOLUME_ABS as int) by (nonlinear_arith)
                    requires
                        -VOLUME_ABS <= evicted <= VOLUME_ABS,
                ;
            }
            self.sum = self.sum - evicted as i128;
            self.sum_sq = self.sum_sq - (evicted as i128) * (evicted as i128);
        }
    }

    /// Mean of the buffered volumes, zero when none are buffered.
    pub fn mean(&self) -> (r: Ratio)
        requires
            self.wf(),
        ensures
            r@ == mean_of(self.model()),
            r.wf(),
    {
        let n = self.volumes.len();
        if n == 0 {
            Ratio::zero()
        } else {
            Ratio::new(self.sum, n as i128)
        }
    }

    /// Bessel-corrected sample variance of the buffered volumes, zero
    /// while fewer than two are buffered.
    pub fn variance(&self) -> (r: Ratio)
        requires
            self.wf(),
        ensures
            r@ == var_of(self.model()),
            r.wf(),
    {
        let n = self.volumes.len();
        if n <= 1 {
            Ratio::zero()
        } else {
            proof {
                self.lemma_term_bounds();
                assert(0 < (n as int) * (n as int - 1) <= 2450) by (nonlinear_arith)
                    requires
                        2 <= n <= 50,
                ;
                lemma_prod_in_range(
                    n as int,
                    self.sum_sq as int,
                    50,
                    50 * (VOLUME_ABS as int * VOLUME_ABS as int),
                );
                lemma_prod_in_range(
                    self.sum as int,
                    self.sum as int,
                    50 * VOLUME_ABS as int,
                    50 * VOLUME_ABS as int,
                );
            }
            let nn = n as i128;
            Ratio::new(nn * self.sum_sq - self.sum * self.sum, nn * (nn - 1))
        }
    }

    /// Deviation of `value` from the window mean and the window variance:
    /// the exact pair from which the z-score is evaluated.
    pub fn normalize(&self, value: i64) -> (r: ZScore)
        requires
            self.wf(),
            -VOLUME_ABS <= value <= VOLUME_ABS,
        ensures
            r@.dev == dev_of(self.model(), value as int),
            r@.var == var_of(self.model()),
            r.dev.wf(),
            r.var.wf(),
    {
        let n = self.volumes.len();
        let dev = if n == 0 {
            Ratio::zero()
        } else {
            proof {
                self.lemma_term_bounds();
                lemma_prod_in_range(n as int, value as int, 50, VOLUME_ABS as int);
            }
            Ratio::new(n as i128 * value as i128 - self.sum, n as i128)
        };
        (ZScore { dev, var: self.variance() })
    }

    /// Whether `value` is an anomaly against the buffered window: the
    /// z-score strictly exceeds 2 (decided exactly, by cross-multiplied
    /// squares; see `anomaly_of`).
    pub fn is_anomalous(&self, value: i64) -> (r: bool)
        requires
            self.wf(),
            -VOLUME_ABS <= value <= VOLUME_ABS,
        ensures
            r == (anomaly_of(self.model(), value as int) == 1),
    {
        let n = self.volumes.len();
        if n < 2 {
            return false;
        }
        proof {
            self.lemma_term_bounds();
            lemma_prod_in_range(n as int, value as int, 50, VOLUME_ABS as int);
        }
        let nn = n as i128;
        proof {
            lemma_prod_in_range(
                n as int,
                self.sum_sq as int,
                50,
                50 * (VOLUME_ABS as int * VOLUME_ABS as int),
            );
            lemma_prod_in_range(
                self.sum as int,
                self.sum as int,
                50 * VOLUME_ABS as int,
                50 * VOLUME_ABS as int,
            );
        }
        let d = nn * value as i128 - self.sum;
        let varnum = nn * self.sum_sq - self.sum * self.sum;
        proof {
            lemma_prod_in_range(d as int, d as int, 100 * VOLUME_ABS as int, 100 * VOLUME_ABS as int);
            assert(d as int * d as int >= 0) by (nonlinear_arith);
            lemma_prod_in_range(
                (nn - 1) as int,
                d as int * d as int,
                49,
                10000 * (VOLUME_ABS as int * VOLUME_ABS as int),
            );
            lemma_prod_in_range(
                nn as int,
                varnum as int,
                50,
                5000 * (VOLUME_ABS as int * VOLUME_ABS as int),
            );
        }
        let lhs = (nn - 1) * (d * d);
        let rhs = 4 * (nn * varnum);
        varnum > 0 && d > 0 && lhs > rhs
    }

    /// Bounds on the running terms, derived from the element bounds.
    proof fn lemma_term_bounds(&self)
        requires
            self.wf(),
        ensures
            -50 * VOLUME_ABS <= self.sum as int <= 50 * VOLUME_ABS,
            0 <= self.sum_sq as int <= 50 * (VOLUME_ABS as int * VOLUME_ABS as int),
    {
        lemma_isum_bound(self.model(), VOLUME_ABS as int);
        assert(self.model().len() * (VOLUME_ABS as int) <= 50 * VOLUME_ABS) by (nonlinear_arith)
            requires
                0 <= self.model().len() <= 50,
        ;
        lemma_squares_bound(self.model(), VOLUME_ABS as int);
        lemma_isum_bound(squares(self.model()), VOLUME_ABS as int * VOLUME_ABS as int);
        lemma_isum_nonneg(squares(self.model()));
        assert(squares(self.model()).len() * (VOLUME_ABS as int * VOLUME_ABS as int) <= 50 * (
        VOLUME_ABS as int * VOLUME_ABS as int)) by (nonlinear_arith)
            requires
                0 <= squares(self.model()).len() <= 50,
        ;
    }
}

/// The windowed indicator engine with the processing pipeline's fixed
/// batch and window sizes.
pub struct IndicatorCalculator {
    pub batch_size: usize,
    pub window_size: usize,
}

impl IndicatorCalculator {
    pub fn new() -> (r: IndicatorCalculator)
        ensures
            r.batch_size == 1500,
            r.window_size == WINDOW_SIZE,
    {
        let batch_size: usize = 1500;
        let window_size: usize = WINDOW_SIZE;
        IndicatorCalculator { batch_size, window_size }
    }

    /// Computes indicator rows for the candles of one instrument, in
    /// time order.  The first `window_end_idx` candles are the warm-up
    /// prefix: they seed the rolling state and emit nothing.  Rows are
    /// emitted from `emit_start(window_end_idx)` onward — never within
    /// the first `WINDOW_SIZE` candles of the slice — and row `j` holds
    /// exactly the values of `record_at` for its candle.
    #[verifier::rlimit(100)]
    pub fn calculate_indicators(
        &self,
        candles: &Vec<DbCandleConverted>,
        window_end_idx: usize,
    ) -> (r: Vec<DbIndicator>)
        requires
            self.window_size == WINDOW_SIZE,
            candles_ok(candle_views(candles@)),
        ensures
            r@.len() == emit_count(candle_views(candles@), window_end_idx as int),
            forall|j: int|
                0 <= j < r@.len() ==> (#[trigger] r@[j])@ == record_at(
                    candle_views(candles@),
                    emit_start(window_end_idx as int) + j,
                ),
            candles@.len() <= WINDOW_SIZE ==> r@.len() == 0,
    {
        let ghost cv = candle_views(candles@);
        let n = candles.len();
        let e = if window_end_idx > WINDOW_SIZE {
            window_end_idx
        } else {
            WINDOW_SIZE
        };
        let mut result: Vec<DbIndicator> = Vec::new();
        let mut prices: VecDeque<i128> = VecDeque::new();
        let mut gains: VecDeque<i128> = VecDeque::new();
        let mut losses: VecDeque<i128> = VecDeque::new();
        let mut volume_stats = VolumeStatistics::new(WINDOW_SIZE);
        let mut prev_ma_10 = Ratio::zero();
        let mut prev_ma_30 = Ratio::zero();
        proof {
            assert(buf_view(prices@) =~= last_n(closes(cv).take(0), WINDOW_SIZE as int));
            assert(buf_view(gains@) =~= last_n(gains_of(deltas(cv)).take(0), RSI_PERIOD as int));
            assert(buf_view(losses@) =~= last_n(losses_of(deltas(cv)).take(0), RSI_PERIOD as int));
            assert(volume_stats.model() =~= last_n(vols(cv).take(0), WINDOW_SIZE as int));
            assert(price_win_at(cv, -1) =~= Seq::<int>::empty());
        }
        let mut i: usize = 0;
        while i < n
            invariant
                cv == candle_views(candles@),
                candles_ok(cv),
                n == candles@.len(),
                e as int == emit_start(window_end_idx as int),
                WINDOW_SIZE <= e,
                0 <= i <= n,
                prices@.len() <= WINDOW_SIZE,
                buf_view(prices@) == last_n(closes(cv).take(i as int), WINDOW_SIZE as int),
                forall|q: int|
                    0 <= q < prices@.len() ==> -PRICE_NANO_ABS <= #[trigger] buf_view(prices@)[q]
                        <= PRICE_NANO_ABS,
                gains@.len() <= RSI_PERIOD,
                losses@.len() == gains@.len(),
                buf_view(gains@) == last_n(
                    gains_of(deltas(cv)).take(if i == 0 { 0int } else { i as int - 1 }),
                    RSI_PERIOD as int,
                ),
                buf_view(losses@) == last_n(
                    losses_of(deltas(cv)).take(if i == 0 { 0int } else { i as int - 1 }),
                    RSI_PERIOD as int,
                ),
                forall|q: int|
                    0 <= q < gains@.len() ==> 0 <= #[trigger] buf_view(gains@)[q] <= DELTA_ABS,
                forall|q: int|
                    0 <= q < losses@.len() ==> 0 <= #[trigger] buf_view(losses@)[q] <= DELTA_ABS,
                volume_stats.wf(),
                volume_stats.capacity() == WINDOW_SIZE as int,
                volume_stats.model() == last_n(vols(cv).take(i as int), WINDOW_SIZE as int),
                prev_ma_10@ == sma_at(cv, i as int - 1, MA_FAST_PERIOD as int),
                prev_ma_30@ == sma_at(cv, i as int - 1, MA_SLOW_PERIOD as int),
                -MA_NUM_ABS <= prev_ma_10@.num <= MA_NUM_ABS,
                1 <= prev_ma_10@.den <= WINDOW_SIZE,
                -MA_NUM_ABS <= prev_ma_30@.num <= MA_NUM_ABS,
                1 <= prev_ma_30@.den <= WINDOW_SIZE,
                result@.len() == (if i as int > e as int { i as int - e } else { 0int }),
                forall|j: int|
                    0 <= j < result@.len() ==> (#[trigger] result@[j])@ == record_at(
                        cv,
                        e as int + j,
                    ),
            decreases n - i,
        {
            let ghost i0 = i as int;
            proof {
                assert(cv[i0] == candles@[i0]@);
            }
            let c = &candles[i];
            if i > 0 {
                proof {
                    assert(cv[i0 - 1] == candles@[i0 - 1]@);
                }
                let d = c.close_price - candles[i - 1].close_price;
                let ghost old_g = buf_view(gains@);
                let ghost old_l = buf_view(losses@);
                if d >= 0 {
                    gains.push_back(d);
                    losses.push_back(0);
                } else {
                    gains.push_back(0);
                    losses.push_back(-d);
                }
                if gains.len() > RSI_PERIOD {
                    gains.pop_front();
                    losses.pop_front();
                }
                proof {
                    let ds = deltas(cv);
                    let gs = gains_of(ds);
                    let ls = losses_of(ds);
                    assert(ds[i0 - 1] == cv[i0].close - cv[i0 - 1].close);
                    assert(gs[i0 - 1] == (if ds[i0 - 1] >= 0 { ds[i0 - 1] } else { 0 }));
                    assert(ls[i0 - 1] == (if ds[i0 - 1] >= 0 { 0 } else { -ds[i0 - 1] }));
                    lemma_last_n_step(gs, i0 - 1, RSI_PERIOD as int);
                    lemma_last_n_step(ls, i0 - 1, RSI_PERIOD as int);
                    assert(buf_view(gains@) =~= win_push(old_g, gs[i0 - 1], RSI_PERIOD as int));
                    assert(buf_view(losses@) =~= win_push(old_l, ls[i0 - 1], RSI_PERIOD as int));
                }
            }
            let ghost old_p = buf_view(prices@);
            prices.push_back(c.close_price);
            if prices.len() > WINDOW_SIZE {
                prices.pop_front();
            }
            proof {
                assert(closes(cv)[i0] == cv[i0].close);
                lemma_last_n_step(closes(cv), i0, WINDOW_SIZE as int);
                assert(buf_view(prices@) =~= win_push(old_p, cv[i0].close, WINDOW_SIZE as int));
            }
            volume_stats.add(c.volume);
            proof {
                assert(vols(cv)[i0] == cv[i0].volume);
                lemma_last_n_step(vols(cv), i0, WINDOW_SIZE as int);
            }
            let ma_10 = calculate_sma(&prices, MA_FAST_PERIOD);
            let ma_30 = calculate_sma(&prices, MA_SLOW_PERIOD);
            proof {
                assert(buf_view(prices@) == price_win_at(cv, i0));
            }
            if i >= e {
                let rsi_14 = calculate_rsi(&gains, &losses);
                let ma_cross = determine_ma_cross(&prev_ma_10, &prev_ma_30, &ma_10, &ma_30);
                let rsi_zone = rsi_zone_flag(&rsi_14);
                let volume_norm = volume_stats.normalize(c.volume);
                let volume_anomaly: i8 = if volume_stats.is_anomalous(c.volume) {
                    1
                } else {
                    0
                };
                let pair = if n - i > LOOKAHEAD {
                    proof {
                        assert(cv[i0 + LOOKAHEAD] == candles@[i0 + LOOKAHEAD]@);
                    }
                    calculate_future_price_change(
                        c.close_price,
                        candles[i + LOOKAHEAD].close_price,
                    )
                } else {
                    (Ratio::zero(), 0i8)
                };
                proof {
                    lemma_prod_in_range(ma_10@.num, ma_30@.den, MA_NUM_ABS as int, 50);
                    lemma_prod_in_range(ma_30@.num, ma_10@.den, MA_NUM_ABS as int, 50);
                    lemma_prod_in_range(ma_10@.den, ma_30@.den, 50, 50);
                }
                let ma_diff = ma_10.sub(&ma_30);
                let rec = DbIndicator {
                    instrument_uid: c.instrument_uid.clone(),
                    time: c.time,
                    open_price: c.open_price,
                    high_price: c.high_price,
                    low_price: c.low_price,
                    close_price: c.close_price,
                    volume: c.volume,
                    rsi_14,
                    ma_10,
                    ma_30,
                    volume_norm,
                    ma_diff,
                    ma_cross,
                    rsi_zone,
                    volume_anomaly,
                    hour_of_day: hour_of_day(c.time),
                    day_of_week: day_of_week(c.time),
                    price_change_15m: pair.0,
                    signal_15m: pair.1,
                };
                proof {
                    assert(rec@ == record_at(cv, i0));
                }
                result.push(rec);
            }
            prev_ma_10 = ma_10;
            prev_ma_30 = ma_30;
            i = i + 1;
        }
        result
    }
}

} // verus!
