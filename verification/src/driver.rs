//! Checkpointed per-instrument processing cycle.
//!
//! The cycle drives one instrument through paginated fetches: read the
//! checkpoint, fetch pages of candles strictly after it, seed rolling
//! state from a warm-up prefix on the first page of a resumed run, feed
//! everything to the engine, and advance the checkpoint to the greatest
//! raw candle time of the page — unconditionally, even when no row was
//! emitted, so that a short trailing page is never refetched forever.
//! The I/O round trips themselves (page fetch, row insert, checkpoint
//! update) happen outside the library; this type makes every decision
//! between them.

use crate::calculator::{candle_views, candles_ok, IndicatorCalculator};
use crate::indicators::{emit_count, emit_start, record_at, WINDOW_SIZE};
use crate::model::{candle_ok, conv_view, CandleV, DbCandleConverted, DbCandleRaw, DbIndicator, VOLUME_ABS};
use vstd::prelude::*;

verus! {

/// Greatest raw candle time of a page; meaningful only for non-empty pages.
pub open spec fn max_time(c: Seq<CandleV>) -> int
    decreases c.len(),
{
    if c.len() == 0 {
        0
    } else if c.len() == 1 {
        c[0].time
    } else {
        let m = max_time(c.drop_last());
        if c.last().time >= m {
            c.last().time
        } else {
            m
        }
    }
}

/// Every candle time in a page is at most the page's `max_time`.
pub proof fn lemma_max_time_ge(c: Seq<CandleV>, j: int)
    requires
        0 <= j < c.len(),
    ensures
        max_time(c) >= c[j].time,
    decreases c.len(),
{
    if c.len() > 1 && j < c.len() - 1 {
        lemma_max_time_ge(c.drop_last(), j);
    }
}

/// The state of one instrument's processing cycle.
pub struct InstrumentCycle {
    pub checkpoint: i64,
    pub first_page_done: bool,
    pub finished: bool,
}

impl InstrumentCycle {
    /// Starts a cycle from the stored resume point; an absent checkpoint
    /// means the whole history is unprocessed and is read from time 0.
    pub fn start(last_processed_time: Option<i64>) -> (r: InstrumentCycle)
        ensures
            r.checkpoint == (match last_processed_time {
                Some(t) => t,
                None => 0,
            }),
            !r.finished,
            !r.first_page_done,
    {
        let checkpoint = match last_processed_time {
            Some(t) => t,
            None => 0,
        };
        InstrumentCycle { checkpoint, first_page_done: false, finished: false }
    }

    /// Whether the next page must be preceded by a warm-up fetch: only
    /// the first page of a resumed run (a positive checkpoint) re-seeds
    /// the rolling state from history at or before the checkpoint.
    pub open spec fn warmup_needed(&self) -> bool {
        !self.first_page_done && self.checkpoint > 0
    }

    pub fn needs_warmup(&self) -> (r: bool)
        ensures
            r == self.warmup_needed(),
    {
        !self.first_page_done && self.checkpoint > 0
    }

    /// Processes one fetched page together with its warm-up prefix and
    /// returns the rows to write.  The checkpoint advances to the
    /// greatest raw candle time of the page whenever the page is
    /// non-empty — also when zero rows come back — and the cycle
    /// finishes on an empty or short page.
    pub fn on_page(
        &mut self,
        calculator: &IndicatorCalculator,
        warm: &Vec<DbCandleConverted>,
        page: &Vec<DbCandleConverted>,
        page_size: usize,
    ) -> (out: Vec<DbIndicator>)
        requires
            !old(self).finished,
            calculator.window_size == WINDOW_SIZE,
            warm@.len() <= WINDOW_SIZE,
            !old(self).warmup_needed() ==> warm@.len() == 0,
            candles_ok(candle_views(warm@)),
            candles_ok(candle_views(page@)),
        ensures
            final(self).checkpoint as int == (if page@.len() == 0 {
                old(self).checkpoint as int
            } else {
                max_time(candle_views(page@))
            }),
            final(self).finished == (page@.len() == 0 || page@.len() < page_size),
            final(self).first_page_done,
            (page@.len() > 0 && (forall|j: int|
                0 <= j < candle_views(page@).len() ==> (#[trigger] candle_views(page@)[j]).time
                    > old(self).checkpoint as int)) ==> final(self).checkpoint > old(
                self,
            ).checkpoint,
            out@.len() == (if page@.len() == 0 {
                0int
            } else {
                emit_count(candle_views(warm@) + candle_views(page@), warm@.len() as int)
            }),
            forall|j: int|
                0 <= j < out@.len() ==> (#[trigger] out@[j])@ == record_at(
                    candle_views(warm@) + candle_views(page@),
                    emit_start(warm@.len() as int) + j,
                ),
    {
        self.first_page_done = true;
        if page.len() == 0 {
            self.finished = true;
            return Vec::new();
        }
        let ghost wv = candle_views(warm@);
        let ghost pv = candle_views(page@);
        let mut combined: Vec<DbCandleConverted> = Vec::new();
        let mut k: usize = 0;
        while k < warm.len()
            invariant
                0 <= k <= warm@.len(),
                wv == candle_views(warm@),
                candles_ok(wv),
                combined@.len() == k,
                candle_views(combined@) == wv.take(k as int),
            decreases warm@.len() - k,
        {
            proof {
                assert(wv[k as int] == warm@[k as int]@);
            }
            combined.push(warm[k].clone());
            proof {
                assert(candle_views(combined@) =~= wv.take(k as int + 1));
            }
            k = k + 1;
        }
        proof {
            assert(wv.take(warm@.len() as int) =~= wv);
        }
        let warm_len = warm.len();
        let mut k: usize = 0;
        while k < page.len()
            invariant
                0 <= k <= page@.len(),
                wv == candle_views(warm@),
                pv == candle_views(page@),
                candles_ok(wv),
                candles_ok(pv),
                warm_len == warm@.len(),
                combined@.len() == warm_len + k,
                candle_views(combined@) == wv + pv.take(k as int),
            decreases page@.len() - k,
        {
            proof {
                assert(pv[k as int] == page@[k as int]@);
            }
            let ghost before = combined@;
            combined.push(page[k].clone());
            proof {
                assert(candle_views(combined@) =~= candle_views(before).push(pv[k as int]));
                assert((wv + pv.take(k as int)).push(pv[k as int]) =~= wv + pv.take(k as int + 1));
            }
            k = k + 1;
        }
        proof {
            assert(pv.take(page@.len() as int) =~= pv);
            assert(candles_ok(candle_views(combined@)));
        }
        let out = calculator.calculate_indicators(&combined, warm_len);
        let mut latest = page[0].time;
        proof {
            assert(pv[0] == page@[0]@);
            assert(pv.take(1) =~= pv.subrange(0, 1));
            assert(max_time(pv.take(1)) == pv[0].time);
        }
        let mut k: usize = 1;
        while k < page.len()
            invariant
                1 <= k <= page@.len(),
                pv == candle_views(page@),
                latest as int == max_time(pv.take(k as int)),
            decreases page@.len() - k,
        {
            proof {
                assert(pv[k as int] == page@[k as int]@);
                assert(pv.take(k as int + 1).drop_last() =~= pv.take(k as int));
                assert(pv.take(k as int + 1).last() == pv[k as int]);
            }
            if page[k].time > latest {
                latest = page[k].time;
            }
            k = k + 1;
        }
        proof {
            assert(pv.take(page@.len() as int) =~= pv);
            lemma_max_time_ge(pv, 0);
        }
        self.checkpoint = latest;
        self.finished = page.len() < page_size;
        out
    }
}


/// Converts a fetched page (ascending in time) to fixed-point candles.
/// Succeeds exactly when every volume is inside the engine's arithmetic
/// bound; prices always convert exactly.  A page with an out-of-range
/// volume is rejected whole, and the caller aborts the instrument's
/// cycle for this pass, as it would on any other bad read.
pub fn convert_page(raw: &Vec<DbCandleRaw>) -> (r: Option<Vec<DbCandleConverted>>)
    ensures
        match r {
            Some(v) => {
                &&& v@.len() == raw@.len()
                &&& forall|j: int| 0 <= j < v@.len() ==> (#[trigger] v@[j])@ == conv_view(raw@[j])
                &&& candles_ok(candle_views(v@))
            },
            None => exists|j: int|
                0 <= j < raw@.len() && !(-VOLUME_ABS <= (#[trigger] raw@[j]).volume
                    <= VOLUME_ABS),
        },
{
    let mut out: Vec<DbCandleConverted> = Vec::new();
    let mut k: usize = 0;
    while k < raw.len()
        invariant
            0 <= k <= raw@.len(),
            out@.len() == k,
            forall|j: int| 0 <= j < k ==> (#[trigger] out@[j])@ == conv_view(raw@[j]),
            forall|j: int| 0 <= j < k ==> candle_ok(#[trigger] out@[j]@),
        decreases raw@.len() - k,
    {
        let c = &raw[k];
        if c.volume < -VOLUME_ABS || c.volume > VOLUME_ABS {
            return None;
        }
        out.push(DbCandleConverted::from(c.clone()));
        k = k + 1;
    }
    proof {
        assert forall|j: int| 0 <= j < candle_views(out@).len() implies candle_ok(
            #[trigger] candle_views(out@)[j],
        ) by {
            assert(candle_views(out@)[j] == out@[j]@);
        }
    }
    Some(out)
}

/// Converts a warm-up fetch, which arrives newest-first, into ascending
/// order: the result's candle `j` is the conversion of input candle
/// `len - 1 - j`.  Rejected whole on an out-of-range volume, like
/// `convert_page`.
pub fn prepare_warmup(raw_desc: &Vec<DbCandleRaw>) -> (r: Option<Vec<DbCandleConverted>>)
    ensures
        match r {
            Some(v) => {
                &&& v@.len() == raw_desc@.len()
                &&& forall|j: int|
                    0 <= j < v@.len() ==> (#[trigger] v@[j])@ == conv_view(
                        raw_desc@[raw_desc@.len() - 1 - j],
                    )
                &&& candles_ok(candle_views(v@))
            },
            None => exists|j: int|
                0 <= j < raw_desc@.len() && !(-VOLUME_ABS <= (#[trigger] raw_desc@[j]).volume
                    <= VOLUME_ABS),
        },
{
    let n = raw_desc.len();
    let mut out: Vec<DbCandleConverted> = Vec::new();
    let mut k: usize = 0;
    while k < n
        invariant
            n == raw_desc@.len(),
            0 <= k <= n,
            out@.len() == k,
            forall|j: int|
                0 <= j < k ==> (#[trigger] out@[j])@ == conv_view(raw_desc@[n - 1 - j]),
            forall|j: int| 0 <= j < k ==> candle_ok(#[trigger] out@[j]@),
        decreases n - k,
    {
        let c = &raw_desc[n - 1 - k];
        if c.volume < -VOLUME_ABS || c.volume > VOLUME_ABS {
            return None;
        }
        out.push(DbCandleConverted::from(c.clone()));
        k = k + 1;
    }
    proof {
        assert forall|j: int| 0 <= j < candle_views(out@).len() implies candle_ok(
            #[trigger] candle_views(out@)[j],
        ) by {
            assert(candle_views(out@)[j] == out@[j]@);
        }
    }
    Some(out)
}

} // verus!
