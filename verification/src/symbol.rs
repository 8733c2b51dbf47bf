//! Per-symbol daily metrics.
//!
//! For each bar transition the engine computes the flow quantities (edge,
//! cost, return, turnover, with their long/short decomposition), assigns
//! them to the calendar date of the later bar of the transition, and sums
//! the transitions that share a date into one `DailyResult`.

use vstd::prelude::*;

use crate::fixed::SCALE;
use crate::fixed::abs_i;
use crate::fixed::div_t;
use crate::fixed::mul_div;
use crate::types::Bar;
use crate::types::BarV;
use crate::types::DailyResult;
use crate::types::DailyResultV;
use crate::types::Metrics;
use crate::types::MetricsV;
use crate::types::PRICE_MAX;
use crate::types::PRICE_MIN;
use crate::types::ROWS_MAX;
use crate::types::DAY_MAX;
use crate::types::WEIGHT_MAX;

verus! {

/// Bound on the magnitude of every per-transition metric.
pub const M_BOUND: i128 = 2_000_000_000_000_000_000;

/// Bound on the magnitude of a bar's next-bar return.
pub const RET_BOUND: i128 = 100_000_000_000_000_000;

/// Bound on the magnitude of any daily (or portfolio) metric sum.
pub const SUM_BOUND: i128 = 2_000_000_000_000_000_000_000_000;

pub open spec fn zero_metrics() -> MetricsV {
    MetricsV {
        edge: 0,
        ret: 0,
        cost: 0,
        n1b: 0,
        turnover: 0,
        long_edge: 0,
        long_cost: 0,
        long_ret: 0,
        long_turnover: 0,
        short_edge: 0,
        short_cost: 0,
        short_ret: 0,
        short_turnover: 0,
    }
}

pub open spec fn m_add(a: MetricsV, b: MetricsV) -> MetricsV {
    MetricsV {
        edge: a.edge + b.edge,
        ret: a.ret + b.ret,
        cost: a.cost + b.cost,
        n1b: a.n1b + b.n1b,
        turnover: a.turnover + b.turnover,
        long_edge: a.long_edge + b.long_edge,
        long_cost: a.long_cost + b.long_cost,
        long_ret: a.long_ret + b.long_ret,
        long_turnover: a.long_turnover + b.long_turnover,
        short_edge: a.short_edge + b.short_edge,
        short_cost: a.short_cost + b.short_cost,
        short_ret: a.short_ret + b.short_ret,
        short_turnover: a.short_turnover + b.short_turnover,
    }
}

pub open spec fn metrics_bounded(m: MetricsV, b: int) -> bool {
    &&& abs_i(m.edge) <= b
    &&& abs_i(m.ret) <= b
    &&& abs_i(m.cost) <= b
    &&& abs_i(m.n1b) <= b
    &&& abs_i(m.turnover) <= b
    &&& abs_i(m.long_edge) <= b
    &&& abs_i(m.long_cost) <= b
    &&& abs_i(m.long_ret) <= b
    &&& abs_i(m.long_turnover) <= b
    &&& abs_i(m.short_edge) <= b
    &&& abs_i(m.short_cost) <= b
    &&& abs_i(m.short_ret) <= b
    &&& abs_i(m.short_turnover) <= b
}

/// The long leg of a weight: its positive part.
pub open spec fn pos_part(w: int) -> int {
    if w > 0 {
        w
    } else {
        0
    }
}

/// The short leg of a weight: its non-positive part.
pub open spec fn neg_part(w: int) -> int {
    if w < 0 {
        w
    } else {
        0
    }
}

/// Next-bar raw return at scale: `p1 / p0 - 1`, truncated toward zero.
pub open spec fn bar_ret(p0: int, p1: int) -> int
    recommends
        p0 > 0,
{
    div_t(p1 * SCALE, p0) - SCALE as int
}

/// Edge of holding weight `w0` into the move from `p0` to `p1`.
pub open spec fn edge_of(w0: int, p0: int, p1: int) -> int {
    div_t(w0 * bar_ret(p0, p1), SCALE as int)
}

/// Cost charged for a turnover at the proportional fee.
pub open spec fn cost_of(turnover: int, fee: int) -> int {
    div_t(turnover * fee, SCALE as int)
}

/// All flow metrics of the transition from bar `b0` to bar `b1`:
/// edge is earned by the prior weight over the price move, turnover is the
/// change in (rounded) weight, cost is proportional to turnover, return is
/// edge minus cost; the long and short legs are computed identically on the
/// positive and non-positive parts of the weights.
#[verifier::opaque]
pub open spec fn transition_metrics(b0: BarV, b1: BarV, fee: int) -> MetricsV {
    let r = bar_ret(b0.price, b1.price);
    let e = div_t(b0.weight * r, SCALE as int);
    let le = div_t(pos_part(b0.weight) * r, SCALE as int);
    let se = div_t(neg_part(b0.weight) * r, SCALE as int);
    let tv = abs_i(b1.weight - b0.weight);
    let lt = abs_i(pos_part(b1.weight) - pos_part(b0.weight));
    let st = abs_i(neg_part(b1.weight) - neg_part(b0.weight));
    let c = cost_of(tv, fee);
    let lc = cost_of(lt, fee);
    let sc = cost_of(st, fee);
    MetricsV {
        edge: e,
        ret: e - c,
        cost: c,
        n1b: r,
        turnover: tv,
        long_edge: le,
        long_cost: lc,
        long_ret: le - lc,
        long_turnover: lt,
        short_edge: se,
        short_cost: sc,
        short_ret: se - sc,
        short_turnover: st,
    }
}

/// A bar acceptable to the engine: price and weight within the caps that
/// keep all arithmetic inside 128 bits.
pub open spec fn bar_ok(b: BarV) -> bool {
    &&& PRICE_MIN <= b.price <= PRICE_MAX
    &&& abs_i(b.weight) <= WEIGHT_MAX
    &&& abs_i(b.day) <= DAY_MAX
}

/// A well-formed single-symbol series: every bar in range, timestamps
/// strictly increasing, calendar days non-decreasing.
pub open spec fn series_ok(bars: Seq<BarV>) -> bool {
    &&& forall|i: int| 0 <= i < bars.len() ==> bar_ok(#[trigger] bars[i])
    &&& forall|i: int| 0 < i < bars.len() ==> (#[trigger] bars[i]).ts > bars[i - 1].ts
    &&& forall|i: int| 0 < i < bars.len() ==> (#[trigger] bars[i]).day >= bars[i - 1].day
}

pub open spec fn fee_ok(fee: int) -> bool {
    0 <= fee <= SCALE
}

/// Sum of the transition metrics assigned to date `d`: transition `t`
/// (from bar `t-1` to bar `t`) counts when bar `t` falls on `d`.
pub open spec fn day_total(bars: Seq<BarV>, fee: int, d: int) -> MetricsV
    decreases bars.len(),
{
    if bars.len() <= 1 {
        zero_metrics()
    } else {
        let prev = day_total(bars.drop_last(), fee, d);
        if bars.last().day == d {
            m_add(prev, transition_metrics(bars[bars.len() - 2], bars.last(), fee))
        } else {
            prev
        }
    }
}

/// The distinct calendar days of the series, in order of appearance.
pub open spec fn days_of(bars: Seq<BarV>) -> Seq<int>
    decreases bars.len(),
{
    if bars.len() == 0 {
        Seq::empty()
    } else if bars.len() == 1 {
        seq![bars[0].day]
    } else if bars.last().day == bars[bars.len() - 2].day {
        days_of(bars.drop_last())
    } else {
        days_of(bars.drop_last()).push(bars.last().day)
    }
}

/// The `DailyResult` row of one date.
pub open spec fn day_record(bars: Seq<BarV>, fee: int, sym: Seq<char>, d: int) -> DailyResultV {
    DailyResultV { date: d, symbol: sym, m: day_total(bars, fee, d) }
}

pub open spec fn day_records(bars: Seq<BarV>, fee: int, sym: Seq<char>, days: Seq<int>) -> Seq<
    DailyResultV,
> {
    days.map_values(|d: int| day_record(bars, fee, sym, d))
}

/// The symbol's whole daily table: one row per distinct date of the series,
/// in date order. A series of fewer than two bars yields no rows (that is a
/// documented non-error: there is no transition to price).
pub open spec fn symbol_daily_model(bars: Seq<BarV>, fee: int, sym: Seq<char>) -> Seq<
    DailyResultV,
> {
    if bars.len() < 2 {
        Seq::empty()
    } else {
        day_records(bars, fee, sym, days_of(bars))
    }
}

pub open spec fn bars_view(bars: Seq<Bar>) -> Seq<BarV> {
    bars.map_values(|b: Bar| b@)
}

pub open spec fn daily_view(v: Seq<DailyResult>) -> Seq<DailyResultV> {
    v.map_values(|d: DailyResult| d@)
}

/// Compute the flow metrics of one bar transition.
pub fn transition(prev: &Bar, cur: &Bar, fee_rate: i64) -> (m: Metrics)
    requires
        bar_ok(prev@),
        bar_ok(cur@),
        fee_ok(fee_rate as int),
    ensures
        m@ == transition_metrics(prev@, cur@, fee_rate as int),
        metrics_bounded(m@, M_BOUND as int),
{
    proof {
        reveal(transition_metrics);
    }
    let p0: i128 = prev.price as i128;
    let p1: i128 = cur.price as i128;
    proof {
        assert(p1 * SCALE <= 10_000_000_000_000_000_000_000i128 as int && p1 * SCALE >= 0)
            by (nonlinear_arith)
            requires
                0 < p1 <= 10_000_000_000_000i128 as int,
                SCALE == 1_000_000_000,
        ;
    }
    let q: i128 = mul_div(p1, SCALE, p0);
    proof {
        vstd::arithmetic::div_mod::lemma_div_is_ordered_by_denominator(
            p1 as int * SCALE as int,
            PRICE_MIN as int,
            p0 as int,
        );
        vstd::arithmetic::div_mod::lemma_div_is_ordered(
            p1 as int * SCALE as int,
            10_000_000_000_000_000_000_000,
            PRICE_MIN as int,
        );
        assert(abs_i(q as int) <= RET_BOUND as int);
    }
    let r: i128 = q - SCALE;
    let n1b: i128 = r;
    let w0: i128 = prev.weight;
    let w1: i128 = cur.weight;
    let lw0: i128 = if w0 > 0 {
        w0
    } else {
        0
    };
    let sw0: i128 = if w0 < 0 {
        w0
    } else {
        0
    };
    let lw1: i128 = if w1 > 0 {
        w1
    } else {
        0
    };
    let sw1: i128 = if w1 < 0 {
        w1
    } else {
        0
    };
    proof {
        assert forall|w: int, rr: int|
            -(WEIGHT_MAX as int) <= w <= WEIGHT_MAX as int && -(RET_BOUND as int) <= rr <= (
            RET_BOUND as int) implies -1_000_000_000_000_000_000_000_000_000int <= #[trigger] (w
            * rr) <= 1_000_000_000_000_000_000_000_000_000int by {
            assert(-1_000_000_000_000_000_000_000_000_000int <= w * rr
                <= 1_000_000_000_000_000_000_000_000_000int) by (nonlinear_arith)
                requires
                    -10_000_000_000int <= w <= 10_000_000_000int,
                    -100_000_000_000_000_000int <= rr <= 100_000_000_000_000_000int,
            ;
        }
    }
    let e: i128 = mul_div(w0, r, SCALE);
    let le: i128 = mul_div(lw0, r, SCALE);
    let se: i128 = mul_div(sw0, r, SCALE);
    let dv: i128 = w1 - w0;
    let tv: i128 = if dv >= 0 {
        dv
    } else {
        -dv
    };
    let ldv: i128 = lw1 - lw0;
    let lt: i128 = if ldv >= 0 {
        ldv
    } else {
        -ldv
    };
    let sdv: i128 = sw1 - sw0;
    let st: i128 = if sdv >= 0 {
        sdv
    } else {
        -sdv
    };
    let fee: i128 = fee_rate as i128;
    proof {
        assert forall|t: int|
            0 <= t <= 2 * WEIGHT_MAX as int implies 0 <= #[trigger] (t * (fee as int))
            <= 20_000_000_000_000_000_000int by {
            assert(0 <= t * (fee as int) <= 20_000_000_000_000_000_000int) by (nonlinear_arith)
                requires
                    0 <= t <= 20_000_000_000int,
                    0 <= fee as int <= 1_000_000_000int,
            ;
        }
    }
    let c: i128 = mul_div(tv, fee, SCALE);
    let lc: i128 = mul_div(lt, fee, SCALE);
    let sc: i128 = mul_div(st, fee, SCALE);
    proof {
        vstd::arithmetic::div_mod::lemma_div_is_ordered(
            abs_i(w0 as int * r as int),
            1_000_000_000_000_000_000_000_000_000,
            SCALE as int,
        );
        vstd::arithmetic::div_mod::lemma_div_is_ordered(
            abs_i(lw0 as int * r as int),
            1_000_000_000_000_000_000_000_000_000,
            SCALE as int,
        );
        vstd::arithmetic::div_mod::lemma_div_is_ordered(
            abs_i(sw0 as int * r as int),
            1_000_000_000_000_000_000_000_000_000,
            SCALE as int,
        );
    }
    Metrics {
        edge: e,
        ret: e - c,
        cost: c,
        n1b: n1b,
        turnover: tv,
        long_edge: le,
        long_cost: lc,
        long_ret: le - lc,
        long_turnover: lt,
        short_edge: se,
        short_cost: sc,
        short_ret: se - sc,
        short_turnover: st,
    }
}

/// Calendar days never decrease along a well-formed series.
pub proof fn lemma_day_mono(bars: Seq<BarV>, a: int, b: int)
    requires
        series_ok(bars),
        0 <= a <= b < bars.len(),
    ensures
        bars[a].day <= bars[b].day,
    decreases b - a,
{
    if a < b {
        lemma_day_mono(bars, a, b - 1);
        assert(bars[b].day >= bars[b - 1].day);
    }
}

/// A date on which no transition lands accumulates nothing.
pub proof fn lemma_day_total_absent(bars: Seq<BarV>, fee: int, d: int)
    requires
        forall|j: int| 1 <= j < bars.len() ==> (#[trigger] bars[j]).day != d,
    ensures
        day_total(bars, fee, d) == zero_metrics(),
    decreases bars.len(),
{
    if bars.len() > 1 {
        let s = bars.drop_last();
        assert(forall|j: int| 1 <= j < s.len() ==> (#[trigger] s[j]).day != d) by {
            assert(forall|j: int| 1 <= j < s.len() ==> #[trigger] s[j] == bars[j]);
        }
        lemma_day_total_absent(s, fee, d);
        assert(bars.last().day != d);
    }
}

/// Once every remaining bar misses date `d`, the prefix already carries
/// the whole of `d`'s total.
pub proof fn lemma_day_total_prefix(bars: Seq<BarV>, fee: int, d: int, i: int)
    requires
        1 <= i <= bars.len(),
        forall|j: int| i <= j < bars.len() ==> (#[trigger] bars[j]).day != d,
    ensures
        day_total(bars.take(i), fee, d) == day_total(bars, fee, d),
    decreases bars.len() - i,
{
    if i == bars.len() {
        assert(bars.take(i) =~= bars);
    } else {
        lemma_day_total_prefix(bars, fee, d, i + 1);
        let p1 = bars.take(i + 1);
        assert(p1.drop_last() =~= bars.take(i));
        assert(p1.last() == bars[i]);
        assert(day_total(p1, fee, d) == day_total(bars.take(i), fee, d));
    }
}

/// Appending a date to the day list appends its record to the day table.
pub proof fn lemma_day_records_push(
    bars: Seq<BarV>,
    fee: int,
    sym: Seq<char>,
    days: Seq<int>,
    d: int,
)
    ensures
        day_records(bars, fee, sym, days.push(d)) == day_records(bars, fee, sym, days).push(
            day_record(bars, fee, sym, d),
        ),
{
    let a = day_records(bars, fee, sym, days.push(d));
    let b = day_records(bars, fee, sym, days).push(day_record(bars, fee, sym, d));
    assert forall|k: int| 0 <= k < a.len() implies a[k] == b[k] by {
        if k < days.len() {
            assert(days.push(d)[k] == days[k]);
        } else {
            assert(days.push(d)[k] == d);
        }
    }
    assert(a =~= b);
}

/// Pushing a record commutes with viewing the daily table.
pub proof fn lemma_daily_view_push(v: Seq<DailyResult>, d: DailyResult)
    ensures
        daily_view(v.push(d)) == daily_view(v).push(d@),
{
    assert(daily_view(v.push(d)) =~= daily_view(v).push(d@));
}

/// How one more bar extends the prefix day totals and day list.
pub proof fn lemma_prefix_step(bv: Seq<BarV>, fee: int, i: int)
    requires
        1 <= i < bv.len(),
    ensures
        bv.take(i + 1).drop_last() == bv.take(i),
        bv.take(i + 1).last() == bv[i],
        day_total(bv.take(i + 1), fee, bv[i].day) == m_add(
            day_total(bv.take(i), fee, bv[i].day),
            transition_metrics(bv[i - 1], bv[i], fee),
        ),
        forall|d: int|
            d != bv[i].day ==> #[trigger] day_total(bv.take(i + 1), fee, d) == day_total(
                bv.take(i),
                fee,
                d,
            ),
        bv[i].day == bv[i - 1].day ==> days_of(bv.take(i + 1)) == days_of(bv.take(i)),
        bv[i].day != bv[i - 1].day ==> days_of(bv.take(i + 1)) == days_of(bv.take(i)).push(
            bv[i].day,
        ),
{
    assert(bv.take(i + 1).drop_last() =~= bv.take(i));
    assert(bv.take(i + 1).last() == bv[i]);
    assert(bv.take(i + 1)[i - 1] == bv[i - 1]);
}

/// The all-zero metrics accumulator.
pub fn metrics_zero() -> (m: Metrics)
    ensures
        m@ == zero_metrics(),
{
    Metrics {
        edge: 0,
        ret: 0,
        cost: 0,
        n1b: 0,
        turnover: 0,
        long_edge: 0,
        long_cost: 0,
        long_ret: 0,
        long_turnover: 0,
        short_edge: 0,
        short_cost: 0,
        short_ret: 0,
        short_turnover: 0,
    }
}

/// Field-wise sum of two metric records.
pub fn metrics_add(a: &Metrics, b: &Metrics) -> (r: Metrics)
    requires
        metrics_bounded(a@, SUM_BOUND as int),
        metrics_bounded(b@, M_BOUND as int),
    ensures
        r@ == m_add(a@, b@),
{
    Metrics {
        edge: a.edge + b.edge,
        ret: a.ret + b.ret,
        cost: a.cost + b.cost,
        n1b: a.n1b + b.n1b,
        turnover: a.turnover + b.turnover,
        long_edge: a.long_edge + b.long_edge,
        long_cost: a.long_cost + b.long_cost,
        long_ret: a.long_ret + b.long_ret,
        long_turnover: a.long_turnover + b.long_turnover,
        short_edge: a.short_edge + b.short_edge,
        short_cost: a.short_cost + b.short_cost,
        short_ret: a.short_ret + b.short_ret,
        short_turnover: a.short_turnover + b.short_turnover,
    }
}

fn daily_from(symbol: &String, date: i64, m: &Metrics) -> (d: DailyResult)
    ensures
        d@ == (DailyResultV { date: date as int, symbol: symbol@, m: m@ }),
{
    DailyResult {
        date,
        symbol: symbol.clone(),
        edge: m.edge,
        return_: m.ret,
        cost: m.cost,
        n1b: m.n1b,
        turnover: m.turnover,
        long_edge: m.long_edge,
        long_cost: m.long_cost,
        long_return: m.long_ret,
        long_turnover: m.long_turnover,
        short_edge: m.short_edge,
        short_cost: m.short_cost,
        short_return: m.short_ret,
        short_turnover: m.short_turnover,
    }
}

/// One symbol's daily table: one `DailyResult` per distinct date of its
/// series, each the sum of the transition metrics landing on that date.
#[verifier::rlimit(100)]
pub fn get_symbol_daily(symbol: &String, bars: &Vec<Bar>, fee_rate: i64) -> (daily: Vec<
    DailyResult,
>)
    requires
        series_ok(bars_view(bars@)),
        bars@.len() <= ROWS_MAX,
        fee_ok(fee_rate as int),
    ensures
        daily_view(daily@) == symbol_daily_model(bars_view(bars@), fee_rate as int, symbol@),
        forall|k: int|
            0 <= k < daily@.len() ==> metrics_bounded(
                #[trigger] daily_view(daily@)[k].m,
                SUM_BOUND as int,
            ),
{
    let ghost bv = bars_view(bars@);
    let ghost fee = fee_rate as int;
    let ghost sym = symbol@;
    let n = bars.len();
    if n < 2 {
        let daily: Vec<DailyResult> = Vec::new();
        proof {
            assert(daily_view(daily@) =~= symbol_daily_model(bv, fee, sym));
        }
        return daily;
    }
    let mut daily: Vec<DailyResult> = Vec::new();
    let mut acc: Metrics = metrics_zero();
    let mut cur_day: i64 = bars[0].day;
    let mut i: usize = 1;
    proof {
        assert(bv.take(1) =~= seq![bv[0]]);
        lemma_day_total_absent(bv.take(1), fee, cur_day as int);
        assert(days_of(bv.take(1)) =~= seq![bv[0].day]);
    }
    while i < n
        invariant
            2 <= n == bars@.len() <= ROWS_MAX,
            1 <= i <= n,
            bv == bars_view(bars@),
            series_ok(bv),
            fee == fee_rate as int,
            fee_ok(fee),
            sym == symbol@,
            cur_day as int == bv[i - 1].day,
            acc@ == day_total(bv.take(i as int), fee, cur_day as int),
            metrics_bounded(acc@, i as int * M_BOUND as int),
            days_of(bv.take(i as int)).len() == daily@.len() + 1,
            days_of(bv.take(i as int)).last() == cur_day as int,
            daily_view(daily@) == day_records(
                bv,
                fee,
                sym,
                days_of(bv.take(i as int)).drop_last(),
            ),
            forall|k: int|
                0 <= k < daily@.len() ==> metrics_bounded(
                    #[trigger] daily_view(daily@)[k].m,
                    SUM_BOUND as int,
                ),
        decreases n - i,
    {
        let ghost p = bv.take(i as int);
        let ghost p1 = bv.take(i as int + 1);
        proof {
            lemma_prefix_step(bv, fee, i as int);
        }
        let d = bars[i].day;
        if d != cur_day {
            proof {
                lemma_day_mono(bv, i as int - 1, i as int);
                assert forall|j: int|
                    i as int <= j < bv.len() implies (#[trigger] bv[j]).day
                    != cur_day as int by {
                    lemma_day_mono(bv, i as int, j);
                }
                lemma_day_total_prefix(bv, fee, cur_day as int, i as int);
            }
            let rec = daily_from(symbol, cur_day, &acc);
            let ghost dprev = daily@;
            daily.push(rec);
            proof {
                assert(i as int * M_BOUND as int <= SUM_BOUND as int);
                assert(rec@ == day_record(bv, fee, sym, cur_day as int));
                lemma_day_records_push(bv, fee, sym, days_of(p).drop_last(), cur_day as int);
                assert(days_of(p).drop_last().push(days_of(p).last()) =~= days_of(p));
                lemma_daily_view_push(dprev, rec);
                assert(daily_view(daily@) == day_records(bv, fee, sym, days_of(p)));
                assert forall|j: int| 1 <= j < p.len() implies (#[trigger] p[j]).day
                    != d as int by {
                    assert(p[j] == bv[j]);
                    lemma_day_mono(bv, j, i as int - 1);
                }
                lemma_day_total_absent(p, fee, d as int);
            }
            acc = metrics_zero();
            cur_day = d;
        }
        let m = transition(&bars[i - 1], &bars[i], fee_rate);
        acc = metrics_add(&acc, &m);
        proof {
            if bv[i as int].day != bv[i as int - 1].day {
                assert(days_of(p1).drop_last() =~= days_of(p));
            }
            assert(daily_view(daily@) == day_records(bv, fee, sym, days_of(p1).drop_last()));
            assert(acc@ == day_total(p1, fee, cur_day as int));
        }
        i = i + 1;
    }
    proof {
        assert(bv.take(n as int) =~= bv);
    }
    let rec = daily_from(symbol, cur_day, &acc);
    let ghost dprev = daily@;
    daily.push(rec);
    proof {
        assert(n as int * M_BOUND as int <= SUM_BOUND as int);
        assert(rec@ == day_record(bv, fee, sym, cur_day as int));
        lemma_day_records_push(bv, fee, sym, days_of(bv).drop_last(), cur_day as int);
        assert(days_of(bv).drop_last().push(days_of(bv).last()) =~= days_of(bv));
        lemma_daily_view_push(dprev, rec);
        assert(daily_view(daily@) == day_records(bv, fee, sym, days_of(bv)));
    }
    daily
}

} // verus!
