//! The engine's global laws, stated and proved over the same models that
//! the executable functions are verified against.

use vstd::prelude::*;

use crate::aggregate::has_date;
use crate::backtest::contrib_of;
use crate::backtest::entries_model;
use crate::backtest::port_rets;
use crate::backtest::portfolio_ok;
use crate::backtest::stats_model;
use crate::fixed::SCALE;
use crate::fixed::lemma_div_t_sum_parts;
use crate::pairs::pair_scan;
use crate::pairs::scan_step;
use crate::symbol::day_total;
use crate::symbol::symbol_daily_model;
use crate::symbol::transition_metrics;
use crate::types::BacktestInputV;
use crate::types::BacktestResultV;
use crate::types::BarV;
use crate::types::DailyResultV;
use crate::types::DailyReturnV;
use crate::types::PortfolioDayV;
use crate::types::WeightType;

verus! {

pub open spec fn sum_ret(d: Seq<DailyResultV>) -> int
    decreases d.len(),
{
    if d.len() == 0 {
        0
    } else {
        sum_ret(d.drop_last()) + d.last().m.ret
    }
}

pub open spec fn sum_edge(d: Seq<DailyResultV>) -> int
    decreases d.len(),
{
    if d.len() == 0 {
        0
    } else {
        sum_edge(d.drop_last()) + d.last().m.edge
    }
}

pub open spec fn sum_cost(d: Seq<DailyResultV>) -> int
    decreases d.len(),
{
    if d.len() == 0 {
        0
    } else {
        sum_cost(d.drop_last()) + d.last().m.cost
    }
}

/// Number of bar transitions landing on date `d`.
pub open spec fn day_count(bars: Seq<BarV>, d: int) -> int
    decreases bars.len(),
{
    if bars.len() <= 1 {
        0
    } else {
        day_count(bars.drop_last(), d) + if bars.last().day == d {
            1int
        } else {
            0int
        }
    }
}

proof fn lemma_day_total_rc(bars: Seq<BarV>, fee: int, d: int)
    ensures
        day_total(bars, fee, d).ret == day_total(bars, fee, d).edge - day_total(bars, fee, d).cost,
        day_total(bars, fee, d).long_ret == day_total(bars, fee, d).long_edge - day_total(
            bars,
            fee,
            d,
        ).long_cost,
        day_total(bars, fee, d).short_ret == day_total(bars, fee, d).short_edge - day_total(
            bars,
            fee,
            d,
        ).short_cost,
    decreases bars.len(),
{
    reveal(transition_metrics);
    if bars.len() > 1 {
        lemma_day_total_rc(bars.drop_last(), fee, d);
    }
}

proof fn lemma_sum_rc(d: Seq<DailyResultV>)
    requires
        forall|k: int| 0 <= k < d.len() ==> (#[trigger] d[k]).m.ret == d[k].m.edge - d[k].m.cost,
    ensures
        sum_ret(d) == sum_edge(d) - sum_cost(d),
    decreases d.len(),
{
    if d.len() > 0 {
        assert(forall|k: int|
            0 <= k < d.drop_last().len() ==> #[trigger] d.drop_last()[k] == d[k]);
        lemma_sum_rc(d.drop_last());
        assert(d.last() == d[d.len() - 1]);
    }
}

/// For every symbol, each daily row satisfies `return = edge - cost`
/// exactly, and therefore the totals over its whole daily table satisfy
/// `sum(return) = sum(edge) - sum(cost)` exactly.
pub proof fn lemma_return_decomposition(bars: Seq<BarV>, fee: int, sym: Seq<char>)
    ensures
        forall|k: int|
            0 <= k < symbol_daily_model(bars, fee, sym).len() ==> (#[trigger] symbol_daily_model(
                bars,
                fee,
                sym,
            )[k]).m.ret == symbol_daily_model(bars, fee, sym)[k].m.edge - symbol_daily_model(
                bars,
                fee,
                sym,
            )[k].m.cost,
        sum_ret(symbol_daily_model(bars, fee, sym)) == sum_edge(symbol_daily_model(bars, fee, sym))
            - sum_cost(symbol_daily_model(bars, fee, sym)),
{
    let daily = symbol_daily_model(bars, fee, sym);
    assert forall|k: int| 0 <= k < daily.len() implies (#[trigger] daily[k]).m.ret
        == daily[k].m.edge - daily[k].m.cost by {
        lemma_day_total_rc(bars, fee, daily[k].date);
    }
    lemma_sum_rc(daily);
}

proof fn lemma_transition_split(b0: BarV, b1: BarV, fee: int)
    requires
        fee >= 0,
    ensures
        transition_metrics(b0, b1, fee).edge == transition_metrics(b0, b1, fee).long_edge
            + transition_metrics(b0, b1, fee).short_edge,
        transition_metrics(b0, b1, fee).turnover == transition_metrics(b0, b1, fee).long_turnover
            + transition_metrics(b0, b1, fee).short_turnover,
        transition_metrics(b0, b1, fee).long_cost + transition_metrics(b0, b1, fee).short_cost
            <= transition_metrics(b0, b1, fee).cost,
        transition_metrics(b0, b1, fee).cost <= transition_metrics(b0, b1, fee).long_cost
            + transition_metrics(b0, b1, fee).short_cost + 1,
{
    reveal(transition_metrics);
    let m = transition_metrics(b0, b1, fee);
    vstd::arithmetic::div_mod::lemma_div_of0(SCALE as int);
    let lt = m.long_turnover;
    let st = m.short_turnover;
    assert(m.turnover == lt + st);
    assert(lt >= 0 && st >= 0);
    assert(lt * fee >= 0 && st * fee >= 0 && (lt + st) * fee == lt * fee + st * fee)
        by (nonlinear_arith)
        requires
            lt >= 0,
            st >= 0,
            fee >= 0,
    ;
    lemma_div_t_sum_parts(lt * fee, st * fee, SCALE as int);
}

proof fn lemma_day_total_split(bars: Seq<BarV>, fee: int, d: int)
    requires
        fee >= 0,
    ensures
        day_total(bars, fee, d).edge == day_total(bars, fee, d).long_edge + day_total(
            bars,
            fee,
            d,
        ).short_edge,
        day_total(bars, fee, d).turnover == day_total(bars, fee, d).long_turnover + day_total(
            bars,
            fee,
            d,
        ).short_turnover,
        day_total(bars, fee, d).long_cost + day_total(bars, fee, d).short_cost <= day_total(
            bars,
            fee,
            d,
        ).cost,
        day_total(bars, fee, d).cost <= day_total(bars, fee, d).long_cost + day_total(
            bars,
            fee,
            d,
        ).short_cost + day_count(bars, d),
        day_count(bars, d) >= 0,
    decreases bars.len(),
{
    if bars.len() > 1 {
        lemma_day_total_split(bars.drop_last(), fee, d);
        if bars.last().day == d {
            lemma_transition_split(bars[bars.len() - 2], bars.last(), fee);
        }
    }
}

/// For every daily row, the long and short legs decompose the whole
/// exactly for edge and turnover, and for cost up to one rounding quantum
/// per transition summed into that row.
pub proof fn lemma_long_short_decomposition(bars: Seq<BarV>, fee: int, sym: Seq<char>)
    requires
        fee >= 0,
    ensures
        forall|k: int|
            0 <= k < symbol_daily_model(bars, fee, sym).len() ==> {
                let m = (#[trigger] symbol_daily_model(bars, fee, sym)[k]).m;
                m.edge == m.long_edge + m.short_edge && m.turnover == m.long_turnover
                    + m.short_turnover && m.long_cost + m.short_cost <= m.cost && m.cost
                    <= m.long_cost + m.short_cost + day_count(
                    bars,
                    symbol_daily_model(bars, fee, sym)[k].date,
                )
            },
{
    let daily = symbol_daily_model(bars, fee, sym);
    assert forall|k: int| 0 <= k < daily.len() implies {
        let m = (#[trigger] daily[k]).m;
        m.edge == m.long_edge + m.short_edge && m.turnover == m.long_turnover + m.short_turnover
            && m.long_cost + m.short_cost <= m.cost && m.cost <= m.long_cost + m.short_cost
            + day_count(bars, daily[k].date)
    } by {
        lemma_day_total_split(bars, fee, daily[k].date);
    }
}

/// Count of zero-to-non-zero weight transitions (a leading non-zero
/// weight counts: the position opens on the first bar).
pub open spec fn zn_transitions(bars: Seq<BarV>) -> int
    decreases bars.len(),
{
    if bars.len() == 0 {
        0
    } else if bars.len() == 1 {
        if bars[0].weight != 0 {
            1int
        } else {
            0int
        }
    } else {
        zn_transitions(bars.drop_last()) + if bars[bars.len() - 2].weight == 0 && bars.last().weight
            != 0 {
            1int
        } else {
            0int
        }
    }
}

/// No direct sign flip: the weight never jumps from one sign to the other
/// without passing through zero.
pub open spec fn no_flip(bars: Seq<BarV>) -> bool {
    forall|t: int|
        0 < t < bars.len() ==> !((#[trigger] bars[t]).weight > 0 && bars[t - 1].weight < 0) && !(
        bars[t].weight < 0 && bars[t - 1].weight > 0)
}

/// Trade-pair count sanity: while the weight never flips sign directly,
/// the scan's open state tracks the last weight, and the number of
/// completed pairs equals the number of zero-to-non-zero transitions,
/// minus one if the series ends with an open (non-zero) position.
pub proof fn lemma_pair_count(bars: Seq<BarV>, sym: Seq<char>)
    requires
        no_flip(bars),
    ensures
        bars.len() == 0 ==> pair_scan(bars, sym).open is None,
        bars.len() > 0 ==> (pair_scan(bars, sym).open is Some <==> bars.last().weight != 0),
        pair_scan(bars, sym).pairs.len() == zn_transitions(bars) - (
        if pair_scan(bars, sym).open is Some {
            1int
        } else {
            0int
        }),
    decreases bars.len(),
{
    if bars.len() > 0 {
        let s = bars.drop_last();
        assert(forall|t: int| 0 < t < s.len() ==> #[trigger] s[t] == bars[t]);
        assert(no_flip(s));
        lemma_pair_count(s, sym);
        assert(pair_scan(bars, sym) == scan_step(pair_scan(s, sym), bars.last(), sym));
        if bars.len() >= 2 {
            assert(s.last() == bars[bars.len() - 2]);
            assert(!(bars.last().weight > 0 && bars[bars.len() - 2].weight < 0) && !(
            bars.last().weight < 0 && bars[bars.len() - 2].weight > 0));
        }
    }
}

proof fn lemma_portfolio_pointwise(
    crows: Seq<DailyReturnV>,
    mode: WeightType,
    o1: Seq<PortfolioDayV>,
    o2: Seq<PortfolioDayV>,
    k: int,
)
    requires
        portfolio_ok(crows, o1, mode),
        portfolio_ok(crows, o2, mode),
        0 <= k < o1.len(),
        k < o2.len(),
        forall|j: int| 0 <= j < k ==> o1[j] == o2[j],
    ensures
        o1[k] == o2[k],
{
    let d1 = o1[k].date;
    let d2 = o2[k].date;
    let i1 = choose|i: int| 0 <= i < crows.len() && crows[i].date == d1;
    let m1 = choose|m: int| 0 <= m < o2.len() && o2[m].date == crows[i1].date;
    let i2 = choose|i: int| 0 <= i < crows.len() && crows[i].date == d2;
    let m2 = choose|m: int| 0 <= m < o1.len() && o1[m].date == crows[i2].date;
    if m1 < k {
        assert(o1[m1] == o2[m1]);
        assert(false);
    } else if m1 > k {
        if m2 < k {
            assert(o1[m2] == o2[m2]);
            assert(false);
        } else if m2 > k {
            assert(o1[k].date < o1[m2].date);
            assert(o2[k].date < o2[m1].date);
            assert(false);
        }
    }
    assert(o1[k].date == o2[k].date);
}

proof fn lemma_portfolio_prefix(
    crows: Seq<DailyReturnV>,
    mode: WeightType,
    o1: Seq<PortfolioDayV>,
    o2: Seq<PortfolioDayV>,
    k: int,
)
    requires
        portfolio_ok(crows, o1, mode),
        portfolio_ok(crows, o2, mode),
        0 <= k <= o1.len(),
        k <= o2.len(),
        forall|j: int| 0 <= j < k ==> o1[j] == o2[j],
    ensures
        forall|j: int| 0 <= j < o1.len() && j < o2.len() ==> o1[j] == o2[j],
    decreases o1.len() + o2.len() - 2 * k,
{
    if k < o1.len() && k < o2.len() {
        lemma_portfolio_pointwise(crows, mode, o1, o2, k);
        lemma_portfolio_prefix(crows, mode, o1, o2, k + 1);
    }
}

/// The portfolio series satisfying the aggregation contract is unique.
pub proof fn lemma_portfolio_unique(
    crows: Seq<DailyReturnV>,
    mode: WeightType,
    o1: Seq<PortfolioDayV>,
    o2: Seq<PortfolioDayV>,
)
    requires
        portfolio_ok(crows, o1, mode),
        portfolio_ok(crows, o2, mode),
    ensures
        o1 == o2,
{
    lemma_portfolio_prefix(crows, mode, o1, o2, 0);
    if o1.len() < o2.len() {
        let d = o2[o1.len() as int].date;
        let i = choose|i: int| 0 <= i < crows.len() && crows[i].date == d;
        assert(has_date(crows, o2[o1.len() as int].date));
        let m = choose|m: int| 0 <= m < o1.len() && o1[m].date == crows[i].date;
        assert(o1[m] == o2[m]);
        assert(o2[m].date < o2[o1.len() as int].date);
        assert(false);
    } else if o2.len() < o1.len() {
        let d = o1[o2.len() as int].date;
        let i = choose|i: int| 0 <= i < crows.len() && crows[i].date == d;
        assert(has_date(crows, o1[o2.len() as int].date));
        let m = choose|m: int| 0 <= m < o2.len() && o2[m].date == crows[i].date;
        assert(o2[m] == o1[m]);
        assert(o1[m].date < o1[o2.len() as int].date);
        assert(false);
    }
    assert(o1 =~= o2);
}

/// Idempotence: the run contract pins every component of the result, so
/// two results of the same input and configuration are identical.
pub proof fn lemma_run_deterministic(inp: BacktestInputV, r1: BacktestResultV, r2: BacktestResultV)
    requires
        r1.symbol_results == entries_model(inp),
        r2.symbol_results == entries_model(inp),
        portfolio_ok(contrib_of(entries_model(inp)), r1.daily_returns, inp.weight_type),
        portfolio_ok(contrib_of(entries_model(inp)), r2.daily_returns, inp.weight_type),
        r1.stats == stats_model(
            port_rets(r1.daily_returns),
            inp.yearly_days,
            crate::backtest::all_pairs_of(entries_model(inp)),
        ),
        r2.stats == stats_model(
            port_rets(r2.daily_returns),
            inp.yearly_days,
            crate::backtest::all_pairs_of(entries_model(inp)),
        ),
    ensures
        r1 == r2,
{
    lemma_portfolio_unique(
        contrib_of(entries_model(inp)),
        inp.weight_type,
        r1.daily_returns,
        r2.daily_returns,
    );
}

} // verus!
