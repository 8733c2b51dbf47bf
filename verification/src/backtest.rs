//! The backtest orchestrator.
//!
//! `WeightBacktest::new` validates the configuration; `run` validates the
//! table, slices it per symbol (weights rounded to the configured
//! precision), computes each symbol's daily records and trade pairs,
//! aggregates the per-symbol returns into the portfolio series, and
//! computes the summary statistics.
//!
//! Failure policy, fixed and documented: the whole run aborts on the first
//! ill-formed symbol series (abort-all); nothing is skipped silently. The
//! table checks run in this order: empty table, row capacity, then each
//! symbol in first-appearance order (price range, weight cap, day cap,
//! strictly increasing timestamps, non-decreasing days, in bar order).
//!
//! Symbols are processed one after the other here; every symbol's
//! computation is independent (`process_symbol` is pure), so a caller may
//! fan the symbols out over `n_jobs` workers and merge, with the same
//! result.

use vstd::prelude::*;

use crate::aggregate::agg_value;
use crate::aggregate::aggregate_daily_returns;
use crate::aggregate::has_date;
use crate::aggregate::out_has;
use crate::aggregate::rows_view;
use crate::fixed::SCALE;
use crate::fixed::abs_i;
use crate::fixed::pow10_s;
use crate::fixed::quantum;
use crate::fixed::round_w;
use crate::fixed::round_weight;
use crate::pairs::get_symbol_pairs;
use crate::pairs::pairs_view;
use crate::pairs::symbol_pairs_model;
use crate::stats::avg_days_model;
use crate::stats::calculate_daily_performance;
use crate::stats::evaluate_pairs;
use crate::stats::pairs_seq_view;
use crate::stats::perf_model;
use crate::stats::rets_view;
use crate::stats::win_rate_model;
use crate::symbol::bars_view;
use crate::symbol::bar_ok;
use crate::symbol::daily_view;
use crate::symbol::get_symbol_daily;
use crate::symbol::metrics_bounded;
use crate::symbol::series_ok;
use crate::symbol::symbol_daily_model;
use crate::symbol::SUM_BOUND;
use crate::types::BacktestError;
use crate::types::BacktestInput;
use crate::types::BacktestInputV;
use crate::types::BacktestResult;
use crate::types::Bar;
use crate::types::BarV;
use crate::types::DailyResultV;
use crate::types::DailyReturn;
use crate::types::DailyReturnV;
use crate::types::DAY_MAX;
use crate::types::InputRow;
use crate::types::PortfolioDay;
use crate::types::PortfolioDayV;
use crate::types::PRICE_MAX;
use crate::types::PRICE_MIN;
use crate::types::ROWS_MAX;
use crate::types::RowV;
use crate::types::STAT_RET_MAX;
use crate::types::Stats;
use crate::types::StatsV;
use crate::types::SymbolEntry;
use crate::types::SymbolEntryV;
use crate::types::SymbolResult;
use crate::types::SymbolResultV;
use crate::types::TradePair;
use crate::types::TradePairV;
use crate::types::WEIGHT_MAX;
use crate::types::WeightType;
use crate::types::YEARLY_DAYS_MAX;

verus! {

pub open spec fn input_rows_view(v: Seq<InputRow>) -> Seq<RowV> {
    v.map_values(|r: InputRow| r@)
}

/// The distinct symbols of the table, in first-appearance order.
pub open spec fn symbols_of(rows: Seq<RowV>) -> Seq<Seq<char>>
    decreases rows.len(),
{
    if rows.len() == 0 {
        Seq::empty()
    } else {
        let p = symbols_of(rows.drop_last());
        if p.contains(rows.last().symbol) {
            p
        } else {
            p.push(rows.last().symbol)
        }
    }
}

/// A table row turned into a bar: the weight rounded to the quantum `q`.
pub open spec fn row_to_bar(r: RowV, q: int) -> BarV {
    BarV { ts: r.ts, day: r.day, price: r.price, weight: round_w(r.weight, q) }
}

/// One symbol's slice of the table, in row order, as bars.
pub open spec fn bars_of(rows: Seq<RowV>, sym: Seq<char>, q: int) -> Seq<BarV>
    decreases rows.len(),
{
    if rows.len() == 0 {
        Seq::empty()
    } else {
        let p = bars_of(rows.drop_last(), sym, q);
        if rows.last().symbol == sym {
            p.push(row_to_bar(rows.last(), q))
        } else {
            p
        }
    }
}

pub open spec fn quantum_of(digits: int) -> int {
    pow10_s((9 - digits) as nat)
}

/// A configuration the engine accepts.
pub open spec fn config_ok(inp: BacktestInputV) -> bool {
    &&& 0 <= inp.digits <= 9
    &&& 0 <= inp.fee_rate <= SCALE as int
    &&& 1 <= inp.yearly_days <= YEARLY_DAYS_MAX as int
    &&& inp.n_jobs >= 1
}

/// A table the engine accepts: non-empty, within capacity, and every
/// symbol's series well formed after rounding.
pub open spec fn table_ok(inp: BacktestInputV) -> bool {
    let syms = symbols_of(inp.rows);
    &&& 1 <= inp.rows.len() <= ROWS_MAX as int
    &&& forall|k: int|
        0 <= k < syms.len() ==> series_ok(
            bars_of(inp.rows, #[trigger] syms[k], quantum_of(inp.digits)),
        )
}

/// The model of one symbol's results.
pub open spec fn entry_model(inp: BacktestInputV, sym: Seq<char>) -> SymbolEntryV {
    let bars = bars_of(inp.rows, sym, quantum_of(inp.digits));
    SymbolEntryV {
        symbol: sym,
        result: SymbolResultV {
            daily: symbol_daily_model(bars, inp.fee_rate, sym),
            pairs: symbol_pairs_model(bars, sym),
        },
    }
}

/// The model of the whole symbol map, keyed in first-appearance order.
pub open spec fn entries_model(inp: BacktestInputV) -> Seq<SymbolEntryV> {
    symbols_of(inp.rows).map_values(|sym: Seq<char>| entry_model(inp, sym))
}

/// One symbol's daily rows as aggregation inputs.
pub open spec fn entry_rows_model(daily: Seq<DailyResultV>) -> Seq<DailyReturnV> {
    daily.map_values(
        |d: DailyResultV| DailyReturnV { date: d.date, symbol: d.symbol, ret: d.m.ret },
    )
}

/// All symbols' contribution rows, symbol by symbol.
pub open spec fn contrib_of(entries: Seq<SymbolEntryV>) -> Seq<DailyReturnV>
    decreases entries.len(),
{
    if entries.len() == 0 {
        Seq::empty()
    } else {
        contrib_of(entries.drop_last()) + entry_rows_model(entries.last().result.daily)
    }
}

/// All symbols' trade pairs, symbol by symbol.
pub open spec fn all_pairs_of(entries: Seq<SymbolEntryV>) -> Seq<TradePairV>
    decreases entries.len(),
{
    if entries.len() == 0 {
        Seq::empty()
    } else {
        all_pairs_of(entries.drop_last()) + entries.last().result.pairs
    }
}

pub open spec fn entries_view(v: Seq<SymbolEntry>) -> Seq<SymbolEntryV> {
    v.map_values(|e: SymbolEntry| e@)
}

pub open spec fn port_rets(out: Seq<PortfolioDayV>) -> Seq<int> {
    out.map_values(|p: PortfolioDayV| p.ret)
}

pub open spec fn port_view(v: Seq<PortfolioDay>) -> Seq<PortfolioDayV> {
    v.map_values(|p: PortfolioDay| p@)
}

/// The derived quantities stay inside the machine caps: the flattened
/// contribution-row and pair counts fit, and every portfolio daily return
/// is small enough for the variance sum of the statistics engine.
pub open spec fn derived_ok(inp: BacktestInputV) -> bool {
    let entries = entries_model(inp);
    let crows = contrib_of(entries);
    &&& crows.len() <= ROWS_MAX as int
    &&& all_pairs_of(entries).len() <= ROWS_MAX as int
    &&& forall|d: int|
        has_date(crows, d) ==> abs_i(
            agg_value(crows, d, inp.weight_type),
        ) <= STAT_RET_MAX as int
}

/// The statistics of a run: the performance metrics of the portfolio
/// series with the trade metrics of the pair set.
pub open spec fn stats_model(prets: Seq<int>, yd: int, ap: Seq<TradePairV>) -> StatsV {
    let perf = perf_model(prets, yd);
    StatsV {
        annual_return: perf.annual_return,
        annual_volatility: perf.annual_volatility,
        sharpe: perf.sharpe,
        max_drawdown: perf.max_drawdown,
        total_return: perf.total_return,
        win_rate: win_rate_model(ap),
        n_trades: ap.len() as int,
        avg_days_held: avg_days_model(ap),
    }
}

pub open spec fn syms_view(v: Seq<String>) -> Seq<Seq<char>> {
    v.map_values(|s: String| s@)
}

/// Collect the distinct symbols of the table, in first-appearance order.
fn collect_symbols(rows: &Vec<InputRow>) -> (syms: Vec<String>)
    ensures
        syms_view(syms@) == symbols_of(input_rows_view(rows@)),
{
    let ghost rv = input_rows_view(rows@);
    let n = rows.len();
    let mut syms: Vec<String> = Vec::new();
    let mut i: usize = 0;
    proof {
        assert(rv.take(0) =~= Seq::<RowV>::empty());
        assert(syms_view(syms@) =~= symbols_of(rv.take(0)));
    }
    while i < n
        invariant
            0 <= i <= n == rows@.len(),
            rv == input_rows_view(rows@),
            syms_view(syms@) == symbols_of(rv.take(i as int)),
        decreases n - i,
    {
        let ghost sv = syms_view(syms@);
        let ghost cur = rv[i as int].symbol;
        let m = syms.len();
        let mut j: usize = 0;
        let mut found = false;
        while j < m
            invariant
                0 <= j <= m == syms@.len(),
                sv == syms_view(syms@),
                cur == rows@[i as int]@.symbol,
                i < rows@.len(),
                found <==> exists|k: int| 0 <= k < j && sv[k] == cur,
            decreases m - j,
        {
            if syms[j].eq(&rows[i].symbol) {
                found = true;
                proof {
                    assert(sv[j as int] == cur);
                }
            }
            j = j + 1;
        }
        proof {
            assert(rv.take(i as int + 1).drop_last() =~= rv.take(i as int));
            assert(rv.take(i as int + 1).last() == rv[i as int]);
            if found {
                let k = choose|k: int| 0 <= k < m && sv[k] == cur;
                assert(symbols_of(rv.take(i as int)).contains(cur));
            } else {
                assert(forall|k: int| 0 <= k < sv.len() ==> sv[k] != cur);
                assert(!symbols_of(rv.take(i as int)).contains(cur));
            }
        }
        if !found {
            let ghost svprev = syms@;
            syms.push(rows[i].symbol.clone());
            proof {
                assert(syms_view(syms@) =~= syms_view(svprev).push(cur));
            }
        }
        i = i + 1;
    }
    proof {
        assert(rv.take(n as int) =~= rv);
    }
    syms
}

/// Build one symbol's bar series from the table, rounding the weights.
fn build_bars(rows: &Vec<InputRow>, sym: &String, q: i64) -> (bars: Vec<Bar>)
    requires
        1 <= q <= SCALE,
        q == 1 || q % 2 == 0,
    ensures
        bars_view(bars@) == bars_of(input_rows_view(rows@), sym@, q as int),
        bars@.len() <= rows@.len(),
{
    let ghost rv = input_rows_view(rows@);
    let n = rows.len();
    let mut bars: Vec<Bar> = Vec::new();
    let mut i: usize = 0;
    proof {
        assert(rv.take(0) =~= Seq::<RowV>::empty());
        assert(bars_view(bars@) =~= bars_of(rv.take(0), sym@, q as int));
    }
    while i < n
        invariant
            0 <= i <= n == rows@.len(),
            rv == input_rows_view(rows@),
            1 <= q <= SCALE,
            q == 1 || q % 2 == 0,
            bars_view(bars@) == bars_of(rv.take(i as int), sym@, q as int),
            bars@.len() <= i,
        decreases n - i,
    {
        proof {
            assert(rv.take(i as int + 1).drop_last() =~= rv.take(i as int));
            assert(rv.take(i as int + 1).last() == rv[i as int]);
        }
        if rows[i].symbol.eq(sym) {
            let w = round_weight(rows[i].weight, q);
            let b = Bar { ts: rows[i].ts, day: rows[i].day, price: rows[i].price, weight: w };
            let ghost bprev = bars@;
            proof {
                assert(b@ == row_to_bar(rv[i as int], q as int));
            }
            bars.push(b);
            proof {
                assert(bars_view(bars@) =~= bars_view(bprev).push(b@));
            }
        }
        i = i + 1;
    }
    proof {
        assert(rv.take(n as int) =~= rv);
    }
    bars
}

/// Check one symbol's series: prices and days in range, weights within the
/// cap, timestamps strictly increasing, days non-decreasing.
fn check_series(symbol: &String, bars: &Vec<Bar>) -> (r: Result<(), BacktestError>)
    ensures
        r is Ok <==> series_ok(bars_view(bars@)),
{
    let ghost bv = bars_view(bars@);
    let n = bars.len();
    let mut i: usize = 0;
    while i < n
        invariant
            0 <= i <= n == bars@.len(),
            bv == bars_view(bars@),
            forall|k: int| 0 <= k < i ==> bar_ok(#[trigger] bv[k]),
            forall|k: int| 0 < k < i ==> (#[trigger] bv[k]).ts > bv[k - 1].ts,
            forall|k: int| 0 < k < i ==> (#[trigger] bv[k]).day >= bv[k - 1].day,
        decreases n - i,
    {
        proof {
            assert(bv[i as int] == bars@[i as int]@);
        }
        if bars[i].price < PRICE_MIN || bars[i].price > PRICE_MAX {
            proof {
                assert(!bar_ok(bv[i as int]));
            }
            return Err(BacktestError::PriceOutOfRange { symbol: symbol.clone() });
        }
        if bars[i].weight > WEIGHT_MAX || bars[i].weight < -WEIGHT_MAX {
            proof {
                assert(!bar_ok(bv[i as int]));
            }
            return Err(BacktestError::WeightOutOfRange { symbol: symbol.clone() });
        }
        if bars[i].day > DAY_MAX || bars[i].day < -DAY_MAX {
            proof {
                assert(!bar_ok(bv[i as int]));
            }
            return Err(BacktestError::DayOutOfRange { symbol: symbol.clone() });
        }
        if i > 0 {
            proof {
                assert(bv[i as int - 1] == bars@[i as int - 1]@);
            }
            if bars[i].ts <= bars[i - 1].ts {
                return Err(BacktestError::NonMonotonicTimestamp { symbol: symbol.clone() });
            }
            if bars[i].day < bars[i - 1].day {
                return Err(BacktestError::NonMonotonicDate { symbol: symbol.clone() });
            }
        }
        i = i + 1;
    }
    Ok(())
}

/// Flatten the per-symbol daily records into aggregation input rows, one
/// `DailyReturn` per (symbol, date).
pub fn daily_return_rows(entries: &Vec<SymbolEntry>) -> (rows: Vec<DailyReturn>)
    requires
        forall|e: int, k: int|
            0 <= e < entries@.len() && 0 <= k < (#[trigger] entries_view(
                entries@,
            )[e]).result.daily.len() ==> metrics_bounded(
                (#[trigger] entries_view(entries@)[e].result.daily[k]).m,
                SUM_BOUND as int,
            ),
    ensures
        rows_view(rows@) == contrib_of(entries_view(entries@)),
        forall|i: int|
            0 <= i < rows@.len() ==> abs_i((#[trigger] rows_view(rows@)[i]).ret) <= SUM_BOUND as int,
{
    let ghost ev = entries_view(entries@);
    let ne = entries.len();
    let mut rows: Vec<DailyReturn> = Vec::new();
    let mut e: usize = 0;
    proof {
        assert(ev.take(0) =~= Seq::<SymbolEntryV>::empty());
        assert(rows_view(rows@) =~= contrib_of(ev.take(0)));
    }
    while e < ne
        invariant
            0 <= e <= ne == entries@.len(),
            ev == entries_view(entries@),
            forall|e2: int, k: int|
                0 <= e2 < entries@.len() && 0 <= k < (#[trigger] ev[e2]).result.daily.len()
                    ==> metrics_bounded((#[trigger] ev[e2].result.daily[k]).m, SUM_BOUND as int),
            rows_view(rows@) == contrib_of(ev.take(e as int)),
            forall|i: int|
                0 <= i < rows@.len() ==> abs_i((#[trigger] rows_view(rows@)[i]).ret)
                    <= SUM_BOUND as int,
        decreases ne - e,
    {
        let nd = entries[e].result.daily.len();
        let ghost base = rows_view(rows@);
        let ghost erows = entry_rows_model(ev[e as int].result.daily);
        let mut k: usize = 0;
        proof {
            assert(base + erows.take(0) =~= base);
        }
        while k < nd
            invariant
                0 <= k <= nd == ev[e as int].result.daily.len(),
                0 <= e < ne == entries@.len(),
                ev == entries_view(entries@),
                erows == entry_rows_model(ev[e as int].result.daily),
                forall|e2: int, kk: int|
                    0 <= e2 < entries@.len() && 0 <= kk < (#[trigger] ev[e2]).result.daily.len()
                        ==> metrics_bounded(
                        (#[trigger] ev[e2].result.daily[kk]).m,
                        SUM_BOUND as int,
                    ),
                rows_view(rows@) == base + erows.take(k as int),
                forall|i: int|
                    0 <= i < rows@.len() ==> abs_i((#[trigger] rows_view(rows@)[i]).ret)
                        <= SUM_BOUND as int,
            decreases nd - k,
        {
            let d = &entries[e].result.daily[k];
            let row = DailyReturn { date: d.date, symbol: d.symbol.clone(), return_: d.return_ };
            let ghost rprev = rows@;
            proof {
                assert(d@ == ev[e as int].result.daily[k as int]);
                assert(row@ == erows[k as int]);
                assert(metrics_bounded(ev[e as int].result.daily[k as int].m, SUM_BOUND as int));
            }
            rows.push(row);
            proof {
                assert(rows_view(rows@) =~= rows_view(rprev).push(row@));
                assert(erows.take(k as int + 1) =~= erows.take(k as int).push(erows[k as int]));
                assert(rows_view(rows@) =~= base + erows.take(k as int + 1));
            }
            k = k + 1;
        }
        proof {
            assert(erows.take(nd as int) =~= erows);
            assert(ev.take(e as int + 1).drop_last() =~= ev.take(e as int));
            assert(ev.take(e as int + 1).last() == ev[e as int]);
            assert(rows_view(rows@) =~= contrib_of(ev.take(e as int + 1)));
        }
        e = e + 1;
    }
    proof {
        assert(ev.take(ne as int) =~= ev);
    }
    rows
}

fn clone_events(v: &Vec<i128>) -> (r: Vec<i128>)
    ensures
        r@ == v@,
{
    let n = v.len();
    let mut r: Vec<i128> = Vec::new();
    let mut i: usize = 0;
    while i < n
        invariant
            0 <= i <= n == v@.len(),
            r@ == v@.take(i as int),
        decreases n - i,
    {
        r.push(v[i]);
        proof {
            assert(v@.take(i as int + 1) =~= v@.take(i as int).push(v@[i as int]));
        }
        i = i + 1;
    }
    proof {
        assert(v@.take(n as int) =~= v@);
    }
    r
}

fn clone_pair(p: &TradePair) -> (r: TradePair)
    ensures
        r@ == p@,
{
    TradePair {
        symbol: p.symbol.clone(),
        direction: p.direction,
        open_time: p.open_time,
        close_time: p.close_time,
        open_price: p.open_price,
        close_price: p.close_price,
        bars_held: p.bars_held,
        event_sequence: clone_events(&p.event_sequence),
        days_held: p.days_held,
        pct_return: p.pct_return,
    }
}

/// Flatten the per-symbol trade pairs into one list, symbol by symbol.
fn collect_pairs(entries: &Vec<SymbolEntry>) -> (pairs: Vec<TradePair>)
    requires
        forall|e: int, k: int|
            0 <= e < entries@.len() && 0 <= k < (#[trigger] entries_view(
                entries@,
            )[e]).result.pairs.len() ==> abs_i(
                (#[trigger] entries_view(entries@)[e].result.pairs[k]).days_held,
            ) <= 200_000_000,
    ensures
        pairs_seq_view(pairs@) == all_pairs_of(entries_view(entries@)),
        forall|k: int|
            0 <= k < pairs@.len() ==> abs_i((#[trigger] pairs_seq_view(pairs@)[k]).days_held)
                <= 200_000_000,
{
    let ghost ev = entries_view(entries@);
    let ne = entries.len();
    let mut pairs: Vec<TradePair> = Vec::new();
    let mut e: usize = 0;
    proof {
        assert(ev.take(0) =~= Seq::<SymbolEntryV>::empty());
        assert(pairs_seq_view(pairs@) =~= all_pairs_of(ev.take(0)));
    }
    while e < ne
        invariant
            0 <= e <= ne == entries@.len(),
            ev == entries_view(entries@),
            forall|e2: int, k: int|
                0 <= e2 < entries@.len() && 0 <= k < (#[trigger] ev[e2]).result.pairs.len()
                    ==> abs_i((#[trigger] ev[e2].result.pairs[k]).days_held) <= 200_000_000,
            pairs_seq_view(pairs@) == all_pairs_of(ev.take(e as int)),
            forall|k: int|
                0 <= k < pairs@.len() ==> abs_i((#[trigger] pairs_seq_view(pairs@)[k]).days_held)
                    <= 200_000_000,
        decreases ne - e,
    {
        let np = entries[e].result.pairs.len();
        let ghost base = pairs_seq_view(pairs@);
        let ghost epairs = ev[e as int].result.pairs;
        let mut k: usize = 0;
        proof {
            assert(base + epairs.take(0) =~= base);
        }
        while k < np
            invariant
                0 <= k <= np == ev[e as int].result.pairs.len(),
                0 <= e < ne == entries@.len(),
                ev == entries_view(entries@),
                epairs == ev[e as int].result.pairs,
                forall|e2: int, kk: int|
                    0 <= e2 < entries@.len() && 0 <= kk < (#[trigger] ev[e2]).result.pairs.len()
                        ==> abs_i((#[trigger] ev[e2].result.pairs[kk]).days_held) <= 200_000_000,
                pairs_seq_view(pairs@) == base + epairs.take(k as int),
                forall|kk: int|
                    0 <= kk < pairs@.len() ==> abs_i(
                        (#[trigger] pairs_seq_view(pairs@)[kk]).days_held,
                    ) <= 200_000_000,
            decreases np - k,
        {
            let p = clone_pair(&entries[e].result.pairs[k]);
            let ghost pprev = pairs@;
            proof {
                assert(entries@[e as int].result.pairs@[k as int]@ == epairs[k as int]);
            }
            pairs.push(p);
            proof {
                assert(p@ == epairs[k as int]);
                assert(pairs_seq_view(pairs@) =~= pairs_seq_view(pprev).push(p@));
                assert(epairs.take(k as int + 1) =~= epairs.take(k as int).push(epairs[k as int]));
                assert(pairs_seq_view(pairs@) =~= base + epairs.take(k as int + 1));
            }
            k = k + 1;
        }
        proof {
            assert(epairs.take(np as int) =~= epairs);
            assert(ev.take(e as int + 1).drop_last() =~= ev.take(e as int));
            assert(ev.take(e as int + 1).last() == ev[e as int]);
            assert(pairs_seq_view(pairs@) =~= all_pairs_of(ev.take(e as int + 1)));
        }
        e = e + 1;
    }
    proof {
        assert(ev.take(ne as int) =~= ev);
    }
    pairs
}

/// The portfolio series `out` is the correct aggregation of the
/// contribution rows `crows`: dates strictly ascending, exactly the union
/// of the rows' dates, each valued per the mode.
pub open spec fn portfolio_ok(
    crows: Seq<DailyReturnV>,
    out: Seq<PortfolioDayV>,
    mode: WeightType,
) -> bool {
    &&& forall|a: int, b: int| 0 <= a < b < out.len() ==> out[a].date < out[b].date
    &&& forall|k: int| 0 <= k < out.len() ==> has_date(crows, (#[trigger] out[k]).date)
    &&& forall|i: int|
        0 <= i < crows.len() ==> exists|k: int|
            0 <= k < out.len() && (#[trigger] out[k]).date == (#[trigger] crows[i]).date
    &&& forall|k: int|
        0 <= k < out.len() ==> (#[trigger] out[k]).ret == agg_value(crows, out[k].date, mode)
}

/// The backtest engine: a validated input table with its configuration.
pub struct WeightBacktest {
    pub input: BacktestInput,
}

impl WeightBacktest {
    /// Validate the configuration and wrap the input. The checks run in
    /// this order: digits, fee rate, yearly days, concurrency.
    pub fn new(input: BacktestInput) -> (r: Result<WeightBacktest, BacktestError>)
        ensures
            r is Ok <==> config_ok(input@),
            (r matches Ok(w) ==> w.input@ == input@),
            input@.digits > 9 <==> (r matches Err(e) && e is InvalidDigits),
            (input@.digits <= 9 && !(0 <= input@.fee_rate <= SCALE as int)) <==> (r matches Err(e)
                && e is InvalidFeeRate),
    {
        if input.digits > 9 {
            return Err(BacktestError::InvalidDigits);
        }
        if input.fee_rate < 0 || input.fee_rate > 1_000_000_000i64 {
            return Err(BacktestError::InvalidFeeRate);
        }
        if input.yearly_days == 0 || input.yearly_days > YEARLY_DAYS_MAX {
            return Err(BacktestError::InvalidYearlyDays);
        }
        if input.n_jobs == 0 {
            return Err(BacktestError::InvalidConcurrency);
        }
        Ok(WeightBacktest { input })
    }

    /// Run the whole backtest: validate the table, compute every symbol's
    /// daily records and trade pairs, aggregate the portfolio series, and
    /// compute the statistics. Success exactly when the table is well
    /// formed and the derived quantities stay inside the machine caps.
    #[verifier::rlimit(100)]
    pub fn run(&self) -> (r: Result<BacktestResult, BacktestError>)
        requires
            config_ok(self.input@),
        ensures
            r is Ok <==> (table_ok(self.input@) && derived_ok(self.input@)),
            (r matches Ok(res) ==> entries_view(res.symbol_results@) == entries_model(
                self.input@,
            )),
            (r matches Ok(res) ==> portfolio_ok(
                contrib_of(entries_model(self.input@)),
                port_view(res.daily_returns@),
                self.input@.weight_type,
            )),
            (r matches Ok(res) ==> res.stats@ == stats_model(
                port_rets(port_view(res.daily_returns@)),
                self.input@.yearly_days,
                all_pairs_of(entries_model(self.input@)),
            )),
    {
        let ghost inp = self.input@;
        let rows = &self.input.rows;
        let ghost rv = input_rows_view(self.input.rows@);
        proof {
            assert(inp.rows =~= rv);
        }
        if rows.len() == 0 {
            return Err(BacktestError::EmptyTable);
        }
        if rows.len() > ROWS_MAX {
            return Err(BacktestError::TooManyRows);
        }
        let q = quantum(self.input.digits);
        let syms = collect_symbols(rows);
        let ghost symsv = symbols_of(rv);
        let ns = syms.len();
        let mut entries: Vec<SymbolEntry> = Vec::new();
        let mut k: usize = 0;
        proof {
            assert(entries_view(entries@) =~= entries_model(inp).take(0));
        }
        while k < ns
            invariant
                0 <= k <= ns == syms@.len(),
                inp == self.input@,
                config_ok(inp),
                rv == input_rows_view(self.input.rows@),
                inp.rows == rv,
                1 <= self.input.rows@.len() <= ROWS_MAX,
                q == quantum_of(inp.digits),
                1 <= q <= SCALE,
                q == 1 || q % 2 == 0,
                symsv == symbols_of(rv),
                syms_view(syms@) == symsv,
                entries_view(entries@) == entries_model(inp).take(k as int),
                forall|kk: int|
                    0 <= kk < k ==> series_ok(
                        bars_of(rv, #[trigger] symsv[kk], quantum_of(inp.digits)),
                    ),
                forall|e: int, kk: int|
                    0 <= e < entries@.len() && 0 <= kk < (#[trigger] entries_view(
                        entries@,
                    )[e]).result.daily.len() ==> metrics_bounded(
                        (#[trigger] entries_view(entries@)[e].result.daily[kk]).m,
                        SUM_BOUND as int,
                    ),
                forall|e: int, kk: int|
                    0 <= e < entries@.len() && 0 <= kk < (#[trigger] entries_view(
                        entries@,
                    )[e]).result.pairs.len() ==> abs_i(
                        (#[trigger] entries_view(entries@)[e].result.pairs[kk]).days_held,
                    ) <= 200_000_000,
            decreases ns - k,
        {
            let sym = &syms[k];
            proof {
                assert(sym@ == symsv[k as int]);
            }
            let bars = build_bars(&self.input.rows, sym, q);
            let ck = check_series(sym, &bars);
            if ck.is_err() {
                proof {
                    assert(bars_view(bars@) == bars_of(rv, sym@, q as int));
                    assert(sym@ == symsv[k as int]);
                    assert(q as int == quantum_of(inp.digits));
                    assert(!series_ok(bars_of(rv, symsv[k as int], quantum_of(inp.digits))));
                    assert(!table_ok(inp)) by {
                        if table_ok(inp) {
                            assert(series_ok(
                                bars_of(
                                    inp.rows,
                                    symbols_of(inp.rows)[k as int],
                                    quantum_of(inp.digits),
                                ),
                            ));
                        }
                    }
                }
                return Err(ck.unwrap_err());
            }
            let daily = get_symbol_daily(sym, &bars, self.input.fee_rate);
            let prs = get_symbol_pairs(sym, &bars);
            let entry = SymbolEntry { symbol: sym.clone(), result: SymbolResult { daily, pairs: prs } };
            proof {
                assert(entry@.result.daily =~= daily_view(entry.result.daily@));
                assert(entry@.result.pairs =~= pairs_view(entry.result.pairs@));
                assert(entry@ == entry_model(inp, symsv[k as int]));
                assert(entries_model(inp)[k as int] == entry_model(inp, symsv[k as int]));
            }
            let ghost eprev = entries@;
            entries.push(entry);
            proof {
                assert(entries_view(entries@) =~= entries_view(eprev).push(entry@));
                assert(entries_model(inp).take(k as int + 1) =~= entries_model(inp).take(
                    k as int,
                ).push(entries_model(inp)[k as int]));
            }
            k = k + 1;
        }
        proof {
            assert(entries_model(inp).take(ns as int) =~= entries_model(inp));
            assert(table_ok(inp));
        }
        let ghost emodel = entries_model(inp);
        let ghost crows = contrib_of(emodel);
        let rows_d = daily_return_rows(&entries);
        proof {
            assert(rows_view(rows_d@) == crows);
        }
        if rows_d.len() > ROWS_MAX {
            return Err(BacktestError::TooManyRows);
        }
        let out = aggregate_daily_returns(&rows_d, self.input.weight_type);
        let nout = out.len();
        let mut j: usize = 0;
        while j < nout
            invariant
                0 <= j <= nout == out@.len(),
                inp == self.input@,
                crows == rows_view(rows_d@),
                crows == contrib_of(entries_model(inp)),
                forall|kk: int|
                    0 <= kk < nout ==> has_date(crows, (#[trigger] out@[kk]).date as int),
                forall|kk: int|
                    0 <= kk < nout ==> (#[trigger] out@[kk]).return_ as int == agg_value(
                        crows,
                        out@[kk].date as int,
                        inp.weight_type,
                    ),
                forall|jj: int|
                    0 <= jj < j ==> abs_i((#[trigger] out@[jj]).return_ as int)
                        <= STAT_RET_MAX as int,
            decreases nout - j,
        {
            if out[j].return_ > STAT_RET_MAX || out[j].return_ < -STAT_RET_MAX {
                proof {
                    let d = out@[j as int].date as int;
                    assert(has_date(crows, d));
                    assert(out@[j as int].return_ as int == agg_value(crows, d, inp.weight_type));
                    assert(!derived_ok(inp));
                }
                return Err(BacktestError::ReturnOutOfRange);
            }
            j = j + 1;
        }
        let mut rets: Vec<i128> = Vec::new();
        let mut j2: usize = 0;
        while j2 < nout
            invariant
                0 <= j2 <= nout == out@.len(),
                rets@.len() == j2,
                forall|jj: int| 0 <= jj < j2 ==> rets@[jj] == (#[trigger] out@[jj]).return_,
                forall|jj: int|
                    0 <= jj < nout ==> abs_i((#[trigger] out@[jj]).return_ as int)
                        <= STAT_RET_MAX as int,
            decreases nout - j2,
        {
            rets.push(out[j2].return_);
            j2 = j2 + 1;
        }
        proof {
            assert forall|i2: int| 0 <= i2 < rets@.len() implies abs_i(
                #[trigger] rets@[i2] as int,
            ) <= STAT_RET_MAX as int by {
                assert(rets@[i2] == out@[i2].return_);
                assert(abs_i(out@[i2].return_ as int) <= STAT_RET_MAX as int);
            }
        }
        let perf = calculate_daily_performance(&rets, self.input.yearly_days);
        let aps = collect_pairs(&entries);
        proof {
            assert(pairs_seq_view(aps@) == all_pairs_of(emodel));
        }
        if aps.len() > ROWS_MAX {
            return Err(BacktestError::TooManyRows);
        }
        let tstats = evaluate_pairs(&aps);
        let stats = Stats {
            annual_return: perf.annual_return,
            annual_volatility: perf.annual_volatility,
            sharpe: perf.sharpe,
            max_drawdown: perf.max_drawdown,
            total_return: perf.total_return,
            win_rate: tstats.win_rate,
            n_trades: tstats.n_trades,
            avg_days_held: tstats.avg_days_held,
        };
        let res = BacktestResult { symbol_results: entries, daily_returns: out, stats };
        proof {
            assert(entries_view(res.symbol_results@) == emodel);
            assert(rets_view(rets@) =~= port_rets(port_view(res.daily_returns@)));
            assert forall|d: int| has_date(crows, d) implies abs_i(
                agg_value(crows, d, inp.weight_type),
            ) <= STAT_RET_MAX as int by {
                let i = choose|i: int| 0 <= i < crows.len() && crows[i].date == d;
                assert(out_has(res.daily_returns@, crows[i].date));
                let kk = choose|kk: int|
                    0 <= kk < res.daily_returns@.len() && res.daily_returns@[kk].date == d;
                assert(res.daily_returns@[kk].return_ as int == agg_value(
                    crows,
                    d,
                    inp.weight_type,
                ));
                assert(abs_i(res.daily_returns@[kk].return_ as int) <= STAT_RET_MAX as int);
            }
            assert(derived_ok(inp));
            assert(portfolio_ok(crows, port_view(res.daily_returns@), inp.weight_type)) by {
                assert forall|k2: int| 0 <= k2 < port_view(res.daily_returns@).len() implies (
                #[trigger] port_view(res.daily_returns@)[k2]).date == res.daily_returns@[k2].date
                    as int && port_view(res.daily_returns@)[k2].ret == res.daily_returns@[k2].return_
                    as int by {}
                assert forall|i: int| 0 <= i < crows.len() implies exists|k2: int|
                    0 <= k2 < port_view(res.daily_returns@).len() && (#[trigger] port_view(
                    res.daily_returns@,
                )[k2]).date == (#[trigger] crows[i]).date by {
                    assert(out_has(res.daily_returns@, crows[i].date));
                    let kk = choose|kk: int|
                        0 <= kk < res.daily_returns@.len() && res.daily_returns@[kk].date
                            == crows[i].date;
                    assert(port_view(res.daily_returns@)[kk].date == crows[i].date);
                }
            }
        }
        Ok(res)
    }
}

} // verus!
