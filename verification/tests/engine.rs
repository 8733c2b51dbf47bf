//! End-to-end and component tests of the backtest engine.
//!
//! All fixed-point values are at scale 10^9: `1_000_000_000` is 1.0.

use weight_backtest::aggregate::aggregate_daily_returns;
use weight_backtest::backtest::WeightBacktest;
use weight_backtest::stats::calculate_daily_performance;
use weight_backtest::stats::evaluate_pairs;
use weight_backtest::types::BacktestError;
use weight_backtest::types::BacktestInput;
use weight_backtest::types::BacktestResult;
use weight_backtest::types::DailyReturn;
use weight_backtest::types::Direction;
use weight_backtest::types::InputRow;
use weight_backtest::types::WeightType;

const S: i64 = 1_000_000_000;
const SW: i128 = 1_000_000_000;

fn row(symbol: &str, ts: i64, day: i64, price_s: i64, weight_s: i64) -> InputRow {
    InputRow { symbol: symbol.to_string(), ts, day, price: price_s, weight: weight_s }
}

fn input(rows: Vec<InputRow>, weight_type: WeightType, fee_rate: i64) -> BacktestInput {
    BacktestInput { rows, digits: 9, weight_type, fee_rate, yearly_days: 252, n_jobs: 1 }
}

fn run(rows: Vec<InputRow>, weight_type: WeightType, fee_rate: i64) -> BacktestResult {
    let bt = WeightBacktest::new(input(rows, weight_type, fee_rate)).unwrap();
    bt.run().unwrap()
}

/// Single symbol, 3 bars, weights [0, 1, 0] at prices [100, 110, 105],
/// zero fee: bar-2 edge 0, bar-3 edge 1 x (105/110 - 1), one pair opened
/// at 110 and closed at 105.
#[test]
fn single_symbol_round_trip() {
    let rows = vec![
        row("A", 1, 1, 100 * S, 0),
        row("A", 2, 2, 110 * S, S),
        row("A", 3, 3, 105 * S, 0),
    ];
    let res = run(rows, WeightType::Ts, 0);
    assert_eq!(res.symbol_results.len(), 1);
    let sr = &res.symbol_results[0];
    assert_eq!(sr.symbol, "A");
    assert_eq!(sr.result.daily.len(), 3);
    // day 1: no transition lands there
    assert_eq!(sr.result.daily[0].date, 1);
    assert_eq!(sr.result.daily[0].edge, 0);
    assert_eq!(sr.result.daily[0].turnover, 0);
    // day 2: prior weight 0, so edge 0; turnover 1; n1b = 10%
    assert_eq!(sr.result.daily[1].edge, 0);
    assert_eq!(sr.result.daily[1].turnover, SW);
    assert_eq!(sr.result.daily[1].n1b, 100_000_000);
    // day 3: edge = 1 x (105/110 - 1) = -0.045454546 (truncated)
    assert_eq!(sr.result.daily[2].edge, -45_454_546);
    assert_eq!(sr.result.daily[2].return_, -45_454_546);
    assert_eq!(sr.result.daily[2].cost, 0);
    // exactly one completed pair
    assert_eq!(sr.result.pairs.len(), 1);
    let p = &sr.result.pairs[0];
    assert!(matches!(p.direction, Direction::Long));
    assert_eq!(p.open_time, 2);
    assert_eq!(p.close_time, 3);
    assert_eq!(p.open_price, 110 * S);
    assert_eq!(p.close_price, 105 * S);
    assert_eq!(p.bars_held, 2);
    assert_eq!(p.days_held, 1);
    assert_eq!(p.pct_return, -45_454_546);
    assert_eq!(p.event_sequence, vec![SW, 0]);
    // portfolio series and headline stats
    assert_eq!(res.daily_returns.len(), 3);
    assert_eq!(res.daily_returns[2].return_, -45_454_546);
    assert_eq!(res.stats.total_return, -45_454_546);
    assert_eq!(res.stats.max_drawdown, -45_454_546);
    assert_eq!(res.stats.n_trades, 1);
    assert_eq!(res.stats.win_rate, 0);
}

/// Aggregation: contributions 0.01 and 0.03 on one date give 0.02 under
/// the time-series mean and 0.04 under the cross-sectional sum.
#[test]
fn aggregation_mean_and_sum() {
    let rows = vec![
        DailyReturn { date: 5, symbol: "A".to_string(), return_: 10_000_000 },
        DailyReturn { date: 5, symbol: "B".to_string(), return_: 30_000_000 },
    ];
    let ts = aggregate_daily_returns(&rows, WeightType::Ts);
    assert_eq!(ts.len(), 1);
    assert_eq!(ts[0].date, 5);
    assert_eq!(ts[0].return_, 20_000_000);
    let cs = aggregate_daily_returns(&rows, WeightType::Cs);
    assert_eq!(cs[0].return_, 40_000_000);
}

/// Aggregation dates are the union of the rows' dates, strictly
/// ascending, and a symbol absent on a date is excluded from the mean.
#[test]
fn aggregation_union_of_dates() {
    let rows = vec![
        DailyReturn { date: 7, symbol: "B".to_string(), return_: 2_000_000 },
        DailyReturn { date: 3, symbol: "A".to_string(), return_: 4_000_000 },
        DailyReturn { date: 7, symbol: "A".to_string(), return_: 6_000_000 },
    ];
    let ts = aggregate_daily_returns(&rows, WeightType::Ts);
    assert_eq!(ts.len(), 2);
    assert_eq!(ts[0].date, 3);
    assert_eq!(ts[0].return_, 4_000_000);
    assert_eq!(ts[1].date, 7);
    assert_eq!(ts[1].return_, 4_000_000);
}

/// A symbol whose weight is constantly zero yields zero pairs and
/// all-zero daily rows, never an error.
#[test]
fn constant_zero_weight() {
    let rows = vec![
        row("A", 1, 1, 100 * S, 0),
        row("A", 2, 2, 101 * S, 0),
        row("A", 3, 3, 99 * S, 0),
    ];
    let res = run(rows, WeightType::Ts, 200_000);
    let sr = &res.symbol_results[0];
    assert_eq!(sr.result.pairs.len(), 0);
    assert_eq!(sr.result.daily.len(), 3);
    for d in &sr.result.daily {
        assert_eq!(d.edge, 0);
        assert_eq!(d.return_, 0);
        assert_eq!(d.cost, 0);
        assert_eq!(d.turnover, 0);
        assert_eq!(d.long_turnover, 0);
        assert_eq!(d.short_turnover, 0);
    }
    assert_eq!(res.stats.total_return, 0);
    assert_eq!(res.stats.n_trades, 0);
}

/// Statistics on a single-day series: volatility and sharpe are 0 (never
/// NaN or infinite in spirit: the fixed-point engine is total), and the
/// max drawdown is the day's return when negative, else 0.
#[test]
fn single_day_statistics() {
    let s = calculate_daily_performance(&vec![-5_000_000i128], 252);
    assert_eq!(s.annual_volatility, 0);
    assert_eq!(s.sharpe, 0);
    assert_eq!(s.max_drawdown, -5_000_000);
    assert_eq!(s.total_return, -5_000_000);
    assert_eq!(s.annual_return, -5_000_000 * 252);
    let p = calculate_daily_performance(&vec![5_000_000i128], 252);
    assert_eq!(p.max_drawdown, 0);
}

/// Statistics on an empty series: every metric is 0, no failure.
#[test]
fn empty_series_statistics() {
    let s = calculate_daily_performance(&Vec::new(), 252);
    assert_eq!(s.annual_return, 0);
    assert_eq!(s.annual_volatility, 0);
    assert_eq!(s.sharpe, 0);
    assert_eq!(s.max_drawdown, 0);
    assert_eq!(s.total_return, 0);
}

/// Pair count equals the number of zero-to-non-zero transitions, minus
/// the trailing open position.
#[test]
fn pair_count_with_trailing_open() {
    let rows = vec![
        row("A", 1, 1, 100 * S, 0),
        row("A", 2, 2, 100 * S, S),
        row("A", 3, 3, 100 * S, S),
        row("A", 4, 4, 100 * S, 0),
        row("A", 5, 5, 100 * S, 2 * S),
        row("A", 6, 6, 100 * S, 0),
        row("A", 7, 7, 100 * S, 3 * S),
    ];
    let res = run(rows, WeightType::Ts, 0);
    // three openings, the last still open at the end of the window
    assert_eq!(res.symbol_results[0].result.pairs.len(), 2);
    assert_eq!(res.stats.n_trades, 2);
}

/// A sign change closes the running pair at that bar and immediately
/// opens a new one in the other direction.
#[test]
fn sign_change_closes_and_reopens() {
    let rows = vec![
        row("A", 1, 1, 100 * S, 0),
        row("A", 2, 2, 100 * S, S),
        row("A", 3, 4, 110 * S, -S),
        row("A", 4, 7, 99 * S, 0),
    ];
    let res = run(rows, WeightType::Ts, 0);
    let prs = &res.symbol_results[0].result.pairs;
    assert_eq!(prs.len(), 2);
    assert!(matches!(prs[0].direction, Direction::Long));
    assert_eq!(prs[0].open_price, 100 * S);
    assert_eq!(prs[0].close_price, 110 * S);
    assert_eq!(prs[0].pct_return, 100_000_000);
    assert_eq!(prs[0].days_held, 2);
    assert!(matches!(prs[1].direction, Direction::Short));
    assert_eq!(prs[1].open_price, 110 * S);
    assert_eq!(prs[1].close_price, 99 * S);
    // short gains when the price falls: -(99/110 - 1) = +0.1
    assert_eq!(prs[1].pct_return, 100_000_000);
    assert_eq!(prs[1].days_held, 3);
}

/// return = edge - cost holds exactly on every daily row, and the long
/// and short legs decompose edge and turnover exactly, with a fee.
#[test]
fn daily_identities_with_fee() {
    let rows = vec![
        row("A", 1, 1, 100 * S, 0),
        row("A", 2, 1, 101 * S, S / 2),
        row("A", 3, 2, 103 * S, -S / 4),
        row("A", 4, 3, 102 * S, S / 4),
        row("A", 5, 3, 105 * S, 0),
    ];
    let res = run(rows, WeightType::Ts, 200_000);
    let daily = &res.symbol_results[0].result.daily;
    assert!(daily.len() >= 2);
    let mut sum_ret: i128 = 0;
    let mut sum_edge: i128 = 0;
    let mut sum_cost: i128 = 0;
    for d in daily {
        assert_eq!(d.return_, d.edge - d.cost);
        assert_eq!(d.long_return, d.long_edge - d.long_cost);
        assert_eq!(d.short_return, d.short_edge - d.short_cost);
        assert_eq!(d.edge, d.long_edge + d.short_edge);
        assert_eq!(d.turnover, d.long_turnover + d.short_turnover);
        assert!(d.long_cost + d.short_cost <= d.cost);
        assert!(d.cost <= d.long_cost + d.short_cost + 4);
        sum_ret += d.return_;
        sum_edge += d.edge;
        sum_cost += d.cost;
    }
    assert!(sum_cost > 0);
    assert_eq!(sum_ret, sum_edge - sum_cost);
}

/// Running the engine twice on the same input yields identical results.
#[test]
fn idempotent_runs() {
    let rows = vec![
        row("A", 1, 1, 100 * S, 0),
        row("A", 2, 2, 101 * S, S),
        row("B", 3, 1, 50 * S, -S),
        row("B", 4, 2, 51 * S, 0),
        row("A", 5, 3, 99 * S, 0),
    ];
    let r1 = run(rows.clone(), WeightType::Cs, 200_000);
    let r2 = run(rows, WeightType::Cs, 200_000);
    assert_eq!(r1.daily_returns, r2.daily_returns);
    assert_eq!(r1.stats, r2.stats);
    assert_eq!(r1.symbol_results.len(), r2.symbol_results.len());
    for (a, b) in r1.symbol_results.iter().zip(r2.symbol_results.iter()) {
        assert_eq!(a.symbol, b.symbol);
        assert_eq!(a.result.daily.len(), b.result.daily.len());
        assert_eq!(a.result.pairs.len(), b.result.pairs.len());
    }
}

/// Weights are rounded to `digits` decimal places, half away from zero,
/// before any differencing: with one decimal, 0.55 becomes 0.6 and the
/// turnover reflects the rounded weights.
#[test]
fn weight_rounding() {
    let rows = vec![
        row("A", 1, 1, 100 * S, 0),
        row("A", 2, 2, 100 * S, 550_000_000),
        row("A", 3, 3, 100 * S, 0),
    ];
    let mut inp = input(rows, WeightType::Ts, 0);
    inp.digits = 1;
    let res = WeightBacktest::new(inp).unwrap().run().unwrap();
    let daily = &res.symbol_results[0].result.daily;
    assert_eq!(daily[1].turnover, 600_000_000);
    assert_eq!(daily[2].turnover, 600_000_000);
}

/// Trade-level statistics: win rate and average holding period.
#[test]
fn pair_statistics() {
    let rows = vec![
        row("A", 1, 1, 100 * S, 0),
        row("A", 2, 2, 100 * S, S),
        row("A", 3, 4, 110 * S, 0),
        row("A", 4, 5, 110 * S, S),
        row("A", 5, 6, 99 * S, 0),
    ];
    let res = run(rows, WeightType::Ts, 0);
    let prs = &res.symbol_results[0].result.pairs;
    assert_eq!(prs.len(), 2);
    let ps = evaluate_pairs(prs);
    assert_eq!(ps.n_trades, 2);
    // one winner of two: 0.5
    assert_eq!(ps.win_rate, 500_000_000);
    // held 2 and 1 calendar days: average 1.5
    assert_eq!(ps.avg_days_held, 1_500_000_000);
}

/// Configuration errors are rejected at construction, before any data is
/// touched.
#[test]
fn configuration_rejected_at_construction() {
    let rows = vec![row("A", 1, 1, 100 * S, 0)];
    let mut inp = input(rows.clone(), WeightType::Ts, 0);
    inp.digits = 10;
    assert!(matches!(WeightBacktest::new(inp), Err(BacktestError::InvalidDigits)));
    let mut inp = input(rows.clone(), WeightType::Ts, 0);
    inp.fee_rate = -1;
    assert!(matches!(WeightBacktest::new(inp), Err(BacktestError::InvalidFeeRate)));
    let mut inp = input(rows.clone(), WeightType::Ts, 0);
    inp.yearly_days = 0;
    assert!(matches!(WeightBacktest::new(inp), Err(BacktestError::InvalidYearlyDays)));
    let mut inp = input(rows, WeightType::Ts, 0);
    inp.n_jobs = 0;
    assert!(matches!(WeightBacktest::new(inp), Err(BacktestError::InvalidConcurrency)));
}

/// Table errors: an empty table, a non-positive price, and timestamps
/// out of order each abort the whole run with the offending symbol named.
#[test]
fn table_rejected_eagerly() {
    let bt = WeightBacktest::new(input(Vec::new(), WeightType::Ts, 0)).unwrap();
    assert!(matches!(bt.run(), Err(BacktestError::EmptyTable)));

    let rows = vec![row("A", 1, 1, 0, 0), row("A", 2, 2, 100 * S, 0)];
    let bt = WeightBacktest::new(input(rows, WeightType::Ts, 0)).unwrap();
    match bt.run() {
        Err(BacktestError::PriceOutOfRange { symbol }) => assert_eq!(symbol, "A"),
        other => panic!("expected a price error, got {:?}", other.is_ok()),
    }

    let rows = vec![
        row("B", 5, 1, 100 * S, 0),
        row("B", 4, 2, 100 * S, 0),
    ];
    let bt = WeightBacktest::new(input(rows, WeightType::Ts, 0)).unwrap();
    match bt.run() {
        Err(BacktestError::NonMonotonicTimestamp { symbol }) => assert_eq!(symbol, "B"),
        other => panic!("expected a timestamp error, got {:?}", other.is_ok()),
    }
}

/// A symbol with fewer than two bars yields empty results, not an error,
/// while other symbols still produce theirs.
#[test]
fn short_series_is_empty_not_error() {
    let rows = vec![
        row("A", 1, 1, 100 * S, S),
        row("B", 1, 1, 100 * S, 0),
        row("B", 2, 2, 110 * S, S),
        row("B", 3, 3, 105 * S, 0),
    ];
    let res = run(rows, WeightType::Ts, 0);
    assert_eq!(res.symbol_results.len(), 2);
    assert_eq!(res.symbol_results[0].symbol, "A");
    assert_eq!(res.symbol_results[0].result.daily.len(), 0);
    assert_eq!(res.symbol_results[0].result.pairs.len(), 0);
    assert_eq!(res.symbol_results[1].result.pairs.len(), 1);
}
