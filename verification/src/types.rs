//! Data model of the engine: input rows, configuration, per-day records,
//! trade pairs and results, with their mathematical views.
//!
//! All fixed-point fields are scaled by `fixed::SCALE`. Input magnitudes are
//! capped by the constants below so that every intermediate product of the
//! engine provably fits in `i128`; `run` rejects rows beyond the caps.

use vstd::prelude::*;

verus! {

/// Smallest accepted price (10^-4 in real terms at scale 10^9).
pub const PRICE_MIN: i64 = 100_000;

/// Largest accepted price (10^4 in real terms at scale 10^9).
pub const PRICE_MAX: i64 = 10_000_000_000_000;

/// Largest accepted weight magnitude after rounding (10 in real terms).
pub const WEIGHT_MAX: i128 = 10_000_000_000;

/// Largest accepted number of input rows.
pub const ROWS_MAX: usize = 1_000_000;

/// Largest accepted calendar-day magnitude.
pub const DAY_MAX: i64 = 100_000_000;

/// Largest accepted number of trading days per year.
pub const YEARLY_DAYS_MAX: u32 = 100_000;

/// Largest portfolio daily return magnitude the statistics engine accepts;
/// beyond it the variance sum could exceed the 128-bit range.
pub const STAT_RET_MAX: i128 = 1_000_000_000_000_000;

/// How per-symbol daily returns combine into the portfolio series.
#[derive(Clone, Copy, Debug, PartialEq, Eq, Structural)]
pub enum WeightType {
    /// Time-series: arithmetic mean across the symbols present that date.
    Ts,
    /// Cross-sectional: sum across the symbols present that date.
    Cs,
}

/// Side of a round-trip trade.
#[derive(Clone, Copy, Debug, PartialEq, Eq, Structural)]
pub enum Direction {
    Long,
    Short,
}

/// One observation of the input table: a symbol's bar at one timestamp.
#[derive(Clone, Debug)]
pub struct InputRow {
    pub symbol: String,
    pub ts: i64,
    pub day: i64,
    pub price: i64,
    pub weight: i64,
}

pub struct RowV {
    pub symbol: Seq<char>,
    pub ts: int,
    pub day: int,
    pub price: int,
    pub weight: int,
}

impl View for InputRow {
    type V = RowV;

    open spec fn view(&self) -> RowV {
        RowV {
            symbol: self.symbol@,
            ts: self.ts as int,
            day: self.day as int,
            price: self.price as int,
            weight: self.weight as int,
        }
    }
}

/// One bar of a single symbol's series, weight already rounded to the
/// configured precision.
#[derive(Clone, Copy, Debug)]
pub struct Bar {
    pub ts: i64,
    pub day: i64,
    pub price: i64,
    pub weight: i128,
}

pub struct BarV {
    pub ts: int,
    pub day: int,
    pub price: int,
    pub weight: int,
}

impl View for Bar {
    type V = BarV;

    open spec fn view(&self) -> BarV {
        BarV {
            ts: self.ts as int,
            day: self.day as int,
            price: self.price as int,
            weight: self.weight as int,
        }
    }
}

/// The whole engine input: the table rows and the configuration.
#[derive(Clone, Debug)]
pub struct BacktestInput {
    pub rows: Vec<InputRow>,
    /// Decimal places the weights are rounded to, at most 9.
    pub digits: u32,
    pub weight_type: WeightType,
    /// Proportional cost per unit of turnover, in `[0, SCALE]`.
    pub fee_rate: i64,
    /// Trading days per year used for annualization, in `[1, YEARLY_DAYS_MAX]`.
    pub yearly_days: u32,
    /// Requested number of parallel workers, at least 1. The verified engine
    /// itself computes sequentially; a caller may fan symbols out itself.
    pub n_jobs: u32,
}

pub struct BacktestInputV {
    pub rows: Seq<RowV>,
    pub digits: int,
    pub weight_type: WeightType,
    pub fee_rate: int,
    pub yearly_days: int,
    pub n_jobs: int,
}

impl View for BacktestInput {
    type V = BacktestInputV;

    open spec fn view(&self) -> BacktestInputV {
        BacktestInputV {
            rows: self.rows@.map_values(|r: InputRow| r@),
            digits: self.digits as int,
            weight_type: self.weight_type,
            fee_rate: self.fee_rate as int,
            yearly_days: self.yearly_days as int,
            n_jobs: self.n_jobs as int,
        }
    }
}

/// The flow metrics of one bar transition, or a sum of such over a day.
#[derive(Clone, Copy, Debug)]
pub struct Metrics {
    pub edge: i128,
    pub ret: i128,
    pub cost: i128,
    pub n1b: i128,
    pub turnover: i128,
    pub long_edge: i128,
    pub long_cost: i128,
    pub long_ret: i128,
    pub long_turnover: i128,
    pub short_edge: i128,
    pub short_cost: i128,
    pub short_ret: i128,
    pub short_turnover: i128,
}

pub struct MetricsV {
    pub edge: int,
    pub ret: int,
    pub cost: int,
    pub n1b: int,
    pub turnover: int,
    pub long_edge: int,
    pub long_cost: int,
    pub long_ret: int,
    pub long_turnover: int,
    pub short_edge: int,
    pub short_cost: int,
    pub short_ret: int,
    pub short_turnover: int,
}

impl View for Metrics {
    type V = MetricsV;

    open spec fn view(&self) -> MetricsV {
        MetricsV {
            edge: self.edge as int,
            ret: self.ret as int,
            cost: self.cost as int,
            n1b: self.n1b as int,
            turnover: self.turnover as int,
            long_edge: self.long_edge as int,
            long_cost: self.long_cost as int,
            long_ret: self.long_ret as int,
            long_turnover: self.long_turnover as int,
            short_edge: self.short_edge as int,
            short_cost: self.short_cost as int,
            short_ret: self.short_ret as int,
            short_turnover: self.short_turnover as int,
        }
    }
}

/// One symbol's aggregated flows for one calendar date.
#[derive(Clone, Debug)]
pub struct DailyResult {
    pub date: i64,
    pub symbol: String,
    pub edge: i128,
    pub return_: i128,
    pub cost: i128,
    pub n1b: i128,
    pub turnover: i128,
    pub long_edge: i128,
    pub long_cost: i128,
    pub long_return: i128,
    pub long_turnover: i128,
    pub short_edge: i128,
    pub short_cost: i128,
    pub short_return: i128,
    pub short_turnover: i128,
}

pub struct DailyResultV {
    pub date: int,
    pub symbol: Seq<char>,
    pub m: MetricsV,
}

impl View for DailyResult {
    type V = DailyResultV;

    open spec fn view(&self) -> DailyResultV {
        DailyResultV {
            date: self.date as int,
            symbol: self.symbol@,
            m: MetricsV {
                edge: self.edge as int,
                ret: self.return_ as int,
                cost: self.cost as int,
                n1b: self.n1b as int,
                turnover: self.turnover as int,
                long_edge: self.long_edge as int,
                long_cost: self.long_cost as int,
                long_ret: self.long_return as int,
                long_turnover: self.long_turnover as int,
                short_edge: self.short_edge as int,
                short_cost: self.short_cost as int,
                short_ret: self.short_return as int,
                short_turnover: self.short_turnover as int,
            },
        }
    }
}

/// One completed round trip implied by a symbol's weight series.
#[derive(Clone, Debug)]
pub struct TradePair {
    pub symbol: String,
    pub direction: Direction,
    pub open_time: i64,
    pub close_time: i64,
    pub open_price: i64,
    pub close_price: i64,
    pub bars_held: i64,
    /// The rounded weights observed across the segment, in bar order.
    pub event_sequence: Vec<i128>,
    pub days_held: i64,
    pub pct_return: i128,
}

pub struct TradePairV {
    pub symbol: Seq<char>,
    pub direction: Direction,
    pub open_time: int,
    pub close_time: int,
    pub open_price: int,
    pub close_price: int,
    pub bars_held: int,
    pub events: Seq<int>,
    pub days_held: int,
    pub pct_return: int,
}

impl View for TradePair {
    type V = TradePairV;

    open spec fn view(&self) -> TradePairV {
        TradePairV {
            symbol: self.symbol@,
            direction: self.direction,
            open_time: self.open_time as int,
            close_time: self.close_time as int,
            open_price: self.open_price as int,
            close_price: self.close_price as int,
            bars_held: self.bars_held as int,
            events: self.event_sequence@.map_values(|w: i128| w as int),
            days_held: self.days_held as int,
            pct_return: self.pct_return as int,
        }
    }
}

/// Everything the engine produces for one symbol.
#[derive(Clone, Debug)]
pub struct SymbolResult {
    pub daily: Vec<DailyResult>,
    pub pairs: Vec<TradePair>,
}

pub struct SymbolResultV {
    pub daily: Seq<DailyResultV>,
    pub pairs: Seq<TradePairV>,
}

impl View for SymbolResult {
    type V = SymbolResultV;

    open spec fn view(&self) -> SymbolResultV {
        SymbolResultV {
            daily: self.daily@.map_values(|d: DailyResult| d@),
            pairs: self.pairs@.map_values(|p: TradePair| p@),
        }
    }
}

/// One symbol's return contribution on one date: the aggregation input row.
#[derive(Clone, Debug)]
pub struct DailyReturn {
    pub date: i64,
    pub symbol: String,
    pub return_: i128,
}

pub struct DailyReturnV {
    pub date: int,
    pub symbol: Seq<char>,
    pub ret: int,
}

impl View for DailyReturn {
    type V = DailyReturnV;

    open spec fn view(&self) -> DailyReturnV {
        DailyReturnV { date: self.date as int, symbol: self.symbol@, ret: self.return_ as int }
    }
}

/// One portfolio-level daily return, after aggregation across symbols.
#[derive(Clone, Copy, Debug, PartialEq, Eq, Structural)]
pub struct PortfolioDay {
    pub date: i64,
    pub return_: i128,
}

pub struct PortfolioDayV {
    pub date: int,
    pub ret: int,
}

impl View for PortfolioDay {
    type V = PortfolioDayV;

    open spec fn view(&self) -> PortfolioDayV {
        PortfolioDayV { date: self.date as int, ret: self.return_ as int }
    }
}

/// The summary statistics of a run. Fixed-point at scale 10^9, except
/// `n_trades`, which is a plain count.
#[derive(Clone, Copy, Debug, PartialEq, Eq, Structural)]
pub struct Stats {
    pub annual_return: i128,
    pub annual_volatility: i128,
    pub sharpe: i128,
    pub max_drawdown: i128,
    pub total_return: i128,
    pub win_rate: i128,
    pub n_trades: i128,
    pub avg_days_held: i128,
}

pub struct StatsV {
    pub annual_return: int,
    pub annual_volatility: int,
    pub sharpe: int,
    pub max_drawdown: int,
    pub total_return: int,
    pub win_rate: int,
    pub n_trades: int,
    pub avg_days_held: int,
}

impl View for Stats {
    type V = StatsV;

    open spec fn view(&self) -> StatsV {
        StatsV {
            annual_return: self.annual_return as int,
            annual_volatility: self.annual_volatility as int,
            sharpe: self.sharpe as int,
            max_drawdown: self.max_drawdown as int,
            total_return: self.total_return as int,
            win_rate: self.win_rate as int,
            n_trades: self.n_trades as int,
            avg_days_held: self.avg_days_held as int,
        }
    }
}

/// A symbol together with its result; `BacktestResult.symbol_results` holds
/// one entry per distinct input symbol, in first-appearance order.
#[derive(Clone, Debug)]
pub struct SymbolEntry {
    pub symbol: String,
    pub result: SymbolResult,
}

pub struct SymbolEntryV {
    pub symbol: Seq<char>,
    pub result: SymbolResultV,
}

impl View for SymbolEntry {
    type V = SymbolEntryV;

    open spec fn view(&self) -> SymbolEntryV {
        SymbolEntryV { symbol: self.symbol@, result: self.result@ }
    }
}

/// The complete output of one run.
#[derive(Clone, Debug)]
pub struct BacktestResult {
    pub symbol_results: Vec<SymbolEntry>,
    pub daily_returns: Vec<PortfolioDay>,
    pub stats: Stats,
}

pub struct BacktestResultV {
    pub symbol_results: Seq<SymbolEntryV>,
    pub daily_returns: Seq<PortfolioDayV>,
    pub stats: StatsV,
}

impl View for BacktestResult {
    type V = BacktestResultV;

    open spec fn view(&self) -> BacktestResultV {
        BacktestResultV {
            symbol_results: self.symbol_results@.map_values(|e: SymbolEntry| e@),
            daily_returns: self.daily_returns@.map_values(|d: PortfolioDay| d@),
            stats: self.stats@,
        }
    }
}

/// A strategy-versus-benchmark comparison row.
#[derive(Clone, Copy, Debug, PartialEq, Eq, Structural)]
pub struct AlphaResult {
    pub date: i64,
    pub strategy: i128,
    pub benchmark: i128,
    pub alpha: i128,
}

/// Everything that can go wrong, with the offending symbol where one exists.
#[derive(Clone, Debug)]
pub enum BacktestError {
    /// The input table has no rows.
    EmptyTable,
    /// The input table has more than `ROWS_MAX` rows.
    TooManyRows,
    /// A symbol's timestamps are not strictly increasing.
    NonMonotonicTimestamp { symbol: String },
    /// A symbol's calendar days decrease over time.
    NonMonotonicDate { symbol: String },
    /// A price lies outside `[PRICE_MIN, PRICE_MAX]`.
    PriceOutOfRange { symbol: String },
    /// A rounded weight magnitude exceeds `WEIGHT_MAX`.
    WeightOutOfRange { symbol: String },
    /// A calendar day magnitude exceeds `DAY_MAX`.
    DayOutOfRange { symbol: String },
    /// A portfolio daily return magnitude exceeds `STAT_RET_MAX`.
    ReturnOutOfRange,
    /// `digits` exceeds 9.
    InvalidDigits,
    /// `fee_rate` lies outside `[0, SCALE]`.
    InvalidFeeRate,
    /// `yearly_days` is zero or exceeds `YEARLY_DAYS_MAX`.
    InvalidYearlyDays,
    /// `n_jobs` is zero.
    InvalidConcurrency,
    /// An aggregation-mode name is neither "ts" nor "cs".
    InvalidWeightType,
}

pub enum ErrV {
    EmptyTable,
    TooManyRows,
    NonMonotonicTimestamp { symbol: Seq<char> },
    NonMonotonicDate { symbol: Seq<char> },
    PriceOutOfRange { symbol: Seq<char> },
    WeightOutOfRange { symbol: Seq<char> },
    DayOutOfRange { symbol: Seq<char> },
    ReturnOutOfRange,
    InvalidDigits,
    InvalidFeeRate,
    InvalidYearlyDays,
    InvalidConcurrency,
    InvalidWeightType,
}

impl View for BacktestError {
    type V = ErrV;

    open spec fn view(&self) -> ErrV {
        match self {
            BacktestError::EmptyTable => ErrV::EmptyTable,
            BacktestError::TooManyRows => ErrV::TooManyRows,
            BacktestError::NonMonotonicTimestamp { symbol } => ErrV::NonMonotonicTimestamp {
                symbol: symbol@,
            },
            BacktestError::NonMonotonicDate { symbol } => ErrV::NonMonotonicDate {
                symbol: symbol@,
            },
            BacktestError::PriceOutOfRange { symbol } => ErrV::PriceOutOfRange {
                symbol: symbol@,
            },
            BacktestError::WeightOutOfRange { symbol } => ErrV::WeightOutOfRange {
                symbol: symbol@,
            },
            BacktestError::DayOutOfRange { symbol } => ErrV::DayOutOfRange { symbol: symbol@ },
            BacktestError::ReturnOutOfRange => ErrV::ReturnOutOfRange,
            BacktestError::InvalidDigits => ErrV::InvalidDigits,
            BacktestError::InvalidFeeRate => ErrV::InvalidFeeRate,
            BacktestError::InvalidYearlyDays => ErrV::InvalidYearlyDays,
            BacktestError::InvalidConcurrency => ErrV::InvalidConcurrency,
            BacktestError::InvalidWeightType => ErrV::InvalidWeightType,
        }
    }
}

} // verus!
