//! Summary statistics of the portfolio daily return series and of the
//! trade pairs.
//!
//! Conventions, fixed and documented here:
//! - `annual_return` = mean(daily return) x `yearly_days`;
//! - `annual_volatility` = sample standard deviation (divide by n-1; 0 when
//!   n <= 1) x sqrt(`yearly_days`), with integer square roots (floor);
//! - `sharpe` = `annual_return` / `annual_volatility`, and 0 when the
//!   volatility is 0;
//! - `max_drawdown` is the most negative gap between the running sum of
//!   daily rets and its running peak (the additive cumulative-return
//!   convention), never positive, 0 for a flat or rising curve;
//! - `win_rate` = fraction of pairs with a positive percentage return, 0
//!   when there are no pairs;
//! - `avg_days_held` = mean calendar days held per pair, 0 when there are
//!   no pairs.
//! On an empty series every metric is 0; nothing fails at run time.

use vstd::prelude::*;

use crate::fixed::SCALE;
use crate::fixed::abs_i;
use crate::fixed::div_t;
use crate::fixed::div_trunc;
use crate::fixed::isqrt;
use crate::fixed::mul_div;
use crate::types::ROWS_MAX;
use crate::types::STAT_RET_MAX;
use crate::types::Stats;
use crate::types::StatsV;
use crate::types::TradePair;
use crate::types::TradePairV;
use crate::types::YEARLY_DAYS_MAX;

verus! {

pub open spec fn rets_view(v: Seq<i128>) -> Seq<int> {
    v.map_values(|x: i128| x as int)
}

pub open spec fn seq_sum(s: Seq<int>) -> int
    decreases s.len(),
{
    if s.len() == 0 {
        0
    } else {
        seq_sum(s.drop_last()) + s.last()
    }
}

/// Truncated mean; 0 on an empty sequence.
pub open spec fn mean_of(s: Seq<int>) -> int {
    if s.len() == 0 {
        0
    } else {
        div_t(seq_sum(s), s.len() as int)
    }
}

/// Sum of squared deviations from `mu`.
pub open spec fn devsq_sum(s: Seq<int>, mu: int) -> int
    decreases s.len(),
{
    if s.len() == 0 {
        0
    } else {
        devsq_sum(s.drop_last(), mu) + (s.last() - mu) * (s.last() - mu)
    }
}

/// Sample variance at scale 10^18; 0 when n <= 1.
pub open spec fn var_of(s: Seq<int>) -> int {
    if s.len() <= 1 {
        0
    } else {
        div_t(devsq_sum(s, mean_of(s)), s.len() - 1)
    }
}

/// The integer square root: the unique `r >= 0` with `r^2 <= x < (r+1)^2`.
pub open spec fn isqrt_s(x: int) -> int
    recommends
        x >= 0,
{
    choose|r: int| r >= 0 && #[trigger] (r * r) <= x && x < (r + 1) * (r + 1)
}

/// Running state of the drawdown scan: cumulative sum, running peak
/// (never below the starting 0), and the most negative gap so far.
pub open spec fn dd_state(s: Seq<int>) -> (int, int, int)
    decreases s.len(),
{
    if s.len() == 0 {
        (0, 0, 0)
    } else {
        let st = dd_state(s.drop_last());
        let c = st.0 + s.last();
        let p = if c > st.1 {
            c
        } else {
            st.1
        };
        let m = if c - p < st.2 {
            c - p
        } else {
            st.2
        };
        (c, p, m)
    }
}

/// The performance metrics of a daily return series (trade metrics 0).
pub open spec fn perf_model(s: Seq<int>, yd: int) -> StatsV {
    let total = seq_sum(s);
    let mu = mean_of(s);
    let ar = mu * yd;
    let sd = if s.len() <= 1 {
        0
    } else {
        isqrt_s(var_of(s))
    };
    let av = div_t(sd * isqrt_s(yd * (SCALE as int) * (SCALE as int)), SCALE as int);
    let sh = if av == 0 {
        0
    } else {
        div_t(ar * (SCALE as int), av)
    };
    StatsV {
        annual_return: ar,
        annual_volatility: av,
        sharpe: sh,
        max_drawdown: dd_state(s).2,
        total_return: total,
        win_rate: 0,
        n_trades: 0,
        avg_days_held: 0,
    }
}

/// Number of pairs with a strictly positive percentage return.
pub open spec fn count_wins(ps: Seq<TradePairV>) -> int
    decreases ps.len(),
{
    if ps.len() == 0 {
        0
    } else {
        count_wins(ps.drop_last()) + if ps.last().pct_return > 0 {
            1int
        } else {
            0int
        }
    }
}

/// Total calendar days held over all pairs.
pub open spec fn days_sum(ps: Seq<TradePairV>) -> int
    decreases ps.len(),
{
    if ps.len() == 0 {
        0
    } else {
        days_sum(ps.drop_last()) + ps.last().days_held
    }
}

pub open spec fn win_rate_model(ps: Seq<TradePairV>) -> int {
    if ps.len() == 0 {
        0
    } else {
        div_t(count_wins(ps) * (SCALE as int), ps.len() as int)
    }
}

pub open spec fn avg_days_model(ps: Seq<TradePairV>) -> int {
    if ps.len() == 0 {
        0
    } else {
        div_t(days_sum(ps) * (SCALE as int), ps.len() as int)
    }
}

pub open spec fn pairs_seq_view(v: Seq<TradePair>) -> Seq<TradePairV> {
    v.map_values(|p: TradePair| p@)
}

/// Trade-level statistics: win rate and average holding period at scale
/// 10^9, and the plain number of completed pairs.
#[derive(Clone, Copy, Debug, PartialEq, Eq, Structural)]
pub struct PairStats {
    pub win_rate: i128,
    pub n_trades: i128,
    pub avg_days_held: i128,
}

pub struct PairStatsV {
    pub win_rate: int,
    pub n_trades: int,
    pub avg_days_held: int,
}

impl View for PairStats {
    type V = PairStatsV;

    open spec fn view(&self) -> PairStatsV {
        PairStatsV {
            win_rate: self.win_rate as int,
            n_trades: self.n_trades as int,
            avg_days_held: self.avg_days_held as int,
        }
    }
}

/// Two integers both squaring below and above `x` are the same root.
pub proof fn lemma_isqrt_unique(x: int, r: int)
    requires
        r >= 0,
        r * r <= x,
        x < (r + 1) * (r + 1),
    ensures
        isqrt_s(x) == r,
{
    assert(r >= 0 && r * r <= x && x < (r + 1) * (r + 1));
    let c = isqrt_s(x);
    assert(c >= 0 && c * c <= x && x < (c + 1) * (c + 1));
    if c < r {
        assert((c + 1) * (c + 1) <= r * r) by (nonlinear_arith)
            requires
                0 <= c,
                c < r,
        ;
    } else if r < c {
        assert((r + 1) * (r + 1) <= c * c) by (nonlinear_arith)
            requires
                0 <= r,
                r < c,
        ;
    }
}

/// Compute the annualized performance metrics of the portfolio series.
#[verifier::rlimit(100)]
pub fn calculate_daily_performance(rets: &Vec<i128>, yearly_days: u32) -> (s: Stats)
    requires
        rets@.len() <= ROWS_MAX,
        forall|i: int|
            0 <= i < rets@.len() ==> abs_i(#[trigger] rets@[i] as int) <= STAT_RET_MAX as int,
        1 <= yearly_days <= YEARLY_DAYS_MAX,
    ensures
        s@ == perf_model(rets_view(rets@), yearly_days as int),
{
    let ghost rv = rets_view(rets@);
    let ghost yd = yearly_days as int;
    let n = rets.len();
    let mut total: i128 = 0;
    let mut i: usize = 0;
    while i < n
        invariant
            0 <= i <= n == rets@.len() <= ROWS_MAX,
            rv == rets_view(rets@),
            forall|j: int|
                0 <= j < rets@.len() ==> abs_i(#[trigger] rets@[j] as int)
                    <= STAT_RET_MAX as int,
            total == seq_sum(rv.take(i as int)),
            abs_i(total as int) <= i as int * STAT_RET_MAX as int,
        decreases n - i,
    {
        proof {
            assert(rv.take(i as int + 1).drop_last() =~= rv.take(i as int));
            assert(rv.take(i as int + 1).last() == rv[i as int]);
        }
        total = total + rets[i];
        i = i + 1;
    }
    proof {
        assert(rv.take(n as int) =~= rv);
    }
    let mean: i128 = if n == 0 {
        0
    } else {
        let m = div_trunc(total, n as i128);
        proof {
            vstd::arithmetic::div_mod::lemma_div_is_ordered(
                abs_i(total as int),
                n as int * STAT_RET_MAX as int,
                n as int,
            );
            vstd::arithmetic::div_mod::lemma_div_multiples_vanish(STAT_RET_MAX as int, n as int);
        }
        m
    };
    proof {
        assert(mean as int == mean_of(rv));
        assert(abs_i(mean as int) <= STAT_RET_MAX as int);
        assert(mean as int * yd <= STAT_RET_MAX as int * YEARLY_DAYS_MAX as int && mean as int
            * yd >= -(STAT_RET_MAX as int * YEARLY_DAYS_MAX as int)) by (nonlinear_arith)
            requires
                -(STAT_RET_MAX as int) <= mean as int <= STAT_RET_MAX as int,
                1 <= yd <= YEARLY_DAYS_MAX as int,
        ;
    }
    let ar: i128 = mean * (yearly_days as i128);
    let mut vsum: i128 = 0;
    let mut i2: usize = 0;
    while i2 < n
        invariant
            0 <= i2 <= n == rets@.len() <= ROWS_MAX,
            rv == rets_view(rets@),
            forall|j: int|
                0 <= j < rets@.len() ==> abs_i(#[trigger] rets@[j] as int)
                    <= STAT_RET_MAX as int,
            abs_i(mean as int) <= STAT_RET_MAX as int,
            vsum == devsq_sum(rv.take(i2 as int), mean as int),
            0 <= vsum <= i2 as int * 4_000_000_000_000_000_000_000_000_000_000i128 as int,
        decreases n - i2,
    {
        proof {
            assert(rv.take(i2 as int + 1).drop_last() =~= rv.take(i2 as int));
            assert(rv.take(i2 as int + 1).last() == rv[i2 as int]);
        }
        let dev: i128 = rets[i2] - mean;
        proof {
            assert(0 <= dev as int * dev as int <= 4_000_000_000_000_000_000_000_000_000_000int)
                by (nonlinear_arith)
                requires
                    -2_000_000_000_000_000int <= dev as int <= 2_000_000_000_000_000int,
            ;
        }
        vsum = vsum + dev * dev;
        i2 = i2 + 1;
    }
    proof {
        assert(rv.take(n as int) =~= rv);
    }
    let sd: i128 = if n <= 1 {
        0
    } else {
        let var: i128 = div_trunc(vsum, (n - 1) as i128);
        proof {
            crate::fixed::lemma_div_t_abs(vsum as int, n as int - 1);
        }
        let r = isqrt(var as u128);
        proof {
            assert(r as int <= 3_000_000_000_000_000_000int) by (nonlinear_arith)
                requires
                    r as int * r as int <= var as int,
                    0 <= var as int <= 4_000_000_000_000_000_000_000_000_000_000_000_000int,
            ;
            lemma_isqrt_unique(var as int, r as int);
            assert(var as int == var_of(rv));
        }
        r as i128
    };
    let sq_in: u128 = (yearly_days as u128) * 1_000_000_000_000_000_000u128;
    let rq = isqrt(sq_in);
    proof {
        assert(rq as int <= 400_000_000_000int) by (nonlinear_arith)
            requires
                rq as int * rq as int <= sq_in as int,
                0 <= sq_in as int <= 100_000_000_000_000_000_000_000int,
        ;
        lemma_isqrt_unique(sq_in as int, rq as int);
        assert(sq_in as int == yd * (SCALE as int) * (SCALE as int)) by (nonlinear_arith)
            requires
                sq_in as int == yd * 1_000_000_000_000_000_000int,
                SCALE == 1_000_000_000,
        ;
    }
    let sqyd: i128 = rq as i128;
    proof {
        assert(0 <= sd as int * sqyd as int <= 1_200_000_000_000_000_000_000_000_000_000int)
            by (nonlinear_arith)
            requires
                0 <= sd as int <= 3_000_000_000_000_000_000int,
                0 <= sqyd as int <= 400_000_000_000int,
        ;
    }
    let av: i128 = mul_div(sd, sqyd, SCALE);
    proof {
        crate::fixed::lemma_div_t_abs(sd as int * sqyd as int, SCALE as int);
        assert(av >= 0);
    }
    let sh: i128 = if av == 0 {
        0
    } else {
        proof {
            assert(abs_i(ar as int * SCALE as int) <= 120_000_000_000_000_000_000_000_000_000int)
                by (nonlinear_arith)
                requires
                    abs_i(ar as int) <= 100_000_000_000_000_000_000int,
                    SCALE == 1_000_000_000,
        ;
        }
        mul_div(ar, SCALE, av)
    };
    let mut cum: i128 = 0;
    let mut peak: i128 = 0;
    let mut mdd: i128 = 0;
    let mut i3: usize = 0;
    while i3 < n
        invariant
            0 <= i3 <= n == rets@.len() <= ROWS_MAX,
            rv == rets_view(rets@),
            forall|j: int|
                0 <= j < rets@.len() ==> abs_i(#[trigger] rets@[j] as int)
                    <= STAT_RET_MAX as int,
            cum == dd_state(rv.take(i3 as int)).0,
            peak == dd_state(rv.take(i3 as int)).1,
            mdd == dd_state(rv.take(i3 as int)).2,
            abs_i(cum as int) <= i3 as int * STAT_RET_MAX as int,
            0 <= peak <= i3 as int * STAT_RET_MAX as int,
            -(2 * i3 as int * STAT_RET_MAX as int) <= mdd <= 0,
        decreases n - i3,
    {
        proof {
            assert(rv.take(i3 as int + 1).drop_last() =~= rv.take(i3 as int));
            assert(rv.take(i3 as int + 1).last() == rv[i3 as int]);
        }
        cum = cum + rets[i3];
        if cum > peak {
            peak = cum;
        }
        if cum - peak < mdd {
            mdd = cum - peak;
        }
        i3 = i3 + 1;
    }
    proof {
        assert(rv.take(n as int) =~= rv);
        if n == 0 || sd == 0 {
            vstd::arithmetic::div_mod::lemma_div_of0(SCALE as int);
        }
    }
    Stats {
        annual_return: ar,
        annual_volatility: av,
        sharpe: sh,
        max_drawdown: mdd,
        total_return: total,
        win_rate: 0,
        n_trades: 0,
        avg_days_held: 0,
    }
}

/// Evaluate the completed trade pairs: win rate, count, average holding.
pub fn evaluate_pairs(pairs: &Vec<TradePair>) -> (ps: PairStats)
    requires
        pairs@.len() <= ROWS_MAX,
        forall|k: int|
            0 <= k < pairs@.len() ==> abs_i((#[trigger] pairs_seq_view(pairs@)[k]).days_held)
                <= 200_000_000,
    ensures
        ps.n_trades as int == pairs@.len() as int,
        ps.win_rate as int == win_rate_model(pairs_seq_view(pairs@)),
        ps.avg_days_held as int == avg_days_model(pairs_seq_view(pairs@)),
{
    let ghost pv = pairs_seq_view(pairs@);
    let n = pairs.len();
    let mut wins: i128 = 0;
    let mut dsum: i128 = 0;
    let mut i: usize = 0;
    while i < n
        invariant
            0 <= i <= n == pairs@.len() <= ROWS_MAX,
            pv == pairs_seq_view(pairs@),
            forall|k: int|
                0 <= k < pairs@.len() ==> abs_i((#[trigger] pv[k]).days_held) <= 200_000_000,
            wins == count_wins(pv.take(i as int)),
            dsum == days_sum(pv.take(i as int)),
            0 <= wins <= i,
            abs_i(dsum as int) <= i as int * 200_000_000,
        decreases n - i,
    {
        proof {
            assert(pv.take(i as int + 1).drop_last() =~= pv.take(i as int));
            assert(pv.take(i as int + 1).last() == pv[i as int]);
        }
        if pairs[i].pct_return > 0 {
            wins = wins + 1;
        }
        dsum = dsum + pairs[i].days_held as i128;
        i = i + 1;
    }
    proof {
        assert(pv.take(n as int) =~= pv);
    }
    if n == 0 {
        PairStats { win_rate: 0, n_trades: 0, avg_days_held: 0 }
    } else {
        let wr = div_trunc(wins * SCALE, n as i128);
        let ad = div_trunc(dsum * SCALE, n as i128);
        PairStats { win_rate: wr, n_trades: n as i128, avg_days_held: ad }
    }
}

} // verus!
