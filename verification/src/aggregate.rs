//! Cross-symbol return aggregation.
//!
//! Each symbol contributes one `DailyReturn` row per date it traded. The
//! portfolio series holds exactly the union of those dates, strictly
//! ascending, with no rows invented for absent dates. Under `Ts` a date's
//! value is the arithmetic mean of the contributions present that date
//! (truncated toward zero); under `Cs` it is their sum.

use vstd::prelude::*;

use crate::fixed::abs_i;
use crate::fixed::div_t;
use crate::fixed::div_trunc;
use crate::symbol::SUM_BOUND;
use crate::types::DailyReturn;
use crate::types::DailyReturnV;
use crate::types::PortfolioDay;
use crate::types::ROWS_MAX;
use crate::types::WeightType;

verus! {

pub open spec fn rows_view(v: Seq<DailyReturn>) -> Seq<DailyReturnV> {
    v.map_values(|r: DailyReturn| r@)
}

/// Sum of the contributions on date `d`.
pub open spec fn sum_on(rows: Seq<DailyReturnV>, d: int) -> int
    decreases rows.len(),
{
    if rows.len() == 0 {
        0
    } else {
        sum_on(rows.drop_last(), d) + if rows.last().date == d {
            rows.last().ret
        } else {
            0
        }
    }
}

/// Number of contributions on date `d`.
pub open spec fn count_on(rows: Seq<DailyReturnV>, d: int) -> int
    decreases rows.len(),
{
    if rows.len() == 0 {
        0
    } else {
        count_on(rows.drop_last(), d) + if rows.last().date == d {
            1int
        } else {
            0int
        }
    }
}

/// Some contribution falls on date `d`.
pub open spec fn has_date(rows: Seq<DailyReturnV>, d: int) -> bool {
    exists|i: int| 0 <= i < rows.len() && rows[i].date == d
}

/// The portfolio value of date `d` under the aggregation mode.
pub open spec fn agg_value(rows: Seq<DailyReturnV>, d: int, mode: WeightType) -> int {
    if mode is Ts {
        div_t(sum_on(rows, d), count_on(rows, d))
    } else {
        sum_on(rows, d)
    }
}

pub open spec fn sorted_unique(s: Seq<i64>) -> bool {
    forall|a: int, b: int| 0 <= a < b < s.len() ==> s[a] < s[b]
}

pub open spec fn out_has(out: Seq<PortfolioDay>, d: int) -> bool {
    exists|k: int| 0 <= k < out.len() && out[k].date == d
}

/// A date is counted at least once exactly when some row carries it.
pub proof fn lemma_count_pos(rows: Seq<DailyReturnV>, d: int)
    ensures
        0 <= count_on(rows, d) <= rows.len(),
        (count_on(rows, d) > 0) <==> has_date(rows, d),
    decreases rows.len(),
{
    if rows.len() > 0 {
        let s = rows.drop_last();
        lemma_count_pos(s, d);
        if rows.last().date == d {
            assert(rows[rows.len() - 1].date == d);
        } else {
            if has_date(rows, d) {
                let i = choose|i: int| 0 <= i < rows.len() && rows[i].date == d;
                assert(s[i] == rows[i]);
                assert(has_date(s, d));
            }
            if has_date(s, d) {
                let i = choose|i: int| 0 <= i < s.len() && s[i].date == d;
                assert(rows[i] == s[i]);
                assert(has_date(rows, d));
            }
        }
    }
}

/// Insert a date into a strictly ascending list, keeping it a set.
fn insert_sorted(dates: &mut Vec<i64>, d: i64)
    requires
        sorted_unique(old(dates)@),
        old(dates)@.len() < usize::MAX,
    ensures
        sorted_unique(final(dates)@),
        final(dates)@.len() <= old(dates)@.len() + 1,
        forall|x: i64| final(dates)@.contains(x) <==> (old(dates)@.contains(x) || x == d),
{
    let ghost orig = dates@;
    let n = dates.len();
    let mut j: usize = 0;
    while j < n && dates[j] < d
        invariant
            0 <= j <= n == dates@.len(),
            dates@ == orig,
            forall|k: int| 0 <= k < j ==> dates@[k] < d,
        decreases n - j,
    {
        j = j + 1;
    }
    if j < n && dates[j] == d {
        proof {
            assert(dates@.contains(d));
        }
        return ;
    }
    dates.insert(j, d);
    proof {
        assert(forall|k: int| 0 <= k < j ==> dates@[k] == orig[k]);
        assert(dates@[j as int] == d);
        assert(forall|k: int| j < k < dates@.len() ==> dates@[k] == orig[k - 1]);
        assert forall|a: int, b: int| 0 <= a < b < dates@.len() implies dates@[a] < dates@[b] by {
            if a == j {
                assert(orig[b - 1] >= orig[j as int]);
                assert(!(orig[j as int] < d) && orig[j as int] != d);
            } else if b == j {
                assert(dates@[a] == orig[a] && orig[a] < d);
            }
        }
        assert forall|x: i64| dates@.contains(x) implies (orig.contains(x) || x == d) by {
            let k = choose|k: int| 0 <= k < dates@.len() && dates@[k] == x;
            if k < j {
                assert(orig[k] == x);
            } else if k > j {
                assert(orig[k - 1] == x);
            }
        }
        assert forall|x: i64| (orig.contains(x) || x == d) implies dates@.contains(x) by {
            if orig.contains(x) {
                let k = choose|k: int| 0 <= k < orig.len() && orig[k] == x;
                if k < j {
                    assert(dates@[k] == x);
                } else {
                    assert(dates@[k + 1] == x);
                }
            } else {
                assert(dates@[j as int] == x);
            }
        }
    }
}

/// Combine the per-symbol daily contribution rows into the portfolio
/// series: one row per date present anywhere, dates strictly ascending,
/// each valued as the mean (`Ts`) or sum (`Cs`) of that date's rows.
#[verifier::rlimit(100)]
pub fn aggregate_daily_returns(rows: &Vec<DailyReturn>, weight_type: WeightType) -> (out: Vec<
    PortfolioDay,
>)
    requires
        rows@.len() <= ROWS_MAX,
        forall|i: int|
            0 <= i < rows@.len() ==> abs_i(#[trigger] rows_view(rows@)[i].ret) <= SUM_BOUND as int,
    ensures
        out@.len() <= rows@.len(),
        forall|a: int, b: int| 0 <= a < b < out@.len() ==> out@[a].date < out@[b].date,
        forall|k: int|
            0 <= k < out@.len() ==> has_date(rows_view(rows@), (#[trigger] out@[k]).date as int),
        forall|i: int|
            0 <= i < rows@.len() ==> out_has(out@, (#[trigger] rows_view(rows@)[i]).date),
        forall|k: int|
            0 <= k < out@.len() ==> (#[trigger] out@[k]).return_ as int == agg_value(
                rows_view(rows@),
                out@[k].date as int,
                weight_type,
            ),
{
    let ghost rv = rows_view(rows@);
    let n = rows.len();
    let mut dates: Vec<i64> = Vec::new();
    let mut i: usize = 0;
    while i < n
        invariant
            0 <= i <= n == rows@.len() <= ROWS_MAX,
            rv == rows_view(rows@),
            sorted_unique(dates@),
            dates@.len() <= i,
            forall|x: i64| dates@.contains(x) ==> has_date(rv, x as int),
            forall|jj: int| 0 <= jj < i ==> dates@.contains(#[trigger] rows@[jj].date),
        decreases n - i,
    {
        let ghost dprev = dates@;
        let d = rows[i].date;
        insert_sorted(&mut dates, d);
        proof {
            assert(rv[i as int].date == d as int);
            assert(has_date(rv, d as int));
            assert forall|x: i64| dates@.contains(x) implies has_date(rv, x as int) by {
                if x != d {
                    assert(dprev.contains(x));
                }
            }
            assert(forall|jj: int|
                0 <= jj < i ==> dprev.contains(#[trigger] rows@[jj].date));
        }
        i = i + 1;
    }
    let nd = dates.len();
    let mut out: Vec<PortfolioDay> = Vec::new();
    let mut k: usize = 0;
    while k < nd
        invariant
            0 <= k <= nd == dates@.len(),
            n == rows@.len() <= ROWS_MAX,
            rv == rows_view(rows@),
            sorted_unique(dates@),
            forall|x: i64| dates@.contains(x) ==> has_date(rv, x as int),
            forall|jj: int| 0 <= jj < n ==> dates@.contains(#[trigger] rows@[jj].date),
            forall|i3: int|
                0 <= i3 < rows@.len() ==> abs_i((#[trigger] rv[i3]).ret) <= SUM_BOUND as int,
            out@.len() == k,
            forall|kk: int| 0 <= kk < k ==> (#[trigger] out@[kk]).date == dates@[kk],
            forall|kk: int|
                0 <= kk < k ==> (#[trigger] out@[kk]).return_ as int == agg_value(
                    rv,
                    dates@[kk] as int,
                    weight_type,
                ),
        decreases nd - k,
    {
        let d = dates[k];
        let ghost dd = d as int;
        let mut sum: i128 = 0;
        let mut cnt: i128 = 0;
        let mut i2: usize = 0;
        while i2 < n
            invariant
                0 <= i2 <= n == rows@.len() <= ROWS_MAX,
                rv == rows_view(rows@),
                dd == d as int,
                forall|i3: int|
                    0 <= i3 < rows@.len() ==> abs_i((#[trigger] rv[i3]).ret) <= SUM_BOUND as int,
                sum == sum_on(rv.take(i2 as int), dd),
                cnt == count_on(rv.take(i2 as int), dd),
                0 <= cnt <= i2,
                abs_i(sum as int) <= i2 as int * SUM_BOUND as int,
            decreases n - i2,
        {
            proof {
                assert(rv.take(i2 as int + 1).drop_last() =~= rv.take(i2 as int));
                assert(rv.take(i2 as int + 1).last() == rv[i2 as int]);
                assert(rv[i2 as int] == rows@[i2 as int]@);
            }
            if rows[i2].date == d {
                sum = sum + rows[i2].return_;
                cnt = cnt + 1;
            }
            i2 = i2 + 1;
        }
        proof {
            assert(rv.take(n as int) =~= rv);
            assert(dates@.contains(dates@[k as int]));
            lemma_count_pos(rv, dd);
        }
        let val: i128 = match weight_type {
            WeightType::Ts => div_trunc(sum, cnt),
            WeightType::Cs => sum,
        };
        out.push(PortfolioDay { date: d, return_: val });
        k = k + 1;
    }
    proof {
        assert forall|i4: int| 0 <= i4 < rows@.len() implies out_has(
            out@,
            (#[trigger] rv[i4]).date,
        ) by {
            assert(dates@.contains(rows@[i4].date));
            let kk = choose|kk: int| 0 <= kk < dates@.len() && dates@[kk] == rows@[i4].date;
            assert(out@[kk].date == rows@[i4].date);
        }
    }
    out
}

} // verus!
