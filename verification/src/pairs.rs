//! Trade-pair reconstruction.
//!
//! Scanning a symbol's rounded weight series in time order: a segment opens
//! when the weight leaves zero, and closes when it returns to zero or
//! changes sign; a sign change closes the running pair at that bar and
//! immediately opens a new one in the new direction. A trailing open
//! segment at the end of the series is deliberately not closed: the window
//! ends before the position is realized, so no pair is emitted for it.
//!
//! A pair's event sequence holds every rounded weight observed from its
//! opening bar through its closing bar, inclusive, so `bars_held` equals
//! the length of the event sequence.

use vstd::prelude::*;

use crate::fixed::SCALE;
use crate::fixed::abs_i;
use crate::fixed::mul_div;
use crate::symbol::bar_ret;
use crate::symbol::bar_ok;
use crate::symbol::bars_view;
use crate::symbol::series_ok;
use crate::types::Bar;
use crate::types::BarV;
use crate::types::Direction;
use crate::types::ROWS_MAX;
use crate::types::TradePair;
use crate::types::TradePairV;

verus! {

/// The running open segment of the scan.
pub struct OpenV {
    pub dir: Direction,
    pub open_ts: int,
    pub open_day: int,
    pub open_price: int,
    pub events: Seq<int>,
}

/// The scan state: completed pairs so far and the open segment, if any.
pub struct ScanV {
    pub pairs: Seq<TradePairV>,
    pub open: Option<OpenV>,
}

/// Signed percentage return of a closed segment: the price move seen from
/// the direction of the position.
pub open spec fn pct_of(dir: Direction, open_price: int, close_price: int) -> int {
    if dir is Long {
        bar_ret(open_price, close_price)
    } else {
        -bar_ret(open_price, close_price)
    }
}

pub open spec fn open_of(b: BarV) -> OpenV {
    OpenV {
        dir: if b.weight > 0 {
            Direction::Long
        } else {
            Direction::Short
        },
        open_ts: b.ts,
        open_day: b.day,
        open_price: b.price,
        events: seq![b.weight],
    }
}

pub open spec fn same_side(dir: Direction, w: int) -> bool {
    (dir is Long && w > 0) || (dir is Short && w < 0)
}

/// The pair emitted when the open segment `o` closes at bar `b`.
pub open spec fn close_pair(o: OpenV, b: BarV, sym: Seq<char>) -> TradePairV {
    let ev = o.events.push(b.weight);
    TradePairV {
        symbol: sym,
        direction: o.dir,
        open_time: o.open_ts,
        close_time: b.ts,
        open_price: o.open_price,
        close_price: b.price,
        bars_held: ev.len() as int,
        events: ev,
        days_held: b.day - o.open_day,
        pct_return: pct_of(o.dir, o.open_price, b.price),
    }
}

/// One step of the scan over bar `b`.
pub open spec fn scan_step(st: ScanV, b: BarV, sym: Seq<char>) -> ScanV {
    match st.open {
        Option::None => {
            if b.weight != 0 {
                ScanV { pairs: st.pairs, open: Option::Some(open_of(b)) }
            } else {
                st
            }
        },
        Option::Some(o) => {
            if b.weight == 0 {
                ScanV { pairs: st.pairs.push(close_pair(o, b, sym)), open: Option::None }
            } else if same_side(o.dir, b.weight) {
                ScanV {
                    pairs: st.pairs,
                    open: Option::Some(
                        OpenV {
                            dir: o.dir,
                            open_ts: o.open_ts,
                            open_day: o.open_day,
                            open_price: o.open_price,
                            events: o.events.push(b.weight),
                        },
                    ),
                }
            } else {
                ScanV {
                    pairs: st.pairs.push(close_pair(o, b, sym)),
                    open: Option::Some(open_of(b)),
                }
            }
        },
    }
}

/// The scan folded over the whole series.
pub open spec fn pair_scan(bars: Seq<BarV>, sym: Seq<char>) -> ScanV
    decreases bars.len(),
{
    if bars.len() == 0 {
        ScanV { pairs: Seq::empty(), open: Option::None }
    } else {
        scan_step(pair_scan(bars.drop_last(), sym), bars.last(), sym)
    }
}

/// The symbol's completed round trips, in order of their closing bars.
pub open spec fn symbol_pairs_model(bars: Seq<BarV>, sym: Seq<char>) -> Seq<TradePairV> {
    pair_scan(bars, sym).pairs
}

pub open spec fn pairs_view(v: Seq<TradePair>) -> Seq<TradePairV> {
    v.map_values(|p: TradePair| p@)
}

pub open spec fn events_view(v: Seq<i128>) -> Seq<int> {
    v.map_values(|w: i128| w as int)
}

/// Pushing a weight commutes with viewing the event list.
pub proof fn lemma_events_push(v: Seq<i128>, x: i128)
    ensures
        events_view(v.push(x)) == events_view(v).push(x as int),
{
    assert(events_view(v.push(x)) =~= events_view(v).push(x as int));
}

/// Pushing a pair commutes with viewing the pair list.
pub proof fn lemma_pairs_push(v: Seq<TradePair>, p: TradePair)
    ensures
        pairs_view(v.push(p)) == pairs_view(v).push(p@),
{
    assert(pairs_view(v.push(p)) =~= pairs_view(v).push(p@));
}

/// Signed percentage return of a price move, at scale.
pub fn pct_return_of(dir: Direction, open_price: i64, close_price: i64) -> (r: i128)
    requires
        100_000 <= open_price <= 10_000_000_000_000,
        100_000 <= close_price <= 10_000_000_000_000,
    ensures
        r == pct_of(dir, open_price as int, close_price as int),
        abs_i(r as int) <= 100_000_000_000_000_000,
{
    let p0: i128 = open_price as i128;
    let p1: i128 = close_price as i128;
    proof {
        assert(p1 * SCALE <= 10_000_000_000_000_000_000_000i128 as int && p1 * SCALE >= 0)
            by (nonlinear_arith)
            requires
                0 < p1 <= 10_000_000_000_000i128 as int,
                SCALE == 1_000_000_000,
        ;
    }
    let q: i128 = mul_div(p1, SCALE, p0);
    proof {
        vstd::arithmetic::div_mod::lemma_div_is_ordered_by_denominator(
            p1 as int * SCALE as int,
            100_000,
            p0 as int,
        );
        vstd::arithmetic::div_mod::lemma_div_is_ordered(
            p1 as int * SCALE as int,
            10_000_000_000_000_000_000_000,
            100_000,
        );
    }
    let r: i128 = q - SCALE;
    match dir {
        Direction::Long => r,
        Direction::Short => -r,
    }
}

/// Scan one symbol's series into its completed trade pairs.
#[verifier::rlimit(100)]
pub fn get_symbol_pairs(symbol: &String, bars: &Vec<Bar>) -> (pairs: Vec<TradePair>)
    requires
        series_ok(bars_view(bars@)),
        bars@.len() <= ROWS_MAX,
    ensures
        pairs_view(pairs@) == symbol_pairs_model(bars_view(bars@), symbol@),
        pairs@.len() <= bars@.len(),
        forall|k: int|
            0 <= k < pairs@.len() ==> abs_i((#[trigger] pairs_view(pairs@)[k]).days_held)
                <= 200_000_000,
{
    let ghost bv = bars_view(bars@);
    let ghost sym = symbol@;
    let n = bars.len();
    let mut pairs: Vec<TradePair> = Vec::new();
    let mut has_open: bool = false;
    let mut dir: Direction = Direction::Long;
    let mut open_ts: i64 = 0;
    let mut open_day: i64 = 0;
    let mut open_price: i64 = 0;
    let mut events: Vec<i128> = Vec::new();
    let mut t: usize = 0;
    proof {
        assert(bv.take(0) =~= Seq::<BarV>::empty());
        assert(pairs_view(pairs@) =~= Seq::<TradePairV>::empty());
    }
    while t < n
        invariant
            n == bars@.len() <= ROWS_MAX,
            0 <= t <= n,
            bv == bars_view(bars@),
            series_ok(bv),
            sym == symbol@,
            pairs_view(pairs@) == pair_scan(bv.take(t as int), sym).pairs,
            has_open <==> pair_scan(bv.take(t as int), sym).open is Some,
            has_open ==> pair_scan(bv.take(t as int), sym).open == Option::Some(
                OpenV {
                    dir: dir,
                    open_ts: open_ts as int,
                    open_day: open_day as int,
                    open_price: open_price as int,
                    events: events_view(events@),
                },
            ),
            has_open ==> (100_000 <= open_price <= 10_000_000_000_000),
            has_open ==> abs_i(open_day as int) <= 100_000_000,
            events@.len() <= t,
            pairs@.len() <= t,
            forall|k: int|
                0 <= k < pairs@.len() ==> abs_i((#[trigger] pairs_view(pairs@)[k]).days_held)
                    <= 200_000_000,
        decreases n - t,
    {
        let ghost p = bv.take(t as int);
        let ghost p1 = bv.take(t as int + 1);
        let ghost st = pair_scan(p, sym);
        proof {
            assert(p1.drop_last() =~= p);
            assert(p1.last() == bv[t as int]);
            assert(pair_scan(p1, sym) == scan_step(st, bv[t as int], sym));
            assert(bar_ok(bv[t as int]));
        }
        let w: i128 = bars[t].weight;
        if !has_open {
            if w != 0 {
                has_open = true;
                dir = if w > 0 {
                    Direction::Long
                } else {
                    Direction::Short
                };
                open_ts = bars[t].ts;
                open_day = bars[t].day;
                open_price = bars[t].price;
                events = Vec::new();
                events.push(w);
                proof {
                    assert(events_view(events@) =~= seq![w as int]);
                }
            }
        } else {
            let closes = w == 0 || (w > 0 && matches!(dir, Direction::Short)) || (w < 0
                && matches!(dir, Direction::Long));
            if closes {
                let pct = pct_return_of(dir, open_price, bars[t].price);
                let ghost evprev = events@;
                let mut ev = events;
                events = Vec::new();
                ev.push(w);
                let nb: i64 = ev.len() as i64;
                let pair = TradePair {
                    symbol: symbol.clone(),
                    direction: dir,
                    open_time: open_ts,
                    close_time: bars[t].ts,
                    open_price: open_price,
                    close_price: bars[t].price,
                    bars_held: nb,
                    event_sequence: ev,
                    days_held: bars[t].day - open_day,
                    pct_return: pct,
                };
                let ghost psprev = pairs@;
                proof {
                    lemma_events_push(evprev, w);
                    assert(pair@ == close_pair(st.open.unwrap(), bv[t as int], sym));
                }
                pairs.push(pair);
                proof {
                    lemma_pairs_push(psprev, pair);
                }
                if w != 0 {
                    has_open = true;
                    dir = if w > 0 {
                        Direction::Long
                    } else {
                        Direction::Short
                    };
                    open_ts = bars[t].ts;
                    open_day = bars[t].day;
                    open_price = bars[t].price;
                    events.push(w);
                    proof {
                        assert(events_view(events@) =~= seq![w as int]);
                    }
                } else {
                    has_open = false;
                }
            } else {
                let ghost evprev = events@;
                events.push(w);
                proof {
                    lemma_events_push(evprev, w);
                }
            }
        }
        t = t + 1;
    }
    proof {
        assert(bv.take(n as int) =~= bv);
    }
    pairs
}

} // verus!
