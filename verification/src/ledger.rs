//! Trade bookkeeping shared by the single-asset and the pairs runners.
//!
//! The runners report, at the bar where an order fills, the sign of the
//! position held from then on (`1` long, `-1` short, `0` flat). The book
//! closes the open trade when the position goes flat or flips direction, and
//! opens a new trade, with the next id, whenever it is left without an open
//! trade while the position is not flat. Prices, fees and financing are kept
//! by the caller beside the book.

use vstd::prelude::*;

verus! {

/// A trade that is still open.
#[derive(Clone, Copy, Debug, PartialEq, Eq, Structural)]
pub struct OpenTrade {
    pub id: u32,
    /// `1` for long, `-1` for short.
    pub direction: i8,
    /// Index of the bar whose open filled the entry.
    pub entry_index: usize,
    pub entry_time: i64,
}

/// A trade that the book has closed.
#[derive(Clone, Copy, Debug, PartialEq, Eq, Structural)]
pub struct ClosedTrade {
    pub id: u32,
    pub direction: i8,
    pub entry_index: usize,
    pub entry_time: i64,
    pub exit_index: usize,
    pub exit_time: i64,
    /// `exit_index - entry_index` (0 if the exit came first), truncated to `u32`.
    pub holding_period_bars: u32,
}

/// What one position report did to the book.
#[derive(Clone, Copy, Debug, PartialEq, Eq, Structural)]
pub struct BookUpdate {
    /// The trade that this report closed, if any.
    pub closed: Option<ClosedTrade>,
    /// The id of the trade that this report opened, if any.
    pub opened: Option<u32>,
}

/// The trade book: at most one open trade, and the id the next trade gets.
#[derive(Clone, Copy, Debug, PartialEq, Eq, Structural)]
pub struct TradeBook {
    pub open: Option<OpenTrade>,
    pub next_id: u32,
}

/// One report to the book: `(bar index, bar time, position sign)`.
pub type PositionReport = (usize, i64, i8);

pub open spec fn valid_sign(sign: i8) -> bool {
    sign == -1 || sign == 0 || sign == 1
}

/// Holding period of a trade entered at `entry` and left at `exit`.
pub open spec fn spec_holding(entry: usize, exit: usize) -> u32 {
    if exit >= entry {
        (exit - entry) as u32
    } else {
        0
    }
}

/// Whether a report with position `sign` closes the open trade `open`.
pub open spec fn spec_closes(open: Option<OpenTrade>, sign: i8) -> bool {
    match open {
        Some(t) => sign == 0 || sign != t.direction,
        None => false,
    }
}

/// Whether a report with position `sign` opens a new trade in `book`.
pub open spec fn spec_opens(book: TradeBook, sign: i8) -> bool {
    sign != 0 && (book.open is None || spec_closes(book.open, sign))
}

/// The trade that a report closes.
pub open spec fn spec_closed_trade(t: OpenTrade, index: usize, time: i64) -> ClosedTrade {
    ClosedTrade {
        id: t.id,
        direction: t.direction,
        entry_index: t.entry_index,
        entry_time: t.entry_time,
        exit_index: index,
        exit_time: time,
        holding_period_bars: spec_holding(t.entry_index, index),
    }
}

/// The book and the update after one report.
pub open spec fn spec_step(book: TradeBook, index: usize, time: i64, sign: i8) -> (TradeBook, BookUpdate) {
    let closed: Option<ClosedTrade> = if spec_closes(book.open, sign) {
        Some(spec_closed_trade(book.open->Some_0, index, time))
    } else {
        None
    };
    let still_open: Option<OpenTrade> = if spec_closes(book.open, sign) { None } else { book.open };
    if spec_opens(book, sign) {
        let t = OpenTrade { id: book.next_id, direction: sign, entry_index: index, entry_time: time };
        (
            TradeBook { open: Some(t), next_id: (book.next_id + 1) as u32 },
            BookUpdate { closed: closed, opened: Some(book.next_id) },
        )
    } else {
        (TradeBook { open: still_open, next_id: book.next_id }, BookUpdate { closed: closed, opened: None })
    }
}

/// The empty book: no open trade, first id 1.
pub open spec fn spec_empty_book() -> TradeBook {
    TradeBook { open: None, next_id: 1 }
}

/// Replays `reports` on `book`: the final book and the trades closed, in order.
pub open spec fn spec_replay(book: TradeBook, reports: Seq<PositionReport>) -> (TradeBook, Seq<ClosedTrade>)
    decreases reports.len(),
{
    if reports.len() == 0 {
        (book, Seq::empty())
    } else {
        let prev = spec_replay(book, reports.drop_last());
        let r = reports.last();
        let (b, u) = spec_step(prev.0, r.0, r.1, r.2);
        match u.closed {
            Some(c) => (b, prev.1.push(c)),
            None => (b, prev.1),
        }
    }
}

impl TradeBook {
    /// The empty book: no open trade, and the first trade gets id 1.
    pub fn new() -> (book: TradeBook)
        ensures
            book == spec_empty_book(),
    {
        TradeBook { open: None, next_id: 1 }
    }

    /// Records that from bar `index` (at `time`) on the position has sign `sign`.
    ///
    /// The open trade is closed when `sign` is 0 or differs from its direction; its
    /// holding period is `index - entry_index`. A new trade with the next id is
    /// opened at `index` when no trade is open after that and `sign` is not 0.
    pub fn on_position(&mut self, index: usize, time: i64, sign: i8) -> (update: BookUpdate)
        requires
            valid_sign(sign),
            spec_opens(*old(self), sign) ==> old(self).next_id < u32::MAX,
        ensures
            (*final(self), update) == spec_step(*old(self), index, time, sign),
    {
        let mut closed: Option<ClosedTrade> = None;
        if let Some(t) = self.open {
            if sign == 0 || sign != t.direction {
                let holding: u32 = if index >= t.entry_index {
                    (index - t.entry_index) as u32
                } else {
                    0
                };
                closed = Some(ClosedTrade {
                    id: t.id,
                    direction: t.direction,
                    entry_index: t.entry_index,
                    entry_time: t.entry_time,
                    exit_index: index,
                    exit_time: time,
                    holding_period_bars: holding,
                });
                self.open = None;
            }
        }
        let mut opened: Option<u32> = None;
        if self.open.is_none() && sign != 0 {
            let id = self.next_id;
            self.open = Some(OpenTrade { id, direction: sign, entry_index: index, entry_time: time });
            self.next_id = id + 1;
            opened = Some(id);
        }
        BookUpdate { closed, opened }
    }
}

/// One report, case by case. A report that closes the open trade (it is flat, or of
/// the other direction) gives back that trade with its own id, direction, entry bar
/// and entry time, exited at the report's bar and time, holding the bars in between.
/// A report that is not flat and leaves no trade open opens one with the next id, the
/// report's direction, and the report's own bar and time as entry, also when the
/// same report closed the previous trade. A long or short report of the open trade's direction, or
/// a flat report with no trade open, changes nothing.
pub proof fn lemma_step_rules(book: TradeBook, index: usize, time: i64, sign: i8)
    requires
        valid_sign(sign),
        book.next_id < u32::MAX,
    ensures
        book.open matches Some(t) ==> ((sign == 0 || sign != t.direction)
            ==> spec_step(book, index, time, sign).1.closed == Some(ClosedTrade {
                id: t.id,
                direction: t.direction,
                entry_index: t.entry_index,
                entry_time: t.entry_time,
                exit_index: index,
                exit_time: time,
                holding_period_bars: if index >= t.entry_index { (index - t.entry_index) as u32 } else { 0 },
            })),
        sign != 0 && (book.open matches Some(t) ==> sign != t.direction)
            ==> spec_step(book, index, time, sign).0.open == Some(OpenTrade {
                id: book.next_id,
                direction: sign,
                entry_index: index,
                entry_time: time,
            })
            && spec_step(book, index, time, sign).0.next_id == book.next_id + 1
            && spec_step(book, index, time, sign).1.opened == Some(book.next_id),
        book.open is None ==> spec_step(book, index, time, sign).1.closed is None,
        sign == 0 ==> spec_step(book, index, time, sign).0.open is None
            && spec_step(book, index, time, sign).0.next_id == book.next_id
            && spec_step(book, index, time, sign).1.opened is None,
        (book.open matches Some(t) && sign != 0 && sign == t.direction) || (book.open is None && sign == 0)
            ==> spec_step(book, index, time, sign).0 == book
            && spec_step(book, index, time, sign).1 == (BookUpdate { closed: None, opened: None }),
{
}

/// Across two reports: a trade opened by the first report and closed by the second
/// is given back with the first report's bar and time as its entry and the second's
/// as its exit, also when the second report opens the next trade in its place, which
/// then starts at the second report's bar and time.
pub proof fn lemma_trade_spans_its_reports(
    book: TradeBook,
    i1: usize,
    t1: i64,
    s1: i8,
    i2: usize,
    t2: i64,
    s2: i8,
)
    requires
        book.open is None,
        book.next_id < u32::MAX - 1,
        s1 == 1 || s1 == -1,
        valid_sign(s2),
        s2 != s1,
    ensures
        ({
            let b1 = spec_step(book, i1, t1, s1).0;
            let u2 = spec_step(b1, i2, t2, s2);
            &&& u2.1.closed matches Some(c) && c.id == book.next_id && c.direction == s1
                && c.entry_index == i1 && c.entry_time == t1 && c.exit_index == i2 && c.exit_time == t2
            &&& s2 != 0 ==> u2.0.open == Some(OpenTrade {
                id: (book.next_id + 1) as u32,
                direction: s2,
                entry_index: i2,
                entry_time: t2,
            })
        }),
{
    lemma_step_rules(book, i1, t1, s1);
    let b1 = spec_step(book, i1, t1, s1).0;
    lemma_step_rules(b1, i2, t2, s2);
}

/// Reports whose bar indices strictly increase and whose signs are valid.
pub open spec fn well_ordered(reports: Seq<PositionReport>) -> bool {
    &&& forall|k: int| 0 <= k < reports.len() ==> valid_sign(#[trigger] reports[k].2)
    &&& forall|j: int, k: int| 0 <= j < k < reports.len() ==> reports[j].0 < reports[k].0
}

/// What holds of the book after a replay from the empty book.
pub open spec fn ledger_invariant(reports: Seq<PositionReport>, book: TradeBook, closed: Seq<ClosedTrade>) -> bool {
    // ids are handed out 1, 2, 3, ... in the order trades are closed
    &&& forall|k: int| 0 <= k < closed.len() ==> (#[trigger] closed[k]).id == k + 1
    &&& book.next_id == closed.len() + 1 + (if book.open is Some { 1int } else { 0int })
    &&& (book.open matches Some(t) ==> t.id == closed.len() + 1)
    // directions are long or short
    &&& forall|k: int| 0 <= k < closed.len() ==> ((#[trigger] closed[k]).direction == 1 || closed[k].direction == -1)
    &&& (book.open matches Some(t) ==> t.direction == 1 || t.direction == -1)
    // every trade was exited after it was entered, and trades do not overlap
    &&& forall|k: int| 0 <= k < closed.len() ==> (#[trigger] closed[k]).entry_index < closed[k].exit_index
    &&& forall|k: int| 0 <= k < closed.len() ==> (#[trigger] closed[k]).holding_period_bars
        == ((closed[k].exit_index - closed[k].entry_index) as u32)
    &&& forall|k: int| 0 <= k < closed.len() - 1 ==> (#[trigger] closed[k]).exit_index <= closed[k + 1].entry_index
    &&& (closed.len() > 0 ==> (book.open matches Some(t) ==> closed.last().exit_index <= t.entry_index))
    // everything the book holds came from a report already seen
    &&& (book.open matches Some(t) ==> reports.len() > 0 && t.entry_index <= reports.last().0)
    &&& (closed.len() > 0 ==> reports.len() > 0 && closed.last().exit_index <= reports.last().0)
    &&& closed.len() + (if book.open is Some { 1int } else { 0int }) <= reports.len()
}

/// Trades come out of the book numbered 1, 2, 3, ... in order; each is long or
/// short, is exited at a later bar than it was entered, with a holding period of
/// the bars in between, and no two trades overlap.
///
/// Holds for every sequence of reports with strictly increasing bar indices,
/// replayed from the empty book, as long as ids fit in `u32`.
pub proof fn lemma_ledger_replay(reports: Seq<PositionReport>)
    requires
        well_ordered(reports),
        reports.len() < u32::MAX - 1,
    ensures
        ledger_invariant(reports, spec_replay(spec_empty_book(), reports).0, spec_replay(spec_empty_book(), reports).1),
    decreases reports.len(),
{
    if reports.len() > 0 {
        let prefix = reports.drop_last();
        assert(well_ordered(prefix)) by {
            assert forall|k: int| 0 <= k < prefix.len() implies valid_sign(#[trigger] prefix[k].2) by {
                assert(prefix[k] == reports[k]);
            }
            assert forall|j: int, k: int| 0 <= j < k < prefix.len() implies prefix[j].0 < prefix[k].0 by {
                assert(prefix[j] == reports[j]);
                assert(prefix[k] == reports[k]);
            }
        }
        lemma_ledger_replay(prefix);
        let prev = spec_replay(spec_empty_book(), prefix);
        let r = reports.last();
        assert(valid_sign(reports[reports.len() - 1].2));
        if prefix.len() > 0 {
            assert(prefix.last().0 < r.0) by {
                assert(prefix.last() == reports[reports.len() - 2]);
            }
        }
        let (b, u) = spec_step(prev.0, r.0, r.1, r.2);
        let closed = spec_replay(spec_empty_book(), reports).1;
        assert(spec_replay(spec_empty_book(), reports).0 == b);
        match u.closed {
            Some(c) => {
                assert(closed == prev.1.push(c));
                assert(closed[closed.len() - 1] == c);
                assert forall|k: int| 0 <= k < closed.len() - 1 implies #[trigger] closed[k] == prev.1[k] by {}
            },
            None => {
                assert(closed == prev.1);
            },
        }
    }
}

} // verus!
