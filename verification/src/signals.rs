//! Position state machines of the strategies, and the checks on their parameters.
//!
//! Each strategy decides at a bar's close which position to hold from the next
//! bar's open. The comparisons of prices and z-scores are floating point and are
//! made by the caller, which hands in their outcomes; the machines here keep the
//! position, apply the rules in their order of priority, and say what the target
//! position is. Targets are signs: `1` long, `-1` short, `0` flat; the caller
//! scales them to a quantity.

use vstd::prelude::*;
use vstd::string::*;
use crate::validation::EngineError;
use crate::types::SizingMode;

verus! {

pub open spec fn is_sign(x: i8) -> bool {
    x == -1 || x == 0 || x == 1
}

// ---------------------------------------------------------------------------
// Pairs z-score
// ---------------------------------------------------------------------------

/// Where the spread's z-score stands at a bar's close.
#[derive(Clone, Copy, Debug, PartialEq, Eq, Structural)]
pub struct SpreadSignal {
    /// Both the z-score and the hedge ratio are known at this bar.
    pub available: bool,
    /// `z >= entry_z`
    pub at_or_above_entry: bool,
    /// `z <= -entry_z`
    pub at_or_below_neg_entry: bool,
    /// `z >= exit_z`
    pub at_or_above_exit: bool,
    /// `z <= -exit_z`
    pub at_or_below_neg_exit: bool,
}

/// The spread side after a bar: `1` long the spread, `-1` short it, `0` flat.
pub open spec fn spec_next_pair_side(side: i8, s: SpreadSignal) -> i8 {
    if !s.available {
        0
    } else if side == 0 {
        if s.at_or_above_entry {
            -1i8
        } else if s.at_or_below_neg_entry {
            1
        } else {
            0
        }
    } else if side == 1 {
        if s.at_or_above_exit { 0 } else { 1 }
    } else if side == -1 {
        if s.at_or_below_neg_exit { 0 } else { -1i8 }
    } else {
        side
    }
}

/// Next side of the pairs strategy.
///
/// Flat when the z-score or hedge ratio is missing. From flat, a z-score at or
/// above `entry_z` shorts the spread and one at or below `-entry_z` goes long it.
/// A long spread is closed once z reaches `exit_z`, a short one once z falls to
/// `-exit_z`.
pub fn next_pair_side(side: i8, signal: SpreadSignal) -> (next: i8)
    requires
        is_sign(side),
    ensures
        next == spec_next_pair_side(side, signal),
        is_sign(next),
{
    if !signal.available {
        0
    } else if side == 0 {
        if signal.at_or_above_entry {
            -1
        } else if signal.at_or_below_neg_entry {
            1
        } else {
            0
        }
    } else if side == 1 {
        if signal.at_or_above_exit { 0 } else { 1 }
    } else {
        if signal.at_or_below_neg_exit { 0 } else { -1 }
    }
}

/// The pairs strategy never moves straight from one side of the spread to the
/// other: it passes through flat first, and it only leaves flat on an entry signal.
pub proof fn lemma_pair_side_transitions(side: i8, s: SpreadSignal)
    requires
        is_sign(side),
    ensures
        side != 0 ==> spec_next_pair_side(side, s) == side || spec_next_pair_side(side, s) == 0,
        side == 0 && spec_next_pair_side(side, s) == 1 ==> s.available && s.at_or_below_neg_entry,
        side == 0 && spec_next_pair_side(side, s) == -1 ==> s.available && s.at_or_above_entry,
{
}

/// The pairs rules, case by case. Without both the z-score and the hedge ratio the
/// spread is flat. From flat, z at or above `entry_z` shorts the spread, else z at or
/// below `-entry_z` goes long it, else it stays flat. A long spread is closed exactly
/// when z is at or above `exit_z` and kept otherwise; a short one is closed exactly
/// when z is at or below `-exit_z` and kept otherwise.
pub proof fn lemma_pair_side_rules(side: i8, s: SpreadSignal)
    requires
        is_sign(side),
    ensures
        !s.available ==> spec_next_pair_side(side, s) == 0,
        s.available && side == 0 && s.at_or_above_entry ==> spec_next_pair_side(side, s) == -1,
        s.available && side == 0 && !s.at_or_above_entry && s.at_or_below_neg_entry
            ==> spec_next_pair_side(side, s) == 1,
        s.available && side == 0 && !s.at_or_above_entry && !s.at_or_below_neg_entry
            ==> spec_next_pair_side(side, s) == 0,
        s.available && side == 1 && s.at_or_above_exit ==> spec_next_pair_side(side, s) == 0,
        s.available && side == 1 && !s.at_or_above_exit ==> spec_next_pair_side(side, s) == 1,
        s.available && side == -1 && s.at_or_below_neg_exit ==> spec_next_pair_side(side, s) == 0,
        s.available && side == -1 && !s.at_or_below_neg_exit ==> spec_next_pair_side(side, s) == -1,
{
}

// ---------------------------------------------------------------------------
// Moving-average crossover
// ---------------------------------------------------------------------------

/// What the crossover rules read at a bar's close.
#[derive(Clone, Copy, Debug, PartialEq, Eq, Structural)]
pub struct CrossoverSignal {
    /// Both moving averages are known at this bar.
    pub available: bool,
    /// The fast average is above the slow one.
    pub fast_above_slow: bool,
    /// The fast average is below the slow one.
    pub fast_below_slow: bool,
    /// A stop-loss is set, a position is held, and the close has moved against its
    /// entry price by at least the stop-loss percentage.
    pub stop_loss_hit: bool,
    /// The next bar's open price is above zero.
    pub next_open_positive: bool,
    /// The sizing has the history it needs at this bar (always, for fixed-notional
    /// sizing; for volatility targeting, at least `vol_lookback` bars).
    pub sizing_ready: bool,
}

/// The decision of one crossover step.
#[derive(Clone, Copy, Debug, PartialEq, Eq, Structural)]
pub struct CrossoverDecision {
    /// The side held from the next open.
    pub position: i8,
    /// Target position sign from the next open.
    pub target: i8,
    /// A new side is taken at the next open (the caller records its entry price).
    pub entered: bool,
    /// The stop-loss closed the held position.
    pub stopped: bool,
}

/// The side the averages point to: `1` when fast is above slow, `-1` when below,
/// `0` when they are equal.
pub open spec fn crossover_direction(s: CrossoverSignal) -> i8 {
    if s.fast_above_slow { 1 } else if s.fast_below_slow { -1i8 } else { 0 }
}

/// One step of the crossover rules from a held side `position`.
pub open spec fn spec_crossover_step(position: i8, s: CrossoverSignal) -> CrossoverDecision {
    let flat = CrossoverDecision { position: 0, target: 0, entered: false, stopped: false };
    if !s.available {
        flat
    } else if position != 0 && s.stop_loss_hit {
        CrossoverDecision { position: 0, target: 0, entered: false, stopped: true }
    } else if crossover_direction(s) == 0 || !s.next_open_positive || !s.sizing_ready {
        flat
    } else {
        let d = crossover_direction(s);
        CrossoverDecision { position: d, target: d, entered: d != position, stopped: false }
    }
}

/// Decides the side to hold from the next open.
///
/// Flat while either average is unknown. A held position whose stop-loss is hit at
/// this close is closed at the next open. Otherwise the target is the side the
/// averages point to (long when fast is above slow, short when below), or flat when
/// they are equal, when the next open is not positive, or when the sizing lacks
/// history. A stopped position can be taken again on a later bar whose averages
/// still point its way, at that bar's next open.
pub fn crossover_step(position: i8, signal: CrossoverSignal) -> (d: CrossoverDecision)
    requires
        is_sign(position),
    ensures
        d == spec_crossover_step(position, signal),
        is_sign(d.position),
        d.target == d.position,
{
    if !signal.available {
        return CrossoverDecision { position: 0, target: 0, entered: false, stopped: false };
    }
    if position != 0 && signal.stop_loss_hit {
        return CrossoverDecision { position: 0, target: 0, entered: false, stopped: true };
    }
    let dir: i8 = if signal.fast_above_slow {
        1
    } else if signal.fast_below_slow {
        -1
    } else {
        0
    };
    if dir == 0 || !signal.next_open_positive || !signal.sizing_ready {
        return CrossoverDecision { position: 0, target: 0, entered: false, stopped: false };
    }
    CrossoverDecision { position: dir, target: dir, entered: dir != position, stopped: false }
}

/// The crossover rules, case by case. While either average is unknown the result
/// is flat. A held position whose stop-loss is hit is closed: flat, and marked
/// stopped. Otherwise, when fast is above slow the side is long, when fast is below
/// slow it is short, each counted as an entry exactly when that side was not held
/// already, provided the next open is positive and the sizing is ready; in every
/// other case the result is flat. The target is always the resulting side.
pub proof fn lemma_crossover_rules(position: i8, s: CrossoverSignal)
    requires
        is_sign(position),
    ensures
        !s.available ==> spec_crossover_step(position, s) == (CrossoverDecision {
            position: 0, target: 0, entered: false, stopped: false }),
        s.available && position != 0 && s.stop_loss_hit ==> spec_crossover_step(position, s) == (CrossoverDecision {
            position: 0, target: 0, entered: false, stopped: true }),
        s.available && !(position != 0 && s.stop_loss_hit) && s.next_open_positive && s.sizing_ready && s.fast_above_slow
            ==> spec_crossover_step(position, s) == (CrossoverDecision {
                position: 1, target: 1, entered: position != 1, stopped: false }),
        s.available && !(position != 0 && s.stop_loss_hit) && s.next_open_positive && s.sizing_ready
            && !s.fast_above_slow && s.fast_below_slow
            ==> spec_crossover_step(position, s) == (CrossoverDecision {
                position: -1i8, target: -1i8, entered: position != -1, stopped: false }),
        s.available && !(position != 0 && s.stop_loss_hit)
            && (!s.next_open_positive || !s.sizing_ready || (!s.fast_above_slow && !s.fast_below_slow))
            ==> spec_crossover_step(position, s) == (CrossoverDecision {
                position: 0, target: 0, entered: false, stopped: false }),
{
}

/// Without a stop-loss hit, the crossover's target does not depend on the side
/// held: it is the side the averages point to, when the bar allows a position. A
/// stop closes only a held position, and targets flat.
pub proof fn lemma_crossover_stop_only_closes(p1: i8, p2: i8, s: CrossoverSignal)
    requires
        is_sign(p1),
        is_sign(p2),
    ensures
        !s.stop_loss_hit ==> spec_crossover_step(p1, s).target == spec_crossover_step(p2, s).target,
        spec_crossover_step(p1, s).stopped ==> p1 != 0 && spec_crossover_step(p1, s).target == 0,
        spec_crossover_step(p1, s).entered ==> spec_crossover_step(p1, s).position != p1,
{
}

// ---------------------------------------------------------------------------
// Z-score mean reversion
// ---------------------------------------------------------------------------

/// Position of the mean-reversion strategy and how long it has been held.
#[derive(Clone, Copy, Debug, PartialEq, Eq, Structural)]
pub struct ReversionState {
    pub position: i8,
    /// Decisions taken since the position was entered.
    pub bars_held: usize,
}

/// What the mean-reversion rules read at a bar's close.
#[derive(Clone, Copy, Debug, PartialEq, Eq, Structural)]
pub struct ReversionSignal {
    /// The z-score of the close is known at this bar.
    pub z_available: bool,
    /// A stop-loss is set, a position is open, and the close has moved against its
    /// entry price by at least the stop-loss percentage.
    pub stop_loss_hit: bool,
    /// `z >= exit_z`
    pub at_or_above_exit: bool,
    /// `z <= -exit_z`
    pub at_or_below_neg_exit: bool,
    /// `z <= -entry_z`
    pub at_or_below_neg_entry: bool,
    /// `z >= entry_z`
    pub at_or_above_entry: bool,
    /// The next bar's open price is above zero.
    pub next_open_positive: bool,
}

/// The decision of one mean-reversion step.
#[derive(Clone, Copy, Debug, PartialEq, Eq, Structural)]
pub struct ReversionDecision {
    /// Target position sign from the next open.
    pub target: i8,
    /// A position was entered at the next open (the caller records its price).
    pub entered: bool,
}

pub open spec fn flat_reversion() -> ReversionState {
    ReversionState { position: 0, bars_held: 0 }
}

/// One step of the mean-reversion rules.
pub open spec fn spec_reversion_step(st: ReversionState, time_stop: Option<usize>, s: ReversionSignal) -> (ReversionState, ReversionDecision) {
    if !s.z_available {
        (st, ReversionDecision { target: 0, entered: false })
    } else {
        let held: usize = if st.position != 0 { (st.bars_held + 1) as usize } else { st.bars_held };
        let stopped = st.position != 0 && (s.stop_loss_hit || (time_stop matches Some(ts) && held >= ts));
        let exited = (st.position > 0 && s.at_or_above_exit) || (st.position < 0 && s.at_or_below_neg_exit);
        if stopped || exited {
            (flat_reversion(), ReversionDecision { target: 0, entered: false })
        } else {
            let (next, entered) = if st.position == 0 && s.at_or_below_neg_entry {
                (ReversionState { position: 1, bars_held: 0 }, true)
            } else if st.position == 0 && s.at_or_above_entry {
                (ReversionState { position: -1i8, bars_held: 0 }, true)
            } else {
                (ReversionState { position: st.position, bars_held: held }, false)
            };
            (next, ReversionDecision { target: if s.next_open_positive { next.position } else { 0 }, entered: entered })
        }
    }
}

impl ReversionState {
    pub fn new() -> (st: ReversionState)
        ensures
            st == flat_reversion(),
    {
        ReversionState { position: 0, bars_held: 0 }
    }

    /// Decides the position to hold from the next open.
    ///
    /// Without a z-score the target is flat and nothing else changes. Otherwise a held
    /// position counts one more bar; then, in order, the stop-loss and the time stop
    /// (`bars_held >= time_stop_bars`) close it, and so does z reaching `exit_z` (long)
    /// or `-exit_z` (short). From flat, z at or below `-entry_z` enters long and z at
    /// or above `entry_z` enters short. The target is the resulting position, or flat
    /// when the next open is not positive.
    pub fn step(&mut self, time_stop_bars: Option<usize>, signal: ReversionSignal) -> (d: ReversionDecision)
        requires
            is_sign(old(self).position),
            old(self).bars_held < usize::MAX,
        ensures
            (*final(self), d) == spec_reversion_step(*old(self), time_stop_bars, signal),
    {
        if !signal.z_available {
            return ReversionDecision { target: 0, entered: false };
        }
        if self.position != 0 {
            self.bars_held = self.bars_held + 1;
        }
        if self.position != 0 {
            let timed_out = match time_stop_bars {
                Some(ts) => self.bars_held >= ts,
                None => false,
            };
            if signal.stop_loss_hit || timed_out {
                self.position = 0;
                self.bars_held = 0;
                return ReversionDecision { target: 0, entered: false };
            }
        }
        if (self.position > 0 && signal.at_or_above_exit) || (self.position < 0 && signal.at_or_below_neg_exit) {
            self.position = 0;
            self.bars_held = 0;
            return ReversionDecision { target: 0, entered: false };
        }
        let mut entered = false;
        if self.position == 0 {
            if signal.at_or_below_neg_entry {
                self.position = 1;
                self.bars_held = 0;
                entered = true;
            } else if signal.at_or_above_entry {
                self.position = -1;
                self.bars_held = 0;
                entered = true;
            }
        }
        let target: i8 = if signal.next_open_positive { self.position } else { 0 };
        ReversionDecision { target, entered }
    }
}

/// The mean-reversion rules, case by case, for a state whose position is long,
/// short or flat.
///
/// Without a z-score nothing changes and the target is flat. With one, a held
/// position is closed (flat state, flat target, no entry) by its stop-loss, by the
/// time stop once the count including this bar reaches it, by z at or above `exit_z`
/// for a long, and by z at or below `-exit_z` for a short, whatever z is relative to
/// the entry thresholds. A held position that none of these close is kept with one
/// more bar counted. From flat, z at or below `-entry_z` enters long, else z at or
/// above `entry_z` enters short, with a count of 0; otherwise it stays flat. The
/// target is the new position when the next open is positive, else flat.
pub proof fn lemma_reversion_rules(st: ReversionState, time_stop: Option<usize>, s: ReversionSignal)
    requires
        is_sign(st.position),
        st.bars_held < usize::MAX,
    ensures
        !s.z_available ==> spec_reversion_step(st, time_stop, s).0 == st
            && spec_reversion_step(st, time_stop, s).1.target == 0
            && !spec_reversion_step(st, time_stop, s).1.entered,
        s.z_available && st.position != 0 && s.stop_loss_hit ==> spec_reversion_step(st, time_stop, s).0 == flat_reversion()
            && spec_reversion_step(st, time_stop, s).1.target == 0
            && !spec_reversion_step(st, time_stop, s).1.entered,
        s.z_available && st.position != 0 && (time_stop matches Some(t) && st.bars_held + 1 >= t)
            ==> spec_reversion_step(st, time_stop, s).0 == flat_reversion()
            && spec_reversion_step(st, time_stop, s).1.target == 0
            && !spec_reversion_step(st, time_stop, s).1.entered,
        s.z_available && st.position == 1 && s.at_or_above_exit ==> spec_reversion_step(st, time_stop, s).0 == flat_reversion()
            && spec_reversion_step(st, time_stop, s).1.target == 0
            && !spec_reversion_step(st, time_stop, s).1.entered,
        s.z_available && st.position == -1 && s.at_or_below_neg_exit ==> spec_reversion_step(st, time_stop, s).0 == flat_reversion()
            && spec_reversion_step(st, time_stop, s).1.target == 0
            && !spec_reversion_step(st, time_stop, s).1.entered,
        s.z_available && st.position != 0 && !s.stop_loss_hit
            && !(time_stop matches Some(t) && st.bars_held + 1 >= t)
            && !(st.position == 1 && s.at_or_above_exit) && !(st.position == -1 && s.at_or_below_neg_exit)
            ==> spec_reversion_step(st, time_stop, s).0.position == st.position
            && spec_reversion_step(st, time_stop, s).0.bars_held == st.bars_held + 1
            && spec_reversion_step(st, time_stop, s).1.target == (if s.next_open_positive { st.position } else { 0 })
            && !spec_reversion_step(st, time_stop, s).1.entered,
        s.z_available && st.position == 0 && s.at_or_below_neg_entry
            ==> spec_reversion_step(st, time_stop, s).0 == (ReversionState { position: 1, bars_held: 0 })
            && spec_reversion_step(st, time_stop, s).1.entered
            && spec_reversion_step(st, time_stop, s).1.target == (if s.next_open_positive { 1i8 } else { 0 }),
        s.z_available && st.position == 0 && !s.at_or_below_neg_entry && s.at_or_above_entry
            ==> spec_reversion_step(st, time_stop, s).0 == (ReversionState { position: -1i8, bars_held: 0 })
            && spec_reversion_step(st, time_stop, s).1.entered
            && spec_reversion_step(st, time_stop, s).1.target == (if s.next_open_positive { -1i8 } else { 0 }),
        s.z_available && st.position == 0 && !s.at_or_below_neg_entry && !s.at_or_above_entry
            ==> spec_reversion_step(st, time_stop, s).0 == st
            && spec_reversion_step(st, time_stop, s).1.target == 0
            && !spec_reversion_step(st, time_stop, s).1.entered,
{
}

/// What holds of the mean-reversion state between steps.
pub open spec fn reversion_invariant(st: ReversionState, time_stop: Option<usize>) -> bool {
    &&& is_sign(st.position)
    &&& st.position == 0 ==> st.bars_held == 0
    &&& (st.position != 0 ==> (time_stop matches Some(ts) ==> st.bars_held == 0 || st.bars_held < ts))
}

/// Under a time stop of `ts` bars a position is never carried past `ts` counted
/// bars: the step on which the count reaches `ts` closes it. Flat states count no
/// bars, and targets are always long, short or flat.
pub proof fn lemma_reversion_step_invariant(st: ReversionState, time_stop: Option<usize>, s: ReversionSignal)
    requires
        reversion_invariant(st, time_stop),
        st.bars_held < usize::MAX,
    ensures
        reversion_invariant(spec_reversion_step(st, time_stop, s).0, time_stop),
        is_sign(spec_reversion_step(st, time_stop, s).1.target),
        spec_reversion_step(st, time_stop, s).1.entered ==> st.position == 0,
{
}

/// The state after a run of mean-reversion steps over `signals`, in order.
pub open spec fn run_reversion(st: ReversionState, time_stop: Option<usize>, signals: Seq<ReversionSignal>) -> ReversionState
    decreases signals.len(),
{
    if signals.len() == 0 {
        st
    } else {
        spec_reversion_step(run_reversion(st, time_stop, signals.drop_last()), time_stop, signals.last()).0
    }
}

/// The decision of the last step of a run over `signals` (which is not empty).
pub open spec fn last_reversion_decision(st: ReversionState, time_stop: Option<usize>, signals: Seq<ReversionSignal>) -> ReversionDecision {
    spec_reversion_step(run_reversion(st, time_stop, signals.drop_last()), time_stop, signals.last()).1
}

/// A bar on which a position of sign `side` is neither stopped out by its
/// stop-loss nor exited on its z-score, and whose z-score is known.
pub open spec fn quiet_for(side: i8, s: ReversionSignal) -> bool {
    &&& s.z_available
    &&& !s.stop_loss_hit
    &&& !(side > 0 && s.at_or_above_exit)
    &&& !(side < 0 && s.at_or_below_neg_exit)
}

/// Counted across calls, a position entered on one step has held `n` bars after
/// `n` further steps on which nothing closes it, as long as the time stop (if any)
/// is above `n`.
pub proof fn lemma_reversion_holds_count(side: i8, time_stop: Option<usize>, signals: Seq<ReversionSignal>)
    requires
        side == 1 || side == -1,
        signals.len() < usize::MAX,
        forall|k: int| 0 <= k < signals.len() ==> quiet_for(side, #[trigger] signals[k]),
        time_stop matches Some(t) ==> signals.len() < t,
    ensures
        run_reversion(ReversionState { position: side, bars_held: 0 }, time_stop, signals)
            == (ReversionState { position: side, bars_held: signals.len() as usize }),
    decreases signals.len(),
{
    if signals.len() > 0 {
        let pre = signals.drop_last();
        assert forall|k: int| 0 <= k < pre.len() implies quiet_for(side, #[trigger] pre[k]) by {
            assert(pre[k] == signals[k]);
        }
        lemma_reversion_holds_count(side, time_stop, pre);
        assert(quiet_for(side, signals[signals.len() - 1]));
    }
}

/// The time stop of `t` bars (`t >= 1`) fires on exactly the `t`-th step after the
/// entry when nothing else closes the position first: that step flattens the
/// position and targets flat.
pub proof fn lemma_reversion_time_stop_fires(side: i8, t: usize, signals: Seq<ReversionSignal>)
    requires
        side == 1 || side == -1,
        t >= 1,
        signals.len() == t,
        forall|k: int| 0 <= k < signals.len() ==> quiet_for(side, #[trigger] signals[k]),
    ensures
        run_reversion(ReversionState { position: side, bars_held: 0 }, Some(t), signals) == flat_reversion(),
        last_reversion_decision(ReversionState { position: side, bars_held: 0 }, Some(t), signals).target == 0,
        !last_reversion_decision(ReversionState { position: side, bars_held: 0 }, Some(t), signals).entered,
{
    let pre = signals.drop_last();
    assert forall|k: int| 0 <= k < pre.len() implies quiet_for(side, #[trigger] pre[k]) by {
        assert(pre[k] == signals[k]);
    }
    lemma_reversion_holds_count(side, Some(t), pre);
    assert(quiet_for(side, signals[signals.len() - 1]));
}

// ---------------------------------------------------------------------------
// Donchian breakout
// ---------------------------------------------------------------------------

/// What the breakout rules read at a bar's close.
#[derive(Clone, Copy, Debug, PartialEq, Eq, Structural)]
pub struct BreakoutSignal {
    /// The fixed ATR stop is set and the close has reached it from the entry price.
    pub fixed_stop_hit: bool,
    /// The trailing ATR stop is on and the close has reached it from the best close
    /// since entry.
    pub trailing_stop_hit: bool,
    /// Both channel bounds are known at this bar.
    pub channel_available: bool,
    /// The close is above the upper channel bound.
    pub close_above_upper: bool,
    /// The close is below the lower channel bound.
    pub close_below_lower: bool,
    /// The next bar's open price is above zero.
    pub next_open_positive: bool,
}

/// The decision of one breakout step.
#[derive(Clone, Copy, Debug, PartialEq, Eq, Structural)]
pub struct BreakoutDecision {
    /// The position after the step.
    pub position: i8,
    /// Target position sign from the next open.
    pub target: i8,
    /// A stop closed the position (the caller forgets its entry and trailing prices).
    pub stopped: bool,
    /// A position was entered or reversed at the next open (the caller records the
    /// entry price and restarts the trailing reference at the close).
    pub entered: bool,
}

pub open spec fn spec_breakout_step(position: i8, s: BreakoutSignal) -> BreakoutDecision {
    let stopped = position != 0 && (s.fixed_stop_hit || s.trailing_stop_hit);
    let after_stop: i8 = if stopped { 0 } else { position };
    let (pos, entered) = if s.channel_available && s.close_above_upper {
        if after_stop != 1 { (1i8, true) } else { (after_stop, false) }
    } else if s.channel_available && s.close_below_lower {
        if after_stop != -1 { (-1i8, true) } else { (after_stop, false) }
    } else {
        (after_stop, false)
    };
    BreakoutDecision { position: pos, target: if s.next_open_positive { pos } else { 0 }, stopped, entered }
}

/// Decides the position to hold from the next open.
///
/// A held position is first closed by the fixed stop, then by the trailing stop.
/// Then a close above the upper channel bound goes long and one below the lower
/// bound goes short, unless already on that side. The target is the resulting
/// position, or flat when the next open is not positive.
pub fn breakout_step(position: i8, signal: BreakoutSignal) -> (d: BreakoutDecision)
    requires
        is_sign(position),
    ensures
        d == spec_breakout_step(position, signal),
        is_sign(d.position),
        is_sign(d.target),
{
    let mut pos = position;
    let mut stopped = false;
    if pos != 0 {
        if signal.fixed_stop_hit {
            pos = 0;
            stopped = true;
        }
        if pos != 0 && signal.trailing_stop_hit {
            pos = 0;
            stopped = true;
        }
    }
    let mut entered = false;
    if signal.channel_available {
        if signal.close_above_upper {
            if pos != 1 {
                pos = 1;
                entered = true;
            }
        } else if signal.close_below_lower {
            if pos != -1 {
                pos = -1;
                entered = true;
            }
        }
    }
    let target: i8 = if signal.next_open_positive { pos } else { 0 };
    BreakoutDecision { position: pos, target, stopped, entered }
}

/// The breakout rules, case by case. A stop fires exactly when a position is held
/// and the fixed or trailing stop is hit; it leaves the position flat before the
/// channel is read. A close above the upper bound then gives a long position, and a
/// close below the lower bound (not above the upper) a short one, from any starting
/// position; either counts as an entry exactly when the position after the stops was
/// not already on that side. Otherwise the position after the stops is kept and
/// nothing is entered. The target is the position when the next open is positive,
/// else flat.
pub proof fn lemma_breakout_rules(position: i8, s: BreakoutSignal)
    requires
        is_sign(position),
    ensures
        spec_breakout_step(position, s).stopped == (position != 0 && (s.fixed_stop_hit || s.trailing_stop_hit)),
        s.channel_available && s.close_above_upper ==> spec_breakout_step(position, s).position == 1
            && (spec_breakout_step(position, s).entered
                <==> (if position != 0 && (s.fixed_stop_hit || s.trailing_stop_hit) { 0i8 } else { position }) != 1),
        s.channel_available && !s.close_above_upper && s.close_below_lower
            ==> spec_breakout_step(position, s).position == -1
            && (spec_breakout_step(position, s).entered
                <==> (if position != 0 && (s.fixed_stop_hit || s.trailing_stop_hit) { 0i8 } else { position }) != -1),
        !(s.channel_available && (s.close_above_upper || s.close_below_lower))
            ==> spec_breakout_step(position, s).position
                == (if position != 0 && (s.fixed_stop_hit || s.trailing_stop_hit) { 0i8 } else { position })
            && !spec_breakout_step(position, s).entered,
        spec_breakout_step(position, s).target
            == (if s.next_open_positive { spec_breakout_step(position, s).position } else { 0 }),
{
}

// ---------------------------------------------------------------------------
// Parameter checks
// ---------------------------------------------------------------------------

fn invalid(msg: &str) -> (e: EngineError)
    ensures
        e matches EngineError::InvalidInput(m) && m@ == msg@,
{
    EngineError::InvalidInput(String::from_str(msg))
}

/// The error message of a check, if it failed.
pub open spec fn spec_message(r: Result<(), EngineError>) -> Option<Seq<char>> {
    match r {
        Ok(()) => None,
        Err(EngineError::InvalidInput(m)) => Some(m@),
    }
}

/// Parameters of the moving-average crossover: `0 < fast < slow`, and for
/// volatility-target sizing a lookback of at least 2 with a positive target and a
/// positive leverage cap (`vol_target_positive`, `max_leverage_positive`).
pub fn check_ma_crossover_params(
    fast: usize,
    slow: usize,
    sizing_mode: SizingMode,
    vol_lookback: usize,
    vol_target_positive: bool,
    max_leverage_positive: bool,
) -> (r: Result<(), EngineError>)
    ensures
        spec_message(r) == (if fast == 0 || slow == 0 || fast >= slow {
            Some("ma_crossover requires 0 < fast < slow"@)
        } else if sizing_mode == SizingMode::VolTarget && (vol_lookback < 2 || !vol_target_positive || !max_leverage_positive) {
            Some("invalid vol-target params"@)
        } else {
            None
        }),
{
    if fast == 0 || slow == 0 || fast >= slow {
        return Err(invalid("ma_crossover requires 0 < fast < slow"));
    }
    match sizing_mode {
        SizingMode::VolTarget => {
            if vol_lookback < 2 || !vol_target_positive || !max_leverage_positive {
                return Err(invalid("invalid vol-target params"));
            }
        },
        SizingMode::FixedNotional => {},
    }
    Ok(())
}

/// Parameters of z-score mean reversion: a lookback of at least 5 and a positive
/// entry threshold, a non-negative exit threshold, and a stop-loss, when set,
/// strictly between 0 and 100 percent (`stop_loss_valid`).
pub fn check_zscore_params(
    lookback: usize,
    entry_z_positive: bool,
    exit_z_nonnegative: bool,
    stop_loss_valid: bool,
) -> (r: Result<(), EngineError>)
    ensures
        spec_message(r) == (if lookback < 5 || !entry_z_positive {
            Some("zscore_mr requires lookback>=5 and entry_z>0"@)
        } else if !exit_z_nonnegative {
            Some("exit_z must be >= 0"@)
        } else if !stop_loss_valid {
            Some("stop_loss_pct must be in (0,100)"@)
        } else {
            None
        }),
{
    if lookback < 5 || !entry_z_positive {
        return Err(invalid("zscore_mr requires lookback>=5 and entry_z>0"));
    }
    if !exit_z_nonnegative {
        return Err(invalid("exit_z must be >= 0"));
    }
    if !stop_loss_valid {
        return Err(invalid("stop_loss_pct must be in (0,100)"));
    }
    Ok(())
}

/// Parameters of the Donchian breakout: channel lookback and ATR period of at
/// least 5 each, and an ATR stop multiple, when set, above zero (`atr_stop_valid`).
pub fn check_donchian_params(lookback: usize, atr_period: usize, atr_stop_valid: bool) -> (r: Result<(), EngineError>)
    ensures
        spec_message(r) == (if lookback < 5 {
            Some("donchian lookback must be >= 5"@)
        } else if atr_period < 5 {
            Some("atr_period must be >= 5"@)
        } else if !atr_stop_valid {
            Some("atr_stop_mult must be > 0"@)
        } else {
            None
        }),
{
    if lookback < 5 {
        return Err(invalid("donchian lookback must be >= 5"));
    }
    if atr_period < 5 {
        return Err(invalid("atr_period must be >= 5"));
    }
    if !atr_stop_valid {
        return Err(invalid("atr_stop_mult must be > 0"));
    }
    Ok(())
}

/// Parameters of the pairs strategy: a lookback of at least 10, a positive entry
/// threshold and a non-negative exit threshold.
pub fn check_pairs_params(lookback: usize, entry_z_positive: bool, exit_z_nonnegative: bool) -> (r: Result<(), EngineError>)
    ensures
        spec_message(r) == (if lookback < 10 || !entry_z_positive || !exit_z_nonnegative {
            Some("pairs_zscore invalid params"@)
        } else {
            None
        }),
{
    if lookback < 10 || !entry_z_positive || !exit_z_nonnegative {
        return Err(invalid("pairs_zscore invalid params"));
    }
    Ok(())
}

} // verus!
