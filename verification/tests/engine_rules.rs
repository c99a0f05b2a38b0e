use backtester::ledger::TradeBook;
use backtester::signals::{
    breakout_step, check_donchian_params, check_ma_crossover_params, check_pairs_params, check_zscore_params,
    next_pair_side, crossover_step, BreakoutSignal, CrossoverSignal, ReversionSignal, ReversionState, SpreadSignal,
};
use backtester::timing::median_gap_twice_ms;
use backtester::types::{SizingMode, StrategyId};
use backtester::validation::{check_backtest_inputs, check_pair_alignment, EngineError, Runner, SeriesFacts};

fn msg<T: std::fmt::Debug>(r: Result<T, EngineError>) -> String {
    match r {
        Err(EngineError::InvalidInput(m)) => m,
        Ok(v) => panic!("expected an error, got {:?}", v),
    }
}

fn series(ts: &[i64], prices_positive: bool) -> SeriesFacts {
    SeriesFacts { timestamps: ts.to_vec(), prices_positive }
}

const GOOD: [i64; 5] = [1000, 2000, 3000, 4000, 5000];

#[test]
fn inputs_single_asset_and_pairs_runners() {
    let one = vec!["SPY".to_string()];
    let r = check_backtest_inputs(&one, &vec![series(&GOOD, true)], true, true, StrategyId::MaCrossover);
    assert_eq!(r.unwrap(), Runner::SingleAsset);
    let two = vec!["AAPL".to_string(), "MSFT".to_string()];
    let r = check_backtest_inputs(&two, &vec![series(&GOOD, true), series(&GOOD, true)], true, true, StrategyId::PairsZscore);
    assert_eq!(r.unwrap(), Runner::Pairs);
}

#[test]
fn inputs_errors_in_order() {
    let one = vec!["SPY".to_string()];
    let two = vec!["A".to_string(), "B".to_string()];
    assert_eq!(msg(check_backtest_inputs(&vec![], &vec![], true, true, StrategyId::ZscoreMr)), "symbols/bars length mismatch");
    assert_eq!(msg(check_backtest_inputs(&two, &vec![series(&GOOD, true)], true, true, StrategyId::ZscoreMr)), "symbols/bars length mismatch");
    assert_eq!(msg(check_backtest_inputs(&one, &vec![series(&GOOD, true)], false, false, StrategyId::ZscoreMr)), "initial_capital must be > 0");
    assert_eq!(msg(check_backtest_inputs(&one, &vec![series(&GOOD, true)], true, false, StrategyId::ZscoreMr)), "fees_bps and slippage_bps must be >= 0");
    assert_eq!(msg(check_backtest_inputs(&one, &vec![series(&GOOD[..4], true)], true, true, StrategyId::ZscoreMr)), "not enough bars for SPY");
    assert_eq!(
        msg(check_backtest_inputs(&one, &vec![series(&[1, 2, 2, 3, 4], true)], true, true, StrategyId::ZscoreMr)),
        "bars not strictly increasing for SPY"
    );
    assert_eq!(msg(check_backtest_inputs(&one, &vec![series(&GOOD, false)], true, true, StrategyId::ZscoreMr)), "non-positive prices for SPY");
    // the first faulty symbol is reported
    assert_eq!(
        msg(check_backtest_inputs(&two, &vec![series(&GOOD, true), series(&[5, 4, 3, 2, 1], false)], true, true, StrategyId::PairsZscore)),
        "bars not strictly increasing for B"
    );
    assert_eq!(msg(check_backtest_inputs(&one, &vec![series(&GOOD, true)], true, true, StrategyId::PairsZscore)), "pairs_zscore requires exactly 2 symbols");
    assert_eq!(
        msg(check_backtest_inputs(&two, &vec![series(&GOOD, true), series(&GOOD, true)], true, true, StrategyId::DonchianBreakout)),
        "single-asset strategies require exactly 1 symbol"
    );
}

#[test]
fn pair_alignment() {
    assert!(check_pair_alignment(&vec![1, 2, 3], &vec![1, 2, 3]).is_ok());
    assert_eq!(msg(check_pair_alignment(&vec![1, 2, 3], &vec![1, 2])), "pairs bars must be aligned and same length");
    assert_eq!(msg(check_pair_alignment(&vec![1, 2, 3], &vec![1, 5, 3])), "pairs bars must have identical timestamps");
}

#[test]
fn median_gap_odd_even_and_empty() {
    // gaps 1000, 1000, 2000: median 1000 ms
    assert_eq!(median_gap_twice_ms(&vec![0, 1000, 2000, 4000]), 2000);
    // gaps 1000, 2000: median 1500 ms
    assert_eq!(median_gap_twice_ms(&vec![0, 1000, 3000]), 3000);
    // gaps out of order are sorted; non-positive gaps are ignored
    assert_eq!(median_gap_twice_ms(&vec![0, 5000, 5000, 4000, 4100, 4400]), 2 * 300);
    assert_eq!(median_gap_twice_ms(&vec![7]), 0);
    assert_eq!(median_gap_twice_ms(&vec![]), 0);
    assert_eq!(median_gap_twice_ms(&vec![9, 9, 3]), 0);
    // one day in ms, as daily bars have
    assert_eq!(median_gap_twice_ms(&vec![0, 86_400_000, 172_800_000]), 172_800_000);
}

#[test]
fn trade_book_numbers_trades_and_measures_holding() {
    let mut book = TradeBook::new();
    // long from bar 3
    let u = book.on_position(3, 300, 1);
    assert_eq!(u.closed, None);
    assert_eq!(u.opened, Some(1));
    // still long at bar 5: nothing happens
    let u = book.on_position(5, 500, 1);
    assert_eq!(u.closed, None);
    assert_eq!(u.opened, None);
    // flip to short at bar 8: trade 1 closed after 5 bars, trade 2 opened
    let u = book.on_position(8, 800, -1);
    let c = u.closed.unwrap();
    assert_eq!((c.id, c.direction, c.entry_index, c.exit_index, c.holding_period_bars), (1, 1, 3, 8, 5));
    assert_eq!((c.entry_time, c.exit_time), (300, 800));
    assert_eq!(u.opened, Some(2));
    // flat at bar 10
    let u = book.on_position(10, 1000, 0);
    let c = u.closed.unwrap();
    assert_eq!((c.id, c.direction, c.holding_period_bars), (2, -1, 2));
    assert_eq!(u.opened, None);
    assert!(book.open.is_none());
    assert_eq!(book.next_id, 3);
    // flat again: nothing
    let u = book.on_position(11, 1100, 0);
    assert_eq!(u.closed, None);
    assert_eq!(u.opened, None);
}

fn spread(available: bool, z: f64, entry: f64, exit: f64) -> SpreadSignal {
    SpreadSignal {
        available,
        at_or_above_entry: z >= entry,
        at_or_below_neg_entry: z <= -entry,
        at_or_above_exit: z >= exit,
        at_or_below_neg_exit: z <= -exit,
    }
}

#[test]
fn pairs_side_enters_and_exits() {
    let (entry, exit) = (1.0, 0.0);
    assert_eq!(next_pair_side(0, spread(true, 1.5, entry, exit)), -1);
    assert_eq!(next_pair_side(0, spread(true, -1.5, entry, exit)), 1);
    assert_eq!(next_pair_side(0, spread(true, 0.5, entry, exit)), 0);
    assert_eq!(next_pair_side(1, spread(true, -0.5, entry, exit)), 1);
    assert_eq!(next_pair_side(1, spread(true, 0.1, entry, exit)), 0);
    assert_eq!(next_pair_side(-1, spread(true, 0.1, entry, exit)), -1);
    assert_eq!(next_pair_side(-1, spread(true, -0.1, entry, exit)), 0);
    assert_eq!(next_pair_side(-1, spread(false, 0.0, entry, exit)), 0);
}

fn rev(z: Option<f64>, stop: bool) -> ReversionSignal {
    let (entry, exit) = (2.0, 0.5);
    match z {
        None => ReversionSignal {
            z_available: false,
            stop_loss_hit: false,
            at_or_above_exit: false,
            at_or_below_neg_exit: false,
            at_or_below_neg_entry: false,
            at_or_above_entry: false,
            next_open_positive: true,
        },
        Some(z) => ReversionSignal {
            z_available: true,
            stop_loss_hit: stop,
            at_or_above_exit: z >= exit,
            at_or_below_neg_exit: z <= -exit,
            at_or_below_neg_entry: z <= -entry,
            at_or_above_entry: z >= entry,
            next_open_positive: true,
        },
    }
}

#[test]
fn reversion_time_stop_closes_after_held_bars() {
    let mut st = ReversionState::new();
    let d = st.step(Some(2), rev(Some(-2.5), false));
    assert_eq!((d.target, d.entered), (1, true));
    let d = st.step(Some(2), rev(Some(-1.0), false));
    assert_eq!((d.target, st.bars_held), (1, 1));
    // a missing z-score neither counts nor moves the position, but targets flat
    let d = st.step(Some(2), rev(None, false));
    assert_eq!((d.target, st.position, st.bars_held), (0, 1, 1));
    // second counted bar reaches the time stop
    let d = st.step(Some(2), rev(Some(-1.0), false));
    assert_eq!((d.target, st.position, st.bars_held), (0, 0, 0));
}

#[test]
fn reversion_exits_and_stop_loss() {
    let mut st = ReversionState::new();
    assert_eq!(st.step(None, rev(Some(3.0), false)).target, -1);
    // short exits once z falls to -exit_z
    assert_eq!(st.step(None, rev(Some(0.0), false)).target, -1);
    assert_eq!(st.step(None, rev(Some(-0.5), false)).target, 0);
    assert_eq!(st.position, 0);
    // stop-loss closes a long
    assert_eq!(st.step(None, rev(Some(-3.0), false)).target, 1);
    let d = st.step(None, rev(Some(-3.0), true));
    assert_eq!((d.target, d.entered, st.position), (0, false, 0));
    // a non-positive next open targets flat but keeps the entry
    let mut sig = rev(Some(-3.0), false);
    sig.next_open_positive = false;
    let d = st.step(None, sig);
    assert_eq!((d.target, d.entered, st.position), (0, true, 1));
}

fn brk(fixed: bool, trailing: bool, above: bool, below: bool) -> BreakoutSignal {
    BreakoutSignal {
        fixed_stop_hit: fixed,
        trailing_stop_hit: trailing,
        channel_available: true,
        close_above_upper: above,
        close_below_lower: below,
        next_open_positive: true,
    }
}

#[test]
fn breakout_entries_stops_and_reversals() {
    let d = breakout_step(0, brk(false, false, true, false));
    assert_eq!((d.position, d.target, d.entered, d.stopped), (1, 1, true, false));
    let d = breakout_step(1, brk(false, false, true, false));
    assert_eq!((d.position, d.entered), (1, false));
    let d = breakout_step(1, brk(false, false, false, true));
    assert_eq!((d.position, d.entered), (-1, true));
    let d = breakout_step(-1, brk(true, false, false, false));
    assert_eq!((d.position, d.target, d.stopped), (0, 0, true));
    let d = breakout_step(-1, brk(false, true, false, false));
    assert_eq!((d.position, d.stopped), (0, true));
    // stops only apply to a held position
    let d = breakout_step(0, brk(true, true, false, false));
    assert_eq!((d.position, d.stopped), (0, false));
    let mut s = brk(false, false, true, false);
    s.channel_available = false;
    assert_eq!(breakout_step(0, s).position, 0);
}

fn param_msg(r: Result<(), EngineError>) -> Option<String> {
    match r {
        Ok(()) => None,
        Err(EngineError::InvalidInput(m)) => Some(m),
    }
}

#[test]
fn strategy_parameter_checks() {
    assert_eq!(param_msg(check_ma_crossover_params(3, 6, SizingMode::FixedNotional, 10, true, true)), None);
    assert_eq!(
        param_msg(check_ma_crossover_params(6, 6, SizingMode::FixedNotional, 10, true, true)).as_deref(),
        Some("ma_crossover requires 0 < fast < slow")
    );
    assert_eq!(
        param_msg(check_ma_crossover_params(3, 6, SizingMode::VolTarget, 1, true, true)).as_deref(),
        Some("invalid vol-target params")
    );
    assert_eq!(param_msg(check_ma_crossover_params(3, 6, SizingMode::FixedNotional, 1, false, false)), None);
    assert_eq!(param_msg(check_zscore_params(4, true, true, true)).as_deref(), Some("zscore_mr requires lookback>=5 and entry_z>0"));
    assert_eq!(param_msg(check_zscore_params(20, true, false, true)).as_deref(), Some("exit_z must be >= 0"));
    assert_eq!(param_msg(check_zscore_params(20, true, true, false)).as_deref(), Some("stop_loss_pct must be in (0,100)"));
    assert_eq!(param_msg(check_zscore_params(20, true, true, true)), None);
    assert_eq!(param_msg(check_donchian_params(4, 14, true)).as_deref(), Some("donchian lookback must be >= 5"));
    assert_eq!(param_msg(check_donchian_params(20, 4, true)).as_deref(), Some("atr_period must be >= 5"));
    assert_eq!(param_msg(check_donchian_params(20, 14, false)).as_deref(), Some("atr_stop_mult must be > 0"));
    assert_eq!(param_msg(check_pairs_params(9, true, true)).as_deref(), Some("pairs_zscore invalid params"));
    assert_eq!(param_msg(check_pairs_params(10, true, true)), None);
}

#[test]
fn reversion_time_stop_counts_across_calls() {
    // entered long, then T = 4 quiet bars: held 1, 2, 3, then the 4th closes it
    let mut st = ReversionState::new();
    assert!(st.step(Some(4), rev(Some(-2.5), false)).entered);
    for k in 1..4 {
        let d = st.step(Some(4), rev(Some(-1.0), false));
        assert_eq!((d.target, st.position, st.bars_held), (1, 1, k));
    }
    let d = st.step(Some(4), rev(Some(-1.0), false));
    assert_eq!((d.target, d.entered, st.position, st.bars_held), (0, false, 0, 0));
    // without a time stop the count keeps growing
    let mut st = ReversionState::new();
    st.step(None, rev(Some(2.5), false));
    for _ in 0..10 {
        st.step(None, rev(Some(1.0), false));
    }
    assert_eq!((st.position, st.bars_held), (-1, 10));
}

fn cross(diff: Option<f64>, stop: bool) -> CrossoverSignal {
    match diff {
        None => CrossoverSignal {
            available: false,
            fast_above_slow: false,
            fast_below_slow: false,
            stop_loss_hit: false,
            next_open_positive: true,
            sizing_ready: true,
        },
        Some(d) => CrossoverSignal {
            available: true,
            fast_above_slow: d > 0.0,
            fast_below_slow: d < 0.0,
            stop_loss_hit: stop,
            next_open_positive: true,
            sizing_ready: true,
        },
    }
}

#[test]
fn crossover_follows_the_averages() {
    let d = crossover_step(0, cross(Some(1.5), false));
    assert_eq!((d.position, d.target, d.entered, d.stopped), (1, 1, true, false));
    let d = crossover_step(1, cross(Some(0.5), false));
    assert_eq!((d.position, d.target, d.entered), (1, 1, false));
    // a reversal is a new entry
    let d = crossover_step(1, cross(Some(-0.5), false));
    assert_eq!((d.position, d.target, d.entered), (-1, -1, true));
    // equal averages, unknown averages, a non-positive open or unready sizing: flat
    assert_eq!(crossover_step(1, cross(Some(0.0), false)).target, 0);
    assert_eq!(crossover_step(1, cross(None, false)).target, 0);
    let mut s = cross(Some(1.0), false);
    s.next_open_positive = false;
    assert_eq!(crossover_step(0, s).target, 0);
    let mut s = cross(Some(1.0), false);
    s.sizing_ready = false;
    assert_eq!(crossover_step(0, s).position, 0);
}

#[test]
fn crossover_stop_loss_closes_then_allows_reentry() {
    let d = crossover_step(1, cross(Some(1.0), true));
    assert_eq!((d.position, d.target, d.entered, d.stopped), (0, 0, false, true));
    // the stop does nothing to a flat book
    let d = crossover_step(0, cross(Some(1.0), true));
    assert_eq!((d.position, d.target, d.entered, d.stopped), (1, 1, true, false));
    // after a stop, the next bar takes the averages' side again
    let d = crossover_step(0, cross(Some(1.0), false));
    assert_eq!((d.position, d.entered), (1, true));
}
