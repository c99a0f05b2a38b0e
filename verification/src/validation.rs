//! Checks that a backtest's inputs are usable, and which runner takes them.
//!
//! Price checks compare floating-point prices and are made by the caller; it
//! hands in their outcome as booleans. Everything else is decided here.

use vstd::prelude::*;
use vstd::string::*;
use crate::types::StrategyId;

verus! {

/// Why the engine refused a backtest.
#[derive(Debug)]
pub enum EngineError {
    InvalidInput(String),
}

/// The runner that a valid backtest goes to.
#[derive(Clone, Copy, Debug, PartialEq, Eq, Structural)]
pub enum Runner {
    SingleAsset,
    Pairs,
}

/// What the checks read of one symbol's bar series.
#[derive(Debug)]
pub struct SeriesFacts {
    /// Bar start times (Unix ms), in the order given.
    pub timestamps: Vec<i64>,
    /// Whether every open, high, low and close is above zero.
    pub prices_positive: bool,
}

/// Fewest bars a series must have.
pub const MIN_BARS: usize = 5;

pub open spec fn strictly_increasing(ts: Seq<i64>) -> bool {
    forall|k: int| 0 <= k < ts.len() - 1 ==> #[trigger] ts[k] < ts[k + 1]
}

/// The message prefix for the first fault of a series, if it has one.
pub open spec fn spec_series_fault(ts: Seq<i64>, prices_positive: bool) -> Option<Seq<char>> {
    if ts.len() < MIN_BARS {
        Some("not enough bars for "@)
    } else if !strictly_increasing(ts) {
        Some("bars not strictly increasing for "@)
    } else if !prices_positive {
        Some("non-positive prices for "@)
    } else {
        None
    }
}

/// The message for the first faulty series among the first `n`, if any.
pub open spec fn spec_first_series_fault(symbols: Seq<String>, series: Seq<SeriesFacts>, n: int) -> Option<Seq<char>>
    decreases n,
{
    if n <= 0 {
        None
    } else {
        match spec_first_series_fault(symbols, series, n - 1) {
            Some(m) => Some(m),
            None => match spec_series_fault(series[n - 1].timestamps@, series[n - 1].prices_positive) {
                Some(p) => Some(p + symbols[n - 1]@),
                None => None,
            },
        }
    }
}

/// The outcome of the input checks: the runner, or the error message.
pub open spec fn spec_check_inputs(
    symbols: Seq<String>,
    series: Seq<SeriesFacts>,
    capital_positive: bool,
    costs_nonnegative: bool,
    strategy: StrategyId,
) -> Result<Runner, Seq<char>> {
    if symbols.len() == 0 || series.len() == 0 || symbols.len() != series.len() {
        Err("symbols/bars length mismatch"@)
    } else if !capital_positive {
        Err("initial_capital must be > 0"@)
    } else if !costs_nonnegative {
        Err("fees_bps and slippage_bps must be >= 0"@)
    } else if spec_first_series_fault(symbols, series, series.len() as int) is Some {
        Err(spec_first_series_fault(symbols, series, series.len() as int)->Some_0)
    } else if strategy == StrategyId::PairsZscore {
        if series.len() == 2 {
            Ok(Runner::Pairs)
        } else {
            Err("pairs_zscore requires exactly 2 symbols"@)
        }
    } else if series.len() == 1 {
        Ok(Runner::SingleAsset)
    } else {
        Err("single-asset strategies require exactly 1 symbol"@)
    }
}

/// The result of the checks, with the error's message taken out.
pub open spec fn spec_outcome(r: Result<Runner, EngineError>) -> Result<Runner, Seq<char>> {
    match r {
        Ok(k) => Ok(k),
        Err(EngineError::InvalidInput(m)) => Err(m@),
    }
}

/// Once a fault is found among the first `m` series, looking further keeps it.
proof fn lemma_first_fault_stable(symbols: Seq<String>, series: Seq<SeriesFacts>, m: int, n: int)
    requires
        0 <= m <= n,
        spec_first_series_fault(symbols, series, m) is Some,
    ensures
        spec_first_series_fault(symbols, series, n) == spec_first_series_fault(symbols, series, m),
    decreases n - m,
{
    if n > m {
        lemma_first_fault_stable(symbols, series, m, n - 1);
    }
}

fn invalid(prefix: &str, symbol: &String) -> (e: EngineError)
    ensures
        e matches EngineError::InvalidInput(m) && m@ == prefix@ + symbol@,
{
    EngineError::InvalidInput(String::from_str(prefix).concat(symbol.as_str()))
}

/// Checks a backtest's inputs and picks its runner.
///
/// In order: there is at least one symbol and exactly one bar series per symbol;
/// the initial capital is positive; fees and slippage are not negative; then, symbol
/// by symbol, the series has at least 5 bars, strictly increasing timestamps and
/// positive prices. A pairs strategy needs exactly two symbols, any other strategy
/// exactly one. The first check that fails gives the error.
///
/// `capital_positive` is whether the initial capital is not `<= 0`, and
/// `costs_nonnegative` whether neither fees nor slippage is `< 0`.
pub fn check_backtest_inputs(
    symbols: &Vec<String>,
    series: &Vec<SeriesFacts>,
    capital_positive: bool,
    costs_nonnegative: bool,
    strategy: StrategyId,
) -> (r: Result<Runner, EngineError>)
    ensures
        spec_outcome(r) == spec_check_inputs(symbols@, series@, capital_positive, costs_nonnegative, strategy),
{
    if symbols.len() == 0 || series.len() == 0 || symbols.len() != series.len() {
        return Err(EngineError::InvalidInput(String::from_str("symbols/bars length mismatch")));
    }
    if !capital_positive {
        return Err(EngineError::InvalidInput(String::from_str("initial_capital must be > 0")));
    }
    if !costs_nonnegative {
        return Err(EngineError::InvalidInput(String::from_str("fees_bps and slippage_bps must be >= 0")));
    }
    let n = series.len();
    let mut k: usize = 0;
    while k < n
        invariant
            k <= n,
            n > 0,
            capital_positive,
            costs_nonnegative,
            n == series@.len(),
            n == symbols@.len(),
            spec_first_series_fault(symbols@, series@, k as int) is None,
        decreases n - k,
    {
        let ts = &series[k].timestamps;
        if ts.len() < MIN_BARS {
            proof {
                assert(spec_first_series_fault(symbols@, series@, k + 1) == Some("not enough bars for "@ + symbols@[k as int]@));
                lemma_first_fault_stable(symbols@, series@, k + 1, n as int);
            }
            return Err(invalid("not enough bars for ", &symbols[k]));
        }
        let mut j: usize = 1;
        while j < ts.len()
            invariant
                1 <= j <= ts@.len(),
                ts@.len() >= MIN_BARS,
                capital_positive,
                costs_nonnegative,
                k < n,
                n == series@.len(),
                n == symbols@.len(),
                ts@ == series@[k as int].timestamps@,
                spec_first_series_fault(symbols@, series@, k as int) is None,
                forall|i: int| 0 <= i < j - 1 ==> #[trigger] ts@[i] < ts@[i + 1],
            decreases ts@.len() - j,
        {
            if ts[j] <= ts[j - 1] {
                assert(!strictly_increasing(ts@)) by {
                    assert(!(ts@[(j - 1) as int] < ts@[(j - 1) as int + 1]));
                }
                assert(spec_first_series_fault(symbols@, series@, k + 1) == Some("bars not strictly increasing for "@ + symbols@[k as int]@));
                proof {
                lemma_first_fault_stable(symbols@, series@, k + 1, n as int);
            }
            return Err(invalid("bars not strictly increasing for ", &symbols[k]));
            }
            j = j + 1;
        }
        assert(strictly_increasing(ts@));
        if !series[k].prices_positive {
            proof {
                assert(spec_first_series_fault(symbols@, series@, k + 1) == Some("non-positive prices for "@ + symbols@[k as int]@));
                lemma_first_fault_stable(symbols@, series@, k + 1, n as int);
            }
            return Err(invalid("non-positive prices for ", &symbols[k]));
        }
        k = k + 1;
    }
    match strategy {
        StrategyId::PairsZscore => {
            if n == 2 {
                Ok(Runner::Pairs)
            } else {
                Err(EngineError::InvalidInput(String::from_str("pairs_zscore requires exactly 2 symbols")))
            }
        },
        _ => {
            if n == 1 {
                Ok(Runner::SingleAsset)
            } else {
                Err(EngineError::InvalidInput(String::from_str("single-asset strategies require exactly 1 symbol")))
            }
        },
    }
}

/// Checks that the two series of a pair line up bar for bar.
///
/// Fails when their lengths differ, then when any two bars at the same position
/// have different timestamps.
pub fn check_pair_alignment(a: &Vec<i64>, b: &Vec<i64>) -> (r: Result<(), EngineError>)
    ensures
        a@.len() != b@.len() ==> (r matches Err(EngineError::InvalidInput(m)) && m@ == "pairs bars must be aligned and same length"@),
        a@.len() == b@.len() && a@ != b@ ==> (r matches Err(EngineError::InvalidInput(m)) && m@ == "pairs bars must have identical timestamps"@),
        r is Ok <==> a@ == b@,
{
    if a.len() != b.len() {
        return Err(EngineError::InvalidInput(String::from_str("pairs bars must be aligned and same length")));
    }
    let mut i: usize = 0;
    while i < a.len()
        invariant
            i <= a@.len(),
            a@.len() == b@.len(),
            forall|j: int| 0 <= j < i ==> a@[j] == b@[j],
        decreases a@.len() - i,
    {
        if a[i] != b[i] {
            return Err(EngineError::InvalidInput(String::from_str("pairs bars must have identical timestamps")));
        }
        i = i + 1;
    }
    assert(a@ =~= b@);
    Ok(())
}

} // verus!
