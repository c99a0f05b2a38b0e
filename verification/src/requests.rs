//! Checks on a client's backtest request: timeframe, dates, symbols and price
//! adjustment, and the links handed back for a run.

use vstd::prelude::*;
use vstd::string::*;
use chrono::Datelike;
use crate::types::{StrategyId, Timeframe, UniverseItem, BacktestLinks};

verus! {

/// An error answered to an API client.
#[derive(Debug)]
pub enum ApiError {
    /// 400: the request is malformed.
    BadRequest(String),
    /// 404: no such run.
    NotFound(String),
    /// 500: the server could not serve the request.
    Internal(String),
}

impl ApiError {
    pub fn bad_request(msg: &str) -> (e: ApiError)
        ensures
            e matches ApiError::BadRequest(m) && m@ == msg@,
    {
        ApiError::BadRequest(String::from_str(msg))
    }
}

/// The message of a bad-request error.
pub open spec fn bad_request_msg<T>(r: Result<T, ApiError>) -> Option<Seq<char>> {
    match r {
        Err(ApiError::BadRequest(m)) => Some(m@),
        _ => None,
    }
}

// ---------------------------------------------------------------------------
// Timeframes
// ---------------------------------------------------------------------------

/// Whether `t` is the timeframe with these fields.
pub open spec fn timeframe_is(t: Timeframe, multiplier: u32, timespan: Seq<char>, label: Seq<char>) -> bool {
    t.multiplier == multiplier && t.timespan@ == timespan && t.label@ == label
}

fn text_eq(a: &str, b: &str) -> (r: bool)
    ensures
        r == (a@ == b@),
{
    a.to_owned() == b.to_owned()
}

fn timeframe(multiplier: u32, timespan: &str, label: &str) -> (t: Timeframe)
    ensures
        timeframe_is(t, multiplier, timespan@, label@),
{
    Timeframe { multiplier, timespan: String::from_str(timespan), label: String::from_str(label) }
}

/// Reads a timeframe label: `1D` is 1 day, `1H` 1 hour, `1m` 1 minute, `5m` 5
/// minutes; anything else is refused.
pub fn parse_timeframe(tf: &str) -> (r: Result<Timeframe, ApiError>)
    ensures
        tf@ == "1D"@ ==> (r matches Ok(t) && timeframe_is(t, 1, "day"@, "1D"@)),
        tf@ == "1H"@ ==> (r matches Ok(t) && timeframe_is(t, 1, "hour"@, "1H"@)),
        tf@ == "1m"@ ==> (r matches Ok(t) && timeframe_is(t, 1, "minute"@, "1m"@)),
        tf@ == "5m"@ ==> (r matches Ok(t) && timeframe_is(t, 5, "minute"@, "5m"@)),
        tf@ != "1D"@ && tf@ != "1H"@ && tf@ != "1m"@ && tf@ != "5m"@ ==> bad_request_msg(r)
            == Some("timeframe must be one of: 1D, 1H, 1m, 5m"@),
{
    proof {
        reveal_strlit("1D");
        reveal_strlit("1H");
        reveal_strlit("1m");
        reveal_strlit("5m");
        assert("1D"@[1] != "1H"@[1]);
        assert("1D"@[1] != "1m"@[1]);
        assert("1D"@[0] != "5m"@[0]);
        assert("1H"@[1] != "1m"@[1]);
        assert("1H"@[0] != "5m"@[0]);
        assert("1m"@[0] != "5m"@[0]);
    }
    if text_eq(tf, "1D") {
        Ok(timeframe(1, "day", "1D"))
    } else if text_eq(tf, "1H") {
        Ok(timeframe(1, "hour", "1H"))
    } else if text_eq(tf, "1m") {
        Ok(timeframe(1, "minute", "1m"))
    } else if text_eq(tf, "5m") {
        Ok(timeframe(5, "minute", "5m"))
    } else {
        Err(ApiError::bad_request("timeframe must be one of: 1D, 1H, 1m, 5m"))
    }
}

// ---------------------------------------------------------------------------
// Dates
// ---------------------------------------------------------------------------

/// The calendar format of request dates.
pub open spec fn date_format() -> Seq<char> {
    "%Y-%m-%d"@
}

/// Days since 0000-12-31 (0001-01-01 is day 1) of the date that `text` holds in `format`, as chrono
/// parses it; `None` when it does not parse.
pub uninterp spec fn date_days(text: Seq<char>, format: Seq<char>) -> Option<int>;

/// Parses a date and counts its days from the common era.
///
/// Calls `chrono::NaiveDate::parse_from_str` and `Datelike::num_days_from_ce`; the
/// contract claims only that the result is the parse named by `date_days`.
#[verifier::external_body]
pub(crate) fn parse_date_days(text: &str, format: &str) -> (r: Option<i32>)
    ensures
        match r {
            Some(d) => date_days(text@, format@) == Some(d as int),
            None => date_days(text@, format@) is None,
        },
{
    match chrono::NaiveDate::parse_from_str(text, format) {
        Ok(d) => Some(d.num_days_from_ce()),
        Err(_) => None,
    }
}

/// Today's date in UTC, in days from the common era.
///
/// Calls `chrono::Utc::now`; the result depends on the clock, so nothing is
/// claimed of it.
#[verifier::external_body]
fn today_days() -> (d: i32) {
    chrono::Utc::now().date_naive().num_days_from_ce()
}

/// The verdict on a date range, given the parsed dates and today's date.
pub open spec fn spec_date_verdict(start: Option<int>, end: Option<int>, today: int) -> Option<Seq<char>> {
    match (start, end) {
        (None, _) => Some("start must be YYYY-MM-DD"@),
        (Some(_), None) => Some("end must be YYYY-MM-DD"@),
        (Some(s), Some(e)) => if s >= e {
            Some("start must be < end"@)
        } else if e > today {
            Some("end must not be in the future"@)
        } else {
            None
        },
    }
}

/// Checks a date range given the parsed days: both dates must parse, the start
/// must come before the end, and the end must not be after `today`.
pub fn check_date_range(start: Option<i32>, end: Option<i32>, today: i32) -> (r: Result<(), ApiError>)
    ensures
        bad_request_msg(r) == spec_date_verdict(
            match start { Some(s) => Some(s as int), None => None },
            match end { Some(e) => Some(e as int), None => None },
            today as int,
        ),
        r is Ok || r is Err && bad_request_msg(r) is Some,
{
    match start {
        None => Err(ApiError::bad_request("start must be YYYY-MM-DD")),
        Some(s) => match end {
            None => Err(ApiError::bad_request("end must be YYYY-MM-DD")),
            Some(e) => {
                if s >= e {
                    Err(ApiError::bad_request("start must be < end"))
                } else if e > today {
                    Err(ApiError::bad_request("end must not be in the future"))
                } else {
                    Ok(())
                }
            },
        },
    }
}

/// Checks a request's date range (`YYYY-MM-DD` dates): both parse, start < end,
/// and the end is not after today (UTC).
///
/// The outcome is that of [`check_date_range`] on the two parsed dates and on
/// the date of today, whichever date that is.
pub fn validate_dates(start: &str, end: &str) -> (r: Result<(), ApiError>)
    ensures
        exists|today: int| bad_request_msg(r) == #[trigger] spec_date_verdict(
            date_days(start@, date_format()),
            date_days(end@, date_format()),
            today,
        ),
        r is Ok || bad_request_msg(r) is Some,
{
    let s = parse_date_days(start, "%Y-%m-%d");
    if s.is_none() {
        let r = check_date_range(None, None, 0);
        assert(bad_request_msg(r) == spec_date_verdict(date_days(start@, date_format()), date_days(end@, date_format()), 0));
        return r;
    }
    let e = parse_date_days(end, "%Y-%m-%d");
    if e.is_none() {
        let r = check_date_range(s, None, 0);
        assert(bad_request_msg(r) == spec_date_verdict(date_days(start@, date_format()), date_days(end@, date_format()), 0));
        return r;
    }
    let today = today_days();
    let r = check_date_range(s, e, today);
    assert(bad_request_msg(r) == spec_date_verdict(date_days(start@, date_format()), date_days(end@, date_format()), today as int));
    r
}

// ---------------------------------------------------------------------------
// Symbols
// ---------------------------------------------------------------------------

/// Number of symbols a strategy trades.
pub open spec fn spec_required_symbols(strategy: StrategyId) -> nat {
    if strategy == StrategyId::PairsZscore { 2 } else { 1 }
}

/// The pairs strategy trades two symbols, every other strategy one.
pub fn required_symbol_count(strategy: StrategyId) -> (n: usize)
    ensures
        n == spec_required_symbols(strategy),
{
    match strategy {
        StrategyId::PairsZscore => 2,
        _ => 1,
    }
}

/// Index of the first universe item with id `id`.
pub open spec fn spec_find_item(items: Seq<UniverseItem>, id: Seq<char>) -> Option<int>
    decreases items.len(),
{
    if items.len() == 0 {
        None
    } else {
        match spec_find_item(items.drop_last(), id) {
            Some(k) => Some(k),
            None => if items.last().id@ == id { Some(items.len() - 1) } else { None },
        }
    }
}

proof fn lemma_find_item_prefix(items: Seq<UniverseItem>, id: Seq<char>, k: int)
    requires
        0 <= k <= items.len(),
        spec_find_item(items.subrange(0, k), id) is Some,
    ensures
        spec_find_item(items, id) == spec_find_item(items.subrange(0, k), id),
    decreases items.len() - k,
{
    if k < items.len() {
        assert(items.drop_last().subrange(0, k) =~= items.subrange(0, k));
        lemma_find_item_prefix(items.drop_last(), id, k);
    } else {
        assert(items.subrange(0, k) =~= items);
    }
}

proof fn lemma_find_item_found(items: Seq<UniverseItem>, id: Seq<char>)
    ensures
        spec_find_item(items, id) matches Some(k) ==> 0 <= k < items.len() && items[k].id@ == id,
        spec_find_item(items, id) is None ==> forall|k: int| 0 <= k < items.len() ==> items[k].id@ != id,
    decreases items.len(),
{
    if items.len() > 0 {
        lemma_find_item_found(items.drop_last(), id);
        assert forall|k: int| 0 <= k < items.len() - 1 implies items[k] == #[trigger] items.drop_last()[k] by {}
        if spec_find_item(items, id) is None {
            assert forall|k: int| 0 <= k < items.len() implies items[k].id@ != id by {
                if k < items.len() - 1 {
                    assert(items[k] == items.drop_last()[k]);
                }
            }
        }
    }
}

/// Finds the first universe item whose id is `id`.
pub fn find_item(items: &Vec<UniverseItem>, id: &String) -> (r: Option<usize>)
    ensures
        match r {
            Some(k) => spec_find_item(items@, id@) == Some(k as int),
            None => spec_find_item(items@, id@) is None,
        },
{
    let mut k: usize = 0;
    while k < items.len()
        invariant
            k <= items@.len(),
            spec_find_item(items@.subrange(0, k as int), id@) is None,
        decreases items@.len() - k,
    {
        assert(items@.subrange(0, k as int + 1).drop_last() =~= items@.subrange(0, k as int));
        if items[k].id == *id {
            proof {
                lemma_find_item_prefix(items@, id@, k + 1);
            }
            return Some(k);
        }
        k = k + 1;
    }
    assert(items@.subrange(0, k as int) =~= items@);
    None
}

/// The resolution of symbol ids against the universe: item indices, or the first
/// unknown id.
pub open spec fn spec_resolve(items: Seq<UniverseItem>, ids: Seq<String>) -> Result<Seq<int>, Seq<char>>
    decreases ids.len(),
{
    if ids.len() == 0 {
        Ok(Seq::empty())
    } else {
        match spec_resolve(items, ids.drop_last()) {
            Err(m) => Err(m),
            Ok(found) => match spec_find_item(items, ids.last()@) {
                Some(k) => Ok(found.push(k)),
                None => Err(ids.last()@),
            },
        }
    }
}

proof fn lemma_resolve_err_prefix(items: Seq<UniverseItem>, ids: Seq<String>, k: int)
    requires
        0 <= k <= ids.len(),
        spec_resolve(items, ids.subrange(0, k)) is Err,
    ensures
        spec_resolve(items, ids) == spec_resolve(items, ids.subrange(0, k)),
    decreases ids.len() - k,
{
    if k < ids.len() {
        assert(ids.drop_last().subrange(0, k) =~= ids.subrange(0, k));
        lemma_resolve_err_prefix(items, ids.drop_last(), k);
    } else {
        assert(ids.subrange(0, k) =~= ids);
    }
}

/// Looks up each symbol id in the universe, in order.
///
/// Succeeds with the first matching item for every id, or fails with
/// `unknown symbol id: <id>` for the first id that no item has.
pub fn resolve_symbols(items: &Vec<UniverseItem>, ids: &Vec<String>) -> (r: Result<Vec<UniverseItem>, ApiError>)
    ensures
        match spec_resolve(items@, ids@) {
            Ok(found) => r matches Ok(v) && v@.len() == found.len()
                && forall|j: int| 0 <= j < found.len() ==> #[trigger] v@[j] == items@[found[j]],
            Err(id) => bad_request_msg(r) == Some("unknown symbol id: "@ + id),
        },
{
    let mut out: Vec<UniverseItem> = Vec::new();
    let mut j: usize = 0;
    while j < ids.len()
        invariant
            j <= ids@.len(),
            spec_resolve(items@, ids@.subrange(0, j as int)) matches Ok(found) && out@.len() == found.len()
                && forall|i: int| 0 <= i < found.len() ==> #[trigger] out@[i] == items@[found[i]],
        decreases ids@.len() - j,
    {
        let ghost pre = ids@.subrange(0, j as int);
        let ghost cur = ids@.subrange(0, j as int + 1);
        assert(cur.drop_last() =~= pre);
        match find_item(items, &ids[j]) {
            Some(k) => {
                proof {
                    lemma_find_item_found(items@, ids@[j as int]@);
                }
                out.push(items[k].clone());
            },
            None => {
                proof {
                    lemma_resolve_err_prefix(items@, ids@, j + 1);
                }
                return Err(ApiError::BadRequest(String::from_str("unknown symbol id: ").concat(ids[j].as_str())));
            },
        }
        j = j + 1;
    }
    assert(ids@.subrange(0, j as int) =~= ids@);
    Ok(out)
}

/// Whether prices are adjusted: as requested (adjusted by default), but never when
/// one of the symbols does not support it.
pub open spec fn spec_effective_adjusted(requested: Option<bool>, resolved: Seq<UniverseItem>) -> bool {
    (match requested { Some(b) => b, None => true })
        && forall|k: int| 0 <= k < resolved.len() ==> #[trigger] resolved[k].supports_adjusted
}

/// Decides whether a run uses adjusted prices.
pub fn effective_adjusted(requested: Option<bool>, resolved: &Vec<UniverseItem>) -> (adjusted: bool)
    ensures
        adjusted == spec_effective_adjusted(requested, resolved@),
{
    let mut adjusted = match requested {
        Some(b) => b,
        None => true,
    };
    let ghost start = adjusted;
    let mut k: usize = 0;
    while k < resolved.len()
        invariant
            k <= resolved@.len(),
            adjusted == (start && forall|i: int| 0 <= i < k ==> #[trigger] resolved@[i].supports_adjusted),
        decreases resolved@.len() - k,
    {
        if !resolved[k].supports_adjusted {
            adjusted = false;
        }
        k = k + 1;
    }
    adjusted
}

/// A request that passed the checks that involve no prices.
#[derive(Debug)]
pub struct CheckedRequest {
    pub timeframe: Timeframe,
    pub resolved: Vec<UniverseItem>,
    pub adjusted: bool,
}

/// Whether `label` is one of the timeframe labels.
pub open spec fn known_timeframe(label: Seq<char>) -> bool {
    label == "1D"@ || label == "1H"@ || label == "1m"@ || label == "5m"@
}

/// The checks of a request that follow the date checks: the error message, if any.
pub open spec fn spec_request_rest(
    strategy: StrategyId,
    symbols: Seq<String>,
    label: Seq<char>,
    universe: Seq<UniverseItem>,
) -> Option<Seq<char>> {
    if !known_timeframe(label) {
        Some("timeframe must be one of: 1D, 1H, 1m, 5m"@)
    } else if symbols.len() != spec_required_symbols(strategy) {
        if strategy == StrategyId::PairsZscore {
            Some("strategy requires 2 symbol(s)"@)
        } else {
            Some("strategy requires 1 symbol(s)"@)
        }
    } else {
        match spec_resolve(universe, symbols) {
            Err(id) => Some("unknown symbol id: "@ + id),
            Ok(_) => None,
        }
    }
}

/// A parsed day count, widened to an integer.
pub open spec fn widen_days(d: Option<i32>) -> Option<int> {
    match d {
        Some(x) => Some(x as int),
        None => None,
    }
}

/// The error message a request gets, if any, given its parsed start and end days
/// (`None` where a date does not parse) and today's day count.
pub open spec fn spec_request_verdict_days(
    strategy: StrategyId,
    symbols: Seq<String>,
    label: Seq<char>,
    start: Option<int>,
    end: Option<int>,
    universe: Seq<UniverseItem>,
    today: int,
) -> Option<Seq<char>> {
    match spec_date_verdict(start, end, today) {
        Some(m) => Some(m),
        None => spec_request_rest(strategy, symbols, label, universe),
    }
}

/// The error message a request gets when today is `today`, if any.
pub open spec fn spec_request_verdict(
    strategy: StrategyId,
    symbols: Seq<String>,
    label: Seq<char>,
    start: Seq<char>,
    end: Seq<char>,
    universe: Seq<UniverseItem>,
    today: int,
) -> Option<Seq<char>> {
    spec_request_verdict_days(
        strategy, symbols, label, date_days(start, date_format()), date_days(end, date_format()), universe, today)
}

/// What a request that passed the checks holds: the timeframe of its label, the
/// universe items of its symbols in order, and the adjusted flag.
pub open spec fn checked_request_ok(
    c: CheckedRequest,
    symbols: Seq<String>,
    label: Seq<char>,
    requested_adjusted: Option<bool>,
    universe: Seq<UniverseItem>,
) -> bool {
    &&& parse_timeframe_ok(label, c.timeframe)
    &&& spec_resolve(universe, symbols) matches Ok(found) && c.resolved@.len() == found.len()
        && forall|j: int| 0 <= j < found.len() ==> #[trigger] c.resolved@[j] == universe[found[j]]
    &&& c.adjusted == spec_effective_adjusted(requested_adjusted, c.resolved@)
}

/// The pairs strategy needs two symbols, and every single-asset strategy (the
/// moving-average crossover, z-score mean reversion, the Donchian breakout) one.
pub proof fn lemma_required_symbols(strategy: StrategyId)
    ensures
        strategy == StrategyId::PairsZscore ==> spec_required_symbols(strategy) == 2,
        strategy == StrategyId::MaCrossover ==> spec_required_symbols(strategy) == 1,
        strategy == StrategyId::ZscoreMr ==> spec_required_symbols(strategy) == 1,
        strategy == StrategyId::DonchianBreakout ==> spec_required_symbols(strategy) == 1,
{
}

/// A request whose dates are in order and not after today, whose timeframe is one
/// of the four labels, with two symbols for the pairs strategy and one for any
/// other, all of them in the universe, is accepted; with another number of symbols
/// it is refused with `strategy requires 2 symbol(s)` (pairs) or `strategy requires
/// 1 symbol(s)` (any other strategy).
pub proof fn lemma_valid_request_accepted(
    strategy: StrategyId,
    symbols: Seq<String>,
    label: Seq<char>,
    start: int,
    end: int,
    universe: Seq<UniverseItem>,
    today: int,
)
    requires
        start < end <= today,
        label == "1D"@ || label == "1H"@ || label == "1m"@ || label == "5m"@,
    ensures
        symbols.len() == (if strategy == StrategyId::PairsZscore { 2int } else { 1int })
            && spec_resolve(universe, symbols) is Ok
            ==> spec_request_verdict_days(strategy, symbols, label, Some(start), Some(end), universe, today) is None,
        strategy == StrategyId::PairsZscore && symbols.len() != 2
            ==> spec_request_verdict_days(strategy, symbols, label, Some(start), Some(end), universe, today)
                == Some("strategy requires 2 symbol(s)"@),
        strategy != StrategyId::PairsZscore && symbols.len() != 1
            ==> spec_request_verdict_days(strategy, symbols, label, Some(start), Some(end), universe, today)
                == Some("strategy requires 1 symbol(s)"@),
{
}

/// Checks a backtest request whose dates are already parsed into day counts
/// (`None` where a date did not parse), on the day `today`.
///
/// In order: the date range ([`check_date_range`]), the timeframe, the number of
/// symbols the strategy needs (`strategy requires N symbol(s)`), and that every
/// symbol is in the universe. The request is accepted exactly when none of these
/// fails; it then gives the timeframe, the universe items, and whether prices are
/// adjusted.
pub fn check_request_at(
    strategy: StrategyId,
    symbols: &Vec<String>,
    timeframe_label: &str,
    start_days: Option<i32>,
    end_days: Option<i32>,
    today: i32,
    requested_adjusted: Option<bool>,
    universe: &Vec<UniverseItem>,
) -> (r: Result<CheckedRequest, ApiError>)
    ensures
        bad_request_msg(r) == spec_request_verdict_days(
            strategy, symbols@, timeframe_label@, widen_days(start_days), widen_days(end_days), universe@, today as int),
        r is Ok <==> spec_request_verdict_days(
            strategy, symbols@, timeframe_label@, widen_days(start_days), widen_days(end_days), universe@, today as int) is None,
        r matches Ok(c) ==> checked_request_ok(c, symbols@, timeframe_label@, requested_adjusted, universe@),
{
    let ghost verdict = spec_request_verdict_days(
        strategy, symbols@, timeframe_label@, widen_days(start_days), widen_days(end_days), universe@, today as int);
    if let Err(e) = check_date_range(start_days, end_days, today) {
        assert(bad_request_msg(Err::<CheckedRequest, ApiError>(e)) == verdict);
        return Err(e);
    }
    let tf = match parse_timeframe(timeframe_label) {
        Ok(t) => t,
        Err(e) => {
            assert(bad_request_msg(Err::<CheckedRequest, ApiError>(e)) == verdict);
            return Err(e);
        },
    };
    let need = required_symbol_count(strategy);
    if symbols.len() != need {
        let e = if need == 2 {
            ApiError::bad_request("strategy requires 2 symbol(s)")
        } else {
            ApiError::bad_request("strategy requires 1 symbol(s)")
        };
        assert(bad_request_msg(Err::<CheckedRequest, ApiError>(e)) == verdict);
        return Err(e);
    }
    let resolved = match resolve_symbols(universe, symbols) {
        Ok(v) => v,
        Err(e) => {
            assert(bad_request_msg(Err::<CheckedRequest, ApiError>(e)) == verdict);
            return Err(e);
        },
    };
    let adjusted = effective_adjusted(requested_adjusted, &resolved);
    let r = Ok(CheckedRequest { timeframe: tf, resolved, adjusted });
    assert(bad_request_msg(r) == verdict);
    r
}

/// Checks a backtest request, in the order the service answers them: the date
/// range (`YYYY-MM-DD` dates, start before end, end not after today in UTC), the
/// timeframe, the number of symbols the strategy needs, and that every symbol is
/// in the universe. On success gives the timeframe, the universe items, and whether
/// prices are adjusted.
///
/// The outcome is that of [`check_request_at`] on the parsed dates and on the date
/// of today, whichever date that is; the clock is read only when both dates parse.
pub fn check_request(
    strategy: StrategyId,
    symbols: &Vec<String>,
    timeframe_label: &str,
    start: &str,
    end: &str,
    requested_adjusted: Option<bool>,
    universe: &Vec<UniverseItem>,
) -> (r: Result<CheckedRequest, ApiError>)
    ensures
        exists|today: int| {
            &&& bad_request_msg(r) == #[trigger] spec_request_verdict(
                strategy, symbols@, timeframe_label@, start@, end@, universe@, today)
            &&& (r is Ok <==> spec_request_verdict(
                strategy, symbols@, timeframe_label@, start@, end@, universe@, today) is None)
        },
        r matches Ok(c) ==> checked_request_ok(c, symbols@, timeframe_label@, requested_adjusted, universe@),
{
    let s = parse_date_days(start, "%Y-%m-%d");
    let e = parse_date_days(end, "%Y-%m-%d");
    let today = if s.is_some() && e.is_some() { today_days() } else { 0 };
    let r = check_request_at(strategy, symbols, timeframe_label, s, e, today, requested_adjusted, universe);
    assert(widen_days(s) == date_days(start@, date_format()));
    assert(widen_days(e) == date_days(end@, date_format()));
    assert(bad_request_msg(r) == spec_request_verdict(
        strategy, symbols@, timeframe_label@, start@, end@, universe@, today as int));
    r
}

/// Checks the money settings of a run, after the request checks: the initial
/// capital (10000 when not given) must be above zero (`capital_positive`), and the
/// fee and slippage rates must not be negative (`fees_and_slippage_nonnegative`).
pub fn check_capital_and_costs(capital_positive: bool, fees_and_slippage_nonnegative: bool) -> (r: Result<(), ApiError>)
    ensures
        bad_request_msg(r) == (if !capital_positive {
            Some("initial_capital must be > 0"@)
        } else if !fees_and_slippage_nonnegative {
            Some("fees_bps and slippage_bps must be >= 0"@)
        } else {
            None
        }),
        r is Ok <==> capital_positive && fees_and_slippage_nonnegative,
{
    if !capital_positive {
        return Err(ApiError::bad_request("initial_capital must be > 0"));
    }
    if !fees_and_slippage_nonnegative {
        return Err(ApiError::bad_request("fees_bps and slippage_bps must be >= 0"));
    }
    Ok(())
}

/// `t` is what [`parse_timeframe`] makes of `label`.
pub open spec fn parse_timeframe_ok(label: Seq<char>, t: Timeframe) -> bool {
    ||| label == "1D"@ && timeframe_is(t, 1, "day"@, "1D"@)
    ||| label == "1H"@ && timeframe_is(t, 1, "hour"@, "1H"@)
    ||| label == "1m"@ && timeframe_is(t, 1, "minute"@, "1m"@)
    ||| label == "5m"@ && timeframe_is(t, 5, "minute"@, "5m"@)
}

/// Fewest bars a fetched series must have before a run goes on.
pub const MIN_FETCHED_BARS: usize = 10;

/// The error of a run whose provider returned `count` bars for `symbol_id`:
/// `not enough bars returned for <id>` when there are fewer than 10.
pub fn fetched_bars_error(symbol_id: &str, count: usize) -> (e: Option<String>)
    ensures
        count < MIN_FETCHED_BARS ==> (e matches Some(m) && m@ == "not enough bars returned for "@ + symbol_id@),
        count >= MIN_FETCHED_BARS ==> e is None,
{
    if count < MIN_FETCHED_BARS {
        Some(String::from_str("not enough bars returned for ").concat(symbol_id))
    } else {
        None
    }
}

// ---------------------------------------------------------------------------
// Links
// ---------------------------------------------------------------------------

/// The status and results links of run `id`: `/api/backtests/<id>` and
/// `/api/backtests/<id>/results`.
pub fn backtest_links(id: &str) -> (links: BacktestLinks)
    ensures
        links.self_url@ == "/api/backtests/"@ + id@,
        links.results_url@ == "/api/backtests/"@ + id@ + "/results"@,
{
    let self_url = String::from_str("/api/backtests/").concat(id);
    let results_url = String::from_str("/api/backtests/").concat(id).concat("/results");
    BacktestLinks { self_url, results_url }
}

} // verus!
