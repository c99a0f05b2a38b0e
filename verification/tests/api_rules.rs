use backtester::align::{align_two, Stamped};
use backtester::config::parse_origins;
use backtester::limits::rate_limit_quota;
use backtester::requests::{
    backtest_links, check_capital_and_costs, check_date_range, check_request, check_request_at, effective_adjusted, parse_timeframe, required_symbol_count,
    resolve_symbols, validate_dates, ApiError,
};
use backtester::retry::{next_retry_step, RequestOutcome, RetryAction};
use backtester::types::{AssetClass, HealthResponse, StrategyId, UniverseItem};

fn bad(r: Result<impl std::fmt::Debug, ApiError>) -> String {
    match r {
        Err(ApiError::BadRequest(m)) => m,
        other => panic!("expected a bad request, got {:?}", other),
    }
}

fn item(id: &str, supports_adjusted: bool) -> UniverseItem {
    UniverseItem {
        id: id.to_string(),
        display: id.to_string(),
        name: format!("{} name", id),
        asset_class: AssetClass::Equity,
        polygon: format!("P{}", id),
        supports_adjusted,
    }
}

#[test]
fn timeframes() {
    let t = parse_timeframe("1D").unwrap();
    assert_eq!((t.multiplier, t.timespan.as_str(), t.label.as_str()), (1, "day", "1D"));
    let t = parse_timeframe("1H").unwrap();
    assert_eq!((t.multiplier, t.timespan.as_str(), t.label.as_str()), (1, "hour", "1H"));
    let t = parse_timeframe("1m").unwrap();
    assert_eq!((t.multiplier, t.timespan.as_str(), t.label.as_str()), (1, "minute", "1m"));
    let t = parse_timeframe("5m").unwrap();
    assert_eq!((t.multiplier, t.timespan.as_str(), t.label.as_str()), (5, "minute", "5m"));
    assert_eq!(bad(parse_timeframe("1d")), "timeframe must be one of: 1D, 1H, 1m, 5m");
    assert_eq!(bad(parse_timeframe("")), "timeframe must be one of: 1D, 1H, 1m, 5m");
}

#[test]
fn date_ranges() {
    assert!(check_date_range(Some(10), Some(20), 20).is_ok());
    assert_eq!(bad(check_date_range(None, Some(20), 30)), "start must be YYYY-MM-DD");
    assert_eq!(bad(check_date_range(Some(10), None, 30)), "end must be YYYY-MM-DD");
    assert_eq!(bad(check_date_range(Some(20), Some(20), 30)), "start must be < end");
    assert_eq!(bad(check_date_range(Some(10), Some(31), 30)), "end must not be in the future");
    assert!(validate_dates("2020-01-01", "2021-06-30").is_ok());
    assert_eq!(bad(validate_dates("2020-13-01", "2021-06-30")), "start must be YYYY-MM-DD");
    assert_eq!(bad(validate_dates("2020-01-01", "June")), "end must be YYYY-MM-DD");
    assert_eq!(bad(validate_dates("2021-01-01", "2020-01-01")), "start must be < end");
    assert_eq!(bad(validate_dates("2020-01-01", "2999-01-01")), "end must not be in the future");
}

#[test]
fn symbols_and_adjustment() {
    let universe = vec![item("SPY", true), item("BTC", false), item("SPY", false)];
    assert_eq!(required_symbol_count(StrategyId::PairsZscore), 2);
    assert_eq!(required_symbol_count(StrategyId::MaCrossover), 1);
    let r = resolve_symbols(&universe, &vec!["BTC".to_string(), "SPY".to_string()]).unwrap();
    assert_eq!(r.len(), 2);
    assert_eq!(r[0].polygon, "PBTC");
    // the first item with the id is taken
    assert!(r[1].supports_adjusted);
    assert_eq!(bad(resolve_symbols(&universe, &vec!["SPY".to_string(), "QQQ".to_string()])), "unknown symbol id: QQQ");
    assert!(effective_adjusted(None, &vec![item("SPY", true)]));
    assert!(!effective_adjusted(Some(false), &vec![item("SPY", true)]));
    assert!(!effective_adjusted(Some(true), &r));
    assert!(effective_adjusted(Some(true), &vec![]));
}

#[test]
fn request_checks_in_order() {
    let universe = vec![item("AAPL", true), item("MSFT", true), item("BTC", false)];
    let pair = vec!["AAPL".to_string(), "MSFT".to_string()];
    let c = check_request(StrategyId::PairsZscore, &pair, "1D", "2022-01-03", "2022-06-30", None, &universe).unwrap();
    assert_eq!(c.timeframe.label, "1D");
    assert_eq!(c.resolved.len(), 2);
    assert!(c.adjusted);
    let c = check_request(StrategyId::MaCrossover, &vec!["BTC".to_string()], "5m", "2022-01-03", "2022-01-05", Some(true), &universe).unwrap();
    assert!(!c.adjusted);
    assert_eq!(c.timeframe.multiplier, 5);
    assert_eq!(bad(check_request(StrategyId::PairsZscore, &pair, "2D", "bad", "2022-06-30", None, &universe)), "start must be YYYY-MM-DD");
    assert_eq!(bad(check_request(StrategyId::PairsZscore, &pair, "2D", "2022-01-03", "2022-06-30", None, &universe)), "timeframe must be one of: 1D, 1H, 1m, 5m");
    assert_eq!(bad(check_request(StrategyId::PairsZscore, &vec!["AAPL".to_string()], "1D", "2022-01-03", "2022-06-30", None, &universe)), "strategy requires 2 symbol(s)");
    assert_eq!(bad(check_request(StrategyId::ZscoreMr, &pair, "1D", "2022-01-03", "2022-06-30", None, &universe)), "strategy requires 1 symbol(s)");
    assert_eq!(bad(check_request(StrategyId::ZscoreMr, &vec!["ETH".to_string()], "1D", "2022-01-03", "2022-06-30", None, &universe)), "unknown symbol id: ETH");
}

#[test]
fn fetched_bar_counts() {
    assert_eq!(backtester::requests::fetched_bars_error("SPY", 9).as_deref(), Some("not enough bars returned for SPY"));
    assert_eq!(backtester::requests::fetched_bars_error("SPY", 10), None);
}

#[test]
fn links_of_a_run() {
    let l = backtest_links("0b6c1c3e-1111-2222-3333-444455556666");
    assert_eq!(l.self_url, "/api/backtests/0b6c1c3e-1111-2222-3333-444455556666");
    assert_eq!(l.results_url, "/api/backtests/0b6c1c3e-1111-2222-3333-444455556666/results");
}

#[test]
fn retry_schedule() {
    let mut attempt = 0;
    let mut waits = vec![];
    loop {
        let (a, next) = next_retry_step(attempt, RequestOutcome::Status(503));
        match a {
            RetryAction::RetryAfter(ms) => {
                waits.push(ms);
                attempt = next;
            }
            RetryAction::FailAfter(ms) => {
                waits.push(ms);
                break;
            }
            other => panic!("unexpected {:?}", other),
        }
    }
    assert_eq!(waits, vec![250, 500, 1000, 2000, 4000, 8000, 8000]);
    assert_eq!(next_retry_step(3, RequestOutcome::Status(200)), (RetryAction::Succeed, 3));
    assert_eq!(next_retry_step(0, RequestOutcome::Status(429)), (RetryAction::RetryAfter(250), 1));
    assert_eq!(next_retry_step(2, RequestOutcome::Status(404)), (RetryAction::Reject, 2));
    assert_eq!(next_retry_step(5, RequestOutcome::TransportError), (RetryAction::RetryAfter(8000), 6));
    assert_eq!(next_retry_step(6, RequestOutcome::TransportError), (RetryAction::GiveUp, 6));
}

#[test]
fn quotas_and_health() {
    assert_eq!(rate_limit_quota(240), (250, 24));
    assert_eq!(rate_limit_quota(0), (60_000, 10));
    assert_eq!(rate_limit_quota(50), (1200, 10));
    assert_eq!(rate_limit_quota(100_000), (1, 10_000));
    let h = HealthResponse::report(false);
    assert!(h.ok);
    assert!(!h.polygon_key_present);
}

#[test]
fn origins_list() {
    assert_eq!(parse_origins("http://localhost:3000"), vec!["http://localhost:3000".to_string()]);
    assert_eq!(parse_origins(" https://a.example , ,https://b.example,\t"), vec!["https://a.example".to_string(), "https://b.example".to_string()]);
    assert!(parse_origins("").is_empty());
    assert!(parse_origins(" , ").is_empty());
}

#[test]
fn pairs_align_on_common_timestamps() {
    let a: Vec<Stamped<char>> = vec![(1, 'a'), (2, 'b'), (4, 'c'), (5, 'd')].into_iter().map(|(t, value)| Stamped { t, value }).collect();
    let b: Vec<Stamped<char>> = vec![(2, 'w'), (3, 'x'), (5, 'y'), (6, 'z')].into_iter().map(|(t, value)| Stamped { t, value }).collect();
    let (oa, ob) = align_two(&a, &b);
    assert_eq!(oa.iter().map(|s| (s.t, s.value)).collect::<Vec<_>>(), vec![(2, 'b'), (5, 'd')]);
    assert_eq!(ob.iter().map(|s| (s.t, s.value)).collect::<Vec<_>>(), vec![(2, 'w'), (5, 'y')]);
    let (oa, ob) = align_two(&a, &vec![]);
    assert!(oa.is_empty() && ob.is_empty());
}

#[test]
fn request_checks_at_a_given_day() {
    let universe = vec![item("AAPL", true), item("BTC", false)];
    let one = vec!["AAPL".to_string()];
    // 2022-01-03 and 2022-06-30 as days from the common era
    let (s, e) = (738158, 738336);
    let c = check_request_at(StrategyId::MaCrossover, &one, "1H", Some(s), Some(e), e, Some(true), &universe).unwrap();
    assert_eq!(c.timeframe.label, "1H");
    assert_eq!(c.resolved[0].id, "AAPL");
    assert!(c.adjusted);
    assert_eq!(bad(check_request_at(StrategyId::MaCrossover, &one, "1H", Some(s), Some(e), e - 1, None, &universe)), "end must not be in the future");
    assert_eq!(bad(check_request_at(StrategyId::MaCrossover, &one, "1H", None, Some(e), e, None, &universe)), "start must be YYYY-MM-DD");
    assert_eq!(bad(check_request_at(StrategyId::MaCrossover, &one, "1H", Some(s), None, e, None, &universe)), "end must be YYYY-MM-DD");
    assert_eq!(bad(check_request_at(StrategyId::MaCrossover, &one, "1H", Some(e), Some(e), e, None, &universe)), "start must be < end");
    assert_eq!(bad(check_request_at(StrategyId::MaCrossover, &one, "4H", Some(s), Some(e), e, None, &universe)), "timeframe must be one of: 1D, 1H, 1m, 5m");
    assert_eq!(bad(check_request_at(StrategyId::PairsZscore, &one, "1H", Some(s), Some(e), e, None, &universe)), "strategy requires 2 symbol(s)");
    assert_eq!(bad(check_request_at(StrategyId::MaCrossover, &vec!["ETH".to_string()], "1H", Some(s), Some(e), e, None, &universe)), "unknown symbol id: ETH");
}

#[test]
fn capital_and_cost_refusals() {
    assert!(check_capital_and_costs(true, true).is_ok());
    assert_eq!(bad(check_capital_and_costs(false, true)), "initial_capital must be > 0");
    assert_eq!(bad(check_capital_and_costs(false, false)), "initial_capital must be > 0");
    assert_eq!(bad(check_capital_and_costs(true, false)), "fees_bps and slippage_bps must be >= 0");
}
