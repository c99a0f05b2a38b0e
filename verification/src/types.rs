//! Plain data exchanged with the HTTP layer and the strategy configuration.

use vstd::prelude::*;

verus! {

/// The symbols and pairs a client may backtest.
#[derive(Debug)]
pub struct UniverseFile {
    pub version: u32,
    pub generated_at: String,
    pub intraday: IntradayPref,
    pub items: Vec<UniverseItem>,
    pub pairs: Vec<PairItem>,
}

/// Preferred and fallback intraday timeframes.
#[derive(Debug)]
pub struct IntradayPref {
    pub preferred: String,
    pub fallback: String,
}

#[derive(Clone, Copy, Debug, PartialEq, Eq, Structural)]
pub enum AssetClass {
    Equity,
    Etf,
    Crypto,
}

/// One tradable symbol of the universe.
#[derive(Debug)]
pub struct UniverseItem {
    pub id: String,
    pub display: String,
    pub name: String,
    pub asset_class: AssetClass,
    /// The ticker used with the market-data provider.
    pub polygon: String,
    pub supports_adjusted: bool,
}

impl Clone for UniverseItem {
    fn clone(&self) -> (copy: Self)
        ensures
            copy == *self,
    {
        UniverseItem {
            id: self.id.clone(),
            display: self.display.clone(),
            name: self.name.clone(),
            asset_class: self.asset_class,
            polygon: self.polygon.clone(),
            supports_adjusted: self.supports_adjusted,
        }
    }
}

/// A suggested pair of symbols for the pairs strategy.
#[derive(Debug)]
pub struct PairItem {
    pub id: String,
    pub a: String,
    pub b: String,
    pub description: String,
}

/// The strategies a backtest can run.
#[derive(Clone, Copy, Debug, PartialEq, Eq, Structural)]
pub enum StrategyId {
    MaCrossover,
    ZscoreMr,
    DonchianBreakout,
    PairsZscore,
}

/// Life cycle of a backtest run.
#[derive(Clone, Copy, Debug, PartialEq, Eq, Structural)]
pub enum BacktestStatus {
    Queued,
    Running,
    Complete,
    Failed,
}

/// Where a client finds a run's status and results.
#[derive(Debug)]
pub struct BacktestLinks {
    pub self_url: String,
    pub results_url: String,
}

/// The modelling assumptions reported with each result.
#[derive(Debug)]
pub struct Assumptions {
    pub execution: String,
    pub fees: String,
    pub slippage: String,
    pub borrow: String,
    pub funding: String,
    pub adjusted_prices: String,
    pub missing_data: String,
    pub timezone: String,
}

/// Answer of the health check.
#[derive(Clone, Copy, Debug, PartialEq, Eq, Structural)]
pub struct HealthResponse {
    pub ok: bool,
    pub polygon_key_present: bool,
}

impl HealthResponse {
    /// The service is up; says whether a market-data key is configured.
    pub fn report(polygon_key_present: bool) -> (r: HealthResponse)
        ensures
            r.ok,
            r.polygon_key_present == polygon_key_present,
    {
        HealthResponse { ok: true, polygon_key_present }
    }
}

/// Position sizing of the moving-average crossover strategy.
#[derive(Clone, Copy, Debug, PartialEq, Eq, Structural)]
pub enum SizingMode {
    FixedNotional,
    VolTarget,
}

/// How the pairs strategy estimates its hedge ratio.
#[derive(Clone, Copy, Debug, PartialEq, Eq, Structural)]
pub enum HedgeMethod {
    Ratio,
    Ols,
}

/// A bar size of the market-data provider.
#[derive(Debug)]
pub struct Timeframe {
    pub multiplier: u32,
    pub timespan: String,
    pub label: String,
}

} // verus!
