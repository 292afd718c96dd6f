//! Exchanges, tickers, timeframes and ticker metadata.

use vstd::prelude::*;
use crate::text::{owned, text_eq};
use crate::market::{Price, Qty};

verus! {

/// A venue (exchange and market) that the client can stream from.
#[derive(Debug, Clone, Copy, PartialEq, Eq, Hash, Structural)]
pub enum Exchange {
    BinanceLinear,
    BinanceInverse,
    BinanceSpot,
    BybitLinear,
    BybitInverse,
    BybitSpot,
    HyperliquidLinear,
    HyperliquidSpot,
    OkexLinear,
    OkexInverse,
    OkexSpot,
    MexcLinear,
    MexcInverse,
    MexcSpot,
    Tachibana,
}

/// Kind of market a venue trades.
#[derive(Debug, Clone, Copy, PartialEq, Eq, Hash, Structural)]
pub enum MarketKind {
    Spot,
    LinearPerps,
    InversePerps,
}

/// Human-readable name of a venue, as written in saved layouts.
pub open spec fn exchange_name(e: Exchange) -> Seq<char> {
    match e {
        Exchange::BinanceLinear => "Binance Linear"@,
        Exchange::BinanceInverse => "Binance Inverse"@,
        Exchange::BinanceSpot => "Binance Spot"@,
        Exchange::BybitLinear => "Bybit Linear"@,
        Exchange::BybitInverse => "Bybit Inverse"@,
        Exchange::BybitSpot => "Bybit Spot"@,
        Exchange::HyperliquidLinear => "Hyperliquid Linear"@,
        Exchange::HyperliquidSpot => "Hyperliquid Spot"@,
        Exchange::OkexLinear => "OKX Linear"@,
        Exchange::OkexInverse => "OKX Inverse"@,
        Exchange::OkexSpot => "OKX Spot"@,
        Exchange::MexcLinear => "MEXC Linear"@,
        Exchange::MexcInverse => "MEXC Inverse"@,
        Exchange::MexcSpot => "MEXC Spot"@,
        Exchange::Tachibana => "Tachibana Spot"@,
    }
}

/// Market kind of a venue.
pub open spec fn market_kind_of(e: Exchange) -> MarketKind {
    match e {
        Exchange::BinanceLinear | Exchange::BybitLinear | Exchange::HyperliquidLinear
        | Exchange::OkexLinear | Exchange::MexcLinear => MarketKind::LinearPerps,
        Exchange::BinanceInverse | Exchange::BybitInverse | Exchange::OkexInverse
        | Exchange::MexcInverse => MarketKind::InversePerps,
        _ => MarketKind::Spot,
    }
}

impl Exchange {
    /// Human-readable name of the venue.
    pub fn name(self) -> (r: &'static str)
        ensures
            r@ == exchange_name(self),
    {
        match self {
            Exchange::BinanceLinear => "Binance Linear",
            Exchange::BinanceInverse => "Binance Inverse",
            Exchange::BinanceSpot => "Binance Spot",
            Exchange::BybitLinear => "Bybit Linear",
            Exchange::BybitInverse => "Bybit Inverse",
            Exchange::BybitSpot => "Bybit Spot",
            Exchange::HyperliquidLinear => "Hyperliquid Linear",
            Exchange::HyperliquidSpot => "Hyperliquid Spot",
            Exchange::OkexLinear => "OKX Linear",
            Exchange::OkexInverse => "OKX Inverse",
            Exchange::OkexSpot => "OKX Spot",
            Exchange::MexcLinear => "MEXC Linear",
            Exchange::MexcInverse => "MEXC Inverse",
            Exchange::MexcSpot => "MEXC Spot",
            Exchange::Tachibana => "Tachibana Spot",
        }
    }

    /// The venue whose name is `s`, if any.
    pub fn from_name(s: &str) -> (r: Option<Exchange>)
        ensures
            r matches Some(e) ==> exchange_name(e) == s@,
            r is None ==> forall|e: Exchange| exchange_name(e) != s@,
    {
        let all: [Exchange; 15] = [
            Exchange::BinanceLinear,
            Exchange::BinanceInverse,
            Exchange::BinanceSpot,
            Exchange::BybitLinear,
            Exchange::BybitInverse,
            Exchange::BybitSpot,
            Exchange::HyperliquidLinear,
            Exchange::HyperliquidSpot,
            Exchange::OkexLinear,
            Exchange::OkexInverse,
            Exchange::OkexSpot,
            Exchange::MexcLinear,
            Exchange::MexcInverse,
            Exchange::MexcSpot,
            Exchange::Tachibana,
        ];
        let mut i: usize = 0;
        while i < 15
            invariant
                i <= 15,
                all@ == seq![
                    Exchange::BinanceLinear,
                    Exchange::BinanceInverse,
                    Exchange::BinanceSpot,
                    Exchange::BybitLinear,
                    Exchange::BybitInverse,
                    Exchange::BybitSpot,
                    Exchange::HyperliquidLinear,
                    Exchange::HyperliquidSpot,
                    Exchange::OkexLinear,
                    Exchange::OkexInverse,
                    Exchange::OkexSpot,
                    Exchange::MexcLinear,
                    Exchange::MexcInverse,
                    Exchange::MexcSpot,
                    Exchange::Tachibana,
                ],
                forall|j: int| 0 <= j < i ==> exchange_name(#[trigger] all@[j]) != s@,
            decreases 15 - i,
        {
            let e = all[i];
            if text_eq(e.name(), s) {
                return Some(e);
            }
            i = i + 1;
        }
        proof {
            assert forall|e: Exchange| exchange_name(e) != s@ by {
                let k: int = match e {
                    Exchange::BinanceLinear => 0,
                    Exchange::BinanceInverse => 1,
                    Exchange::BinanceSpot => 2,
                    Exchange::BybitLinear => 3,
                    Exchange::BybitInverse => 4,
                    Exchange::BybitSpot => 5,
                    Exchange::HyperliquidLinear => 6,
                    Exchange::HyperliquidSpot => 7,
                    Exchange::OkexLinear => 8,
                    Exchange::OkexInverse => 9,
                    Exchange::OkexSpot => 10,
                    Exchange::MexcLinear => 11,
                    Exchange::MexcInverse => 12,
                    Exchange::MexcSpot => 13,
                    Exchange::Tachibana => 14,
                };
                assert(all@[k] == e);
            }
        }
        None
    }

    /// Market kind of the venue.
    pub fn market_kind(self) -> (r: MarketKind)
        ensures
            r == market_kind_of(self),
    {
        match self {
            Exchange::BinanceLinear | Exchange::BybitLinear | Exchange::HyperliquidLinear
            | Exchange::OkexLinear | Exchange::MexcLinear => MarketKind::LinearPerps,
            Exchange::BinanceInverse | Exchange::BybitInverse | Exchange::OkexInverse
            | Exchange::MexcInverse => MarketKind::InversePerps,
            _ => MarketKind::Spot,
        }
    }
}

/// Longest display symbol a ticker holds, in bytes.
pub const MAX_DISPLAY_LEN: usize = 28;

/// Whether `d` can be a ticker's display symbol: ASCII, at most 28 characters.
pub open spec fn display_ok(d: Seq<char>) -> bool {
    vstd::utf8::is_ascii_chars(d) && d.len() <= 28
}

/// An instrument of one venue: its symbol and, optionally, a display symbol.
#[derive(Debug, Clone, PartialEq, Eq, Hash)]
pub struct Ticker {
    pub symbol: String,
    pub exchange: Exchange,
    pub display: Option<String>,
}

impl Ticker {
    /// The symbol.
    pub open spec fn symbol_view(&self) -> Seq<char> {
        self.symbol@
    }

    /// The display symbol, if any.
    pub open spec fn display_view(&self) -> Option<Seq<char>> {
        match self.display {
            Some(d) => Some(d@),
            None => None,
        }
    }

    /// A ticker without display symbol.
    pub fn new(symbol: &str, exchange: Exchange) -> (r: Self)
        ensures
            r.symbol_view() == symbol@,
            r.exchange == exchange,
            r.display_view() is None,
    {
        Ticker { symbol: owned(symbol), exchange, display: None }
    }

    /// A ticker with an optional display symbol, which must be ASCII and at
    /// most 28 characters.
    pub fn new_with_display(symbol: &str, exchange: Exchange, display: Option<&str>) -> (r: Self)
        requires
            display matches Some(d) ==> display_ok(d@),
        ensures
            r.symbol_view() == symbol@,
            r.exchange == exchange,
            display is None ==> r.display_view() is None,
            display matches Some(d) ==> r.display_view() == Some(d@),
    {
        let display = match display {
            Some(d) => Some(owned(d)),
            None => None,
        };
        Ticker { symbol: owned(symbol), exchange, display }
    }

    /// The symbol as text (what the ticker prints as).
    pub fn to_symbol_string(&self) -> (r: String)
        ensures
            r@ == self.symbol_view(),
    {
        self.symbol.clone()
    }

    /// The display symbol, if any.
    pub fn display_symbol(&self) -> (r: Option<String>)
        ensures
            r matches Some(d) ==> self.display_view() == Some(d@),
            r is None ==> self.display_view() is None,
    {
        match &self.display {
            Some(d) => Some(d.clone()),
            None => None,
        }
    }

    /// The symbol together with the venue's market kind.
    pub fn to_full_symbol_and_type(&self) -> (r: (String, MarketKind))
        ensures
            r.0@ == self.symbol_view(),
            r.1 == market_kind_of(self.exchange),
    {
        (self.symbol.clone(), self.exchange.market_kind())
    }

    /// A copy of the ticker.
    pub fn duplicate(&self) -> (r: Self)
        ensures
            r == *self,
    {
        Ticker {
            symbol: self.symbol.clone(),
            exchange: self.exchange,
            display: match &self.display {
                Some(d) => Some(d.clone()),
                None => None,
            },
        }
    }
}

/// Trading metadata of a ticker: price tick, minimum order quantity and,
/// for derivatives, contract size.
#[derive(Debug, Clone, PartialEq, Eq)]
pub struct TickerInfo {
    pub ticker: Ticker,
    pub min_ticksize: Price,
    pub min_qty: Qty,
    pub contract_size: Option<Qty>,
}

impl TickerInfo {
    /// Bundles the metadata.
    pub fn new(ticker: Ticker, min_ticksize: Price, min_qty: Qty, contract_size: Option<Qty>) -> (r:
        Self)
        ensures
            r.ticker == ticker,
            r.min_ticksize == min_ticksize,
            r.min_qty == min_qty,
            r.contract_size == contract_size,
    {
        TickerInfo { ticker, min_ticksize, min_qty, contract_size }
    }

    /// A copy of the metadata.
    pub fn duplicate(&self) -> (r: Self)
        ensures
            r == *self,
    {
        TickerInfo {
            ticker: self.ticker.duplicate(),
            min_ticksize: self.min_ticksize,
            min_qty: self.min_qty,
            contract_size: self.contract_size,
        }
    }
}

/// Chart timeframes.
#[derive(Debug, Clone, Copy, PartialEq, Eq, Hash, Structural)]
pub enum Timeframe {
    MS100,
    MS200,
    MS300,
    MS500,
    MS1000,
    M1,
    M3,
    M5,
    M15,
    M30,
    H1,
    H2,
    H4,
    H12,
    D1,
}

/// Length of a timeframe's bar in milliseconds.
pub open spec fn timeframe_ms(tf: Timeframe) -> u64 {
    match tf {
        Timeframe::MS100 => 100,
        Timeframe::MS200 => 200,
        Timeframe::MS300 => 300,
        Timeframe::MS500 => 500,
        Timeframe::MS1000 => 1_000,
        Timeframe::M1 => 60_000,
        Timeframe::M3 => 180_000,
        Timeframe::M5 => 300_000,
        Timeframe::M15 => 900_000,
        Timeframe::M30 => 1_800_000,
        Timeframe::H1 => 3_600_000,
        Timeframe::H2 => 7_200_000,
        Timeframe::H4 => 14_400_000,
        Timeframe::H12 => 43_200_000,
        Timeframe::D1 => 86_400_000,
    }
}

impl Timeframe {
    /// Length of the bar in milliseconds.
    pub fn to_milliseconds(self) -> (r: u64)
        ensures
            r == timeframe_ms(self),
    {
        match self {
            Timeframe::MS100 => 100,
            Timeframe::MS200 => 200,
            Timeframe::MS300 => 300,
            Timeframe::MS500 => 500,
            Timeframe::MS1000 => 1_000,
            Timeframe::M1 => 60_000,
            Timeframe::M3 => 180_000,
            Timeframe::M5 => 300_000,
            Timeframe::M15 => 900_000,
            Timeframe::M30 => 1_800_000,
            Timeframe::H1 => 3_600_000,
            Timeframe::H2 => 7_200_000,
            Timeframe::H4 => 14_400_000,
            Timeframe::H12 => 43_200_000,
            Timeframe::D1 => 86_400_000,
        }
    }
}

/// The step of the replay clock for panes showing these timeframes: the
/// shortest bar, or one minute when there is no pane.
pub fn min_step_ms(timeframes: &[Timeframe]) -> (r: u64)
    ensures
        timeframes@.len() == 0 ==> r == 60_000,
        timeframes@.len() > 0 ==> (exists|i: int|
            0 <= i < timeframes@.len() && r == timeframe_ms(#[trigger] timeframes@[i])),
        forall|i: int| 0 <= i < timeframes@.len() ==> r <= timeframe_ms(#[trigger] timeframes@[i]),
{
    let n = timeframes.len();
    if n == 0 {
        return 60_000;
    }
    let mut best = timeframes[0].to_milliseconds();
    let mut i: usize = 1;
    while i < n
        invariant
            n == timeframes@.len(),
            1 <= i <= n,
            exists|k: int| 0 <= k < i && best == timeframe_ms(#[trigger] timeframes@[k]),
            forall|k: int| 0 <= k < i ==> best <= timeframe_ms(#[trigger] timeframes@[k]),
        decreases n - i,
    {
        let ms = timeframes[i].to_milliseconds();
        if ms < best {
            best = ms;
        }
        i = i + 1;
    }
    best
}

} // verus!
