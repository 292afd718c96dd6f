//! Pane settings as the control API names them: content kinds, saved ticker
//! text, timeframes, and the ticker and timeframe a pane shows.

use vstd::prelude::*;
use crate::headless::{
    names_ticker, normalize_exchange, parse_exchange_symbol, parse_timeframe_str, split_colon,
    timeframe_named,
};
use crate::text::{first_index, owned, push_char, seq_ends_with, text_eq};
use crate::ticker::{Exchange, Ticker, Timeframe, exchange_name};

verus! {

/// Kinds of pane content.
#[derive(Debug, Clone, Copy, PartialEq, Eq, Hash, Structural)]
pub enum ContentKind {
    CandlestickChart,
    HeatmapChart,
    ShaderHeatmap,
    FootprintChart,
    ComparisonChart,
    TimeAndSales,
    Ladder,
    Starter,
    OrderEntry,
    OrderList,
    BuyingPower,
}

/// The content kind a name denotes: the kind's identifier, its spaced
/// label, and `KlineChart` / `Time&Sales` as further aliases.
pub open spec fn content_kind_named(s: Seq<char>) -> Option<ContentKind> {
    if s == "CandlestickChart"@ || s == "Candlestick Chart"@ || s == "KlineChart"@ {
        Some(ContentKind::CandlestickChart)
    } else if s == "HeatmapChart"@ || s == "Heatmap Chart"@ {
        Some(ContentKind::HeatmapChart)
    } else if s == "ShaderHeatmap"@ || s == "Shader Heatmap"@ {
        Some(ContentKind::ShaderHeatmap)
    } else if s == "FootprintChart"@ || s == "Footprint Chart"@ {
        Some(ContentKind::FootprintChart)
    } else if s == "ComparisonChart"@ || s == "Comparison Chart"@ {
        Some(ContentKind::ComparisonChart)
    } else if s == "TimeAndSales"@ || s == "Time&Sales"@ {
        Some(ContentKind::TimeAndSales)
    } else if s == "Ladder"@ {
        Some(ContentKind::Ladder)
    } else if s == "Starter"@ || s == "Starter Pane"@ {
        Some(ContentKind::Starter)
    } else if s == "OrderEntry"@ || s == "Order Entry"@ {
        Some(ContentKind::OrderEntry)
    } else if s == "OrderList"@ || s == "Order List"@ {
        Some(ContentKind::OrderList)
    } else if s == "BuyingPower"@ || s == "Buying Power"@ {
        Some(ContentKind::BuyingPower)
    } else {
        None
    }
}

/// Parses a content-kind name.
pub fn parse_content_kind(s: &str) -> (r: Option<ContentKind>)
    ensures
        r == content_kind_named(s@),
{
    if text_eq(s, "CandlestickChart") || text_eq(s, "Candlestick Chart") || text_eq(s, "KlineChart") {
        Some(ContentKind::CandlestickChart)
    } else if text_eq(s, "HeatmapChart") || text_eq(s, "Heatmap Chart") {
        Some(ContentKind::HeatmapChart)
    } else if text_eq(s, "ShaderHeatmap") || text_eq(s, "Shader Heatmap") {
        Some(ContentKind::ShaderHeatmap)
    } else if text_eq(s, "FootprintChart") || text_eq(s, "Footprint Chart") {
        Some(ContentKind::FootprintChart)
    } else if text_eq(s, "ComparisonChart") || text_eq(s, "Comparison Chart") {
        Some(ContentKind::ComparisonChart)
    } else if text_eq(s, "TimeAndSales") || text_eq(s, "Time&Sales") {
        Some(ContentKind::TimeAndSales)
    } else if text_eq(s, "Ladder") {
        Some(ContentKind::Ladder)
    } else if text_eq(s, "Starter") || text_eq(s, "Starter Pane") {
        Some(ContentKind::Starter)
    } else if text_eq(s, "OrderEntry") || text_eq(s, "Order Entry") {
        Some(ContentKind::OrderEntry)
    } else if text_eq(s, "OrderList") || text_eq(s, "Order List") {
        Some(ContentKind::OrderList)
    } else if text_eq(s, "BuyingPower") || text_eq(s, "Buying Power") {
        Some(ContentKind::BuyingPower)
    } else {
        None
    }
}

/// Parses saved ticker text `Exchange:Ticker` (e.g. `BinanceLinear:BTCUSDT`).
pub fn parse_ser_ticker(s: &str) -> (r: Result<Ticker, String>)
    ensures
        split_colon(s@) is None ==> (r matches Err(m) && m@
            == "invalid ticker format: expected 'Exchange:Ticker', got '"@ + s@ + "'"@),
        split_colon(s@) matches Some((ex, sym)) ==> {
            &&& (forall|e: Exchange| exchange_name(e) != normalize_exchange(ex)) ==> (r matches Err(
                m,
            ) && m@ == "unknown exchange: "@ + ex)
            &&& (exists|e: Exchange| exchange_name(e) == normalize_exchange(ex)) ==> (r matches Ok(
                t,
            ) && names_ticker(s@, t))
        },
{
    parse_exchange_symbol(s, "invalid ticker format: expected 'Exchange:Ticker', got '")
}

/// The timeframe a name denotes, if any.
pub fn parse_timeframe(s: &str) -> (r: Option<Timeframe>)
    ensures
        r == timeframe_named(s@),
{
    match parse_timeframe_str(s) {
        Ok(tf) => Some(tf),
        Err(_) => None,
    }
}

/// A stream a pane shows: its ticker and, for a candle stream, its
/// timeframe.
#[derive(Debug, Clone)]
pub struct PaneStream {
    pub ticker: Ticker,
    pub timeframe: Option<Timeframe>,
}

/// `s` without its spaces.
pub open spec fn without_spaces(s: Seq<char>) -> Seq<char>
    decreases s.len(),
{
    if s.len() == 0 {
        s
    } else if s.last() == ' ' {
        without_spaces(s.drop_last())
    } else {
        without_spaces(s.drop_last()).push(s.last())
    }
}

/// How the control API writes a ticker: venue name without spaces, a
/// colon, the symbol.
pub open spec fn ticker_text(t: Ticker) -> Seq<char> {
    without_spaces(exchange_name(t.exchange)) + ":"@ + t.symbol_view()
}

/// Identifier of a timeframe, as the control API writes it.
pub open spec fn timeframe_label(tf: Timeframe) -> Seq<char> {
    match tf {
        Timeframe::MS100 => "MS100"@,
        Timeframe::MS200 => "MS200"@,
        Timeframe::MS300 => "MS300"@,
        Timeframe::MS500 => "MS500"@,
        Timeframe::MS1000 => "MS1000"@,
        Timeframe::M1 => "M1"@,
        Timeframe::M3 => "M3"@,
        Timeframe::M5 => "M5"@,
        Timeframe::M15 => "M15"@,
        Timeframe::M30 => "M30"@,
        Timeframe::H1 => "H1"@,
        Timeframe::H2 => "H2"@,
        Timeframe::H4 => "H4"@,
        Timeframe::H12 => "H12"@,
        Timeframe::D1 => "D1"@,
    }
}

/// The first timeframe among the streams, if any.
pub open spec fn first_timeframe(s: Seq<PaneStream>) -> Option<Timeframe>
    decreases s.len(),
{
    if s.len() == 0 {
        None
    } else if s[0].timeframe is Some {
        s[0].timeframe
    } else {
        first_timeframe(s.drop_first())
    }
}

fn compact_name(text: &str) -> (r: String)
    ensures
        r@ == without_spaces(text@),
{
    let mut out = String::new();
    let n = text.unicode_len();
    let mut i: usize = 0;
    assert(text@.take(0) =~= Seq::<char>::empty());
    while i < n
        invariant
            n == text@.len(),
            i <= n,
            out@ == without_spaces(text@.take(i as int)),
        decreases n - i,
    {
        let c = text.get_char(i);
        assert(text@.take(i + 1).drop_last() =~= text@.take(i as int));
        assert(text@.take(i + 1).last() == c);
        if c != ' ' {
            push_char(&mut out, c);
        }
        i = i + 1;
    }
    assert(text@.take(n as int) =~= text@);
    out
}

/// The ticker as the control API writes it.
pub fn format_ticker(t: &Ticker) -> (r: String)
    ensures
        r@ == ticker_text(*t),
{
    let mut s = compact_name(t.exchange.name());
    s.append(":");
    s.append(t.symbol.as_str());
    s
}

/// The timeframe identifier.
pub fn timeframe_text(tf: Timeframe) -> (r: &'static str)
    ensures
        r@ == timeframe_label(tf),
{
    match tf {
        Timeframe::MS100 => "MS100",
        Timeframe::MS200 => "MS200",
        Timeframe::MS300 => "MS300",
        Timeframe::MS500 => "MS500",
        Timeframe::MS1000 => "MS1000",
        Timeframe::M1 => "M1",
        Timeframe::M3 => "M3",
        Timeframe::M5 => "M5",
        Timeframe::M15 => "M15",
        Timeframe::M30 => "M30",
        Timeframe::H1 => "H1",
        Timeframe::H2 => "H2",
        Timeframe::H4 => "H4",
        Timeframe::H12 => "H12",
        Timeframe::D1 => "D1",
    }
}

/// The ticker and timeframe a pane reports: the ticker of its first stream
/// and the timeframe of its first candle stream, as text.
pub fn extract_pane_ticker_timeframe(streams: &[PaneStream]) -> (r: (Option<String>, Option<String>))
    ensures
        streams@.len() == 0 ==> r.0 is None,
        streams@.len() > 0 ==> (r.0 matches Some(t) && t@ == ticker_text(streams@[0].ticker)),
        first_timeframe(streams@) is None ==> r.1 is None,
        first_timeframe(streams@) matches Some(tf) ==> (r.1 matches Some(x) && x@ == timeframe_label(
            tf,
        )),
{
    let mut ticker_str: Option<String> = None;
    let mut tf_str: Option<String> = None;
    let n = streams.len();
    let mut i: usize = 0;
    assert(streams@.skip(0) =~= streams@);
    while i < n
        invariant
            n == streams@.len(),
            i <= n,
            tf_str is None,
            first_timeframe(streams@) == first_timeframe(streams@.skip(i as int)),
            i == 0 ==> ticker_str is None,
            i > 0 ==> (ticker_str matches Some(t) && t@ == ticker_text(streams@[0].ticker)),
        decreases n - i,
    {
        let ghost rest = streams@.skip(i as int);
        assert(rest[0] == streams@[i as int]);
        assert(rest.drop_first() =~= streams@.skip(i + 1));
        if ticker_str.is_none() {
            ticker_str = Some(format_ticker(&streams[i].ticker));
        }
        match streams[i].timeframe {
            Some(tf) => {
                tf_str = Some(owned(timeframe_text(tf)));
                return (ticker_str, tf_str);
            },
            None => {},
        }
        i = i + 1;
    }
    proof {
        assert(streams@.skip(n as int).len() == 0);
    }
    (ticker_str, tf_str)
}

/// Length and first two characters of a venue's name, which tell the
/// names apart.
spec fn name_signature(e: Exchange) -> (nat, char, char) {
    match e {
        Exchange::BinanceLinear => (14, 'B', 'i'),
        Exchange::BinanceInverse => (15, 'B', 'i'),
        Exchange::BinanceSpot => (12, 'B', 'i'),
        Exchange::BybitLinear => (12, 'B', 'y'),
        Exchange::BybitInverse => (13, 'B', 'y'),
        Exchange::BybitSpot => (10, 'B', 'y'),
        Exchange::HyperliquidLinear => (18, 'H', 'y'),
        Exchange::HyperliquidSpot => (16, 'H', 'y'),
        Exchange::OkexLinear => (10, 'O', 'K'),
        Exchange::OkexInverse => (11, 'O', 'K'),
        Exchange::OkexSpot => (8, 'O', 'K'),
        Exchange::MexcLinear => (11, 'M', 'E'),
        Exchange::MexcInverse => (12, 'M', 'E'),
        Exchange::MexcSpot => (9, 'M', 'E'),
        Exchange::Tachibana => (14, 'T', 'a'),
    }
}

proof fn lemma_name_signature(e: Exchange)
    ensures
        name_signature(e) == (exchange_name(e).len(), exchange_name(e)[0], exchange_name(e)[1]),
{
    match e {
        Exchange::BinanceLinear => {
            reveal_strlit("Binance Linear");
        },
        Exchange::BinanceInverse => {
            reveal_strlit("Binance Inverse");
        },
        Exchange::BinanceSpot => {
            reveal_strlit("Binance Spot");
        },
        Exchange::BybitLinear => {
            reveal_strlit("Bybit Linear");
        },
        Exchange::BybitInverse => {
            reveal_strlit("Bybit Inverse");
        },
        Exchange::BybitSpot => {
            reveal_strlit("Bybit Spot");
        },
        Exchange::HyperliquidLinear => {
            reveal_strlit("Hyperliquid Linear");
        },
        Exchange::HyperliquidSpot => {
            reveal_strlit("Hyperliquid Spot");
        },
        Exchange::OkexLinear => {
            reveal_strlit("OKX Linear");
        },
        Exchange::OkexInverse => {
            reveal_strlit("OKX Inverse");
        },
        Exchange::OkexSpot => {
            reveal_strlit("OKX Spot");
        },
        Exchange::MexcLinear => {
            reveal_strlit("MEXC Linear");
        },
        Exchange::MexcInverse => {
            reveal_strlit("MEXC Inverse");
        },
        Exchange::MexcSpot => {
            reveal_strlit("MEXC Spot");
        },
        Exchange::Tachibana => {
            reveal_strlit("Tachibana Spot");
        },
    }
}

/// Different venues have different names.
pub proof fn lemma_exchange_name_injective(e1: Exchange, e2: Exchange)
    ensures
        exchange_name(e1) == exchange_name(e2) ==> e1 == e2,
{
    lemma_name_signature(e1);
    lemma_name_signature(e2);
}

proof fn lemma_compact_binance_linear()
    ensures
        first_index(without_spaces("Binance Linear"@), ':') == without_spaces("Binance Linear"@).len(),
        normalize_exchange(without_spaces("Binance Linear"@)) == "Binance Linear"@,
{
    reveal_with_fuel(without_spaces, 16);
    reveal_with_fuel(first_index, 15);
    reveal_strlit("Binance Linear");
    reveal_strlit("BinanceLinear");
    reveal_strlit("Linear");
    reveal_strlit(" Linear");
    reveal_strlit("Linear");
    reveal_strlit("Inverse");
    reveal_strlit("Spot");
    assert(without_spaces("Binance Linear"@) =~= "BinanceLinear"@);
    assert("BinanceLinear"@.skip(7) =~= "Linear"@);
    assert("BinanceLinear"@.take(7) + " Linear"@ =~= "Binance Linear"@);
}

proof fn lemma_compact_binance_inverse()
    ensures
        first_index(without_spaces("Binance Inverse"@), ':') == without_spaces("Binance Inverse"@).len(),
        normalize_exchange(without_spaces("Binance Inverse"@)) == "Binance Inverse"@,
{
    reveal_with_fuel(without_spaces, 17);
    reveal_with_fuel(first_index, 16);
    reveal_strlit("Binance Inverse");
    reveal_strlit("BinanceInverse");
    reveal_strlit("Inverse");
    reveal_strlit(" Inverse");
    reveal_strlit("Linear");
    reveal_strlit("Inverse");
    reveal_strlit("Spot");
    assert(without_spaces("Binance Inverse"@) =~= "BinanceInverse"@);
    if seq_ends_with("BinanceInverse"@, "Linear"@) {
        assert("BinanceInverse"@.skip(8)[5] == "Linear"@[5]);
    }
    assert("BinanceInverse"@.skip(7) =~= "Inverse"@);
    assert("BinanceInverse"@.take(7) + " Inverse"@ =~= "Binance Inverse"@);
}

proof fn lemma_compact_binance_spot()
    ensures
        first_index(without_spaces("Binance Spot"@), ':') == without_spaces("Binance Spot"@).len(),
        normalize_exchange(without_spaces("Binance Spot"@)) == "Binance Spot"@,
{
    reveal_with_fuel(without_spaces, 14);
    reveal_with_fuel(first_index, 13);
    reveal_strlit("Binance Spot");
    reveal_strlit("BinanceSpot");
    reveal_strlit("Spot");
    reveal_strlit(" Spot");
    reveal_strlit("Linear");
    reveal_strlit("Inverse");
    reveal_strlit("Spot");
    assert(without_spaces("Binance Spot"@) =~= "BinanceSpot"@);
    if seq_ends_with("BinanceSpot"@, "Linear"@) {
        assert("BinanceSpot"@.skip(5)[5] == "Linear"@[5]);
    }
    if seq_ends_with("BinanceSpot"@, "Inverse"@) {
        assert("BinanceSpot"@.skip(4)[6] == "Inverse"@[6]);
    }
    assert("BinanceSpot"@.skip(7) =~= "Spot"@);
    assert("BinanceSpot"@.take(7) + " Spot"@ =~= "Binance Spot"@);
}

proof fn lemma_compact_bybit_linear()
    ensures
        first_index(without_spaces("Bybit Linear"@), ':') == without_spaces("Bybit Linear"@).len(),
        normalize_exchange(without_spaces("Bybit Linear"@)) == "Bybit Linear"@,
{
    reveal_with_fuel(without_spaces, 14);
    reveal_with_fuel(first_index, 13);
    reveal_strlit("Bybit Linear");
    reveal_strlit("BybitLinear");
    reveal_strlit("Linear");
    reveal_strlit(" Linear");
    reveal_strlit("Linear");
    reveal_strlit("Inverse");
    reveal_strlit("Spot");
    assert(without_spaces("Bybit Linear"@) =~= "BybitLinear"@);
    assert("BybitLinear"@.skip(5) =~= "Linear"@);
    assert("BybitLinear"@.take(5) + " Linear"@ =~= "Bybit Linear"@);
}

proof fn lemma_compact_bybit_inverse()
    ensures
        first_index(without_spaces("Bybit Inverse"@), ':') == without_spaces("Bybit Inverse"@).len(),
        normalize_exchange(without_spaces("Bybit Inverse"@)) == "Bybit Inverse"@,
{
    reveal_with_fuel(without_spaces, 15);
    reveal_with_fuel(first_index, 14);
    reveal_strlit("Bybit Inverse");
    reveal_strlit("BybitInverse");
    reveal_strlit("Inverse");
    reveal_strlit(" Inverse");
    reveal_strlit("Linear");
    reveal_strlit("Inverse");
    reveal_strlit("Spot");
    assert(without_spaces("Bybit Inverse"@) =~= "BybitInverse"@);
    if seq_ends_with("BybitInverse"@, "Linear"@) {
        assert("BybitInverse"@.skip(6)[5] == "Linear"@[5]);
    }
    assert("BybitInverse"@.skip(5) =~= "Inverse"@);
    assert("BybitInverse"@.take(5) + " Inverse"@ =~= "Bybit Inverse"@);
}

proof fn lemma_compact_bybit_spot()
    ensures
        first_index(without_spaces("Bybit Spot"@), ':') == without_spaces("Bybit Spot"@).len(),
        normalize_exchange(without_spaces("Bybit Spot"@)) == "Bybit Spot"@,
{
    reveal_with_fuel(without_spaces, 12);
    reveal_with_fuel(first_index, 11);
    reveal_strlit("Bybit Spot");
    reveal_strlit("BybitSpot");
    reveal_strlit("Spot");
    reveal_strlit(" Spot");
    reveal_strlit("Linear");
    reveal_strlit("Inverse");
    reveal_strlit("Spot");
    assert(without_spaces("Bybit Spot"@) =~= "BybitSpot"@);
    if seq_ends_with("BybitSpot"@, "Linear"@) {
        assert("BybitSpot"@.skip(3)[5] == "Linear"@[5]);
    }
    if seq_ends_with("BybitSpot"@, "Inverse"@) {
        assert("BybitSpot"@.skip(2)[6] == "Inverse"@[6]);
    }
    assert("BybitSpot"@.skip(5) =~= "Spot"@);
    assert("BybitSpot"@.take(5) + " Spot"@ =~= "Bybit Spot"@);
}

proof fn lemma_compact_hyperliquid_linear()
    ensures
        first_index(without_spaces("Hyperliquid Linear"@), ':') == without_spaces("Hyperliquid Linear"@).len(),
        normalize_exchange(without_spaces("Hyperliquid Linear"@)) == "Hyperliquid Linear"@,
{
    reveal_with_fuel(without_spaces, 20);
    reveal_with_fuel(first_index, 19);
    reveal_strlit("Hyperliquid Linear");
    reveal_strlit("HyperliquidLinear");
    reveal_strlit("Linear");
    reveal_strlit(" Linear");
    reveal_strlit("Linear");
    reveal_strlit("Inverse");
    reveal_strlit("Spot");
    assert(without_spaces("Hyperliquid Linear"@) =~= "HyperliquidLinear"@);
    assert("HyperliquidLinear"@.skip(11) =~= "Linear"@);
    assert("HyperliquidLinear"@.take(11) + " Linear"@ =~= "Hyperliquid Linear"@);
}

proof fn lemma_compact_hyperliquid_spot()
    ensures
        first_index(without_spaces("Hyperliquid Spot"@), ':') == without_spaces("Hyperliquid Spot"@).len(),
        normalize_exchange(without_spaces("Hyperliquid Spot"@)) == "Hyperliquid Spot"@,
{
    reveal_with_fuel(without_spaces, 18);
    reveal_with_fuel(first_index, 17);
    reveal_strlit("Hyperliquid Spot");
    reveal_strlit("HyperliquidSpot");
    reveal_strlit("Spot");
    reveal_strlit(" Spot");
    reveal_strlit("Linear");
    reveal_strlit("Inverse");
    reveal_strlit("Spot");
    assert(without_spaces("Hyperliquid Spot"@) =~= "HyperliquidSpot"@);
    if seq_ends_with("HyperliquidSpot"@, "Linear"@) {
        assert("HyperliquidSpot"@.skip(9)[5] == "Linear"@[5]);
    }
    if seq_ends_with("HyperliquidSpot"@, "Inverse"@) {
        assert("HyperliquidSpot"@.skip(8)[6] == "Inverse"@[6]);
    }
    assert("HyperliquidSpot"@.skip(11) =~= "Spot"@);
    assert("HyperliquidSpot"@.take(11) + " Spot"@ =~= "Hyperliquid Spot"@);
}

proof fn lemma_compact_okex_linear()
    ensures
        first_index(without_spaces("OKX Linear"@), ':') == without_spaces("OKX Linear"@).len(),
        normalize_exchange(without_spaces("OKX Linear"@)) == "OKX Linear"@,
{
    reveal_with_fuel(without_spaces, 12);
    reveal_with_fuel(first_index, 11);
    reveal_strlit("OKX Linear");
    reveal_strlit("OKXLinear");
    reveal_strlit("Linear");
    reveal_strlit(" Linear");
    reveal_strlit("Linear");
    reveal_strlit("Inverse");
    reveal_strlit("Spot");
    assert(without_spaces("OKX Linear"@) =~= "OKXLinear"@);
    assert("OKXLinear"@.skip(3) =~= "Linear"@);
    assert("OKXLinear"@.take(3) + " Linear"@ =~= "OKX Linear"@);
}

proof fn lemma_compact_okex_inverse()
    ensures
        first_index(without_spaces("OKX Inverse"@), ':') == without_spaces("OKX Inverse"@).len(),
        normalize_exchange(without_spaces("OKX Inverse"@)) == "OKX Inverse"@,
{
    reveal_with_fuel(without_spaces, 13);
    reveal_with_fuel(first_index, 12);
    reveal_strlit("OKX Inverse");
    reveal_strlit("OKXInverse");
    reveal_strlit("Inverse");
    reveal_strlit(" Inverse");
    reveal_strlit("Linear");
    reveal_strlit("Inverse");
    reveal_strlit("Spot");
    assert(without_spaces("OKX Inverse"@) =~= "OKXInverse"@);
    if seq_ends_with("OKXInverse"@, "Linear"@) {
        assert("OKXInverse"@.skip(4)[5] == "Linear"@[5]);
    }
    assert("OKXInverse"@.skip(3) =~= "Inverse"@);
    assert("OKXInverse"@.take(3) + " Inverse"@ =~= "OKX Inverse"@);
}

proof fn lemma_compact_okex_spot()
    ensures
        first_index(without_spaces("OKX Spot"@), ':') == without_spaces("OKX Spot"@).len(),
        normalize_exchange(without_spaces("OKX Spot"@)) == "OKX Spot"@,
{
    reveal_with_fuel(without_spaces, 10);
    reveal_with_fuel(first_index, 9);
    reveal_strlit("OKX Spot");
    reveal_strlit("OKXSpot");
    reveal_strlit("Spot");
    reveal_strlit(" Spot");
    reveal_strlit("Linear");
    reveal_strlit("Inverse");
    reveal_strlit("Spot");
    assert(without_spaces("OKX Spot"@) =~= "OKXSpot"@);
    if seq_ends_with("OKXSpot"@, "Linear"@) {
        assert("OKXSpot"@.skip(1)[5] == "Linear"@[5]);
    }
    if seq_ends_with("OKXSpot"@, "Inverse"@) {
        assert("OKXSpot"@.skip(0)[6] == "Inverse"@[6]);
    }
    assert("OKXSpot"@.skip(3) =~= "Spot"@);
    assert("OKXSpot"@.take(3) + " Spot"@ =~= "OKX Spot"@);
}

proof fn lemma_compact_mexc_linear()
    ensures
        first_index(without_spaces("MEXC Linear"@), ':') == without_spaces("MEXC Linear"@).len(),
        normalize_exchange(without_spaces("MEXC Linear"@)) == "MEXC Linear"@,
{
    reveal_with_fuel(without_spaces, 13);
    reveal_with_fuel(first_index, 12);
    reveal_strlit("MEXC Linear");
    reveal_strlit("MEXCLinear");
    reveal_strlit("Linear");
    reveal_strlit(" Linear");
    reveal_strlit("Linear");
    reveal_strlit("Inverse");
    reveal_strlit("Spot");
    assert(without_spaces("MEXC Linear"@) =~= "MEXCLinear"@);
    assert("MEXCLinear"@.skip(4) =~= "Linear"@);
    assert("MEXCLinear"@.take(4) + " Linear"@ =~= "MEXC Linear"@);
}

proof fn lemma_compact_mexc_inverse()
    ensures
        first_index(without_spaces("MEXC Inverse"@), ':') == without_spaces("MEXC Inverse"@).len(),
        normalize_exchange(without_spaces("MEXC Inverse"@)) == "MEXC Inverse"@,
{
    reveal_with_fuel(without_spaces, 14);
    reveal_with_fuel(first_index, 13);
    reveal_strlit("MEXC Inverse");
    reveal_strlit("MEXCInverse");
    reveal_strlit("Inverse");
    reveal_strlit(" Inverse");
    reveal_strlit("Linear");
    reveal_strlit("Inverse");
    reveal_strlit("Spot");
    assert(without_spaces("MEXC Inverse"@) =~= "MEXCInverse"@);
    if seq_ends_with("MEXCInverse"@, "Linear"@) {
        assert("MEXCInverse"@.skip(5)[5] == "Linear"@[5]);
    }
    assert("MEXCInverse"@.skip(4) =~= "Inverse"@);
    assert("MEXCInverse"@.take(4) + " Inverse"@ =~= "MEXC Inverse"@);
}

proof fn lemma_compact_mexc_spot()
    ensures
        first_index(without_spaces("MEXC Spot"@), ':') == without_spaces("MEXC Spot"@).len(),
        normalize_exchange(without_spaces("MEXC Spot"@)) == "MEXC Spot"@,
{
    reveal_with_fuel(without_spaces, 11);
    reveal_with_fuel(first_index, 10);
    reveal_strlit("MEXC Spot");
    reveal_strlit("MEXCSpot");
    reveal_strlit("Spot");
    reveal_strlit(" Spot");
    reveal_strlit("Linear");
    reveal_strlit("Inverse");
    reveal_strlit("Spot");
    assert(without_spaces("MEXC Spot"@) =~= "MEXCSpot"@);
    if seq_ends_with("MEXCSpot"@, "Linear"@) {
        assert("MEXCSpot"@.skip(2)[5] == "Linear"@[5]);
    }
    if seq_ends_with("MEXCSpot"@, "Inverse"@) {
        assert("MEXCSpot"@.skip(1)[6] == "Inverse"@[6]);
    }
    assert("MEXCSpot"@.skip(4) =~= "Spot"@);
    assert("MEXCSpot"@.take(4) + " Spot"@ =~= "MEXC Spot"@);
}

proof fn lemma_compact_tachibana()
    ensures
        first_index(without_spaces("Tachibana Spot"@), ':') == without_spaces("Tachibana Spot"@).len(),
        normalize_exchange(without_spaces("Tachibana Spot"@)) == "Tachibana Spot"@,
{
    reveal_with_fuel(without_spaces, 16);
    reveal_with_fuel(first_index, 15);
    reveal_strlit("Tachibana Spot");
    reveal_strlit("TachibanaSpot");
    reveal_strlit("Spot");
    reveal_strlit(" Spot");
    reveal_strlit("Linear");
    reveal_strlit("Inverse");
    reveal_strlit("Spot");
    assert(without_spaces("Tachibana Spot"@) =~= "TachibanaSpot"@);
    if seq_ends_with("TachibanaSpot"@, "Linear"@) {
        assert("TachibanaSpot"@.skip(7)[5] == "Linear"@[5]);
    }
    if seq_ends_with("TachibanaSpot"@, "Inverse"@) {
        assert("TachibanaSpot"@.skip(6)[6] == "Inverse"@[6]);
    }
    assert("TachibanaSpot"@.skip(9) =~= "Spot"@);
    assert("TachibanaSpot"@.take(9) + " Spot"@ =~= "Tachibana Spot"@);
}

/// A venue name without its space contains no colon and normalizes back to
/// the name.
pub(crate) proof fn lemma_compact_name(e: Exchange)
    ensures
        first_index(without_spaces(exchange_name(e)), ':') == without_spaces(exchange_name(e)).len(),
        normalize_exchange(without_spaces(exchange_name(e))) == exchange_name(e),
{
    match e {
        Exchange::BinanceLinear => lemma_compact_binance_linear(),
        Exchange::BinanceInverse => lemma_compact_binance_inverse(),
        Exchange::BinanceSpot => lemma_compact_binance_spot(),
        Exchange::BybitLinear => lemma_compact_bybit_linear(),
        Exchange::BybitInverse => lemma_compact_bybit_inverse(),
        Exchange::BybitSpot => lemma_compact_bybit_spot(),
        Exchange::HyperliquidLinear => lemma_compact_hyperliquid_linear(),
        Exchange::HyperliquidSpot => lemma_compact_hyperliquid_spot(),
        Exchange::OkexLinear => lemma_compact_okex_linear(),
        Exchange::OkexInverse => lemma_compact_okex_inverse(),
        Exchange::OkexSpot => lemma_compact_okex_spot(),
        Exchange::MexcLinear => lemma_compact_mexc_linear(),
        Exchange::MexcInverse => lemma_compact_mexc_inverse(),
        Exchange::MexcSpot => lemma_compact_mexc_spot(),
        Exchange::Tachibana => lemma_compact_tachibana(),
    }
}

} // verus!
