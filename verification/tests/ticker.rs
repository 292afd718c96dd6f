use flowsurface::ticker::{Exchange, MarketKind, Ticker, Timeframe, min_step_ms};

#[test]
fn exchange_names_round_trip() {
    let all = [
        Exchange::BinanceLinear,
        Exchange::BinanceInverse,
        Exchange::BinanceSpot,
        Exchange::BybitLinear,
        Exchange::BybitInverse,
        Exchange::BybitSpot,
        Exchange::HyperliquidLinear,
        Exchange::HyperliquidSpot,
        Exchange::OkexLinear,
        Exchange::OkexInverse,
        Exchange::OkexSpot,
        Exchange::MexcLinear,
        Exchange::MexcInverse,
        Exchange::MexcSpot,
        Exchange::Tachibana,
    ];
    for e in all {
        assert_eq!(Exchange::from_name(e.name()), Some(e));
    }
    assert_eq!(Exchange::BinanceLinear.name(), "Binance Linear");
    assert_eq!(Exchange::from_name("BinanceLinear"), None);
    assert_eq!(Exchange::from_name(""), None);
}

#[test]
fn market_kinds() {
    assert_eq!(Exchange::BybitLinear.market_kind(), MarketKind::LinearPerps);
    assert_eq!(Exchange::OkexInverse.market_kind(), MarketKind::InversePerps);
    assert_eq!(Exchange::HyperliquidSpot.market_kind(), MarketKind::Spot);
    assert_eq!(Exchange::Tachibana.market_kind(), MarketKind::Spot);
}

#[test]
fn ticker_symbol_and_display() {
    let t = Ticker::new_with_display("7203", Exchange::Tachibana, Some("TOYOTA"));
    assert_eq!(t.to_symbol_string(), "7203");
    assert_eq!(t.display_symbol(), Some("TOYOTA".to_string()));
    let (sym, kind) = t.to_full_symbol_and_type();
    assert_eq!(sym, "7203");
    assert_eq!(kind, MarketKind::Spot);
    assert_eq!(t.duplicate(), t);
    assert_eq!(Ticker::new("BTC", Exchange::BinanceSpot).display_symbol(), None);
}

#[test]
fn timeframe_lengths_and_min_step() {
    assert_eq!(Timeframe::MS100.to_milliseconds(), 100);
    assert_eq!(Timeframe::M1.to_milliseconds(), 60_000);
    assert_eq!(Timeframe::H4.to_milliseconds(), 14_400_000);
    assert_eq!(Timeframe::D1.to_milliseconds(), 86_400_000);
    assert_eq!(min_step_ms(&[]), 60_000);
    assert_eq!(min_step_ms(&[Timeframe::H1, Timeframe::M5, Timeframe::D1]), 300_000);
    assert_eq!(min_step_ms(&[Timeframe::D1]), 86_400_000);
}
