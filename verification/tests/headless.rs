use flowsurface::headless::{parse_headless_args, parse_ticker_str, parse_timeframe_str};
use flowsurface::ticker::{Exchange, Timeframe};

fn args(v: &[&str]) -> Vec<String> {
    v.iter().map(|s| s.to_string()).collect()
}

#[test]
fn parse_args_returns_ticker_and_explicit_timeframe() {
    let a = args(&["flowsurface", "--headless", "--ticker", "HyperliquidLinear:BTC", "--timeframe", "H1"]);
    let result = parse_headless_args(&a).unwrap();
    assert_eq!(result.ticker, "HyperliquidLinear:BTC");
    assert_eq!(result.timeframe, "H1");
}

#[test]
fn parse_args_defaults_timeframe_to_m1() {
    let a = args(&["flowsurface", "--headless", "--ticker", "BinanceLinear:BTCUSDT"]);
    let result = parse_headless_args(&a).unwrap();
    assert_eq!(result.timeframe, "M1");
}

#[test]
fn parse_args_returns_error_when_ticker_missing() {
    let a = args(&["flowsurface", "--headless"]);
    let result = parse_headless_args(&a);
    assert!(result.is_err());
    assert!(result.unwrap_err().contains("--ticker"));
}

#[test]
fn parse_args_ignores_unknown_flags() {
    let a = args(&["flowsurface", "--headless", "--unknown", "value", "--ticker", "HyperliquidLinear:BTC"]);
    let result = parse_headless_args(&a).unwrap();
    assert_eq!(result.ticker, "HyperliquidLinear:BTC");
}

#[test]
fn parse_args_edge_cases() {
    // A trailing --ticker without a value clears an earlier ticker.
    let a = args(&["p", "--ticker", "BinanceSpot:BTCUSDT", "--ticker"]);
    assert_eq!(parse_headless_args(&a).unwrap_err(), "--ticker is required in headless mode");
    // A trailing --timeframe without a value keeps the default.
    let a = args(&["p", "--ticker", "BinanceSpot:BTCUSDT", "--timeframe"]);
    assert_eq!(parse_headless_args(&a).unwrap().timeframe, "M1");
    // The program name is never read as a flag; the last --ticker wins.
    let a = args(&["--ticker", "--ticker", "A:B", "--ticker", "C:D"]);
    assert_eq!(parse_headless_args(&a).unwrap().ticker, "C:D");
    assert!(parse_headless_args(&[]).is_err());
}

#[test]
fn parse_ticker_str_hyperliquid_linear_btc() {
    let ticker = parse_ticker_str("HyperliquidLinear:BTC").unwrap();
    assert_eq!(ticker.exchange, Exchange::HyperliquidLinear);
    assert_eq!(ticker.to_symbol_string(), "BTC");
}

#[test]
fn parse_ticker_str_binance_linear_btcusdt() {
    let ticker = parse_ticker_str("BinanceLinear:BTCUSDT").unwrap();
    assert_eq!(ticker.exchange, Exchange::BinanceLinear);
    assert_eq!(ticker.to_symbol_string(), "BTCUSDT");
}

#[test]
fn parse_ticker_str_returns_error_for_missing_colon() {
    let result = parse_ticker_str("BinanceBTCUSDT");
    assert!(result.is_err());
    assert_eq!(
        result.unwrap_err(),
        "invalid ticker format: expected 'Exchange:Symbol', got 'BinanceBTCUSDT'"
    );
}

#[test]
fn parse_ticker_str_returns_error_for_unknown_exchange() {
    let result = parse_ticker_str("UnknownExchange:BTCUSDT");
    assert!(result.is_err());
    assert_eq!(result.unwrap_err(), "unknown exchange: UnknownExchange");
}

#[test]
fn parse_ticker_str_splits_at_first_colon_and_normalizes_suffix() {
    let t = parse_ticker_str("BinanceSpot:A:B").unwrap();
    assert_eq!(t.exchange, Exchange::BinanceSpot);
    assert_eq!(t.to_symbol_string(), "A:B");
    let t = parse_ticker_str("BybitInverse:BTCUSD").unwrap();
    assert_eq!(t.exchange, Exchange::BybitInverse);
    assert_eq!(t.display_symbol(), None);
}

#[test]
fn parse_timeframe_str_m1() {
    assert_eq!(parse_timeframe_str("M1").unwrap(), Timeframe::M1);
}

#[test]
fn parse_timeframe_str_lowercase_1m_alias() {
    assert_eq!(parse_timeframe_str("1m").unwrap(), Timeframe::M1);
}

#[test]
fn parse_timeframe_str_h1() {
    assert_eq!(parse_timeframe_str("H1").unwrap(), Timeframe::H1);
}

#[test]
fn parse_timeframe_str_d1() {
    assert_eq!(parse_timeframe_str("D1").unwrap(), Timeframe::D1);
}

#[test]
fn parse_timeframe_str_returns_error_for_unknown() {
    let result = parse_timeframe_str("X99");
    assert!(result.is_err());
    assert!(result.unwrap_err().contains("unknown timeframe"));
}

#[test]
fn parse_timeframe_str_all_names() {
    let cases = [
        ("MS100", Timeframe::MS100),
        ("MS200", Timeframe::MS200),
        ("MS300", Timeframe::MS300),
        ("MS500", Timeframe::MS500),
        ("MS1000", Timeframe::MS1000),
        ("S1", Timeframe::MS1000),
        ("3m", Timeframe::M3),
        ("M5", Timeframe::M5),
        ("15m", Timeframe::M15),
        ("M30", Timeframe::M30),
        ("2h", Timeframe::H2),
        ("H4", Timeframe::H4),
        ("12h", Timeframe::H12),
        ("1d", Timeframe::D1),
    ];
    for (name, tf) in cases {
        assert_eq!(parse_timeframe_str(name).unwrap(), tf, "{name}");
    }
    assert_eq!(parse_timeframe_str("m1").unwrap_err(), "unknown timeframe: m1");
}
