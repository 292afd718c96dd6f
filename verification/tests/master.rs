use flowsurface::numeric::Amount;
use flowsurface::market::{Kline, Price, Qty, Volume};
use flowsurface::master::{
    IssueMasterCache, MasterRecord, MockFixtures, master_record_to_ticker_info,
    parse_sjis_stream_records,
};
use flowsurface::tachibana::MarketPriceRecord;
use flowsurface::ticker::Exchange;

fn master(clm_id: &str, code: &str, english: &str) -> MasterRecord {
    MasterRecord {
        clm_id: clm_id.to_string(),
        issue_code: code.to_string(),
        issue_name: String::new(),
        issue_name_short: String::new(),
        issue_name_kana: String::new(),
        issue_name_english: english.to_string(),
        primary_market: String::new(),
        sector_code: String::new(),
        sector_name: String::new(),
    }
}

#[test]
fn master_record_to_ticker_info_basic_kabu_record() {
    let record = MasterRecord {
        clm_id: "CLMIssueMstKabu".to_string(),
        issue_code: "7203".to_string(),
        issue_name: "トヨタ自動車".to_string(),
        issue_name_short: "トヨタ".to_string(),
        issue_name_kana: "トヨタジドウシャ".to_string(),
        issue_name_english: "TOYOTA MOTOR".to_string(),
        primary_market: "00".to_string(),
        sector_code: "3050".to_string(),
        sector_name: "輸送用機器".to_string(),
    };
    let (ticker, info) = master_record_to_ticker_info(&record).expect("converts");
    let (symbol, _) = ticker.to_full_symbol_and_type();
    assert_eq!(symbol, "7203");
    assert_eq!(info.ticker, ticker);
}

#[test]
fn master_record_to_ticker_info_fields() {
    let (ticker, info) =
        master_record_to_ticker_info(&master("CLMIssueMstKabu", "7203", "TOYOTA MOTOR")).unwrap();
    assert_eq!(ticker.exchange, Exchange::Tachibana);
    assert_eq!(ticker.display_symbol(), Some("TOYOTA MOTOR".to_string()));
    assert_eq!(info.min_ticksize, Price(Amount::Units(100_000_000)));
    assert_eq!(info.min_qty, Qty(Amount::Units(10_000_000_000)));
    assert_eq!(info.contract_size, None);
}

#[test]
fn master_record_to_ticker_info_non_kabu_returns_none() {
    assert!(master_record_to_ticker_info(&master("CLMIssueMstFuture", "1234", "SOME FUTURE")).is_none());
}

#[test]
fn master_record_to_ticker_info_empty_issue_code_returns_none() {
    assert!(master_record_to_ticker_info(&master("CLMIssueMstKabu", "", "SOME STOCK")).is_none());
}

#[test]
fn master_record_to_ticker_info_empty_english_name_uses_no_display() {
    let mut record = master("CLMIssueMstKabu", "9999", "");
    record.issue_name = "テスト銘柄".to_string();
    let result = master_record_to_ticker_info(&record);
    assert!(result.is_some());
    assert_eq!(result.unwrap().0.display_symbol(), None);
}

#[test]
fn master_record_to_ticker_info_long_english_name_truncated() {
    let record = master("CLMIssueMstKabu", "8001", "ABCDEFGHIJKLMNOPQRSTUVWXYZ1234567890");
    let result = master_record_to_ticker_info(&record);
    assert!(result.is_some());
    assert_eq!(
        result.unwrap().0.display_symbol(),
        Some("ABCDEFGHIJKLMNOPQRSTUVWXYZ12".to_string())
    );
}

#[test]
fn master_record_to_ticker_info_non_ascii_english_name_falls_back() {
    let record = master("CLMIssueMstKabu", "8002", "日本語名");
    let result = master_record_to_ticker_info(&record);
    assert!(result.is_some());
    assert_eq!(result.unwrap().0.display_symbol(), None);
}

#[test]
fn long_english_name_cut_inside_a_character_falls_back() {
    // 27 ASCII bytes, then a two-byte character across byte 28.
    let record = master("CLMIssueMstKabu", "8002", "ABCDEFGHIJKLMNOPQRSTUVWXYZ1é");
    let (ticker, _) = master_record_to_ticker_info(&record).expect("converts");
    assert_eq!(ticker.display_symbol(), None);
    // A long ASCII name keeps its first 28 characters.
    let record = master("CLMIssueMstKabu", "8002", "ABCDEFGHIJKLMNOPQRSTUVWXYZ0123456789");
    let (ticker, _) = master_record_to_ticker_info(&record).expect("converts");
    assert_eq!(ticker.display_symbol(), Some("ABCDEFGHIJKLMNOPQRSTUVWXYZ01".to_string()));
}

#[test]
fn parse_sjis_stream_records_splits_ascii_records_at_brace() {
    let records = parse_sjis_stream_records(b"abc}def}");
    assert_eq!(records.len(), 2);
    assert_eq!(records[0], b"abc}");
    assert_eq!(records[1], b"def}");
}

#[test]
fn parse_sjis_stream_records_does_not_split_on_sjis_trail_byte_0x7d() {
    let data: &[u8] = &[b'{', b'"', b'x', b'"', b':', b'"', 0x81, 0x7d, b'"', b'}'];
    let records = parse_sjis_stream_records(data);
    assert_eq!(records.len(), 1, "{} records", records.len());
    assert_eq!(records[0], data);
}

#[test]
fn parse_sjis_stream_records_handles_e0_range_lead_byte() {
    let data: &[u8] = &[0xE0, 0x7d, b'}'];
    let records = parse_sjis_stream_records(data);
    assert_eq!(records.len(), 1, "{} records", records.len());
}

#[test]
fn parse_sjis_stream_records_two_records_with_sjis_in_first() {
    let mut data = Vec::new();
    data.extend_from_slice(&[b'A', 0x81, 0x7d, b'}']);
    data.extend_from_slice(&[b'B', b'}']);
    let records = parse_sjis_stream_records(&data);
    assert_eq!(records.len(), 2, "{} records", records.len());
    assert_eq!(records[0], &[b'A', 0x81, 0x7d, b'}']);
    assert_eq!(records[1], &[b'B', b'}']);
}

#[test]
fn parse_sjis_stream_records_returns_trailing_incomplete_data() {
    let records = parse_sjis_stream_records(b"abc}incomplete");
    assert_eq!(records.len(), 2);
    assert_eq!(records[0], b"abc}");
    assert_eq!(records[1], b"incomplete");
}

#[test]
fn parse_sjis_stream_records_empty_input() {
    assert!(parse_sjis_stream_records(b"").is_empty());
    assert_eq!(parse_sjis_stream_records(b"}}"), vec![b"}".to_vec(), b"}".to_vec()]);
}

#[test]
fn issue_master_cache_inject_and_clear() {
    let mut cache = IssueMasterCache::new();
    assert!(cache.records().is_none());
    cache.inject_master_cache(vec![master("CLMIssueMstKabu", "7203", "TOYOTA")]);
    let held = cache.records().expect("records held");
    assert_eq!(held.len(), 1);
    assert_eq!(held[0].issue_code, "7203");
    cache.clear_master_cache();
    assert!(cache.records().is_none());
}

fn kline(t: u64) -> Kline {
    Kline {
        time: t,
        open: Price(Amount::Units(1)),
        high: Price(Amount::Units(2)),
        low: Price(Amount::Units(0)),
        close: Price(Amount::Units(1)),
        volume: Volume::TotalOnly(Qty(Amount::Units(5))),
    }
}

#[test]
fn mock_daily_klines_accumulate_per_issue() {
    let mut fx = MockFixtures::new();
    assert!(fx.get_mock_daily_klines("7203").is_none());
    fx.inject_daily_klines("7203".to_string(), vec![kline(1), kline(2)]);
    fx.inject_daily_klines("6501".to_string(), vec![kline(3)]);
    assert_eq!(fx.get_mock_daily_klines("7203"), Some(vec![kline(1), kline(2)]));
    assert_eq!(fx.get_mock_daily_klines("6501"), Some(vec![kline(3)]));
    fx.inject_daily_klines("7203".to_string(), vec![kline(9)]);
    assert_eq!(fx.get_mock_daily_klines("7203"), Some(vec![kline(9)]));
    assert!(fx.get_mock_daily_klines("9984").is_none());
    fx.clear_daily_klines();
    assert!(fx.get_mock_daily_klines("7203").is_none());
}

#[test]
fn mock_market_prices_inject_get_clear() {
    let mut fx = MockFixtures::new();
    assert!(fx.get_mock_market_prices().is_none());
    let record = MarketPriceRecord {
        issue_code: "6501".to_string(),
        current_price: "3250".to_string(),
        open: "3200".to_string(),
        high: "3280".to_string(),
        low: "3195".to_string(),
        volume: "1500000".to_string(),
        prev_close: "3220".to_string(),
    };
    fx.inject_market_prices(vec![record]);
    let got = fx.get_mock_market_prices().expect("fixture held");
    assert_eq!(got.len(), 1);
    assert_eq!(got[0].issue_code, "6501");
    assert_eq!(got[0].prev_close, "3220");
    fx.clear_market_prices();
    assert!(fx.get_mock_market_prices().is_none());
}
