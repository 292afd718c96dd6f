use flowsurface::event::{
    EventUrls, build_event_params, fields_to_depth, fields_to_depth_at, fields_to_trade,
    fields_to_trade_at, parse_event_frame,
};
use flowsurface::market::{Price, Qty};
use flowsurface::numeric::Amount;

fn units(a: Amount) -> i64 {
    match a {
        Amount::Units(u) => u,
        other => panic!("not a value: {other:?}"),
    }
}

fn px(p: Price) -> f32 {
    (units(p.0) as f64 / 1e8) as f32
}

fn qt(q: Qty) -> f32 {
    (units(q.0) as f64 / 1e8) as f32
}

fn pair(f: &(String, String)) -> (&str, &str) {
    (f.0.as_str(), f.1.as_str())
}

#[test]
fn parse_event_frame_basic() {
    let data = "\x01p_1_DPP\x023250\x01p_1_GAP1\x02500\x01p_1_GBP1\x023249";
    let fields = parse_event_frame(data);
    assert_eq!(fields.len(), 3);
    assert_eq!(pair(&fields[0]), ("p_1_DPP", "3250"));
    assert_eq!(pair(&fields[1]), ("p_1_GAP1", "500"));
    assert_eq!(pair(&fields[2]), ("p_1_GBP1", "3249"));
}

#[test]
fn parse_event_frame_empty_data() {
    let fields = parse_event_frame("");
    assert!(fields.is_empty());
}

#[test]
fn parse_event_frame_no_stx_skips_record() {
    let fields = parse_event_frame("\x01novalue\x01pDPP\x023250");
    assert_eq!(fields.len(), 1);
    assert_eq!(pair(&fields[0]), ("pDPP", "3250"));
}

#[test]
fn parse_event_frame_empty_column_name_skipped() {
    let fields = parse_event_frame("\x01\x02value\x01pDPP\x023250");
    assert_eq!(fields.len(), 1);
    assert_eq!(pair(&fields[0]), ("pDPP", "3250"));
}

#[test]
fn parse_event_frame_etx_sub_delimiter_preserved_in_value() {
    let fields = parse_event_frame("\x01p_1_QAS\x020101\x03extra");
    assert_eq!(fields.len(), 1);
    assert_eq!(fields[0].0, "p_1_QAS");
    assert_eq!(fields[0].1, "0101\x03extra");
}

#[test]
fn parse_event_frame_multiple_stx_uses_first_split_only() {
    let fields = parse_event_frame("\x01p_1_DPP\x023250\x02extra");
    assert_eq!(fields.len(), 1);
    assert_eq!(fields[0].0, "p_1_DPP");
    assert_eq!(fields[0].1, "3250\x02extra");
}

#[test]
fn parse_event_frame_real_69_field_fd_frame() {
    let mut data = String::new();
    let field_names = [
        "p_no", "p_date", "p_cmd", "p_1_AV", "p_1_BV", "p_1_DHF", "p_1_DHP", "p_1_DHP:T",
        "p_1_DJ", "p_1_DLF", "p_1_DLP", "p_1_DLP:T", "p_1_DOP", "p_1_DOP:T", "p_1_DPG",
        "p_1_DPP", "p_1_DPP:T", "p_1_DV", "p_1_DYRP", "p_1_DYWP",
    ];
    for (i, name) in field_names.iter().enumerate() {
        data.push_str(&format!("\x01{}\x02val{}", name, i));
    }
    for i in 1..=10 {
        data.push_str(&format!("\x01p_1_GAP{}\x02{}", i, 3319 + i));
        data.push_str(&format!("\x01p_1_GAV{}\x02{}", i, 10000 + i * 100));
        data.push_str(&format!("\x01p_1_GBP{}\x02{}", i, 3318 - i));
        data.push_str(&format!("\x01p_1_GBV{}\x02{}", i, 6300 + i * 50));
    }
    for name in &[
        "p_1_LISS", "p_1_PRP", "p_1_QAP", "p_1_QAS", "p_1_QBP", "p_1_QBS", "p_1_QOV", "p_1_QUV",
        "p_1_VWAP",
    ] {
        data.push_str(&format!("\x01{}\x021234", name));
    }
    let fields = parse_event_frame(&data);
    assert_eq!(fields.len(), 69);
}

#[test]
fn parse_event_frame_colon_in_field_name() {
    let fields = parse_event_frame("\x01p_1_DPP:T\x0215:00:00");
    assert_eq!(fields.len(), 1);
    assert_eq!(fields[0].0, "p_1_DPP:T");
    assert_eq!(fields[0].1, "15:00:00");
}

#[test]
fn parse_event_frame_consecutive_soh_skips_empty_records() {
    let fields = parse_event_frame("\x01\x01p_1_DPP\x023250\x01\x01");
    assert_eq!(fields.len(), 1);
    assert_eq!(pair(&fields[0]), ("p_1_DPP", "3250"));
}

#[test]
fn parse_event_frame_value_is_empty_string() {
    let fields = parse_event_frame("\x01p_1_DPP\x02");
    assert_eq!(fields.len(), 1);
    assert_eq!(pair(&fields[0]), ("p_1_DPP", ""));
}

#[test]
fn parse_event_frame_text_before_first_soh_is_a_record() {
    let fields = parse_event_frame("p_cmd\x02FD\x01x\x02y");
    assert_eq!(fields.len(), 2);
    assert_eq!(pair(&fields[0]), ("p_cmd", "FD"));
    assert_eq!(pair(&fields[1]), ("x", "y"));
}

#[test]
fn fields_to_depth_full_10_levels() {
    let mut data = String::from("\x01p_cmd\x02FD");
    for i in 1..=10 {
        let ask_price = 3250 + i;
        let bid_price = 3250 - i;
        data.push_str(&format!(
            "\x01p_1_GAP{i}\x02{ask_price}\x01p_1_GAV{i}\x02{}\x01p_1_GBP{i}\x02{bid_price}\x01p_1_GBV{i}\x02{}",
            (i * 100),
            (i * 200),
        ));
    }
    let fields = parse_event_frame(&data);
    let depth = fields_to_depth(&fields).expect("depth");
    assert_eq!(depth.asks.len(), 10);
    assert_eq!(depth.bids.len(), 10);
    assert_eq!(px(depth.asks[0].price), 3251.0);
    assert_eq!(qt(depth.asks[0].qty), 100.0);
    assert_eq!(px(depth.bids[0].price), 3249.0);
    assert_eq!(qt(depth.bids[0].qty), 200.0);
}

#[test]
fn fields_to_depth_partial_missing_levels() {
    let data = "\x01p_cmd\x02FD\x01p_1_GAP1\x023251\x01p_1_GAV1\x02100\x01p_1_GBP1\x023249\x01p_1_GBV1\x02200";
    let fields = parse_event_frame(data);
    let depth = fields_to_depth(&fields).expect("partial depth");
    assert_eq!(depth.asks.len(), 1);
    assert_eq!(depth.bids.len(), 1);
}

#[test]
fn fields_to_depth_returns_none_for_no_depth_data() {
    let fields = parse_event_frame("\x01p_cmd\x02KP\x01p_1_DPP\x023250\x01p_1_DV\x02500");
    assert!(fields_to_depth(&fields).is_none());
}

#[test]
fn fields_to_depth_star_values_skipped() {
    let data = "\x01p_cmd\x02FD\x01p_1_GAP1\x02*\x01p_1_GAV1\x02100\x01p_1_GBP1\x023249\x01p_1_GBV1\x02200";
    let fields = parse_event_frame(data);
    let depth = fields_to_depth(&fields).expect("bids only");
    assert_eq!(depth.asks.len(), 0);
    assert_eq!(depth.bids.len(), 1);
}

#[test]
fn fields_to_depth_non_contiguous_levels() {
    let data = "\x01p_cmd\x02FD\
                 \x01p_1_GAP1\x023320\x01p_1_GAV1\x02100\
                 \x01p_1_GAP3\x023322\x01p_1_GAV3\x02300\
                 \x01p_1_GBP1\x023318\x01p_1_GBV1\x02200";
    let fields = parse_event_frame(data);
    let depth = fields_to_depth(&fields).expect("depth");
    assert_eq!(depth.asks.len(), 2);
    assert_eq!(depth.bids.len(), 1);
    assert_eq!(px(depth.asks[0].price), 3320.0);
    assert_eq!(px(depth.asks[1].price), 3322.0);
}

#[test]
fn fields_to_depth_zero_qty_is_valid() {
    let data = "\x01p_cmd\x02FD\
                 \x01p_1_GAP1\x023320\x01p_1_GAV1\x020\
                 \x01p_1_GBP1\x023318\x01p_1_GBV1\x020";
    let fields = parse_event_frame(data);
    let depth = fields_to_depth(&fields).expect("zero quantities are valid");
    assert_eq!(qt(depth.asks[0].qty), 0.0);
    assert_eq!(qt(depth.bids[0].qty), 0.0);
}

#[test]
fn fields_to_depth_large_over_under_quantities() {
    let data = "\x01p_cmd\x02FD\
                 \x01p_1_GAP1\x023319\x01p_1_GAV1\x0210000\
                 \x01p_1_GBP1\x023318\x01p_1_GBV1\x026300\
                 \x01p_1_QOV\x024218600\x01p_1_QUV\x022520200";
    let fields = parse_event_frame(data);
    let depth = fields_to_depth(&fields).expect("depth");
    assert_eq!(depth.asks.len(), 1);
    assert_eq!(depth.bids.len(), 1);
}

#[test]
fn fields_to_depth_returns_none_when_no_cmd_field() {
    let fields = parse_event_frame("\x01p_1_GAP1\x023320\x01p_1_GAV1\x02100");
    assert!(fields_to_depth(&fields).is_none());
}

#[test]
fn fields_to_depth_returns_none_for_st_cmd() {
    let fields = parse_event_frame("\x01p_cmd\x02ST\x01p_1_GAP1\x023320\x01p_1_GAV1\x02100");
    assert!(fields_to_depth(&fields).is_none());
}

#[test]
fn fields_to_depth_empty_value_skipped() {
    let data = "\x01p_cmd\x02FD\
                 \x01p_1_GAP1\x02\x01p_1_GAV1\x02100\
                 \x01p_1_GBP1\x023318\x01p_1_GBV1\x02200";
    let fields = parse_event_frame(data);
    let depth = fields_to_depth(&fields).expect("bids only");
    assert_eq!(depth.asks.len(), 0);
    assert_eq!(depth.bids.len(), 1);
}

#[test]
fn fields_to_depth_price_without_matching_qty_skipped() {
    let data = "\x01p_cmd\x02FD\x01p_1_GAP1\x023320\x01p_1_GBP1\x023318\x01p_1_GBV1\x02200";
    let fields = parse_event_frame(data);
    let depth = fields_to_depth(&fields).expect("bids only");
    assert_eq!(depth.asks.len(), 0);
    assert_eq!(depth.bids.len(), 1);
}

#[test]
fn fields_to_depth_preserves_index_order() {
    let mut data = String::from("\x01p_cmd\x02FD");
    for i in 1..=5 {
        let p = 3320 + i;
        data.push_str(&format!("\x01p_1_GAP{i}\x02{p}\x01p_1_GAV{i}\x02100"));
    }
    let fields = parse_event_frame(&data);
    let depth = fields_to_depth(&fields).unwrap();
    for i in 0..4 {
        assert!(depth.asks[i].price < depth.asks[i + 1].price, "idx={i}");
    }
}

#[test]
fn fields_to_depth_invalid_number_skipped() {
    let data = "\x01p_cmd\x02FD\
                 \x01p_1_GAP1\x02abc\x01p_1_GAV1\x02100\
                 \x01p_1_GBP1\x023318\x01p_1_GBV1\x02200";
    let fields = parse_event_frame(data);
    let depth = fields_to_depth(&fields).expect("valid bids only");
    assert_eq!(depth.asks.len(), 0);
    assert_eq!(depth.bids.len(), 1);
}

#[test]
fn fields_to_depth_at_stamps_given_time() {
    let fields = parse_event_frame("\x01p_cmd\x02FD\x01p_1_GBP1\x023318.5\x01p_1_GBV1\x02200");
    let depth = fields_to_depth_at(&fields, 1_700_000_000_123).expect("depth");
    assert_eq!(depth.time, 1_700_000_000_123);
    assert_eq!(depth.last_update_id, 1_700_000_000_123);
    assert_eq!(depth.bids[0].price, Price(Amount::Units(331_850_000_000)));
    assert_eq!(depth.bids[0].qty, Qty(Amount::Units(20_000_000_000)));
}

#[test]
fn fields_to_trade_basic() {
    let fields = parse_event_frame("\x01p_cmd\x02ST\x01p_1_DPP\x023250\x01p_1_DV\x02500\x01p_1_DYSS\x021");
    let trade = fields_to_trade(&fields).expect("trade");
    assert_eq!(px(trade.price), 3250.0);
    assert_eq!(qt(trade.qty), 500.0);
    assert!(trade.is_sell);
}

#[test]
fn fields_to_trade_buy_side() {
    let fields = parse_event_frame("\x01p_cmd\x02ST\x01p_1_DPP\x023250\x01p_1_DV\x02300\x01p_1_DYSS\x023");
    let trade = fields_to_trade(&fields).expect("trade");
    assert!(!trade.is_sell);
}

#[test]
fn fields_to_trade_star_price_returns_none() {
    let fields = parse_event_frame("\x01p_cmd\x02ST\x01p_1_DPP\x02*\x01p_1_DV\x02500");
    assert!(fields_to_trade(&fields).is_none());
}

#[test]
fn fields_to_trade_missing_qty_returns_none() {
    let fields = parse_event_frame("\x01p_cmd\x02ST\x01p_1_DPP\x023250");
    assert!(fields_to_trade(&fields).is_none());
}

#[test]
fn fields_to_trade_returns_none_for_fd_cmd() {
    let fields = parse_event_frame("\x01p_cmd\x02FD\x01p_1_DPP\x023250\x01p_1_DV\x02500");
    assert!(fields_to_trade(&fields).is_none());
}

#[test]
fn fields_to_trade_missing_dyss_defaults_to_buy() {
    let fields = parse_event_frame("\x01p_cmd\x02ST\x01p_1_DPP\x023250\x01p_1_DV\x02500");
    let trade = fields_to_trade(&fields).expect("trade without DYSS");
    assert!(!trade.is_sell);
}

#[test]
fn fields_to_trade_returns_none_for_kp_cmd() {
    let fields = parse_event_frame("\x01p_cmd\x02KP\x01p_1_DPP\x023250\x01p_1_DV\x02500");
    assert!(fields_to_trade(&fields).is_none());
}

#[test]
fn fields_to_trade_returns_none_when_no_cmd() {
    let fields = parse_event_frame("\x01p_1_DPP\x023250\x01p_1_DV\x02500");
    assert!(fields_to_trade(&fields).is_none());
}

#[test]
fn fields_to_trade_empty_price_returns_none() {
    let fields = parse_event_frame("\x01p_cmd\x02ST\x01p_1_DPP\x02\x01p_1_DV\x02500");
    assert!(fields_to_trade(&fields).is_none());
}

#[test]
fn fields_to_trade_empty_qty_returns_none() {
    let fields = parse_event_frame("\x01p_cmd\x02ST\x01p_1_DPP\x023250\x01p_1_DV\x02");
    assert!(fields_to_trade(&fields).is_none());
}

#[test]
fn fields_to_trade_invalid_price_returns_none() {
    let fields = parse_event_frame("\x01p_cmd\x02ST\x01p_1_DPP\x02abc\x01p_1_DV\x02500");
    assert!(fields_to_trade(&fields).is_none());
}

#[test]
fn fields_to_trade_suffix_xdpp_does_not_match_dpp() {
    let fields = parse_event_frame("\x01p_cmd\x02ST\x01p_1_XDPP\x029999\x01p_1_DV\x02500");
    assert!(fields_to_trade(&fields).is_none());
}

#[test]
fn fields_to_trade_large_quantity() {
    let fields =
        parse_event_frame("\x01p_cmd\x02ST\x01p_1_DPP\x023319\x01p_1_DV\x0216930900\x01p_1_DYSS\x021");
    let trade = fields_to_trade(&fields).expect("trade");
    assert_eq!(qt(trade.qty), 16930900.0);
}

#[test]
fn fields_to_trade_fractional_price() {
    let fields = parse_event_frame("\x01p_cmd\x02ST\x01p_1_DPP\x021234.5\x01p_1_DV\x02100");
    let trade = fields_to_trade(&fields).expect("trade");
    assert!((px(trade.price) - 1234.5).abs() < 0.1);
}

#[test]
fn fields_to_trade_at_stamps_given_time() {
    let fields = parse_event_frame("\x01p_cmd\x02ST\x01p_1_DPP\x02-12.25\x01p_1_DV\x02+7");
    let trade = fields_to_trade_at(&fields, 42).expect("trade");
    assert_eq!(trade.time, 42);
    assert_eq!(trade.price, Price(Amount::Units(-1_225_000_000)));
    assert_eq!(trade.qty, Qty(Amount::Units(700_000_000)));
    assert!(!trade.is_sell);
}

#[test]
fn fields_to_trade_uses_clock_time() {
    let fields = parse_event_frame("\x01p_cmd\x02ST\x01p_1_DPP\x023250\x01p_1_DV\x02500");
    let trade = fields_to_trade(&fields).expect("trade");
    // Milliseconds since the epoch: after 2024-01-01.
    assert!(trade.time > 1_704_067_200_000);
}

#[test]
fn build_event_params_format() {
    let params = build_event_params("6501", "00");
    assert!(params.contains("p_issue_code=6501"));
    assert!(params.contains("p_mkt_code=00"));
    assert!(params.contains("p_evt_cmd=ST,KP,FD"));
    assert!(params.contains("p_board_no=1000"));
    assert!(params.contains("p_eno=0"));
}

#[test]
fn build_event_params_preserves_mandatory_order() {
    let params = build_event_params("7203", "00");
    let parts: Vec<&str> = params.split('&').collect();
    assert!(parts[0].starts_with("p_rid="), "{:?}", parts[0]);
    assert!(parts.last().unwrap().starts_with("p_issue_code="), "{:?}", parts.last());
    assert_eq!(parts.len(), 7);
}

#[test]
fn build_event_params_different_market_code() {
    let params = build_event_params("7203", "01");
    assert!(params.contains("p_mkt_code=01"));
}

#[test]
fn build_event_params_exact_text() {
    assert_eq!(
        build_event_params("7203", "00"),
        "p_rid=22&p_board_no=1000&p_gyou_no=1&p_mkt_code=00&p_eno=0&p_evt_cmd=ST,KP,FD&p_issue_code=7203"
    );
}

#[test]
fn set_and_get_event_http_url() {
    let mut urls = EventUrls::new();
    urls.set_event_http_url("https://event.test/streaming/".to_string());
    let url = urls.get_event_http_url().expect("url was set");
    assert_eq!(url, "https://event.test/streaming/");
}

#[test]
fn set_and_get_event_ws_url() {
    let mut urls = EventUrls::new();
    urls.set_event_ws_url("wss://ws.test/event/".to_string());
    let url = urls.get_event_ws_url().expect("url was set");
    assert_eq!(url, "wss://ws.test/event/");
}

#[test]
fn event_urls_start_unset_and_are_independent() {
    let mut urls = EventUrls::new();
    assert!(urls.get_event_http_url().is_none());
    assert!(urls.get_event_ws_url().is_none());
    urls.set_event_ws_url("wss://a/".to_string());
    assert!(urls.get_event_http_url().is_none());
    urls.set_event_ws_url("wss://b/".to_string());
    assert_eq!(urls.get_event_ws_url().unwrap(), "wss://b/");
}

#[test]
fn real_data_fd_frame_produces_depth_and_no_trade() {
    let mut data = String::from("\x01p_no\x0212345\x01p_date\x0220260410\x01p_cmd\x02FD");
    for i in 1..=10 {
        data.push_str(&format!("\x01p_1_GAP{}\x02{}", i, 3319 + i));
        data.push_str(&format!("\x01p_1_GAV{}\x02{}", i, 10000 + i * 930));
    }
    for i in 1..=10 {
        data.push_str(&format!("\x01p_1_GBP{}\x02{}", i, 3318 - i));
        data.push_str(&format!("\x01p_1_GBV{}\x02{}", i, 6300 + i * 400));
    }
    data.push_str("\x01p_1_DPP\x023319\x01p_1_DV\x0216930900");
    let fields = parse_event_frame(&data);
    let depth = fields_to_depth(&fields).expect("depth from FD frame");
    assert_eq!(depth.asks.len(), 10);
    assert_eq!(depth.bids.len(), 10);
    assert_eq!(px(depth.asks[0].price), 3320.0);
    assert_eq!(px(depth.bids[0].price), 3317.0);
    assert!(fields_to_trade(&fields).is_none());
}

#[test]
fn real_data_st_frame_produces_trade_and_no_depth() {
    let data = "\x01p_no\x0212346\x01p_date\x0220260410\x01p_cmd\x02ST\
                 \x01p_1_DPP\x023319\x01p_1_DV\x02500\x01p_1_DPP:T\x0209:00:01\x01p_1_DYSS\x021";
    let fields = parse_event_frame(data);
    let trade = fields_to_trade(&fields).expect("trade from ST frame");
    assert_eq!(px(trade.price), 3319.0);
    assert_eq!(qt(trade.qty), 500.0);
    assert!(trade.is_sell);
    assert!(fields_to_depth(&fields).is_none());
}

#[test]
fn real_data_kp_frame_produces_neither_depth_nor_trade() {
    let data = "\x01p_no\x0212347\x01p_date\x0220260410\x01p_cmd\x02KP\
                 \x01p_1_DPP\x023319\x01p_1_DV\x0216930900";
    let fields = parse_event_frame(data);
    assert!(fields_to_depth(&fields).is_none());
    assert!(fields_to_trade(&fields).is_none());
}

#[test]
fn mixed_frame_sequence_dispatches_correctly() {
    let fd_data = "\x01p_cmd\x02FD\x01p_1_GAP1\x023320\x01p_1_GAV1\x02100\x01p_1_GBP1\x023318\x01p_1_GBV1\x02200";
    let st_data = "\x01p_cmd\x02ST\x01p_1_DPP\x023319\x01p_1_DV\x02300\x01p_1_DYSS\x021";
    let kp_data = "\x01p_cmd\x02KP\x01p_1_DPP\x023319\x01p_1_DV\x0216930900";
    let frames = [fd_data, st_data, kp_data];
    let mut depth_count = 0;
    let mut trade_count = 0;
    for frame in &frames {
        let fields = parse_event_frame(frame);
        if fields_to_depth(&fields).is_some() {
            depth_count += 1;
        }
        if fields_to_trade(&fields).is_some() {
            trade_count += 1;
        }
    }
    assert_eq!(depth_count, 1);
    assert_eq!(trade_count, 1);
}

#[test]
fn fields_to_trade_reads_exponent_price() {
    let fields = parse_event_frame("\x01p_cmd\x02ST\x01p_1_DPP\x021e3\x01p_1_DV\x021");
    let trade = fields_to_trade_at(&fields, 5).expect("a price in exponent form is a number");
    assert_eq!(trade.price.0, Amount::Units(100_000_000_000));
    assert_eq!(trade.qty.0, Amount::Units(100_000_000));
    assert_eq!(trade.time, 5);
    assert!(fields_to_trade(&fields).is_some());
}

#[test]
fn fields_to_depth_reads_exponent_levels() {
    let data = "\x01p_cmd\x02FD\x01p_1_GAP1\x021e3\x01p_1_GAV1\x021\x01p_1_GBP1\x02inf\x01p_1_GBV1\x021";
    let fields = parse_event_frame(data);
    let depth = fields_to_depth_at(&fields, 9).expect("ask level in exponent form");
    assert_eq!(depth.asks.len(), 1);
    assert_eq!(depth.asks[0].price.0, Amount::Units(100_000_000_000));
    assert_eq!(depth.asks[0].qty.0, Amount::Units(100_000_000));
    // `inf` is a number to `f32`: the bid level is kept.
    assert_eq!(depth.bids.len(), 1);
    assert_eq!(depth.bids[0].price.0, Amount::Infinite { negative: false });
}

#[test]
fn frame_of_fields_parses_back_to_the_fields() {
    let fields = [("p_cmd", "FD"), ("p_1_GAP1", "3320"), ("p_1_GAV1", ""), ("p_2_X", "a\x02b")];
    let mut text = String::new();
    for (name, value) in fields {
        text.push('\x01');
        text.push_str(name);
        text.push('\x02');
        text.push_str(value);
    }
    let parsed = parse_event_frame(&text);
    let back: Vec<(&str, &str)> = parsed.iter().map(pair).collect();
    assert_eq!(back, fields.to_vec());
}

#[test]
fn fields_to_trade_keeps_non_finite_price() {
    let fields = parse_event_frame("\x01p_cmd\x02ST\x01p_1_DPP\x02inf\x01p_1_DV\x021");
    let trade = fields_to_trade_at(&fields, 7).expect("inf is a number to f32");
    assert_eq!(trade.price, Price(Amount::Infinite { negative: false }));
    assert_eq!(trade.qty, Qty(Amount::Units(100_000_000)));
    let fields = parse_event_frame("\x01p_cmd\x02ST\x01p_1_DPP\x021e20\x01p_1_DV\x02nan");
    let trade = fields_to_trade_at(&fields, 7).expect("1e20 and nan are numbers to f32");
    assert_eq!(trade.price, Price(Amount::OutOfRange { negative: false }));
    assert_eq!(trade.qty, Qty(Amount::NotANumber));
}

#[test]
fn fields_to_depth_with_only_a_non_finite_level() {
    let data = "\x01p_cmd\x02FD\x01p_1_GAP1\x02NaN\x01p_1_GAV1\x021e20";
    let depth = fields_to_depth_at(&parse_event_frame(data), 3).expect("the level is kept");
    assert_eq!(depth.asks.len(), 1);
    assert_eq!(depth.asks[0].price, Price(Amount::NotANumber));
    assert_eq!(depth.asks[0].qty, Qty(Amount::OutOfRange { negative: false }));
}
