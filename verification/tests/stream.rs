use flowsurface::agent::{AgentOrderRequestKey, AgentOrderSide, AgentOrderTypeKey, AgentSessionState};
use flowsurface::auth::login_error_key;
use flowsurface::contract::{ClientOrderId, TickerContract};
use flowsurface::event::{Trade, group_trades_by_ticker};
use flowsurface::numeric::Amount;
use flowsurface::market::{Price, Qty};
use flowsurface::event::{EventLineBuffer, fields_to_trade_at, parse_event_frame};
use flowsurface::master::{
    IssueMasterCache, MasterCollector, MasterRecord, SjisRecordSplitter, cached_ticker_metadata,
    parse_sjis_stream_records,
};
use flowsurface::tachibana::{TachibanaError, decode_response_body, validate_session_reply};
use flowsurface::text::trim_text;
use flowsurface::ticker::{Exchange, Ticker};

fn master(clm_id: &str, code: &str, english: &str) -> MasterRecord {
    MasterRecord {
        clm_id: clm_id.to_string(),
        issue_code: code.to_string(),
        issue_name: String::new(),
        issue_name_short: String::new(),
        issue_name_kana: String::new(),
        issue_name_english: english.to_string(),
        primary_market: String::new(),
        sector_code: String::new(),
        sector_name: String::new(),
    }
}

#[test]
fn trim_text_removes_unicode_white_space() {
    assert_eq!(trim_text("  a b \r\n"), "a b");
    assert_eq!(trim_text("\u{3000}x\u{a0}"), "x");
    assert_eq!(trim_text(" \t\n "), "");
    assert_eq!(trim_text(""), "");
    assert_eq!(trim_text("\u{200b}x"), "\u{200b}x");
}

#[test]
fn event_line_buffer_joins_chunks_into_lines() {
    let mut buf = EventLineBuffer::new();
    assert!(buf.push_text("\x01p_cmd\x02ST\x01p_1_DP").is_empty());
    let lines = buf.push_text("P\x023250\x01p_1_DV\x02500\r\n\n  \n\x01p_cmd");
    assert_eq!(lines, vec!["\x01p_cmd\x02ST\x01p_1_DPP\x023250\x01p_1_DV\x02500".to_string()]);
    let trade = fields_to_trade_at(&parse_event_frame(&lines[0]), 7).unwrap();
    assert_eq!(trade.time, 7);
    let lines = buf.push_text("\x02KP\na\nb");
    assert_eq!(lines, vec!["\x01p_cmd\x02KP".to_string(), "a".to_string()]);
    assert_eq!(buf.push_text("\n"), vec!["b".to_string()]);
}

#[test]
fn decode_response_body_shift_jis() {
    let (text, lossy) = decode_response_body(b"{\"p_errno\":\"0\"}");
    assert_eq!(text, "{\"p_errno\":\"0\"}");
    assert!(!lossy);
    // 0x82 0xA0 is HIRAGANA LETTER A in Shift_JIS.
    let (text, lossy) = decode_response_body(&[0x82, 0xA0, b'x']);
    assert_eq!(text, "\u{3042}x");
    assert!(!lossy);
    let (_, lossy) = decode_response_body(&[0x82]);
    assert!(lossy);
}

#[test]
fn validate_session_reply_accepts_only_success_codes() {
    assert_eq!(validate_session_reply("0".into(), "".into()), Ok(()));
    assert_eq!(validate_session_reply("".into(), "".into()), Ok(()));
    assert_eq!(
        validate_session_reply("2".into(), "expired".into()),
        Err(TachibanaError::ApiError { code: "2".into(), message: "expired".into() })
    );
    assert!(validate_session_reply("99".into(), "unknown".into()).is_err());
}

#[test]
fn login_error_key_extracts_code() {
    assert_eq!(login_error_key(&TachibanaError::UnreadNotices), Some("UNREAD_NOTICES".to_string()));
    assert_eq!(
        login_error_key(&TachibanaError::LoginFailed("code=10001, message=bad".into())),
        Some("10001".to_string())
    );
    assert_eq!(login_error_key(&TachibanaError::LoginFailed("code=42".into())), Some("42".to_string()));
    assert_eq!(login_error_key(&TachibanaError::LoginFailed("denied".into())), Some(String::new()));
    assert_eq!(
        login_error_key(&TachibanaError::ApiError { code: "1".into(), message: "x".into() }),
        None
    );
}

#[test]
fn splitter_fed_in_chunks_matches_whole_split() {
    let data: Vec<u8> = vec![b'A', 0x81, 0x7d, b'}', b'B', b'}', 0xE0, 0x7d, b'}', b'r', b'e'];
    let whole = parse_sjis_stream_records(&data);
    for cut in 0..=data.len() {
        let mut sp = SjisRecordSplitter::new();
        let mut got = sp.feed(&data[..cut]);
        got.extend(sp.feed(&data[cut..]));
        // The streamed split keeps the unfinished tail back.
        assert_eq!(got, whole[..whole.len() - 1].to_vec(), "cut at {cut}");
    }
}

#[test]
fn master_collector_keeps_contiguous_stock_section() {
    let mut c = MasterCollector::new();
    assert!(!c.accept(master("CLMIssueMstFuture", "1", "")));
    assert!(!c.accept(master("CLMIssueMstKabu", "", "")));
    assert!(!c.accept(master("CLMIssueMstKabu", "7203", "TOYOTA")));
    assert!(!c.accept(master("CLMIssueMstKabu", "6501", "HITACHI")));
    assert!(c.accept(master("CLMIssueSizyouMstKabu", "7203", "")));
    let kept = c.into_records();
    assert_eq!(kept.len(), 2);
    assert_eq!(kept[0].issue_code, "7203");
    assert_eq!(kept[1].issue_code, "6501");

    let mut c = MasterCollector::new();
    assert!(c.accept(master("CLMEventDownloadComplete", "", "")));
    assert!(c.into_partial().is_none());

    let mut c = MasterCollector::new();
    c.accept(master("CLMIssueMstKabu", "7203", ""));
    assert_eq!(c.into_partial().map(|v| v.len()), Some(1));
}

#[test]
fn cached_ticker_metadata_has_display_and_bare_keys() {
    let mut cache = IssueMasterCache::new();
    assert!(cached_ticker_metadata(&cache).is_empty());
    cache.inject_master_cache(vec![
        master("CLMIssueMstKabu", "7203", "TOYOTA MOTOR"),
        master("CLMIssueMstFuture", "1111", "X"),
        master("CLMIssueMstKabu", "6501", ""),
        master("CLMIssueMstKabu", "7203", "TOYOTA"),
    ]);
    let meta = cached_ticker_metadata(&cache);
    let find = |t: &Ticker| meta.iter().find(|(k, _)| k == t).map(|(_, v)| v.clone());
    assert_eq!(meta.len(), 4);
    let bare = Ticker::new("7203", Exchange::Tachibana);
    let first = Ticker::new_with_display("7203", Exchange::Tachibana, Some("TOYOTA MOTOR"));
    let second = Ticker::new_with_display("7203", Exchange::Tachibana, Some("TOYOTA"));
    // The bare key keeps the metadata of the first record that claimed it.
    assert_eq!(find(&bare).unwrap().ticker, first);
    assert_eq!(find(&first).unwrap().ticker, first);
    assert_eq!(find(&second).unwrap().ticker, second);
    let hitachi = Ticker::new("6501", Exchange::Tachibana);
    assert_eq!(find(&hitachi).unwrap().ticker, hitachi);
}

#[test]
fn group_trades_by_ticker_merges_in_first_seen_order() {
    let tr = |t: u64| Trade { time: t, is_sell: false, price: Price(Amount::Units(1)), qty: Qty(Amount::Units(1)) };
    let events = vec![
        ("ETH".to_string(), vec![]),
        ("BTC".to_string(), vec![tr(1), tr(2)]),
        ("ETH".to_string(), vec![tr(3)]),
        ("BTC".to_string(), vec![tr(4)]),
        ("SOL".to_string(), vec![]),
    ];
    let groups = group_trades_by_ticker(events);
    assert_eq!(groups.len(), 2);
    assert_eq!(groups[0].0, "BTC");
    assert_eq!(groups[0].1.iter().map(|t| t.time).collect::<Vec<_>>(), vec![1, 2, 4]);
    assert_eq!(groups[1].0, "ETH");
    assert_eq!(groups[1].1.iter().map(|t| t.time).collect::<Vec<_>>(), vec![3]);
    assert!(group_trades_by_ticker(vec![]).is_empty());
}

#[test]
fn client_order_ids_for_fills_looks_up_each_order() {
    let key = AgentOrderRequestKey {
        ticker: TickerContract::new("HyperliquidLinear", "BTC"),
        side: AgentOrderSide::Buy,
        qty_bits: 0.1f64.to_bits(),
        order_type: AgentOrderTypeKey::Market,
    };
    let mut state = AgentSessionState::new();
    state.place_or_replay(ClientOrderId::new("cli_1").unwrap(), key, "ord_1".to_string());
    let ids = state.client_order_ids_for_fills(&["ord_1".to_string(), "ord_x".to_string()]);
    assert_eq!(ids, vec![Some("cli_1".to_string()), None]);
}
