use flowsurface::agent::{
    AdvanceStopCondition, AgentAdvanceRequest, AgentOrderRequestKey, AgentOrderSide,
    AgentOrderTypeKey, AgentSessionState, PlaceOrderOutcome,
};
use flowsurface::contract::{ClientOrderId, EpochMs, TickerContract};

fn cli(s: &str) -> ClientOrderId {
    ClientOrderId::new(s).unwrap()
}

fn bits(x: f64) -> u64 {
    if x == 0.0 { 0 } else { x.to_bits() }
}

fn key(qty: f64) -> AgentOrderRequestKey {
    AgentOrderRequestKey {
        ticker: TickerContract::new("HyperliquidLinear", "BTC"),
        side: AgentOrderSide::Buy,
        qty_bits: bits(qty),
        order_type: AgentOrderTypeKey::Market,
    }
}

#[test]
fn created_on_first_placement() {
    let mut state = AgentSessionState::new();
    let outcome = state.place_or_replay(cli("cli_1"), key(0.1), "ord_uuid_1".to_string());
    assert_eq!(outcome, PlaceOrderOutcome::Created { order_id: "ord_uuid_1".to_string() });
    assert_eq!(state.len(), 1);
}

#[test]
fn idempotent_replay_on_exact_rerun() {
    let mut state = AgentSessionState::new();
    state.place_or_replay(cli("cli_1"), key(0.1), "ord_uuid_1".to_string());
    let outcome = state.place_or_replay(cli("cli_1"), key(0.1), "ord_uuid_should_not_use".to_string());
    assert_eq!(outcome, PlaceOrderOutcome::IdempotentReplay { order_id: "ord_uuid_1".to_string() });
    assert_eq!(state.len(), 1);
}

#[test]
fn conflict_when_same_client_order_id_with_different_body() {
    let mut state = AgentSessionState::new();
    state.place_or_replay(cli("cli_1"), key(0.1), "ord_uuid_1".to_string());
    let outcome = state.place_or_replay(cli("cli_1"), key(0.2), "ord_uuid_2".to_string());
    assert_eq!(outcome, PlaceOrderOutcome::Conflict { existing_order_id: "ord_uuid_1".to_string() });
    assert_eq!(state.len(), 1, "map must not change on conflict");
}

#[test]
fn different_client_order_ids_coexist() {
    let mut state = AgentSessionState::new();
    state.place_or_replay(cli("cli_1"), key(0.1), "ord_a".to_string());
    state.place_or_replay(cli("cli_2"), key(0.1), "ord_b".to_string());
    assert_eq!(state.len(), 2);
}

#[test]
fn observe_generation_clears_map_when_changed() {
    let mut state = AgentSessionState::new();
    state.place_or_replay(cli("cli_1"), key(0.1), "ord_a".to_string());
    assert_eq!(state.len(), 1);
    state.observe_generation(1);
    assert_eq!(state.len(), 0, "map must clear on generation bump");
}

#[test]
fn observe_generation_noop_when_unchanged() {
    let mut state = AgentSessionState::new();
    state.observe_generation(0);
    state.place_or_replay(cli("cli_1"), key(0.1), "ord_a".to_string());
    state.observe_generation(0);
    assert_eq!(state.len(), 1);
}

#[test]
fn observe_generation_advances_last_seen() {
    let mut state = AgentSessionState::new();
    state.observe_generation(5);
    state.place_or_replay(cli("cli_1"), key(0.1), "ord_a".to_string());
    state.observe_generation(5);
    assert_eq!(state.len(), 1);
    state.observe_generation(6);
    assert_eq!(state.len(), 0);
}

#[test]
fn client_order_id_for_returns_mapping_after_placement() {
    let mut state = AgentSessionState::new();
    state.place_or_replay(cli("cli_1"), key(0.1), "ord_uuid_1".to_string());
    assert_eq!(state.client_order_id_for("ord_uuid_1"), Some(cli("cli_1")));
}

#[test]
fn client_order_id_for_returns_none_for_unknown_order() {
    let state = AgentSessionState::new();
    assert!(state.client_order_id_for("ord_unknown").is_none());
}

#[test]
fn client_order_id_for_returns_none_after_generation_bump() {
    let mut state = AgentSessionState::new();
    state.place_or_replay(cli("cli_1"), key(0.1), "ord_uuid_1".to_string());
    state.observe_generation(1);
    assert!(state.client_order_id_for("ord_uuid_1").is_none());
}

#[test]
fn after_clear_same_client_order_id_can_be_reused() {
    let mut state = AgentSessionState::new();
    state.place_or_replay(cli("cli_1"), key(0.1), "ord_uuid_1".to_string());
    state.observe_generation(1);
    let outcome = state.place_or_replay(cli("cli_1"), key(0.2), "ord_uuid_2".to_string());
    assert_eq!(outcome, PlaceOrderOutcome::Created { order_id: "ord_uuid_2".to_string() });
}

#[test]
fn conflict_leaves_first_order_replayable() {
    let mut state = AgentSessionState::new();
    state.place_or_replay(cli("cli_1"), key(0.1), "ord_1".to_string());
    let c = state.place_or_replay(cli("cli_1"), key(0.3), "ord_2".to_string());
    assert_eq!(c, PlaceOrderOutcome::Conflict { existing_order_id: "ord_1".to_string() });
    let r = state.place_or_replay(cli("cli_1"), key(0.1), "ord_3".to_string());
    assert_eq!(r, PlaceOrderOutcome::IdempotentReplay { order_id: "ord_1".to_string() });
    assert!(state.client_order_id_for("ord_2").is_none());
    assert!(state.client_order_id_for("ord_3").is_none());
}

#[test]
fn request_keys_compare_every_part() {
    let base = key(0.1);
    let mut other = key(0.1);
    assert!(base.same_as(&other));
    other.side = AgentOrderSide::Sell;
    assert!(!base.same_as(&other));
    let mut other = key(0.1);
    other.order_type = AgentOrderTypeKey::Limit { price_bits: bits(100.0) };
    assert!(!base.same_as(&other));
    let mut other = key(0.1);
    other.ticker = TickerContract::new("HyperliquidLinear", "ETH");
    assert!(!base.same_as(&other));
    assert!(key(0.0).same_as(&key(-0.0)));
    assert!(base.duplicate().same_as(&base));
}

#[test]
fn advance_request_holds_its_fields() {
    let req = AgentAdvanceRequest {
        until_ms: EpochMs::new(1_704_067_200_000),
        stop_on: vec![AdvanceStopCondition::Fill, AdvanceStopCondition::Narrative],
        include_fills: true,
    };
    assert_eq!(req.until_ms.as_u64(), 1_704_067_200_000);
    assert_eq!(req.stop_on.len(), 2);
    assert!(req.include_fills);
}

fn key_from_json(body: &str) -> AgentOrderRequestKey {
    let v: serde_json::Value = serde_json::from_str(body).unwrap();
    let t = &v["ticker"];
    let side = match v["side"].as_str().unwrap() {
        "buy" => AgentOrderSide::Buy,
        _ => AgentOrderSide::Sell,
    };
    let order_type = if let Some(limit) = v["order_type"].get("limit") {
        AgentOrderTypeKey::Limit { price_bits: bits(limit["price"].as_f64().unwrap()) }
    } else {
        AgentOrderTypeKey::Market
    };
    AgentOrderRequestKey {
        ticker: TickerContract::new(t["exchange"].as_str().unwrap(), t["symbol"].as_str().unwrap()),
        side,
        qty_bits: bits(v["qty"].as_f64().unwrap()),
        order_type,
    }
}

const VALID_BODY: &str = r#"{
    "client_order_id": "cli_42",
    "ticker": {"exchange": "HyperliquidLinear", "symbol": "BTC"},
    "side": "buy",
    "qty": 0.1,
    "order_type": {"market": {}}
}"#;

#[test]
fn request_key_equal_for_same_structural_body() {
    let a = key_from_json(VALID_BODY);
    let b = key_from_json(
        r#"{
        "qty": 0.1,
        "side": "buy",
        "client_order_id": "cli_42",
        "order_type": {"market": {}},
        "ticker": {"symbol": "BTC", "exchange": "HyperliquidLinear"}
    }"#,
    );
    assert!(a.same_as(&b));
}

#[test]
fn request_key_differs_when_qty_differs() {
    let a = key_from_json(VALID_BODY);
    let b = key_from_json(
        r#"{
        "client_order_id": "cli_42",
        "ticker": {"exchange": "HyperliquidLinear", "symbol": "BTC"},
        "side": "buy",
        "qty": 0.2,
        "order_type": {"market": {}}
    }"#,
    );
    assert!(!a.same_as(&b));
}

#[test]
fn request_key_differs_when_order_type_differs() {
    let a = key_from_json(VALID_BODY);
    let b = key_from_json(
        r#"{
        "client_order_id": "cli_42",
        "ticker": {"exchange": "HyperliquidLinear", "symbol": "BTC"},
        "side": "buy",
        "qty": 0.1,
        "order_type": {"limit": {"price": 92500.0}}
    }"#,
    );
    assert!(!a.same_as(&b));
}

#[test]
fn request_key_ignores_client_order_id() {
    let a = key_from_json(VALID_BODY);
    let b = key_from_json(
        r#"{
        "client_order_id": "cli_99",
        "ticker": {"exchange": "HyperliquidLinear", "symbol": "BTC"},
        "side": "buy",
        "qty": 0.1,
        "order_type": {"market": {}}
    }"#,
    );
    assert!(a.same_as(&b));
}
