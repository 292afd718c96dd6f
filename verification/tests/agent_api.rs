use flowsurface::agent::{
    AdvanceStopCondition, AdvanceStoppedReason, AgentAdvanceRequest, AgentOrderRequestKey,
    AgentOrderSide, AgentOrderTypeKey, AgentSessionState,
};
use flowsurface::agent_api::{
    AdvanceMove, AdvanceRun, ModeAction, NOT_IMPLEMENTED_IN_HEADLESS, OrderReply, ReplayMode,
    RewindAction, SessionPhase, SessionRefusal, check_session_active, gui_advance_admit,
    gui_before_tick, gui_exchange_status, gui_state_status, handle_agent_order, place_agent_order, plan_rewind, plan_set_mode, plan_step, plan_toggle,
    virtual_state_status,
};
use flowsurface::contract::{ClientOrderId, EpochMs, TickerContract};

fn key(qty: f64) -> AgentOrderRequestKey {
    AgentOrderRequestKey {
        ticker: TickerContract::new("HyperliquidLinear", "BTC"),
        side: AgentOrderSide::Buy,
        qty_bits: qty.to_bits(),
        order_type: AgentOrderTypeKey::Market,
    }
}

fn cli(s: &str) -> ClientOrderId {
    ClientOrderId::new(s).unwrap()
}

#[test]
fn session_gate_statuses() {
    assert_eq!(check_session_active(SessionPhase::Idle), Err(SessionRefusal::NotStarted));
    assert_eq!(check_session_active(SessionPhase::Loading), Err(SessionRefusal::Loading));
    assert_eq!(check_session_active(SessionPhase::Active), Ok(()));
    assert_eq!(SessionRefusal::NotStarted.status(), 404);
    assert_eq!(SessionRefusal::Loading.status(), 503);
}

#[test]
fn rewind_decisions() {
    assert_eq!(plan_rewind(SessionPhase::Loading, None), RewindAction::RefuseLoading);
    assert_eq!(plan_rewind(SessionPhase::Idle, None), RewindAction::RefuseNoRange);
    assert_eq!(
        plan_rewind(SessionPhase::Idle, Some(("a".into(), "b".into()))),
        RewindAction::Start { start: "a".into(), end: "b".into() }
    );
    assert_eq!(plan_rewind(SessionPhase::Active, Some(("a".into(), "b".into()))), RewindAction::Reset);
}

#[test]
fn step_moves_one_bar_or_reports_end() {
    assert_eq!(plan_step(1_000, 60_000, 200_000), (61_000, false));
    assert_eq!(plan_step(140_000, 60_000, 200_000), (200_000, false));
    assert_eq!(plan_step(150_000, 60_000, 200_000), (150_000, true));
}

#[test]
fn order_replies() {
    let mut state = AgentSessionState::new();
    let r = place_agent_order(&mut state, 0, cli("c1"), key(0.1), "o1".into());
    assert_eq!(r, OrderReply::Accepted { order_id: "o1".into(), idempotent_replay: false });
    assert_eq!(r.status(), 200);
    let r = place_agent_order(&mut state, 0, cli("c1"), key(0.1), "o2".into());
    assert_eq!(r, OrderReply::Accepted { order_id: "o1".into(), idempotent_replay: true });
    let r = place_agent_order(&mut state, 0, cli("c1"), key(0.5), "o3".into());
    assert_eq!(r, OrderReply::Conflict { existing_order_id: "o1".into() });
    assert_eq!(r.status(), 409);
    // A new exchange generation forgets the earlier orders.
    let r = place_agent_order(&mut state, 1, cli("c1"), key(0.5), "o4".into());
    assert_eq!(r, OrderReply::Accepted { order_id: "o4".into(), idempotent_replay: false });
    assert_eq!(state.len(), 1);
}

#[test]
fn advance_run_moves_and_stops() {
    let req = AgentAdvanceRequest {
        until_ms: EpochMs::new(250),
        stop_on: vec![AdvanceStopCondition::Fill],
        include_fills: false,
    };
    let mut run = AdvanceRun::new(&req);
    assert!(run.stop_on_fill);
    assert!(!run.stop_on_narrative);
    assert!(run.already_reached(250));
    assert!(!run.already_reached(249));
    assert_eq!(run.next_move(0, 0, 1_000), AdvanceMove::NoStepSize);
    assert_eq!(run.next_move(100, 1_000, 1_000), AdvanceMove::Stop(AdvanceStoppedReason::End));
    assert_eq!(run.next_move(100, 100, 1_000), AdvanceMove::Tick(200));
    assert_eq!(run.next_move(100, 200, 1_000), AdvanceMove::Tick(250));
    assert_eq!(run.next_move(100, 200, 220), AdvanceMove::Tick(220));
    assert_eq!(run.next_move(u64::MAX, 5, u64::MAX), AdvanceMove::Tick(250));
    assert_eq!(run.after_tick(200, 200, 1_000, 0, 3), None);
    assert_eq!(run.after_tick(250, 250, 1_000, 0, 0), Some(AdvanceStoppedReason::UntilReached));
    assert_eq!(run.after_tick(250, 1_000, 1_000, 0, 0), Some(AdvanceStoppedReason::End));
    assert_eq!(run.after_tick(250, 1_000, 1_000, 2, 0), Some(AdvanceStoppedReason::Fill));
    assert_eq!(run.ticks_advanced, 4);
    assert_eq!(run.aggregate_fills, 2);
    assert_eq!(run.aggregate_updated_narratives, 3);
    let req = AgentAdvanceRequest {
        until_ms: EpochMs::new(250),
        stop_on: vec![AdvanceStopCondition::Narrative, AdvanceStopCondition::Fill],
        include_fills: true,
    };
    let mut run = AdvanceRun::new(&req);
    assert_eq!(run.after_tick(100, 100, 1_000, 1, 1), Some(AdvanceStoppedReason::Fill));
    let mut run = AdvanceRun::new(&req);
    assert_eq!(run.after_tick(100, 100, 1_000, 0, 1), Some(AdvanceStoppedReason::Narrative));
}

#[test]
fn toggle_plays_a_range_or_flips_the_mode() {
    assert_eq!(
        plan_toggle(ReplayMode::Live, Some(("2024-01-01 09:00".into(), "2024-01-01 15:00".into()))),
        ModeAction::Play { start: "2024-01-01 09:00".into(), end: "2024-01-01 15:00".into() }
    );
    assert_eq!(
        plan_toggle(ReplayMode::Replay, Some(("a".into(), "b".into()))),
        ModeAction::Play { start: "a".into(), end: "b".into() }
    );
    assert_eq!(plan_toggle(ReplayMode::Replay, None), ModeAction::EnterLive);
    assert_eq!(plan_toggle(ReplayMode::Live, None), ModeAction::EnterReplay);
}

#[test]
fn set_mode_ignores_ascii_case() {
    assert_eq!(plan_set_mode("live"), Some(ReplayMode::Live));
    assert_eq!(plan_set_mode("LIVE"), Some(ReplayMode::Live));
    assert_eq!(plan_set_mode("LiVe"), Some(ReplayMode::Live));
    assert_eq!(plan_set_mode("replay"), Some(ReplayMode::Replay));
    assert_eq!(plan_set_mode("RePlAy"), Some(ReplayMode::Replay));
    assert_eq!(plan_set_mode("lives"), None);
    assert_eq!(plan_set_mode(""), None);
    assert_eq!(plan_set_mode("lıve"), None);
}

#[test]
fn headless_statuses() {
    assert_eq!(virtual_state_status(SessionPhase::Active), 200);
    assert_eq!(virtual_state_status(SessionPhase::Idle), 400);
    assert_eq!(virtual_state_status(SessionPhase::Loading), 400);
    assert_eq!(NOT_IMPLEMENTED_IN_HEADLESS, 501);
}

#[test]
fn gui_advance_decisions() {
    assert_eq!(gui_advance_admit(true), Err(409));
    assert_eq!(gui_advance_admit(false), Ok(()));
    assert_eq!(gui_before_tick(1_000, 1_000, 2_000), Some(AdvanceStoppedReason::End));
    assert_eq!(gui_before_tick(1_500, 1_000, 1_200), Some(AdvanceStoppedReason::End));
    assert_eq!(gui_before_tick(500, 1_000, 500), Some(AdvanceStoppedReason::UntilReached));
    assert_eq!(gui_before_tick(400, 1_000, 500), None);
    let req = AgentAdvanceRequest {
        until_ms: EpochMs::new(250),
        stop_on: vec![AdvanceStopCondition::Fill],
        include_fills: false,
    };
    let mut run = AdvanceRun::new(&req);
    // No progress: stop, nothing counted.
    let before = run;
    assert_eq!(run.after_gui_tick(100, 100, 1_000, 3, 3), Some(AdvanceStoppedReason::UntilReached));
    assert_eq!(run, before);
    assert_eq!(run.after_gui_tick(1_000, 1_000, 1_000, 0, 0), Some(AdvanceStoppedReason::End));
    assert_eq!(run, before);
    // Progress: counted, then fill, end, target in that order.
    assert_eq!(run.after_gui_tick(100, 200, 1_000, 0, 2), None);
    assert_eq!(run.after_gui_tick(200, 250, 1_000, 0, 0), Some(AdvanceStoppedReason::UntilReached));
    assert_eq!(run.after_gui_tick(250, 1_000, 1_000, 0, 0), Some(AdvanceStoppedReason::End));
    assert_eq!(run.after_gui_tick(250, 300, 1_000, 1, 0), Some(AdvanceStoppedReason::Fill));
    assert_eq!(run.ticks_advanced, 4);
    assert_eq!(run.aggregate_fills, 1);
    assert_eq!(run.aggregate_updated_narratives, 2);
}

fn run_quiet(current: u64, step: u64, until: u64, end: u64) -> (u64, u64, AdvanceStoppedReason) {
    let req = AgentAdvanceRequest { until_ms: EpochMs::new(until), stop_on: vec![], include_fills: false };
    let mut run = AdvanceRun::new(&req);
    let mut clock = current;
    loop {
        match run.next_move(step, clock, end) {
            AdvanceMove::Tick(t) => {
                clock = t;
                if let Some(reason) = run.after_tick(t, clock, end, 0, 0) {
                    return (clock, run.ticks_advanced, reason);
                }
            }
            AdvanceMove::Stop(reason) => return (clock, run.ticks_advanced, reason),
            AdvanceMove::NoStepSize => panic!("no step size"),
        }
    }
}

#[test]
fn quiet_advance_stops_at_the_earlier_of_target_and_end() {
    // ceil(250_000 / 60_000) = 5 ticks to the target.
    assert_eq!(run_quiet(0, 60_000, 250_000, 1_000_000), (250_000, 5, AdvanceStoppedReason::UntilReached));
    // The end comes first: ceil(200_000 / 60_000) = 4 ticks.
    assert_eq!(run_quiet(0, 60_000, 250_000, 200_000), (200_000, 4, AdvanceStoppedReason::End));
    // Target and end together: the end is the reason.
    assert_eq!(run_quiet(60_000, 60_000, 180_000, 180_000), (180_000, 2, AdvanceStoppedReason::End));
}

fn is_uuid_v4(s: &str) -> bool {
    let b: Vec<char> = s.chars().collect();
    b.len() == 36
        && b.iter().enumerate().all(|(i, c)| match i {
            8 | 13 | 18 | 23 => *c == '-',
            14 => *c == '4',
            19 => matches!(c, '8' | '9' | 'a' | 'b'),
            _ => c.is_ascii_digit() || ('a'..='f').contains(c),
        })
}

#[test]
fn order_endpoint_decisions() {
    let mut state = AgentSessionState::new();
    assert_eq!(
        handle_agent_order(SessionPhase::Idle, &mut state, 0, cli("c1"), key(1.0)),
        Err(SessionRefusal::NotStarted)
    );
    assert_eq!(
        handle_agent_order(SessionPhase::Loading, &mut state, 0, cli("c1"), key(1.0)),
        Err(SessionRefusal::Loading)
    );
    assert_eq!(state.len(), 0);
    let first = handle_agent_order(SessionPhase::Active, &mut state, 0, cli("c1"), key(1.0)).unwrap();
    let order_id = match &first {
        OrderReply::Accepted { order_id, idempotent_replay: false } => order_id.clone(),
        other => panic!("expected a new order, got {other:?}"),
    };
    assert!(is_uuid_v4(&order_id), "{order_id}");
    assert_eq!(first.status(), 200);
    assert_eq!(state.len(), 1);
    let again = handle_agent_order(SessionPhase::Active, &mut state, 0, cli("c1"), key(1.0)).unwrap();
    assert_eq!(again, OrderReply::Accepted { order_id: order_id.clone(), idempotent_replay: true });
    assert_eq!(again.status(), 200);
    let conflict = handle_agent_order(SessionPhase::Active, &mut state, 0, cli("c1"), key(2.0)).unwrap();
    assert_eq!(conflict, OrderReply::Conflict { existing_order_id: order_id.clone() });
    assert_eq!(conflict.status(), 409);
    assert_eq!(state.len(), 1);
    let other = handle_agent_order(SessionPhase::Active, &mut state, 0, cli("c2"), key(1.0)).unwrap();
    assert!(matches!(other, OrderReply::Accepted { idempotent_replay: false, .. }));
    assert_eq!(state.len(), 2);
}

#[test]
fn gui_exchange_request_statuses() {
    assert_eq!(gui_exchange_status(true, true), Some(503));
    assert_eq!(gui_exchange_status(true, false), Some(503));
    assert_eq!(gui_exchange_status(false, false), Some(400));
    assert_eq!(gui_exchange_status(false, true), None);
    assert_eq!(gui_state_status(true, true), None);
    assert_eq!(gui_state_status(false, true), Some(503));
    assert_eq!(gui_state_status(false, false), Some(400));
}
