//! Decisions of the replay API: the LIVE/REPLAY mode switch, which requests
//! the session accepts in its current phase, how a step and an advance move
//! the clock and when an advance stops (in the headless engine and in the
//! GUI), how a rewind is handled, and how an order request is answered.  The
//! replay engine performs what these decide.

use vstd::prelude::*;
use crate::agent::{
    AdvanceStopCondition, AdvanceStoppedReason, AgentAdvanceRequest, AgentOrderRequestKey,
    AgentSessionState, OutcomeView, PlaceOrderOutcome, observe_spec, place_spec,
};
use crate::contract::ClientOrderId;

verus! {

/// Where the replay session stands.
#[derive(Debug, Clone, Copy, PartialEq, Eq, Structural)]
pub enum SessionPhase {
    Idle,
    Loading,
    Active,
}

/// Why a step, advance or order request does not reach the session.
#[derive(Debug, Clone, Copy, PartialEq, Eq, Structural)]
pub enum SessionRefusal {
    /// No session was started (HTTP 404).
    NotStarted,
    /// The session is still loading its data (HTTP 503).
    Loading,
}

impl SessionRefusal {
    /// HTTP status of the refusal.
    pub fn status(self) -> (r: u16)
        ensures
            self == SessionRefusal::NotStarted ==> r == 404,
            self == SessionRefusal::Loading ==> r == 503,
    {
        match self {
            SessionRefusal::NotStarted => 404,
            SessionRefusal::Loading => 503,
        }
    }
}

/// Step, advance and order requests need an active session.
pub fn check_session_active(phase: SessionPhase) -> (r: Result<(), SessionRefusal>)
    ensures
        phase == SessionPhase::Idle ==> r == Err::<(), SessionRefusal>(SessionRefusal::NotStarted),
        phase == SessionPhase::Loading ==> r == Err::<(), SessionRefusal>(SessionRefusal::Loading),
        phase == SessionPhase::Active ==> r is Ok,
{
    match phase {
        SessionPhase::Idle => Err(SessionRefusal::NotStarted),
        SessionPhase::Loading => Err(SessionRefusal::Loading),
        SessionPhase::Active => Ok(()),
    }
}

/// Whether the app shows live data or replays a range.
#[derive(Debug, Clone, Copy, PartialEq, Eq, Structural)]
pub enum ReplayMode {
    Live,
    Replay,
}

/// What a mode toggle does.
#[derive(Debug, Clone, PartialEq, Eq)]
pub enum ModeAction {
    /// Start replaying the given range.
    Play { start: String, end: String },
    /// Switch to live data.
    EnterLive,
    /// Switch to replay mode, without a range yet.
    EnterReplay,
}

/// Decides a toggle: with a range, play it; otherwise switch to the other
/// mode.
pub fn plan_toggle(mode: ReplayMode, init_range: Option<(String, String)>) -> (r: ModeAction)
    ensures
        init_range matches Some((s, e)) ==> r == (ModeAction::Play { start: s, end: e }),
        init_range is None && mode == ReplayMode::Replay ==> r == ModeAction::EnterLive,
        init_range is None && mode == ReplayMode::Live ==> r == ModeAction::EnterReplay,
{
    match init_range {
        Some((start, end)) => ModeAction::Play { start, end },
        None => match mode {
            ReplayMode::Replay => ModeAction::EnterLive,
            ReplayMode::Live => ModeAction::EnterReplay,
        },
    }
}

/// Code point of `c` with `A`..`Z` taken to `a`..`z`.
pub open spec fn ascii_lower_code(c: char) -> int {
    if 'A' <= c && c <= 'Z' {
        c as int + 32
    } else {
        c as int
    }
}

/// Equality of two texts up to ASCII case.
pub open spec fn eq_ignore_ascii_case(a: Seq<char>, b: Seq<char>) -> bool {
    a.len() == b.len() && forall|i: int|
        0 <= i < a.len() ==> #[trigger] ascii_lower_code(a[i]) == ascii_lower_code(b[i])
}

fn lower_code(c: char) -> (r: u32)
    ensures
        r == ascii_lower_code(c),
{
    if 'A' <= c && c <= 'Z' {
        (c as u32) + 32
    } else {
        c as u32
    }
}

fn text_eq_ignore_ascii_case(a: &str, b: &str) -> (r: bool)
    ensures
        r == eq_ignore_ascii_case(a@, b@),
{
    let n = a.unicode_len();
    if n != b.unicode_len() {
        return false;
    }
    let mut i: usize = 0;
    while i < n
        invariant
            n == a@.len(),
            n == b@.len(),
            i <= n,
            forall|j: int| 0 <= j < i ==> #[trigger] ascii_lower_code(a@[j]) == ascii_lower_code(b@[j]),
        decreases n - i,
    {
        if lower_code(a.get_char(i)) != lower_code(b.get_char(i)) {
            return false;
        }
        i = i + 1;
    }
    true
}

/// The mode a set-mode request names: `live` or `replay`, in any ASCII
/// case; `None` (the mode stays) for anything else.
pub fn plan_set_mode(mode: &str) -> (r: Option<ReplayMode>)
    ensures
        eq_ignore_ascii_case(mode@, "live"@) ==> r == Some(ReplayMode::Live),
        !eq_ignore_ascii_case(mode@, "live"@) && eq_ignore_ascii_case(mode@, "replay"@) ==> r
            == Some(ReplayMode::Replay),
        !eq_ignore_ascii_case(mode@, "live"@) && !eq_ignore_ascii_case(mode@, "replay"@) ==> r
            is None,
{
    if text_eq_ignore_ascii_case(mode, "live") {
        Some(ReplayMode::Live)
    } else if text_eq_ignore_ascii_case(mode, "replay") {
        Some(ReplayMode::Replay)
    } else {
        None
    }
}

/// HTTP status of a request for the virtual exchange's state: 200 on an
/// active session, 400 otherwise.
pub fn virtual_state_status(phase: SessionPhase) -> (r: u16)
    ensures
        phase == SessionPhase::Active ==> r == 200,
        phase != SessionPhase::Active ==> r == 400,
{
    match phase {
        SessionPhase::Active => 200,
        _ => 400,
    }
}

/// HTTP status of the commands the headless engine does not carry out
/// (pane layout, authentication, live orders and holdings).
pub const NOT_IMPLEMENTED_IN_HEADLESS: u16 = 501;

/// What a rewind request leads to.
#[derive(Debug, Clone, PartialEq, Eq)]
pub enum RewindAction {
    /// The session is loading: refused (HTTP 409).
    RefuseLoading,
    /// No session and no range to start one: refused (HTTP 400).
    RefuseNoRange,
    /// No session: start one on the given range.
    Start { start: String, end: String },
    /// Active session: back to the start of its range, exchange reset.
    Reset,
}

/// Decides a rewind: a loading session refuses; an idle one starts on the
/// given range or, without one, refuses; an active one is reset.
pub fn plan_rewind(phase: SessionPhase, init_range: Option<(String, String)>) -> (r: RewindAction)
    ensures
        phase == SessionPhase::Loading ==> r == RewindAction::RefuseLoading,
        phase == SessionPhase::Idle && init_range is None ==> r == RewindAction::RefuseNoRange,
        phase == SessionPhase::Idle ==> (init_range matches Some((s, e)) ==> r == (RewindAction::Start {
            start: s,
            end: e,
        })),
        phase == SessionPhase::Active ==> r == RewindAction::Reset,
{
    match phase {
        SessionPhase::Loading => RewindAction::RefuseLoading,
        SessionPhase::Idle => match init_range {
            Some((start, end)) => RewindAction::Start { start, end },
            None => RewindAction::RefuseNoRange,
        },
        SessionPhase::Active => RewindAction::Reset,
    }
}

/// Where one step moves the clock from `current`, and whether the range's
/// end was reached: one step of `step_ms` unless that passes `end`, in which
/// case the clock stays.
pub fn plan_step(current: u64, step_ms: u64, end: u64) -> (r: (u64, bool))
    requires
        current + step_ms <= u64::MAX,
    ensures
        current + step_ms > end ==> r == (current, true),
        current + step_ms <= end ==> r == ((current + step_ms) as u64, false),
{
    if current + step_ms > end {
        (current, true)
    } else {
        (current + step_ms, false)
    }
}

/// The answer to an order request on an active session.
#[derive(Debug, Clone, PartialEq, Eq)]
pub enum OrderReply {
    /// Accepted (HTTP 200): a new order, to be placed on the virtual
    /// exchange, or the replay of a known one.
    Accepted { order_id: String, idempotent_replay: bool },
    /// Same client order id, different body (HTTP 409).
    Conflict { existing_order_id: String },
}

impl OrderReply {
    /// HTTP status of the answer.
    pub fn status(&self) -> (r: u16)
        ensures
            self is Accepted ==> r == 200,
            self is Conflict ==> r == 409,
    {
        match self {
            OrderReply::Accepted { .. } => 200,
            OrderReply::Conflict { .. } => 409,
        }
    }
}

/// The reply an outcome of the idempotency check gives.
pub open spec fn reply_of(o: OutcomeView, r: OrderReply) -> bool {
    match o {
        OutcomeView::Created(id) => r matches OrderReply::Accepted { order_id, idempotent_replay }
            && order_id@ == id && !idempotent_replay,
        OutcomeView::IdempotentReplay(id) => r matches OrderReply::Accepted {
            order_id,
            idempotent_replay,
        } && order_id@ == id && idempotent_replay,
        OutcomeView::Conflict(id) => r matches OrderReply::Conflict { existing_order_id }
            && existing_order_id@ == id,
    }
}

/// Handles an order request on an active session: the exchange's current
/// generation is observed first (a new generation forgets earlier orders),
/// then the idempotency check runs with `new_order_id` as the id of a new
/// order.
pub fn place_agent_order(
    state: &mut AgentSessionState,
    current_generation: u64,
    client_order_id: ClientOrderId,
    key: AgentOrderRequestKey,
    new_order_id: String,
) -> (r: OrderReply)
    ensures
        ({
            let (m1, g1) = observe_spec(old(state).map(), old(state).generation(), current_generation);
            let (m2, o) = place_spec(m1, client_order_id@, key@, new_order_id@);
            &&& final(state).map() == m2
            &&& final(state).generation() == g1
            &&& reply_of(o, r)
        }),
{
    state.observe_generation(current_generation);
    match state.place_or_replay(client_order_id, key, new_order_id) {
        PlaceOrderOutcome::Created { order_id } => OrderReply::Accepted {
            order_id,
            idempotent_replay: false,
        },
        PlaceOrderOutcome::IdempotentReplay { order_id } => OrderReply::Accepted {
            order_id,
            idempotent_replay: true,
        },
        PlaceOrderOutcome::Conflict { existing_order_id } => OrderReply::Conflict {
            existing_order_id,
        },
    }
}

/// Whether `c` is a lower-case hexadecimal digit.
pub open spec fn is_lower_hex(c: char) -> bool {
    ('0' <= c && c <= '9') || ('a' <= c && c <= 'f')
}

/// Character `i` of a version-4 UUID in hyphenated form.
pub open spec fn is_uuid_v4_char(i: int, c: char) -> bool {
    if i == 8 || i == 13 || i == 18 || i == 23 {
        c == '-'
    } else if i == 14 {
        c == '4'
    } else if i == 19 {
        c == '8' || c == '9' || c == 'a' || c == 'b'
    } else {
        is_lower_hex(c)
    }
}

/// A version-4 UUID written as `xxxxxxxx-xxxx-4xxx-yxxx-xxxxxxxxxxxx`.
pub open spec fn is_uuid_v4_text(s: Seq<char>) -> bool {
    s.len() == 36 && forall|i: int| 0 <= i < 36 ==> #[trigger] is_uuid_v4_char(i, s[i])
}

/// A fresh order id: uuid's `Uuid::new_v4()` written by `to_string()`.
/// uuid sets the version nibble to 4 and the variant bits to `10` on random
/// bits, and writes the hyphenated form in lower case; which id comes out is
/// random and not stated.  (uuid panics when the operating system gives no
/// random bytes.)
#[verifier::external_body]
fn new_order_id() -> (r: String)
    ensures
        is_uuid_v4_text(r@),
{
    uuid::Uuid::new_v4().to_string()
}

/// Handles an order request: a session that is not active refuses (not
/// started: HTTP 404; loading: HTTP 503) and the state stays as it is; an
/// active one observes the exchange's generation and runs the idempotency
/// check, a new order getting a fresh random order id.  The reply's status
/// is then 200 for a new order or a replay and 409 for a conflict.
pub fn handle_agent_order(
    phase: SessionPhase,
    state: &mut AgentSessionState,
    current_generation: u64,
    client_order_id: ClientOrderId,
    key: AgentOrderRequestKey,
) -> (r: Result<OrderReply, SessionRefusal>)
    ensures
        phase == SessionPhase::Idle ==> r == Err::<OrderReply, SessionRefusal>(
            SessionRefusal::NotStarted,
        ),
        phase == SessionPhase::Loading ==> r == Err::<OrderReply, SessionRefusal>(
            SessionRefusal::Loading,
        ),
        phase != SessionPhase::Active ==> final(state).map() == old(state).map()
            && final(state).generation() == old(state).generation(),
        phase == SessionPhase::Active ==> exists|new_id: Seq<char>|
            #![trigger place_spec(observe_spec(old(state).map(), old(state).generation(), current_generation).0, client_order_id@, key@, new_id)]
            is_uuid_v4_text(new_id) && {
                let (m1, g1) = observe_spec(
                    old(state).map(),
                    old(state).generation(),
                    current_generation,
                );
                let (m2, o) = place_spec(m1, client_order_id@, key@, new_id);
                &&& final(state).map() == m2
                &&& final(state).generation() == g1
                &&& r matches Ok(reply) && reply_of(o, reply)
            },
{
    match check_session_active(phase) {
        Err(refusal) => Err(refusal),
        Ok(()) => {
            let new_id = new_order_id();
            let reply = place_agent_order(state, current_generation, client_order_id, key, new_id);
            Ok(reply)
        },
    }
}

/// What an advance does next.
#[derive(Debug, Clone, Copy, PartialEq, Eq, Structural)]
pub enum AdvanceMove {
    /// Move the clock to this time and run the tick.
    Tick(u64),
    /// Stop for this reason.
    Stop(AdvanceStoppedReason),
    /// No stream gives a step size (HTTP 500).
    NoStepSize,
}

/// Whether `c` is among the stop conditions.
pub open spec fn stops_on(conds: Seq<AdvanceStopCondition>, c: AdvanceStopCondition) -> bool {
    exists|i: int| 0 <= i < conds.len() && conds[i] == c
}

/// The time one tick of an advance moves the clock to: one step from
/// `current` (saturating at `u64::MAX`), but not past the target `until` or
/// the range's `end`.
pub open spec fn advance_target(current: u64, step_ms: u64, until: u64, end: u64) -> u64 {
    let stepped: int = if current + step_ms > u64::MAX {
        u64::MAX as int
    } else {
        current + step_ms
    };
    let capped = if until < stepped {
        until as int
    } else {
        stepped
    };
    (if end < capped {
        end as int
    } else {
        capped
    }) as u64
}

/// Whether the GUI takes an advance request: not while the session loads
/// (HTTP 409).
pub fn gui_advance_admit(loading: bool) -> (r: Result<(), u16>)
    ensures
        loading ==> r == Err::<(), u16>(409),
        !loading ==> r is Ok,
{
    if loading {
        Err(409)
    } else {
        Ok(())
    }
}

/// Refusal status of the GUI's portfolio and order-list requests: 503 while
/// the replay loads, then 400 when there is no virtual exchange (not in
/// replay mode); `None` when the request is served.
pub fn gui_exchange_status(loading: bool, has_engine: bool) -> (r: Option<u16>)
    ensures
        loading ==> r == Some(503u16),
        !loading && !has_engine ==> r == Some(400u16),
        !loading && has_engine ==> r is None,
{
    if loading {
        Some(503)
    } else if !has_engine {
        Some(400)
    } else {
        None
    }
}

/// Refusal status of the GUI's state request: served whenever the replay
/// has state to show, else 503 while it loads and 400 otherwise.
pub fn gui_state_status(has_state: bool, loading: bool) -> (r: Option<u16>)
    ensures
        has_state ==> r is None,
        !has_state && loading ==> r == Some(503u16),
        !has_state && !loading ==> r == Some(400u16),
{
    if has_state {
        None
    } else if loading {
        Some(503)
    } else {
        Some(400)
    }
}

/// The GUI's check before each tick, with the clock at `before`: stop at
/// the range's `end`, then at the target `until`.
pub fn gui_before_tick(before: u64, end: u64, until: u64) -> (r: Option<AdvanceStoppedReason>)
    ensures
        r == (if before >= end {
            Some(AdvanceStoppedReason::End)
        } else if before >= until {
            Some(AdvanceStoppedReason::UntilReached)
        } else {
            None
        }),
{
    if before >= end {
        Some(AdvanceStoppedReason::End)
    } else if before >= until {
        Some(AdvanceStoppedReason::UntilReached)
    } else {
        None
    }
}

/// The next move of an advance with target `until`, clock at `current`, a
/// step of `step_ms` and the range ending at `end`: no step size stops the
/// run; a clock at or past the end stops it; otherwise the clock moves one
/// step, but not past the target or the end.
pub open spec fn next_move_spec(until: u64, step_ms: u64, current: u64, end: u64) -> AdvanceMove {
    if step_ms == 0 {
        AdvanceMove::NoStepSize
    } else if current >= end {
        AdvanceMove::Stop(AdvanceStoppedReason::End)
    } else {
        AdvanceMove::Tick(advance_target(current, step_ms, until, end))
    }
}

/// Whether an advance stops after a tick that moved the clock to
/// `new_time` (now reading `now`) with `fills` fills and `narratives`
/// narrative updates: on a fill when asked, on a narrative update when
/// asked, at the range's end, at the target `until`; in that order.
pub open spec fn tick_stop(
    stop_on_fill: bool,
    stop_on_narrative: bool,
    until: u64,
    new_time: u64,
    now: u64,
    end: u64,
    fills: u64,
    narratives: u64,
) -> Option<AdvanceStoppedReason> {
    if stop_on_fill && fills > 0 {
        Some(AdvanceStoppedReason::Fill)
    } else if stop_on_narrative && narratives > 0 {
        Some(AdvanceStoppedReason::Narrative)
    } else if now >= end {
        Some(AdvanceStoppedReason::End)
    } else if new_time >= until {
        Some(AdvanceStoppedReason::UntilReached)
    } else {
        None
    }
}

/// Progress of one advance request: where it stops and what it has done.
#[derive(Debug, Clone, Copy, PartialEq, Eq)]
pub struct AdvanceRun {
    pub until_ms: u64,
    pub stop_on_fill: bool,
    pub stop_on_narrative: bool,
    pub ticks_advanced: u64,
    pub aggregate_fills: u64,
    pub aggregate_updated_narratives: u64,
}

fn contains_condition(conds: &Vec<AdvanceStopCondition>, c: AdvanceStopCondition) -> (r: bool)
    ensures
        r == stops_on(conds@, c),
{
    let n = conds.len();
    let mut i: usize = 0;
    while i < n
        invariant
            n == conds@.len(),
            i <= n,
            forall|j: int| 0 <= j < i ==> conds@[j] != c,
        decreases n - i,
    {
        if conds[i] == c {
            return true;
        }
        i = i + 1;
    }
    false
}

impl AdvanceRun {
    /// A run for the request, nothing done yet.
    pub fn new(request: &AgentAdvanceRequest) -> (r: Self)
        ensures
            r.until_ms == request.until_ms.0,
            r.stop_on_fill == stops_on(request.stop_on@, AdvanceStopCondition::Fill),
            r.stop_on_narrative == stops_on(request.stop_on@, AdvanceStopCondition::Narrative),
            r.ticks_advanced == 0,
            r.aggregate_fills == 0,
            r.aggregate_updated_narratives == 0,
    {
        AdvanceRun {
            until_ms: request.until_ms.0,
            stop_on_fill: contains_condition(&request.stop_on, AdvanceStopCondition::Fill),
            stop_on_narrative: contains_condition(&request.stop_on, AdvanceStopCondition::Narrative),
            ticks_advanced: 0,
            aggregate_fills: 0,
            aggregate_updated_narratives: 0,
        }
    }

    /// Whether the target is not after the clock, so that the advance ends
    /// at once (reason `UntilReached`, no tick).
    pub fn already_reached(&self, start_time: u64) -> (r: bool)
        ensures
            r == (self.until_ms <= start_time),
    {
        self.until_ms <= start_time
    }

    /// The next move with the clock at `current`, a step of `step_ms` and
    /// the range ending at `end` (see `next_move_spec`).
    pub fn next_move(&self, step_ms: u64, current: u64, end: u64) -> (r: AdvanceMove)
        ensures
            r == next_move_spec(self.until_ms, step_ms, current, end),
    {
        if step_ms == 0 {
            return AdvanceMove::NoStepSize;
        }
        if current >= end {
            return AdvanceMove::Stop(AdvanceStoppedReason::End);
        }
        let mut t = current.saturating_add(step_ms);
        if self.until_ms < t {
            t = self.until_ms;
        }
        if end < t {
            t = end;
        }
        AdvanceMove::Tick(t)
    }

    /// Books a tick that moved the clock to `new_time` (now reading `now`)
    /// and produced `fills` fills and `narratives` narrative updates, then
    /// says whether to stop: on a fill when asked, on a narrative update
    /// when asked, at the range's end, at the target; in that order.
    pub fn after_tick(&mut self, new_time: u64, now: u64, end: u64, fills: u64, narratives: u64) -> (r:
        Option<AdvanceStoppedReason>)
        requires
            old(self).ticks_advanced < u64::MAX,
            old(self).aggregate_fills + fills <= u64::MAX,
            old(self).aggregate_updated_narratives + narratives <= u64::MAX,
        ensures
            final(self).until_ms == old(self).until_ms,
            final(self).stop_on_fill == old(self).stop_on_fill,
            final(self).stop_on_narrative == old(self).stop_on_narrative,
            final(self).ticks_advanced == old(self).ticks_advanced + 1,
            final(self).aggregate_fills == old(self).aggregate_fills + fills,
            final(self).aggregate_updated_narratives == old(self).aggregate_updated_narratives
                + narratives,
            r == tick_stop(
                old(self).stop_on_fill,
                old(self).stop_on_narrative,
                old(self).until_ms,
                new_time,
                now,
                end,
                fills,
                narratives,
            ),
    {
        self.ticks_advanced = self.ticks_advanced + 1;
        self.aggregate_fills = self.aggregate_fills + fills;
        self.aggregate_updated_narratives = self.aggregate_updated_narratives + narratives;
        if self.stop_on_fill && fills > 0 {
            Some(AdvanceStoppedReason::Fill)
        } else if self.stop_on_narrative && narratives > 0 {
            Some(AdvanceStoppedReason::Narrative)
        } else if now >= end {
            Some(AdvanceStoppedReason::End)
        } else if new_time >= self.until_ms {
            Some(AdvanceStoppedReason::UntilReached)
        } else {
            None
        }
    }

    /// The GUI's bookkeeping after a tick that moved the clock from `before`
    /// to `current`: a tick that made no progress stops the run (at the end
    /// of the range, else at the target) and is not counted; otherwise the
    /// tick is booked as by `after_tick`, with `current` as both the new
    /// time and the clock.
    pub fn after_gui_tick(
        &mut self,
        before: u64,
        current: u64,
        end: u64,
        fills: u64,
        narratives: u64,
    ) -> (r: Option<AdvanceStoppedReason>)
        requires
            current > before ==> old(self).ticks_advanced < u64::MAX,
            current > before ==> old(self).aggregate_fills + fills <= u64::MAX,
            current > before ==> old(self).aggregate_updated_narratives + narratives <= u64::MAX,
        ensures
            current <= before ==> *final(self) == *old(self),
            current <= before ==> r == Some(
                if current >= end {
                    AdvanceStoppedReason::End
                } else {
                    AdvanceStoppedReason::UntilReached
                },
            ),
            current > before ==> {
                &&& final(self).until_ms == old(self).until_ms
                &&& final(self).stop_on_fill == old(self).stop_on_fill
                &&& final(self).stop_on_narrative == old(self).stop_on_narrative
                &&& final(self).ticks_advanced == old(self).ticks_advanced + 1
                &&& final(self).aggregate_fills == old(self).aggregate_fills + fills
                &&& final(self).aggregate_updated_narratives
                    == old(self).aggregate_updated_narratives + narratives
                &&& r == tick_stop(
                    old(self).stop_on_fill,
                    old(self).stop_on_narrative,
                    old(self).until_ms,
                    current,
                    current,
                    end,
                    fills,
                    narratives,
                )
            },
    {
        if current <= before {
            if current >= end {
                Some(AdvanceStoppedReason::End)
            } else {
                Some(AdvanceStoppedReason::UntilReached)
            }
        } else {
            self.after_tick(current, current, end, fills, narratives)
        }
    }
}

} // verus!
