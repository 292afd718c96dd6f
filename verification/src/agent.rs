//! Agent replay API: the order-request key, the per-session idempotency state
//! and the advance request types.

use vstd::prelude::*;
use crate::contract::{ClientOrderId, EpochMs, TickerContract};
use crate::text::text_eq;

verus! {

/// Side of an agent order.
#[derive(Debug, Clone, Copy, PartialEq, Eq, Structural)]
pub enum AgentOrderSide {
    Buy,
    Sell,
}

/// Order type part of the idempotency key.  A limit price is held as the
/// IEEE-754 bit pattern of the `f64` price the agent sent, negative zero
/// stored as positive zero.  For every price other than NaN two patterns are
/// equal exactly when the prices compare equal; a NaN pattern equals itself,
/// where a NaN price compares unequal to everything.  (JSON numbers cannot
/// be NaN, so a request body never carries one.)
#[derive(Debug, Clone, Copy, PartialEq, Eq, Structural)]
pub enum AgentOrderTypeKey {
    Market,
    Limit { price_bits: u64 },
}

/// Structural key of an order request: everything in the request body except
/// the client order id.  The quantity is held as `f64` bits in the same way
/// as a limit price.
#[derive(Debug, Clone)]
pub struct AgentOrderRequestKey {
    pub ticker: TickerContract,
    pub side: AgentOrderSide,
    pub qty_bits: u64,
    pub order_type: AgentOrderTypeKey,
}

/// Mathematical value of a request key.
pub struct KeyView {
    pub exchange: Seq<char>,
    pub symbol: Seq<char>,
    pub side: AgentOrderSide,
    pub qty_bits: u64,
    pub order_type: AgentOrderTypeKey,
}

impl View for AgentOrderRequestKey {
    type V = KeyView;

    open spec fn view(&self) -> KeyView {
        KeyView {
            exchange: self.ticker.exchange@,
            symbol: self.ticker.symbol@,
            side: self.side,
            qty_bits: self.qty_bits,
            order_type: self.order_type,
        }
    }
}

impl AgentOrderRequestKey {
    /// Whether two keys describe the same request body.
    pub fn same_as(&self, other: &Self) -> (r: bool)
        ensures
            r == (self@ == other@),
    {
        self.ticker.exchange == other.ticker.exchange && self.ticker.symbol == other.ticker.symbol
            && self.side == other.side && self.qty_bits == other.qty_bits && self.order_type
            == other.order_type
    }

    /// A copy of the key.
    pub fn duplicate(&self) -> (r: Self)
        ensures
            r@ == self@,
    {
        AgentOrderRequestKey {
            ticker: TickerContract {
                exchange: self.ticker.exchange.clone(),
                symbol: self.ticker.symbol.clone(),
            },
            side: self.side,
            qty_bits: self.qty_bits,
            order_type: self.order_type,
        }
    }
}

/// What the session remembers of a placed order.
#[derive(Debug, Clone)]
pub struct AgentOrderRecord {
    pub order_id: String,
    pub key: AgentOrderRequestKey,
}

/// Mathematical value of a record: the order id and the key view.
pub type RecordView = (Seq<char>, KeyView);

impl View for AgentOrderRecord {
    type V = RecordView;

    open spec fn view(&self) -> RecordView {
        (self.order_id@, self.key@)
    }
}

/// Outcome of accepting an order for placement.
#[derive(Debug, Clone, PartialEq)]
pub enum PlaceOrderOutcome {
    /// New order, under the order id that the caller allocated.
    Created { order_id: String },
    /// Resend of a known client order id with an identical body.
    IdempotentReplay { order_id: String },
    /// Known client order id with a different body.
    Conflict { existing_order_id: String },
}

/// Mathematical value of an outcome.
pub enum OutcomeView {
    Created(Seq<char>),
    IdempotentReplay(Seq<char>),
    Conflict(Seq<char>),
}

impl View for PlaceOrderOutcome {
    type V = OutcomeView;

    open spec fn view(&self) -> OutcomeView {
        match self {
            PlaceOrderOutcome::Created { order_id } => OutcomeView::Created(order_id@),
            PlaceOrderOutcome::IdempotentReplay { order_id } => OutcomeView::IdempotentReplay(
                order_id@,
            ),
            PlaceOrderOutcome::Conflict { existing_order_id } => OutcomeView::Conflict(
                existing_order_id@,
            ),
        }
    }
}

/// Idempotency map of a session, as a map from client order id to record.
pub type SessionMap = Map<Seq<char>, RecordView>;

/// The map held by a list of (client order id, record) entries.
pub open spec fn entries_map(entries: Seq<(ClientOrderId, AgentOrderRecord)>) -> SessionMap
    decreases entries.len(),
{
    if entries.len() == 0 {
        Map::empty()
    } else {
        entries_map(entries.drop_last()).insert(entries.last().0@, entries.last().1@)
    }
}

/// Placement on the map: the new map and the outcome.
pub open spec fn place_spec(m: SessionMap, id: Seq<char>, key: KeyView, new_order_id: Seq<char>) -> (
    SessionMap,
    OutcomeView,
) {
    if m.contains_key(id) {
        if m[id].1 == key {
            (m, OutcomeView::IdempotentReplay(m[id].0))
        } else {
            (m, OutcomeView::Conflict(m[id].0))
        }
    } else {
        (m.insert(id, (new_order_id, key)), OutcomeView::Created(new_order_id))
    }
}

/// Session state after observing a generation: a changed generation empties
/// the map.
pub open spec fn observe_spec(m: SessionMap, last_seen: u64, current: u64) -> (SessionMap, u64) {
    if last_seen != current {
        (Map::empty(), current)
    } else {
        (m, last_seen)
    }
}

/// Per-session agent state: the idempotency map from client order id to the
/// placed order, and the last virtual-exchange generation seen.
#[derive(Debug)]
pub struct AgentSessionState {
    entries: Vec<(ClientOrderId, AgentOrderRecord)>,
    last_seen_generation: u64,
}

impl AgentSessionState {
    /// The idempotency map.
    pub closed spec fn map(&self) -> SessionMap {
        entries_map(self.entries@)
    }

    /// The last generation observed.
    pub closed spec fn generation(&self) -> u64 {
        self.last_seen_generation
    }

    /// Client order ids are unique among the entries.
    #[verifier::type_invariant]
    spec fn wf(&self) -> bool {
        forall|i: int, j: int|
            0 <= i < j < self.entries@.len() ==> #[trigger] self.entries@[i].0@
                != #[trigger] self.entries@[j].0@
    }

    proof fn lemma_map_has(entries: Seq<(ClientOrderId, AgentOrderRecord)>, id: Seq<char>)
        requires
            forall|i: int, j: int|
                0 <= i < j < entries.len() ==> #[trigger] entries[i].0@ != #[trigger] entries[j].0@,
        ensures
            entries_map(entries).contains_key(id) <==> exists|i: int|
                0 <= i < entries.len() && #[trigger] entries[i].0@ == id,
            forall|i: int|
                0 <= i < entries.len() && #[trigger] entries[i].0@ == id ==> entries_map(entries)[id]
                    == entries[i].1@,
            entries_map(entries).dom().finite(),
            entries_map(entries).dom().len() == entries.len(),
        decreases entries.len(),
    {
        if entries.len() > 0 {
            let init = entries.drop_last();
            Self::lemma_map_has(init, id);
            Self::lemma_map_has(init, entries.last().0@);
            assert forall|i: int|
                0 <= i < entries.len() && #[trigger] entries[i].0@ == id implies entries_map(
                entries,
            )[id] == entries[i].1@ by {
                if i < entries.len() - 1 {
                    assert(init[i] == entries[i]);
                }
            }
            if entries_map(entries).contains_key(id) && id != entries.last().0@ {
                let i = choose|i: int| 0 <= i < init.len() && #[trigger] init[i].0@ == id;
                assert(entries[i] == init[i]);
            }
            if exists|i: int| 0 <= i < entries.len() && #[trigger] entries[i].0@ == id {
                let i = choose|i: int| 0 <= i < entries.len() && #[trigger] entries[i].0@ == id;
                if i < entries.len() - 1 {
                    assert(init[i] == entries[i]);
                }
            }
            assert(!entries_map(init).contains_key(entries.last().0@)) by {
                if entries_map(init).contains_key(entries.last().0@) {
                    let i = choose|i: int|
                        0 <= i < init.len() && #[trigger] init[i].0@ == entries.last().0@;
                    assert(entries[i] == init[i]);
                }
            }
        }
    }

    /// An empty session at generation 0.
    pub fn new() -> (r: Self)
        ensures
            r.map() == Map::<Seq<char>, RecordView>::empty(),
            r.generation() == 0,
    {
        AgentSessionState { entries: Vec::new(), last_seen_generation: 0 }
    }

    /// Records the exchange's current generation; when it differs from the
    /// last one seen, the map is cleared.
    pub fn observe_generation(&mut self, current_generation: u64)
        ensures
            (final(self).map(), final(self).generation()) == observe_spec(
                old(self).map(),
                old(self).generation(),
                current_generation,
            ),
    {
        if self.last_seen_generation != current_generation {
            self.entries = Vec::new();
            self.last_seen_generation = current_generation;
        }
    }

    /// Idempotency check and insertion.  An unknown client order id is
    /// recorded under `new_order_id` (`Created`); a known one with an equal
    /// key gives back its order id (`IdempotentReplay`); a known one with a
    /// different key gives `Conflict` and changes nothing.
    pub fn place_or_replay(
        &mut self,
        client_order_id: ClientOrderId,
        key: AgentOrderRequestKey,
        new_order_id: String,
    ) -> (r: PlaceOrderOutcome)
        ensures
            final(self).generation() == old(self).generation(),
            (final(self).map(), r@) == place_spec(
                old(self).map(),
                client_order_id@,
                key@,
                new_order_id@,
            ),
    {
        proof {
            use_type_invariant(&*self);
            Self::lemma_map_has(self.entries@, client_order_id@);
        }
        match self.position_of(client_order_id.as_str()) {
            Some(i) => {
                let existing = &self.entries[i].1;
                let order_id = existing.order_id.clone();
                if existing.key.same_as(&key) {
                    PlaceOrderOutcome::IdempotentReplay { order_id }
                } else {
                    PlaceOrderOutcome::Conflict { existing_order_id: order_id }
                }
            },
            None => {
                let ghost old_entries = self.entries@;
                let record = AgentOrderRecord { order_id: new_order_id.clone(), key };
                let mut entries: Vec<(ClientOrderId, AgentOrderRecord)> = Vec::new();
                std::mem::swap(&mut entries, &mut self.entries);
                entries.push((client_order_id, record));
                proof {
                    assert(entries@.drop_last() == old_entries);
                }
                self.entries = entries;
                PlaceOrderOutcome::Created { order_id: new_order_id }
            },
        }
    }

    /// Index of the entry for the client order id `id`, if any.
    fn position_of(&self, id: &str) -> (r: Option<usize>)
        ensures
            r matches Some(i) ==> i < self.entries@.len() && self.entries@[i as int].0@ == id@,
            r is None ==> forall|j: int|
                0 <= j < self.entries@.len() ==> #[trigger] self.entries@[j].0@ != id@,
    {
        let n = self.entries.len();
        let mut i: usize = 0;
        while i < n
            invariant
                n == self.entries@.len(),
                i <= n,
                forall|j: int| 0 <= j < i ==> #[trigger] self.entries@[j].0@ != id@,
            decreases n - i,
        {
            if text_eq(self.entries[i].0.as_str(), id) {
                return Some(i);
            }
            i = i + 1;
        }
        None
    }

    /// The client order id under which `order_id` was placed, if any.
    pub fn client_order_id_for(&self, order_id: &str) -> (r: Option<ClientOrderId>)
        ensures
            r matches Some(c) ==> self.map().contains_key(c@) && self.map()[c@].0 == order_id@,
            r is None ==> forall|c: Seq<char>|
                #[trigger] self.map().contains_key(c) ==> self.map()[c].0 != order_id@,
    {
        proof {
            use_type_invariant(self);
            assert forall|c: Seq<char>| #[trigger] self.map().contains_key(c) implies exists|i: int|
                0 <= i < self.entries@.len() && #[trigger] self.entries@[i].0@ == c
                && self.map()[c] == self.entries@[i].1@ by {
                Self::lemma_map_has(self.entries@, c);
                let i = choose|i: int|
                    0 <= i < self.entries@.len() && #[trigger] self.entries@[i].0@ == c;
            }
        }
        let n = self.entries.len();
        let mut i: usize = 0;
        while i < n
            invariant
                n == self.entries@.len(),
                i <= n,
                self.wf(),
                forall|j: int|
                    0 <= j < i ==> #[trigger] self.entries@[j].1.order_id@ != order_id@,
            decreases n - i,
        {
            if text_eq(self.entries[i].1.order_id.as_str(), order_id) {
                let id = self.entries[i].0.duplicate();
                proof {
                    Self::lemma_map_has(self.entries@, self.entries@[i as int].0@);
                }
                return Some(id);
            }
            i = i + 1;
        }
        None
    }

    /// For each filled order id, the client order id under which it was
    /// placed through the agent API, if any (as carried in step replies).
    pub fn client_order_ids_for_fills(&self, order_ids: &[String]) -> (r: Vec<Option<String>>)
        ensures
            r@.len() == order_ids@.len(),
            forall|i: int|
                0 <= i < r@.len() ==> (#[trigger] r@[i] matches Some(c) ==> self.map().contains_key(
                    c@,
                ) && self.map()[c@].0 == order_ids@[i]@),
            forall|i: int|
                0 <= i < r@.len() ==> (#[trigger] r@[i] is None ==> forall|c: Seq<char>|
                    #[trigger] self.map().contains_key(c) ==> self.map()[c].0 != order_ids@[i]@),
    {
        proof {
            use_type_invariant(self);
        }
        let mut out: Vec<Option<String>> = Vec::new();
        let n = order_ids.len();
        let mut i: usize = 0;
        while i < n
            invariant
                n == order_ids@.len(),
                i <= n,
                self.wf(),
                out@.len() == i,
                forall|k: int|
                    0 <= k < i ==> (#[trigger] out@[k] matches Some(c) ==> self.map().contains_key(
                        c@,
                    ) && self.map()[c@].0 == order_ids@[k]@),
                forall|k: int|
                    0 <= k < i ==> (#[trigger] out@[k] is None ==> forall|c: Seq<char>|
                        #[trigger] self.map().contains_key(c) ==> self.map()[c].0
                            != order_ids@[k]@),
            decreases n - i,
        {
            let found = match self.client_order_id_for(order_ids[i].as_str()) {
                Some(c) => Some(String::from_str(c.as_str())),
                None => None,
            };
            out.push(found);
            i = i + 1;
        }
        out
    }

    /// Number of client order ids held.
    pub fn len(&self) -> (r: usize)
        ensures
            r == self.map().dom().len(),
    {
        proof {
            use_type_invariant(self);
            Self::lemma_map_has(self.entries@, Seq::empty());
        }
        self.entries.len()
    }
}

// ── Advance request ─────────────────────────────────────────────────────────

/// Conditions on which an advance stops early.
#[derive(Debug, Clone, Copy, PartialEq, Eq, Structural)]
pub enum AdvanceStopCondition {
    Fill,
    Narrative,
}

/// Why an advance stopped.
#[derive(Debug, Clone, Copy, PartialEq, Eq, Structural)]
pub enum AdvanceStoppedReason {
    UntilReached,
    Fill,
    Narrative,
    End,
}

/// Body of an advance request: run until `until_ms`, stopping early on the
/// listed conditions; `include_fills` asks for the fills in the reply.
#[derive(Debug, Clone)]
pub struct AgentAdvanceRequest {
    pub until_ms: EpochMs,
    pub stop_on: Vec<AdvanceStopCondition>,
    pub include_fills: bool,
}

} // verus!
