//! Properties of the library that span several calls.

use vstd::prelude::*;
use crate::agent::{
    AdvanceStoppedReason, KeyView, OutcomeView, SessionMap, observe_spec, place_spec,
};
use crate::agent_api::{AdvanceMove, advance_target, next_move_spec, tick_stop};
use crate::master::{
    is_sjis_lead, lemma_feed_concat, lemma_records_are_feed_then_flush, sjis_feed, sjis_flush,
    sjis_records,
};
use crate::event::{FieldView, frame_fields, record_field};
use crate::headless::{names_ticker, split_colon, timeframe_named};
use crate::market::{
    bytes_of, date_epoch_ms, date_fields, days_from_civil, days_in_month, is_leap_year,
    is_valid_civil_date,
};
use crate::pane::{
    ContentKind, content_kind_named, lemma_compact_name, lemma_exchange_name_injective, ticker_text,
    timeframe_label, without_spaces,
};
use crate::tachibana::{serial_issued, serial_next};
use crate::text::{
    decimal, digit_char, first_index, lemma_first_index, lemma_first_index_concat,
};
use crate::ticker::{Ticker, Timeframe, exchange_name, timeframe_ms};

verus! {

/// An order placed under a new client order id can be found again by its
/// order id: the map then holds that id with the new order id and body.
pub proof fn law_placed_order_is_recorded(
    m: SessionMap,
    id: Seq<char>,
    key: KeyView,
    new_order_id: Seq<char>,
)
    requires
        !m.contains_key(id),
    ensures
        ({
            let (m1, r) = place_spec(m, id, key, new_order_id);
            &&& r == OutcomeView::Created(new_order_id)
            &&& m1.contains_key(id)
            &&& m1[id] == (new_order_id, key)
            &&& forall|c: Seq<char>| #[trigger] m.contains_key(c) ==> m1.contains_key(c) && m1[c] == m[c]
        }),
{
}

/// Placing an order under a client order id that the session does not know
/// and then resending the same body under the same id: the resend answers
/// with the order id of the first placement and leaves the map as the first
/// placement left it, whatever order id the resend allocated.
pub proof fn law_resend_replays_first_order_id(
    m: SessionMap,
    id: Seq<char>,
    key: KeyView,
    first_order_id: Seq<char>,
    resend_order_id: Seq<char>,
)
    requires
        !m.contains_key(id),
    ensures
        ({
            let (m1, r1) = place_spec(m, id, key, first_order_id);
            let (m2, r2) = place_spec(m1, id, key, resend_order_id);
            &&& r1 == OutcomeView::Created(first_order_id)
            &&& r2 == OutcomeView::IdempotentReplay(first_order_id)
            &&& m2 == m1
        }),
{
}

/// A request under a known client order id with a different body is refused
/// as a conflict naming the first order, and changes nothing: resending the
/// first body afterwards still replays the first order id.
pub proof fn law_conflict_changes_nothing(
    m: SessionMap,
    id: Seq<char>,
    key: KeyView,
    other_key: KeyView,
    first_order_id: Seq<char>,
    o2: Seq<char>,
    o3: Seq<char>,
)
    requires
        !m.contains_key(id),
        other_key != key,
    ensures
        ({
            let (m1, _r1) = place_spec(m, id, key, first_order_id);
            let (m2, r2) = place_spec(m1, id, other_key, o2);
            let (m3, r3) = place_spec(m2, id, key, o3);
            &&& r2 == OutcomeView::Conflict(first_order_id)
            &&& m2 == m1
            &&& r3 == OutcomeView::IdempotentReplay(first_order_id)
            &&& m3 == m1
        }),
{
}

/// Orders under different client order ids coexist: after both are placed,
/// each id maps to its own order id and body.
pub proof fn law_distinct_ids_coexist(
    m: SessionMap,
    id1: Seq<char>,
    id2: Seq<char>,
    key1: KeyView,
    key2: KeyView,
    o1: Seq<char>,
    o2: Seq<char>,
)
    requires
        !m.contains_key(id1),
        !m.contains_key(id2),
        id1 != id2,
    ensures
        ({
            let (m1, r1) = place_spec(m, id1, key1, o1);
            let (m2, r2) = place_spec(m1, id2, key2, o2);
            &&& r1 == OutcomeView::Created(o1)
            &&& r2 == OutcomeView::Created(o2)
            &&& m2.contains_key(id1) && m2[id1] == (o1, key1)
            &&& m2.contains_key(id2) && m2[id2] == (o2, key2)
            &&& m2.dom() == m.dom().insert(id1).insert(id2)
        }),
{
    let (m1, _r1) = place_spec(m, id1, key1, o1);
    let (m2, _r2) = place_spec(m1, id2, key2, o2);
    assert(m2.dom() =~= m.dom().insert(id1).insert(id2));
}

/// Each new order adds one client order id to the session, and a replay or
/// a conflict adds none, so the session holds as many ids as orders it
/// created since the last change of generation.
pub proof fn law_order_counts(m: SessionMap, id: Seq<char>, key: KeyView, new_order_id: Seq<char>)
    requires
        m.dom().finite(),
    ensures
        ({
            let (m1, r) = place_spec(m, id, key, new_order_id);
            &&& m1.dom().finite()
            &&& r is Created ==> m1.dom().len() == m.dom().len() + 1
            &&& !(r is Created) ==> m1.dom().len() == m.dom().len()
        }),
{
}

/// A change of the exchange's generation forgets every order of the
/// session: the map is empty, the new generation is remembered, and a
/// client order id used before is accepted again as a new order.
pub proof fn law_generation_change_forgets(
    m: SessionMap,
    last_seen: u64,
    current: u64,
    id: Seq<char>,
    key: KeyView,
    new_order_id: Seq<char>,
)
    requires
        last_seen != current,
    ensures
        ({
            let (m1, g1) = observe_spec(m, last_seen, current);
            let (m2, r2) = place_spec(m1, id, key, new_order_id);
            &&& m1 == Map::<Seq<char>, (Seq<char>, KeyView)>::empty()
            &&& g1 == current
            &&& r2 == OutcomeView::Created(new_order_id)
            &&& m2 == map![id => (new_order_id, key)]
        }),
{
    let (m1, _g1) = observe_spec(m, last_seen, current);
    let (m2, _r2) = place_spec(m1, id, key, new_order_id);
    assert(m2 =~= map![id => (new_order_id, key)]);
}

/// Observing the generation already seen changes nothing, so observing the
/// same generation twice has the effect of observing it once.
pub proof fn law_observe_is_idempotent(m: SessionMap, last_seen: u64, current: u64)
    ensures
        observe_spec(m, current, current) == (m, current),
        ({
            let (m1, g1) = observe_spec(m, last_seen, current);
            observe_spec(m1, g1, current) == (m1, g1)
        }),
{
}

/// Two request numbers handed out one after the other by the same counter
/// are consecutive (unless the first is the largest `u64`, after which the
/// counter wraps and is seeded again).
pub proof fn law_request_numbers_consecutive(value: u64, secs1: u64, secs2: u64)
    requires
        serial_issued(value, secs1) < u64::MAX,
    ensures
        serial_issued(serial_next(serial_issued(value, secs1)), secs2) == serial_issued(
            value,
            secs1,
        ) + 1,
{
}

/// The first two request numbers of an unset counter, seeded with a clock
/// reading in seconds (at most `u64::MAX / 1000`), are consecutive.
pub proof fn law_first_request_numbers_consecutive(secs1: u64, secs2: u64)
    requires
        secs1 <= u64::MAX / 1000,
    ensures
        serial_issued(serial_next(serial_issued(0, secs1)), secs2) == serial_issued(0, secs1) + 1,
{
}

proof fn lemma_decimal_nonempty(n: nat)
    ensures
        decimal(n).len() >= 1,
        n < 10 <==> decimal(n).len() == 1,
    decreases n,
{
    if n >= 10 {
        lemma_decimal_nonempty(n / 10);
    }
}

/// Different numbers render as different decimal texts, so distinct request
/// numbers give distinct `p_no` values.
pub proof fn law_decimal_injective(a: nat, b: nat)
    requires
        a != b,
    ensures
        decimal(a) != decimal(b),
    decreases a + b,
{
    lemma_decimal_nonempty(a);
    lemma_decimal_nonempty(b);
    if a >= 10 && b >= 10 {
        if decimal(a) == decimal(b) {
            assert(decimal(a).last() == digit_char(a % 10));
            assert(decimal(b).last() == digit_char(b % 10));
            assert(decimal(a).drop_last() =~= decimal(a / 10));
            assert(decimal(b).drop_last() =~= decimal(b / 10));
            if a / 10 != b / 10 {
                law_decimal_injective(a / 10, b / 10);
            }
            assert(a % 10 == b % 10);
        }
    } else if a < 10 && b < 10 {
        if decimal(a) == decimal(b) {
            assert(decimal(a)[0] == digit_char(a));
            assert(decimal(b)[0] == digit_char(b));
        }
    }
}

/// Splitting the master download as it streams in, in two chunks cut
/// anywhere, and then taking the unfinished record, gives the same records
/// as splitting the whole download at once.
pub proof fn law_streamed_split_matches_whole(a: Seq<u8>, b: Seq<u8>)
    ensures
        ({
            let (e1, m1, r1) = sjis_feed(a, false, Seq::empty());
            let (e2, _m2, r2) = sjis_feed(b, m1, r1);
            e1 + e2 + sjis_flush(r2) == sjis_records(a + b, false, Seq::empty())
        }),
{
    lemma_feed_concat(a, b, false, Seq::empty());
    lemma_records_are_feed_then_flush(a + b, false, Seq::empty());
    let (e1, m1, r1) = sjis_feed(a, false, Seq::empty());
    let (e2, _m2, r2) = sjis_feed(b, m1, r1);
    assert(e1 + e2 + sjis_flush(r2) =~= (e1 + e2) + sjis_flush(r2));
}

/// The text the control API writes for a ticker without display symbol
/// reads back as that ticker: the text names it, and any ticker the text
/// names has the same venue and symbol and no display symbol.
pub proof fn law_ticker_text_reads_back(t: Ticker, u: Ticker)
    requires
        t.display_view() is None,
    ensures
        names_ticker(ticker_text(t), t),
        names_ticker(ticker_text(t), u) ==> u.exchange == t.exchange && u.symbol_view()
            == t.symbol_view() && u.display_view() is None,
{
    let c = without_spaces(exchange_name(t.exchange));
    let sym = t.symbol_view();
    let text = ticker_text(t);
    lemma_compact_name(t.exchange);
    reveal_strlit(":");
    assert(text =~= c + (":"@ + sym));
    lemma_first_index_concat(c, ":"@ + sym, ':');
    assert((":"@ + sym)[0] == ':');
    assert(first_index(":"@ + sym, ':') == 0);
    assert(text.take(c.len() as int) =~= c);
    assert(text.skip(c.len() + 1 as int) =~= sym);
    assert(split_colon(text) == Some((c, sym)));
    lemma_exchange_name_injective(u.exchange, t.exchange);
}

/// A tick of an advance never moves the clock past the target or the
/// range's end, and moves it forward while both are ahead: an advance over
/// a step size of at least one reaches its target or the end in finitely
/// many ticks.
pub proof fn law_advance_tick_bounded(current: u64, step_ms: u64, until: u64, end: u64)
    requires
        step_ms > 0,
    ensures
        advance_target(current, step_ms, until, end) <= until,
        advance_target(current, step_ms, until, end) <= end,
        current < until && current < end ==> current < advance_target(current, step_ms, until, end),
{
}

/// An advance that no fill or narrative stops, run as `AdvanceRun::next_move`
/// and `AdvanceRun::after_tick` decide it (their results are `next_move_spec`
/// and `tick_stop`), from the clock at `current`, the engine moving the
/// clock to each tick's target: where the clock stops, how many ticks it
/// took, and why it stopped.
pub open spec fn quiet_advance(current: u64, step_ms: u64, until: u64, end: u64) -> (
    u64,
    nat,
    AdvanceStoppedReason,
)
    decreases end - current,
    when step_ms > 0
{
    match next_move_spec(until, step_ms, current, end) {
        AdvanceMove::Tick(t) => match tick_stop(false, false, until, t, t, end, 0, 0) {
            Some(reason) => (t, 1, reason),
            None => {
                let (c, n, reason) = quiet_advance(t, step_ms, until, end);
                (c, n + 1, reason)
            },
        },
        AdvanceMove::Stop(reason) => (current, 0, reason),
        AdvanceMove::NoStepSize => (current, 0, AdvanceStoppedReason::End),
    }
}

/// An advance with the target and the range's end both ahead, and nothing
/// else to stop it, ends with the clock at the earlier of the two, after
/// `ceil((min(until, end) - current) / step_ms)` ticks, stopped by the end
/// when the end is not after the target and by the target otherwise.
pub proof fn law_quiet_advance_reaches_target_or_end(
    current: u64,
    step_ms: u64,
    until: u64,
    end: u64,
)
    requires
        step_ms > 0,
        current < until,
        current < end,
    ensures
        ({
            let m: u64 = if until < end {
                until
            } else {
                end
            };
            quiet_advance(current, step_ms, until, end) == (
                m,
                ((m - current + step_ms - 1) / (step_ms as int)) as nat,
                if end <= until {
                    AdvanceStoppedReason::End
                } else {
                    AdvanceStoppedReason::UntilReached
                },
            )
        }),
    decreases end - current,
{
    let m: u64 = if until < end {
        until
    } else {
        end
    };
    let s = step_ms as int;
    let x = m - current + s - 1;
    let t = advance_target(current, step_ms, until, end);
    if current + step_ms >= m {
        assert(t == m);
        vstd::arithmetic::div_mod::lemma_fundamental_div_mod_converse(x, s, 1, x - s);
    } else {
        assert(t == current + step_ms);
        law_quiet_advance_reaches_target_or_end(t, step_ms, until, end);
        let y = x - s;
        assert(y == m - t + s - 1);
        vstd::arithmetic::div_mod::lemma_fundamental_div_mod(y, s);
        let q = y / s;
        let r = y % s;
        assert(x == (q + 1) * s + r) by (nonlinear_arith)
            requires
                y == s * q + r,
                x == y + s,
        ;
        vstd::arithmetic::div_mod::lemma_fundamental_div_mod_converse(x, s, q + 1, r);
    }
}

/// A daily candle's time is midnight JST, which is 15:00 UTC of the day
/// before: 54 000 000 ms into a UTC day.
pub proof fn law_daily_time_is_jst_midnight(date: Seq<char>)
    ensures
        date_epoch_ms(date) matches Some(t) ==> t % 86_400_000 == 54_000_000,
{
    match date_fields(bytes_of(date)) {
        Some((y, m, d)) => {
            let k = days_from_civil(y, m, d);
            assert((k * 86400 - 32400) * 1000 == 86_400_000 * (k - 1) + 54_000_000)
                by (nonlinear_arith);
            vstd::arithmetic::div_mod::lemma_mod_multiples_vanish(k - 1, 54_000_000, 86_400_000);
        },
        None => {},
    }
}

/// The day after `(y, m, d)` in the proleptic Gregorian calendar.
pub open spec fn next_day(y: int, m: int, d: int) -> (int, int, int) {
    if d < days_in_month(y, m) {
        (y, m, d + 1)
    } else if m < 12 {
        (y, m + 1, 1)
    } else {
        (y + 1, 1, 1)
    }
}

/// Days from the epoch's origin to March 1 of year `y`, as
/// `days_from_civil` counts them (before subtracting the epoch).
pub open spec fn march_year_start(y: int) -> int {
    let era = y / 400;
    let yoe = y - era * 400;
    era * 146097 + yoe * 365 + yoe / 4 - yoe / 100
}

/// The March-based year `y` (March of `y` to February of `y + 1`) has 366
/// days exactly when `y + 1` is a leap year.
proof fn lemma_march_year_length(y: int)
    ensures
        march_year_start(y + 1) - march_year_start(y) == if is_leap_year(y + 1) {
            366int
        } else {
            365int
        },
{
    let era = y / 400;
    let yoe = y - era * 400;
    vstd::arithmetic::div_mod::lemma_fundamental_div_mod(y, 400);
    assert(0 <= yoe < 400);
    let y2 = y + 1;
    if yoe < 399 {
        assert(y2 / 400 == era) by {
            vstd::arithmetic::div_mod::lemma_fundamental_div_mod_converse(y2, 400, era, yoe + 1);
        }
        assert(y2 % 4 == (yoe + 1) % 4) by {
            vstd::arithmetic::div_mod::lemma_mod_multiples_vanish(100 * era, yoe + 1, 4);
        }
        assert(y2 % 100 == (yoe + 1) % 100) by {
            vstd::arithmetic::div_mod::lemma_mod_multiples_vanish(4 * era, yoe + 1, 100);
        }
        assert(y2 % 400 == yoe + 1) by {
            vstd::arithmetic::div_mod::lemma_mod_multiples_vanish(era, yoe + 1, 400);
        }
    } else {
        assert(y2 / 400 == era + 1) by {
            vstd::arithmetic::div_mod::lemma_fundamental_div_mod_converse(y2, 400, era + 1, 0);
        }
        assert(y2 % 400 == 0) by {
            vstd::arithmetic::div_mod::lemma_mod_multiples_vanish(era + 1, 0, 400);
        }
    }
}

/// March 1 of a later year comes later, by at least 365 days a year.
proof fn lemma_march_year_start_monotone(a: int, b: int)
    requires
        a <= b,
    ensures
        march_year_start(b) - march_year_start(a) >= 365 * (b - a),
    decreases b - a,
{
    if a < b {
        lemma_march_year_start_monotone(a, b - 1);
        lemma_march_year_length(b - 1);
    }
}

/// Days from March 1 to the first of the month `mp` months later.
pub open spec fn month_offset(mp: int) -> int {
    (153 * mp + 2) / 5
}

/// A valid date's day number: March 1 of its March-based year plus its
/// place in that year, which is less than the year's length.
#[verifier::spinoff_prover]
#[verifier::rlimit(40)]
proof fn lemma_civil_parts(y: int, m: int, d: int)
    requires
        is_valid_civil_date(y, m, d),
    ensures
        ({
            let yy = if m <= 2 {
                y - 1
            } else {
                y
            };
            let mp = if m > 2 {
                m - 3
            } else {
                m + 9
            };
            let doy = month_offset(mp) + d - 1;
            &&& days_from_civil(y, m, d) == march_year_start(yy) + doy - 719468
            &&& 0 <= doy < march_year_start(yy + 1) - march_year_start(yy)
            &&& 0 <= mp <= 11
            &&& month_offset(mp) + days_in_month(y, m) <= (if mp < 11 {
                month_offset(mp + 1)
            } else {
                march_year_start(yy + 1) - march_year_start(yy)
            })
        }),
{
    let yy = if m <= 2 {
        y - 1
    } else {
        y
    };
    lemma_march_year_length(yy);
    lemma_month_offsets();
}

/// The first day of each month, counted from March 1.
proof fn lemma_month_offsets()
    ensures
        month_offset(0) == 0,
        month_offset(1) == 31,
        month_offset(2) == 61,
        month_offset(3) == 92,
        month_offset(4) == 122,
        month_offset(5) == 153,
        month_offset(6) == 184,
        month_offset(7) == 214,
        month_offset(8) == 245,
        month_offset(9) == 275,
        month_offset(10) == 306,
        month_offset(11) == 337,
        month_offset(12) == 367,
{
}

/// Of two valid dates, the later one has the later midnight.
#[verifier::spinoff_prover]
pub proof fn law_later_date_later_time(y1: int, m1: int, d1: int, y2: int, m2: int, d2: int)
    requires
        is_valid_civil_date(y1, m1, d1),
        is_valid_civil_date(y2, m2, d2),
        y1 < y2 || (y1 == y2 && (m1 < m2 || (m1 == m2 && d1 < d2))),
    ensures
        days_from_civil(y1, m1, d1) < days_from_civil(y2, m2, d2),
{
    lemma_civil_parts(y1, m1, d1);
    lemma_civil_parts(y2, m2, d2);
    let yy1 = if m1 <= 2 {
        y1 - 1
    } else {
        y1
    };
    let yy2 = if m2 <= 2 {
        y2 - 1
    } else {
        y2
    };
    let mp1 = if m1 > 2 {
        m1 - 3
    } else {
        m1 + 9
    };
    let mp2 = if m2 > 2 {
        m2 - 3
    } else {
        m2 + 9
    };
    if yy1 < yy2 {
        lemma_march_year_start_monotone(yy1 + 1, yy2);
    } else {
        assert(yy1 == yy2);
        if mp1 < mp2 {
            lemma_month_offsets();
            assert(month_offset(mp1 + 1) <= month_offset(mp2));
        }
    }
}

/// Consecutive days are one day apart: the day after a valid date is valid,
/// and its midnight is 86 400 s later.
pub proof fn law_next_day_is_one_day_later(y: int, m: int, d: int)
    requires
        is_valid_civil_date(y, m, d),
    ensures
        ({
            let (y2, m2, d2) = next_day(y, m, d);
            is_valid_civil_date(y2, m2, d2) && days_from_civil(y2, m2, d2) == days_from_civil(
                y,
                m,
                d,
            ) + 1
        }),
{
    if d == days_in_month(y, m) && m == 2 {
        lemma_march_year_length(y - 1);
    }
}

/// The text of a frame carrying the fields `f`, each written as SOH, name,
/// STX, value.
pub open spec fn frame_text(f: Seq<FieldView>) -> Seq<char>
    decreases f.len(),
{
    if f.len() == 0 {
        Seq::empty()
    } else {
        seq!['\x01'] + f[0].0 + seq!['\x02'] + f[0].1 + frame_text(f.drop_first())
    }
}

/// A field that a frame can carry: a nonempty name without SOH or STX, and
/// a value without SOH.
pub open spec fn is_frame_field(p: FieldView) -> bool {
    &&& p.0.len() > 0
    &&& forall|i: int| 0 <= i < p.0.len() ==> #[trigger] p.0[i] != '\x01' && p.0[i] != '\x02'
    &&& forall|i: int| 0 <= i < p.1.len() ==> #[trigger] p.1[i] != '\x01'
}

/// A text that starts with SOH has the fields of what follows it.
proof fn lemma_leading_soh(s: Seq<char>)
    requires
        s.len() > 0,
        s[0] == '\x01',
    ensures
        frame_fields(s) == frame_fields(s.skip(1)),
{
    lemma_first_index(s, '\x01', 0);
    assert(s.take(0) =~= Seq::<char>::empty());
    assert(record_field(s.take(0)) is None);
    assert(Seq::<FieldView>::empty() + frame_fields(s.skip(1)) =~= frame_fields(s.skip(1)));
}

/// One field's text, name then STX then value, reads back as that field.
proof fn lemma_field_text(p: FieldView)
    requires
        is_frame_field(p),
    ensures
        record_field(p.0 + seq!['\x02'] + p.1) == Some(p),
{
    let seg = p.0 + seq!['\x02'] + p.1;
    assert forall|j: int| 0 <= j < p.0.len() implies seg[j] != '\x02' by {
        assert(seg[j] == p.0[j]);
    }
    assert(seg[p.0.len() as int] == '\x02');
    lemma_first_index(seg, '\x02', p.0.len() as int);
    assert(seg.take(p.0.len() as int) =~= p.0);
    assert(seg.skip(p.0.len() + 1int) =~= p.1);
}

/// Writing fields into a frame and parsing the frame gives the fields back,
/// in order, when every name is nonempty and free of SOH and STX and every
/// value is free of SOH.
pub proof fn law_frame_round_trip(f: Seq<FieldView>)
    requires
        forall|i: int| 0 <= i < f.len() ==> is_frame_field(#[trigger] f[i]),
    ensures
        frame_fields(frame_text(f)) == f,
    decreases f.len(),
{
    if f.len() == 0 {
        let e = Seq::<char>::empty();
        assert(frame_text(f) =~= e);
        lemma_first_index(e, '\x01', 0);
        assert(e.take(0) =~= e);
        assert(record_field(e) is None);
        assert(frame_fields(e) =~= Seq::<FieldView>::empty());
    } else {
        let p = f[0];
        let tail = f.drop_first();
        assert forall|i: int| 0 <= i < tail.len() implies is_frame_field(#[trigger] tail[i]) by {
            assert(tail[i] == f[i + 1]);
        }
        law_frame_round_trip(tail);
        let t = frame_text(tail);
        let s = frame_text(f);
        let seg = p.0 + seq!['\x02'] + p.1;
        let u = seg + t;
        assert(s =~= seq!['\x01'] + u);
        lemma_leading_soh(s);
        assert(s.skip(1) =~= u);
        lemma_field_text(p);
        assert forall|j: int| 0 <= j < seg.len() implies seg[j] != '\x01' by {
            if j < p.0.len() {
                assert(seg[j] == p.0[j]);
            } else if j > p.0.len() {
                assert(seg[j] == p.1[j - p.0.len() - 1]);
            }
        }
        if tail.len() == 0 {
            assert(t =~= Seq::<char>::empty());
            assert(u =~= seg);
            lemma_first_index(u, '\x01', u.len() as int);
            assert(u.take(u.len() as int) =~= seg);
            assert(frame_fields(u) =~= seq![p]);
            assert(f =~= seq![p]);
        } else {
            assert(t[0] == '\x01');
            assert(u[seg.len() as int] == '\x01');
            lemma_first_index(u, '\x01', seg.len() as int);
            assert(u.take(seg.len() as int) =~= seg);
            assert(u.skip(seg.len() + 1int) =~= t.skip(1));
            lemma_leading_soh(t);
            assert(frame_fields(u) =~= seq![p] + tail);
            assert(f =~= seq![p] + tail);
        }
    }
}

/// A tick's fills decide nothing unless the advance stops on fills, and
/// its narrative updates nothing unless it stops on narratives: the stop
/// decision is then what it would be with no fill (no narrative update).
pub proof fn law_unrequested_conditions_do_not_stop(
    stop_on_fill: bool,
    stop_on_narrative: bool,
    until: u64,
    new_time: u64,
    now: u64,
    end: u64,
    fills: u64,
    narratives: u64,
)
    ensures
        !stop_on_fill ==> tick_stop(false, stop_on_narrative, until, new_time, now, end, fills, narratives)
            == tick_stop(false, stop_on_narrative, until, new_time, now, end, 0, narratives),
        !stop_on_narrative ==> tick_stop(stop_on_fill, false, until, new_time, now, end, fills, narratives)
            == tick_stop(stop_on_fill, false, until, new_time, now, end, fills, 0),
        !stop_on_fill && !stop_on_narrative && now < end && new_time < until ==> tick_stop(
            false,
            false,
            until,
            new_time,
            now,
            end,
            fills,
            narratives,
        ) is None,
        stop_on_fill && fills > 0 ==> tick_stop(true, stop_on_narrative, until, new_time, now, end, fills, narratives)
            == Some(AdvanceStoppedReason::Fill),
{
}

/// The order of the stop reasons after a tick: a requested fill stop comes
/// first, then a requested narrative stop, then the range's end (even when
/// the target is reached on the same tick), then the target; a tick that
/// meets none of them does not stop.
pub proof fn law_stop_reason_order(
    stop_on_fill: bool,
    stop_on_narrative: bool,
    until: u64,
    new_time: u64,
    now: u64,
    end: u64,
    fills: u64,
    narratives: u64,
)
    ensures
        ({
            let r = tick_stop(stop_on_fill, stop_on_narrative, until, new_time, now, end, fills, narratives);
            let fill_stop = stop_on_fill && fills > 0;
            let narrative_stop = stop_on_narrative && narratives > 0;
            &&& fill_stop ==> r == Some(AdvanceStoppedReason::Fill)
            &&& !fill_stop && narrative_stop ==> r == Some(AdvanceStoppedReason::Narrative)
            &&& !fill_stop && !narrative_stop && now >= end ==> r == Some(AdvanceStoppedReason::End)
            &&& !fill_stop && !narrative_stop && now < end && new_time >= until ==> r == Some(
                AdvanceStoppedReason::UntilReached,
            )
            &&& !fill_stop && !narrative_stop && now < end && new_time < until ==> r is None
        }),
{
}

/// How the record splitter reads each byte outside a pending trail byte: a
/// lead byte (0x81..=0x9F, 0xE0..=0xEF) takes the next byte, whatever it is,
/// into the record with it; a `}` (0x7D) ends the record; any other byte
/// (ASCII, half-width katakana 0xA0..=0xDF, 0x80, 0xF0..=0xFF) just joins it.
pub proof fn law_sjis_bytes(b: u8, t: u8, buf: Seq<u8>, rest: Seq<u8>)
    ensures
        (0x81 <= b <= 0x9F) || (0xE0 <= b <= 0xEF) ==> sjis_records(seq![b, t] + rest, false, buf)
            == sjis_records(rest, false, buf + seq![b, t]),
        b == 0x7D ==> sjis_records(seq![b] + rest, false, buf) == seq![buf.push(b)] + sjis_records(
            rest,
            false,
            Seq::empty(),
        ),
        b != 0x7D && (b <= 0x80 || (0xA0 <= b <= 0xDF) || b >= 0xF0) ==> sjis_records(
            seq![b] + rest,
            false,
            buf,
        ) == sjis_records(rest, false, buf.push(b)),
{
    let d = seq![b, t] + rest;
    let d1 = d.drop_first();
    assert(d[0] == b);
    assert(d1[0] == t);
    assert(d1.drop_first() =~= rest);
    assert(buf.push(b).push(t) =~= buf + seq![b, t]);
    if (0x81 <= b <= 0x9F) || (0xE0 <= b <= 0xEF) {
        assert(is_sjis_lead(b));
        assert(sjis_records(d, false, buf) == sjis_records(d1, true, buf.push(b)));
        assert(sjis_records(d1, true, buf.push(b)) == sjis_records(
            d1.drop_first(),
            false,
            buf.push(b).push(t),
        ));
    }
    let e = seq![b] + rest;
    assert(e[0] == b);
    assert(e.drop_first() =~= rest);
}

/// Every byte 0x81..=0x9F and 0xE0..=0xEF leads a two-byte Shift-JIS
/// character: a `}` (0x7D) right after it is its trail byte and ends no
/// record, whatever comes before (outside a pending trail) and after.
pub proof fn law_sjis_lead_bytes_keep_trail_brace(b: u8, buf: Seq<u8>, rest: Seq<u8>)
    requires
        (0x81 <= b <= 0x9F) || (0xE0 <= b <= 0xEF),
    ensures
        sjis_records(seq![b, 0x7Du8] + rest, false, buf) == sjis_records(rest, false, buf + seq![b, 0x7Du8]),
        sjis_feed(seq![b, 0x7Du8] + rest, false, buf) == sjis_feed(rest, false, buf + seq![b, 0x7Du8]),
{
    let d = seq![b, 0x7Du8] + rest;
    let d1 = d.drop_first();
    assert(d[0] == b);
    assert(d1[0] == 0x7Du8);
    assert(d1.drop_first() =~= rest);
    assert(buf.push(b).push(0x7Du8) =~= buf + seq![b, 0x7Du8]);
    assert(is_sjis_lead(b));
    assert(sjis_records(d, false, buf) == sjis_records(d1, true, buf.push(b)));
    assert(sjis_records(d1, true, buf.push(b)) == sjis_records(
        d1.drop_first(),
        false,
        buf.push(b).push(0x7Du8),
    ));
    assert(sjis_feed(d, false, buf) == sjis_feed(d1, true, buf.push(b)));
    assert(sjis_feed(d1, true, buf.push(b)) == sjis_feed(
        d1.drop_first(),
        false,
        buf.push(b).push(0x7Du8),
    ));
}

/// The identifier of each pane content kind.
pub open spec fn content_kind_identifier(k: ContentKind) -> Seq<char> {
    match k {
        ContentKind::CandlestickChart => "CandlestickChart"@,
        ContentKind::HeatmapChart => "HeatmapChart"@,
        ContentKind::ShaderHeatmap => "ShaderHeatmap"@,
        ContentKind::FootprintChart => "FootprintChart"@,
        ContentKind::ComparisonChart => "ComparisonChart"@,
        ContentKind::TimeAndSales => "TimeAndSales"@,
        ContentKind::Ladder => "Ladder"@,
        ContentKind::Starter => "Starter"@,
        ContentKind::OrderEntry => "OrderEntry"@,
        ContentKind::OrderList => "OrderList"@,
        ContentKind::BuyingPower => "BuyingPower"@,
    }
}

/// The label of each pane content kind, as the control API also accepts it.
pub open spec fn content_kind_label(k: ContentKind) -> Seq<char> {
    match k {
        ContentKind::CandlestickChart => "Candlestick Chart"@,
        ContentKind::HeatmapChart => "Heatmap Chart"@,
        ContentKind::ShaderHeatmap => "Shader Heatmap"@,
        ContentKind::FootprintChart => "Footprint Chart"@,
        ContentKind::ComparisonChart => "Comparison Chart"@,
        ContentKind::TimeAndSales => "Time&Sales"@,
        ContentKind::Ladder => "Ladder"@,
        ContentKind::Starter => "Starter Pane"@,
        ContentKind::OrderEntry => "Order Entry"@,
        ContentKind::OrderList => "Order List"@,
        ContentKind::BuyingPower => "Buying Power"@,
    }
}

/// Every content kind's identifier and label read back as that kind.
#[verifier::spinoff_prover]
#[verifier::rlimit(60)]
pub proof fn law_content_kind_names_read_back(k: ContentKind)
    ensures
        content_kind_named(content_kind_identifier(k)) == Some(k),
        content_kind_named(content_kind_label(k)) == Some(k),
        content_kind_named("KlineChart"@) == Some(ContentKind::CandlestickChart),
{
    reveal_strlit("CandlestickChart");
    reveal_strlit("Candlestick Chart");
    reveal_strlit("KlineChart");
    reveal_strlit("HeatmapChart");
    reveal_strlit("Heatmap Chart");
    reveal_strlit("ShaderHeatmap");
    reveal_strlit("Shader Heatmap");
    reveal_strlit("FootprintChart");
    reveal_strlit("Footprint Chart");
    reveal_strlit("ComparisonChart");
    reveal_strlit("Comparison Chart");
    reveal_strlit("TimeAndSales");
    reveal_strlit("Time&Sales");
    reveal_strlit("Ladder");
    reveal_strlit("Starter");
    reveal_strlit("Starter Pane");
    reveal_strlit("OrderEntry");
    reveal_strlit("Order Entry");
    reveal_strlit("OrderList");
    reveal_strlit("Order List");
    reveal_strlit("BuyingPower");
    reveal_strlit("Buying Power");
    assert("CandlestickChart"@.len() == 16);
    assert("CandlestickChart"@[0] == 'C');
    assert("CandlestickChart"@[1] == 'a');
    assert("CandlestickChart"@[2] == 'n');
    assert("CandlestickChart"@[3] == 'd');
    assert("CandlestickChart"@[4] == 'l');
    assert("CandlestickChart"@[5] == 'e');
    assert("Candlestick Chart"@.len() == 17);
    assert("Candlestick Chart"@[0] == 'C');
    assert("Candlestick Chart"@[1] == 'a');
    assert("Candlestick Chart"@[2] == 'n');
    assert("Candlestick Chart"@[3] == 'd');
    assert("Candlestick Chart"@[4] == 'l');
    assert("Candlestick Chart"@[5] == 'e');
    assert("KlineChart"@.len() == 10);
    assert("KlineChart"@[0] == 'K');
    assert("KlineChart"@[1] == 'l');
    assert("KlineChart"@[2] == 'i');
    assert("KlineChart"@[3] == 'n');
    assert("KlineChart"@[4] == 'e');
    assert("KlineChart"@[5] == 'C');
    assert("HeatmapChart"@.len() == 12);
    assert("HeatmapChart"@[0] == 'H');
    assert("HeatmapChart"@[1] == 'e');
    assert("HeatmapChart"@[2] == 'a');
    assert("HeatmapChart"@[3] == 't');
    assert("HeatmapChart"@[4] == 'm');
    assert("HeatmapChart"@[5] == 'a');
    assert("Heatmap Chart"@.len() == 13);
    assert("Heatmap Chart"@[0] == 'H');
    assert("Heatmap Chart"@[1] == 'e');
    assert("Heatmap Chart"@[2] == 'a');
    assert("Heatmap Chart"@[3] == 't');
    assert("Heatmap Chart"@[4] == 'm');
    assert("Heatmap Chart"@[5] == 'a');
    assert("ShaderHeatmap"@.len() == 13);
    assert("ShaderHeatmap"@[0] == 'S');
    assert("ShaderHeatmap"@[1] == 'h');
    assert("ShaderHeatmap"@[2] == 'a');
    assert("ShaderHeatmap"@[3] == 'd');
    assert("ShaderHeatmap"@[4] == 'e');
    assert("ShaderHeatmap"@[5] == 'r');
    assert("Shader Heatmap"@.len() == 14);
    assert("Shader Heatmap"@[0] == 'S');
    assert("Shader Heatmap"@[1] == 'h');
    assert("Shader Heatmap"@[2] == 'a');
    assert("Shader Heatmap"@[3] == 'd');
    assert("Shader Heatmap"@[4] == 'e');
    assert("Shader Heatmap"@[5] == 'r');
    assert("FootprintChart"@.len() == 14);
    assert("FootprintChart"@[0] == 'F');
    assert("FootprintChart"@[1] == 'o');
    assert("FootprintChart"@[2] == 'o');
    assert("FootprintChart"@[3] == 't');
    assert("FootprintChart"@[4] == 'p');
    assert("FootprintChart"@[5] == 'r');
    assert("Footprint Chart"@.len() == 15);
    assert("Footprint Chart"@[0] == 'F');
    assert("Footprint Chart"@[1] == 'o');
    assert("Footprint Chart"@[2] == 'o');
    assert("Footprint Chart"@[3] == 't');
    assert("Footprint Chart"@[4] == 'p');
    assert("Footprint Chart"@[5] == 'r');
    assert("ComparisonChart"@.len() == 15);
    assert("ComparisonChart"@[0] == 'C');
    assert("ComparisonChart"@[1] == 'o');
    assert("ComparisonChart"@[2] == 'm');
    assert("ComparisonChart"@[3] == 'p');
    assert("ComparisonChart"@[4] == 'a');
    assert("ComparisonChart"@[5] == 'r');
    assert("Comparison Chart"@.len() == 16);
    assert("Comparison Chart"@[0] == 'C');
    assert("Comparison Chart"@[1] == 'o');
    assert("Comparison Chart"@[2] == 'm');
    assert("Comparison Chart"@[3] == 'p');
    assert("Comparison Chart"@[4] == 'a');
    assert("Comparison Chart"@[5] == 'r');
    assert("TimeAndSales"@.len() == 12);
    assert("TimeAndSales"@[0] == 'T');
    assert("TimeAndSales"@[1] == 'i');
    assert("TimeAndSales"@[2] == 'm');
    assert("TimeAndSales"@[3] == 'e');
    assert("TimeAndSales"@[4] == 'A');
    assert("TimeAndSales"@[5] == 'n');
    assert("Time&Sales"@.len() == 10);
    assert("Time&Sales"@[0] == 'T');
    assert("Time&Sales"@[1] == 'i');
    assert("Time&Sales"@[2] == 'm');
    assert("Time&Sales"@[3] == 'e');
    assert("Time&Sales"@[4] == '&');
    assert("Time&Sales"@[5] == 'S');
    assert("Ladder"@.len() == 6);
    assert("Ladder"@[0] == 'L');
    assert("Ladder"@[1] == 'a');
    assert("Ladder"@[2] == 'd');
    assert("Ladder"@[3] == 'd');
    assert("Ladder"@[4] == 'e');
    assert("Ladder"@[5] == 'r');
    assert("Starter"@.len() == 7);
    assert("Starter"@[0] == 'S');
    assert("Starter"@[1] == 't');
    assert("Starter"@[2] == 'a');
    assert("Starter"@[3] == 'r');
    assert("Starter"@[4] == 't');
    assert("Starter"@[5] == 'e');
    assert("Starter Pane"@.len() == 12);
    assert("Starter Pane"@[0] == 'S');
    assert("Starter Pane"@[1] == 't');
    assert("Starter Pane"@[2] == 'a');
    assert("Starter Pane"@[3] == 'r');
    assert("Starter Pane"@[4] == 't');
    assert("Starter Pane"@[5] == 'e');
    assert("OrderEntry"@.len() == 10);
    assert("OrderEntry"@[0] == 'O');
    assert("OrderEntry"@[1] == 'r');
    assert("OrderEntry"@[2] == 'd');
    assert("OrderEntry"@[3] == 'e');
    assert("OrderEntry"@[4] == 'r');
    assert("OrderEntry"@[5] == 'E');
    assert("Order Entry"@.len() == 11);
    assert("Order Entry"@[0] == 'O');
    assert("Order Entry"@[1] == 'r');
    assert("Order Entry"@[2] == 'd');
    assert("Order Entry"@[3] == 'e');
    assert("Order Entry"@[4] == 'r');
    assert("Order Entry"@[5] == ' ');
    assert("OrderList"@.len() == 9);
    assert("OrderList"@[0] == 'O');
    assert("OrderList"@[1] == 'r');
    assert("OrderList"@[2] == 'd');
    assert("OrderList"@[3] == 'e');
    assert("OrderList"@[4] == 'r');
    assert("OrderList"@[5] == 'L');
    assert("Order List"@.len() == 10);
    assert("Order List"@[0] == 'O');
    assert("Order List"@[1] == 'r');
    assert("Order List"@[2] == 'd');
    assert("Order List"@[3] == 'e');
    assert("Order List"@[4] == 'r');
    assert("Order List"@[5] == ' ');
    assert("BuyingPower"@.len() == 11);
    assert("BuyingPower"@[0] == 'B');
    assert("BuyingPower"@[1] == 'u');
    assert("BuyingPower"@[2] == 'y');
    assert("BuyingPower"@[3] == 'i');
    assert("BuyingPower"@[4] == 'n');
    assert("BuyingPower"@[5] == 'g');
    assert("Buying Power"@.len() == 12);
    assert("Buying Power"@[0] == 'B');
    assert("Buying Power"@[1] == 'u');
    assert("Buying Power"@[2] == 'y');
    assert("Buying Power"@[3] == 'i');
    assert("Buying Power"@[4] == 'n');
    assert("Buying Power"@[5] == 'g');
    match k {
        ContentKind::CandlestickChart => {
            assert(content_kind_named("CandlestickChart"@) == Some(k));
            assert(content_kind_named("Candlestick Chart"@) == Some(k));
        },
        ContentKind::HeatmapChart => {
            assert(content_kind_named("HeatmapChart"@) == Some(k));
            assert(content_kind_named("Heatmap Chart"@) == Some(k));
        },
        ContentKind::ShaderHeatmap => {
            assert(content_kind_named("ShaderHeatmap"@) == Some(k));
            assert(content_kind_named("Shader Heatmap"@) == Some(k));
        },
        ContentKind::FootprintChart => {
            assert(content_kind_named("FootprintChart"@) == Some(k));
            assert(content_kind_named("Footprint Chart"@) == Some(k));
        },
        ContentKind::ComparisonChart => {
            assert(content_kind_named("ComparisonChart"@) == Some(k));
            assert(content_kind_named("Comparison Chart"@) == Some(k));
        },
        ContentKind::TimeAndSales => {
            assert(content_kind_named("TimeAndSales"@) == Some(k));
            assert(content_kind_named("Time&Sales"@) == Some(k));
        },
        ContentKind::Ladder => {
            assert(content_kind_named("Ladder"@) == Some(k));
            assert(content_kind_named("Ladder"@) == Some(k));
        },
        ContentKind::Starter => {
            assert(content_kind_named("Starter"@) == Some(k));
            assert(content_kind_named("Starter Pane"@) == Some(k));
        },
        ContentKind::OrderEntry => {
            assert(content_kind_named("OrderEntry"@) == Some(k));
            assert(content_kind_named("Order Entry"@) == Some(k));
        },
        ContentKind::OrderList => {
            assert(content_kind_named("OrderList"@) == Some(k));
            assert(content_kind_named("Order List"@) == Some(k));
        },
        ContentKind::BuyingPower => {
            assert(content_kind_named("BuyingPower"@) == Some(k));
            assert(content_kind_named("Buying Power"@) == Some(k));
        },
    }
}

/// The unit a timeframe label counts in: `MS` milliseconds, `M` minutes,
/// `H` hours, `D` days.
pub open spec fn label_unit_ms(label: Seq<char>) -> int {
    if label.len() >= 2 && label[0] == 'M' && label[1] == 'S' {
        1
    } else if label.len() >= 1 && label[0] == 'M' {
        60_000
    } else if label.len() >= 1 && label[0] == 'H' {
        3_600_000
    } else if label.len() >= 1 && label[0] == 'D' {
        86_400_000
    } else {
        0
    }
}

/// The count part of a timeframe label: what follows the unit letters.
pub open spec fn label_count(label: Seq<char>) -> Seq<char> {
    if label.len() >= 2 && label[0] == 'M' && label[1] == 'S' {
        label.skip(2)
    } else {
        label.skip(1)
    }
}

/// Value of a run of decimal digit characters.
pub open spec fn digit_text_value(s: Seq<char>) -> int
    decreases s.len(),
{
    if s.len() == 0 {
        0
    } else {
        digit_text_value(s.drop_last()) * 10 + (s.last() as int - 48)
    }
}

/// The lower-case letter of a minute, hour or day unit.
pub open spec fn unit_letter(c: char) -> char {
    if c == 'M' {
        'm'
    } else if c == 'H' {
        'h'
    } else {
        'd'
    }
}

/// Every timeframe's label reads back as that timeframe, and so does the
/// short form of minute, hour and day timeframes: the count then the unit
/// in lower case (`M15` and `15m`, `H4` and `4h`, `D1` and `1d`).
#[verifier::spinoff_prover]
#[verifier::rlimit(60)]
pub proof fn law_timeframe_names_read_back(tf: Timeframe)
    ensures
        timeframe_named(timeframe_label(tf)) == Some(tf),
        label_unit_ms(timeframe_label(tf)) > 1 ==> timeframe_named(
            label_count(timeframe_label(tf)) + seq![unit_letter(timeframe_label(tf)[0])],
        ) == Some(tf),
{
    reveal_strlit("MS100");
    reveal_strlit("MS200");
    reveal_strlit("MS300");
    reveal_strlit("MS500");
    reveal_strlit("MS1000");
    reveal_strlit("S1");
    reveal_strlit("M1");
    reveal_strlit("1m");
    reveal_strlit("M3");
    reveal_strlit("3m");
    reveal_strlit("M5");
    reveal_strlit("5m");
    reveal_strlit("M15");
    reveal_strlit("15m");
    reveal_strlit("M30");
    reveal_strlit("30m");
    reveal_strlit("H1");
    reveal_strlit("1h");
    reveal_strlit("H2");
    reveal_strlit("2h");
    reveal_strlit("H4");
    reveal_strlit("4h");
    reveal_strlit("H12");
    reveal_strlit("12h");
    reveal_strlit("D1");
    reveal_strlit("1d");
    let l = timeframe_label(tf);
    let short = label_count(l) + seq![unit_letter(l[0])];
    assert("MS100"@.len() == 5);
    assert("MS100"@[0] == 'M');
    assert("MS100"@[1] == 'S');
    assert("MS100"@[2] == '1');
    assert("MS100"@[3] == '0');
    assert("MS100"@[4] == '0');
    assert("MS200"@.len() == 5);
    assert("MS200"@[0] == 'M');
    assert("MS200"@[1] == 'S');
    assert("MS200"@[2] == '2');
    assert("MS200"@[3] == '0');
    assert("MS200"@[4] == '0');
    assert("MS300"@.len() == 5);
    assert("MS300"@[0] == 'M');
    assert("MS300"@[1] == 'S');
    assert("MS300"@[2] == '3');
    assert("MS300"@[3] == '0');
    assert("MS300"@[4] == '0');
    assert("MS500"@.len() == 5);
    assert("MS500"@[0] == 'M');
    assert("MS500"@[1] == 'S');
    assert("MS500"@[2] == '5');
    assert("MS500"@[3] == '0');
    assert("MS500"@[4] == '0');
    assert("MS1000"@.len() == 6);
    assert("MS1000"@[0] == 'M');
    assert("MS1000"@[1] == 'S');
    assert("MS1000"@[2] == '1');
    assert("MS1000"@[3] == '0');
    assert("MS1000"@[4] == '0');
    assert("MS1000"@[5] == '0');
    assert("S1"@.len() == 2);
    assert("S1"@[0] == 'S');
    assert("S1"@[1] == '1');
    assert("M1"@.len() == 2);
    assert("M1"@[0] == 'M');
    assert("M1"@[1] == '1');
    assert("1m"@.len() == 2);
    assert("1m"@[0] == '1');
    assert("1m"@[1] == 'm');
    assert("M3"@.len() == 2);
    assert("M3"@[0] == 'M');
    assert("M3"@[1] == '3');
    assert("3m"@.len() == 2);
    assert("3m"@[0] == '3');
    assert("3m"@[1] == 'm');
    assert("M5"@.len() == 2);
    assert("M5"@[0] == 'M');
    assert("M5"@[1] == '5');
    assert("5m"@.len() == 2);
    assert("5m"@[0] == '5');
    assert("5m"@[1] == 'm');
    assert("M15"@.len() == 3);
    assert("M15"@[0] == 'M');
    assert("M15"@[1] == '1');
    assert("M15"@[2] == '5');
    assert("15m"@.len() == 3);
    assert("15m"@[0] == '1');
    assert("15m"@[1] == '5');
    assert("15m"@[2] == 'm');
    assert("M30"@.len() == 3);
    assert("M30"@[0] == 'M');
    assert("M30"@[1] == '3');
    assert("M30"@[2] == '0');
    assert("30m"@.len() == 3);
    assert("30m"@[0] == '3');
    assert("30m"@[1] == '0');
    assert("30m"@[2] == 'm');
    assert("H1"@.len() == 2);
    assert("H1"@[0] == 'H');
    assert("H1"@[1] == '1');
    assert("1h"@.len() == 2);
    assert("1h"@[0] == '1');
    assert("1h"@[1] == 'h');
    assert("H2"@.len() == 2);
    assert("H2"@[0] == 'H');
    assert("H2"@[1] == '2');
    assert("2h"@.len() == 2);
    assert("2h"@[0] == '2');
    assert("2h"@[1] == 'h');
    assert("H4"@.len() == 2);
    assert("H4"@[0] == 'H');
    assert("H4"@[1] == '4');
    assert("4h"@.len() == 2);
    assert("4h"@[0] == '4');
    assert("4h"@[1] == 'h');
    assert("H12"@.len() == 3);
    assert("H12"@[0] == 'H');
    assert("H12"@[1] == '1');
    assert("H12"@[2] == '2');
    assert("12h"@.len() == 3);
    assert("12h"@[0] == '1');
    assert("12h"@[1] == '2');
    assert("12h"@[2] == 'h');
    assert("D1"@.len() == 2);
    assert("D1"@[0] == 'D');
    assert("D1"@[1] == '1');
    assert("1d"@.len() == 2);
    assert("1d"@[0] == '1');
    assert("1d"@[1] == 'd');
    match tf {
        Timeframe::MS100 => assert(timeframe_named("MS100"@) == Some(tf)),
        Timeframe::MS200 => assert(timeframe_named("MS200"@) == Some(tf)),
        Timeframe::MS300 => assert(timeframe_named("MS300"@) == Some(tf)),
        Timeframe::MS500 => assert(timeframe_named("MS500"@) == Some(tf)),
        Timeframe::MS1000 => assert(timeframe_named("MS1000"@) == Some(tf)),
        Timeframe::M1 => {
            assert(short =~= "1m"@);
            assert(timeframe_named("M1"@) == Some(tf));
        },
        Timeframe::M3 => {
            assert(short =~= "3m"@);
            assert(timeframe_named("M3"@) == Some(tf));
        },
        Timeframe::M5 => {
            assert(short =~= "5m"@);
            assert(timeframe_named("M5"@) == Some(tf));
        },
        Timeframe::M15 => {
            assert(short =~= "15m"@);
            assert(timeframe_named("M15"@) == Some(tf));
        },
        Timeframe::M30 => {
            assert(short =~= "30m"@);
            assert(timeframe_named("M30"@) == Some(tf));
        },
        Timeframe::H1 => {
            assert(short =~= "1h"@);
            assert(timeframe_named("H1"@) == Some(tf));
        },
        Timeframe::H2 => {
            assert(short =~= "2h"@);
            assert(timeframe_named("H2"@) == Some(tf));
        },
        Timeframe::H4 => {
            assert(short =~= "4h"@);
            assert(timeframe_named("H4"@) == Some(tf));
        },
        Timeframe::H12 => {
            assert(short =~= "12h"@);
            assert(timeframe_named("H12"@) == Some(tf));
        },
        Timeframe::D1 => {
            assert(short =~= "1d"@);
            assert(timeframe_named("D1"@) == Some(tf));
        },
    }
}

/// A timeframe lasts what its label says: the count in the label times the
/// label's unit (`M15` is 15 minutes, `H4` four hours, `MS500` half a
/// second, `D1` a day).
pub proof fn law_timeframe_length_matches_label(tf: Timeframe)
    ensures
        timeframe_ms(tf) == label_unit_ms(timeframe_label(tf)) * digit_text_value(
            label_count(timeframe_label(tf)),
        ),
{
    reveal_strlit("MS100");
    reveal_strlit("MS200");
    reveal_strlit("MS300");
    reveal_strlit("MS500");
    reveal_strlit("MS1000");
    reveal_strlit("S1");
    reveal_strlit("M1");
    reveal_strlit("1m");
    reveal_strlit("M3");
    reveal_strlit("3m");
    reveal_strlit("M5");
    reveal_strlit("5m");
    reveal_strlit("M15");
    reveal_strlit("15m");
    reveal_strlit("M30");
    reveal_strlit("30m");
    reveal_strlit("H1");
    reveal_strlit("1h");
    reveal_strlit("H2");
    reveal_strlit("2h");
    reveal_strlit("H4");
    reveal_strlit("4h");
    reveal_strlit("H12");
    reveal_strlit("12h");
    reveal_strlit("D1");
    reveal_strlit("1d");
    let c = label_count(timeframe_label(tf));
    reveal_with_fuel(digit_text_value, 5);
    match tf {
        Timeframe::MS100 => assert(c =~= seq!['1', '0', '0']),
        Timeframe::MS200 => assert(c =~= seq!['2', '0', '0']),
        Timeframe::MS300 => assert(c =~= seq!['3', '0', '0']),
        Timeframe::MS500 => assert(c =~= seq!['5', '0', '0']),
        Timeframe::MS1000 => assert(c =~= seq!['1', '0', '0', '0']),
        Timeframe::M1 => assert(c =~= seq!['1']),
        Timeframe::M3 => assert(c =~= seq!['3']),
        Timeframe::M5 => assert(c =~= seq!['5']),
        Timeframe::M15 => assert(c =~= seq!['1', '5']),
        Timeframe::M30 => assert(c =~= seq!['3', '0']),
        Timeframe::H1 => assert(c =~= seq!['1']),
        Timeframe::H2 => assert(c =~= seq!['2']),
        Timeframe::H4 => assert(c =~= seq!['4']),
        Timeframe::H12 => assert(c =~= seq!['1', '2']),
        Timeframe::D1 => assert(c =~= seq!['1']),
    }
}

} // verus!
