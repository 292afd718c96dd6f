//! EVENT I/F of the Tachibana API: frame parsing, order-book and trade
//! extraction, and the stream connection parameters.

use vstd::prelude::*;
use crate::market::{Price, Qty, field_amount, parse_field};
use crate::numeric::Amount;
use crate::text::{
    decimal, find_char_from, first_index, owned, seq_ends_with, substring, text_eq,
    text_ends_with, trim_text, trimmed, u64_to_decimal,
};

verus! {

/// Field separator (SOH) of an EVENT I/F frame.
pub const FIELD_SEP: char = '\x01';

/// Name/value separator (STX) inside a field.
pub const VALUE_SEP: char = '\x02';

/// A (name, value) pair of text.
pub type FieldView = (Seq<char>, Seq<char>);

/// The (name, value) pair of one field text: split at the first STX; `None`
/// for an empty field, a field without STX, or an empty name.
pub open spec fn record_field(seg: Seq<char>) -> Option<FieldView> {
    let j = first_index(seg, '\x02');
    if seg.len() == 0 || j == seg.len() || j == 0 {
        None
    } else {
        Some((seg.take(j as int), seg.skip(j + 1 as int)))
    }
}

/// Fields of a frame: the text is split at every SOH and each piece read by
/// `record_field`, pieces that give nothing being dropped.
pub open spec fn frame_fields(s: Seq<char>) -> Seq<FieldView>
    decreases s.len(),
{
    let k = first_index(s, '\x01');
    let head = match record_field(s.take(k as int)) {
        Some(f) => seq![f],
        None => Seq::empty(),
    };
    if k < s.len() {
        head + frame_fields(s.skip(k + 1 as int))
    } else {
        head
    }
}

/// View of a list of fields.
pub open spec fn fields_view(f: Seq<(String, String)>) -> Seq<FieldView> {
    f.map_values(|p: (String, String)| (p.0@, p.1@))
}

fn segment_field(data: &str, lo: usize, hi: usize) -> (r: Option<(String, String)>)
    requires
        lo <= hi <= data@.len(),
    ensures
        r matches Some(p) ==> record_field(data@.subrange(lo as int, hi as int)) == Some(
            (p.0@, p.1@),
        ),
        r is None ==> record_field(data@.subrange(lo as int, hi as int)) is None,
{
    let ghost seg = data@.subrange(lo as int, hi as int);
    if lo == hi {
        return None;
    }
    let j = find_char_from(data, lo, '\x02');
    let j2 = if j > hi {
        hi
    } else {
        j
    };
    proof {
        let t = data@.skip(lo as int);
        assert forall|x: int| 0 <= x < (j2 - lo) implies seg[x] != '\x02' by {
            assert(seg[x] == data@[lo + x]);
        }
        crate::text::lemma_first_index(seg, '\x02', (j2 - lo) as int);
    }
    if j2 == hi || j2 == lo {
        return None;
    }
    let name = substring(data, lo, j2);
    let value = substring(data, j2 + 1, hi);
    proof {
        assert(name@ =~= seg.take((j2 - lo) as int));
        assert(value@ =~= seg.skip((j2 - lo) + 1));
    }
    Some((name, value))
}

/// Splits an EVENT I/F frame into (name, value) fields, in frame order.
pub fn parse_event_frame(data: &str) -> (r: Vec<(String, String)>)
    ensures
        fields_view(r@) == frame_fields(data@),
{
    let n = data.unicode_len();
    let mut fields: Vec<(String, String)> = Vec::new();
    let mut start: usize = 0;
    assert(data@.skip(0) =~= data@);
    assert(fields_view(fields@) =~= Seq::<FieldView>::empty());
    loop
        invariant
            start <= n == data@.len(),
            fields_view(fields@) + frame_fields(data@.skip(start as int)) == frame_fields(data@),
        decreases n - start,
    {
        let ghost rest = data@.skip(start as int);
        let ghost before = fields@;
        let k = find_char_from(data, start, '\x01');
        proof {
            assert(rest.take((k - start) as int) =~= data@.subrange(start as int, k as int));
        }
        match segment_field(data, start, k) {
            Some(f) => {
                fields.push(f);
                assert(fields_view(fields@) =~= fields_view(before) + seq![(f.0@, f.1@)]);
            },
            None => {},
        }
        if k >= n {
            proof {
                assert(frame_fields(rest) =~= fields_view(fields@).skip(fields_view(before).len() as int));
                assert(fields_view(fields@) =~= fields_view(before) + frame_fields(rest));
                assert(data@.skip(n as int) =~= Seq::<char>::empty());
                assert(frame_fields(Seq::<char>::empty()) =~= Seq::<FieldView>::empty()) by {
                    assert(first_index(Seq::<char>::empty(), '\x01') == 0);
                    assert(record_field(Seq::<char>::empty()) is None);
                }
                assert(fields_view(fields@) + frame_fields(data@.skip(n as int)) =~= fields_view(fields@));
            }
            return fields;
        }
        proof {
            assert(rest.skip((k - start) + 1) =~= data@.skip(k + 1));
            assert(fields_view(before) + frame_fields(rest) =~= fields_view(fields@) + frame_fields(
                data@.skip(k + 1),
            ));
        }
        start = k + 1;
    }
}

/// Value of the first field whose name ends with `suffix`.
pub open spec fn find_suffix(f: Seq<FieldView>, suffix: Seq<char>) -> Option<Seq<char>>
    decreases f.len(),
{
    if f.len() == 0 {
        None
    } else if seq_ends_with(f[0].0, suffix) {
        Some(f[0].1)
    } else {
        find_suffix(f.drop_first(), suffix)
    }
}

/// Value of the first field whose name is `name`.
pub open spec fn find_name(f: Seq<FieldView>, name: Seq<char>) -> Option<Seq<char>>
    decreases f.len(),
{
    if f.len() == 0 {
        None
    } else if f[0].0 == name {
        Some(f[0].1)
    } else {
        find_name(f.drop_first(), name)
    }
}

fn find_by(fields: &[(String, String)], key: &str, exact: bool) -> (r: Option<usize>)
    ensures
        exact ==> (r matches Some(i) ==> i < fields@.len() && find_name(fields_view(fields@), key@)
            == Some(fields@[i as int].1@)),
        exact ==> (r is None ==> find_name(fields_view(fields@), key@) is None),
        !exact ==> (r matches Some(i) ==> i < fields@.len() && find_suffix(
            fields_view(fields@),
            key@,
        ) == Some(fields@[i as int].1@)),
        !exact ==> (r is None ==> find_suffix(fields_view(fields@), key@) is None),
{
    let n = fields.len();
    let mut i: usize = 0;
    assert(fields_view(fields@).skip(0) =~= fields_view(fields@));
    while i < n
        invariant
            n == fields@.len(),
            i <= n,
            exact ==> find_name(fields_view(fields@), key@) == find_name(
                fields_view(fields@).skip(i as int),
                key@,
            ),
            !exact ==> find_suffix(fields_view(fields@), key@) == find_suffix(
                fields_view(fields@).skip(i as int),
                key@,
            ),
        decreases n - i,
    {
        let ghost t = fields_view(fields@).skip(i as int);
        assert(t[0] == (fields@[i as int].0@, fields@[i as int].1@));
        assert(t.drop_first() =~= fields_view(fields@).skip(i + 1));
        let hit = if exact {
            text_eq(fields[i].0.as_str(), key)
        } else {
            text_ends_with(fields[i].0.as_str(), key)
        };
        if hit {
            return Some(i);
        }
        i = i + 1;
    }
    proof {
        assert(fields_view(fields@).skip(n as int).len() == 0);
    }
    None
}

/// One order-book level.
#[derive(Debug, Clone, Copy, PartialEq, Eq, Structural)]
pub struct DeOrder {
    pub price: Price,
    pub qty: Qty,
}

/// An order-book snapshot.
#[derive(Debug, Clone)]
pub struct DepthPayload {
    pub last_update_id: u64,
    pub time: u64,
    pub bids: Vec<DeOrder>,
    pub asks: Vec<DeOrder>,
}

/// Mathematical value of an order-book snapshot.
pub struct DepthView {
    pub last_update_id: u64,
    pub time: u64,
    pub bids: Seq<DeOrder>,
    pub asks: Seq<DeOrder>,
}

impl View for DepthPayload {
    type V = DepthView;

    open spec fn view(&self) -> DepthView {
        DepthView {
            last_update_id: self.last_update_id,
            time: self.time,
            bids: self.bids@,
            asks: self.asks@,
        }
    }
}

/// Number of the value found under `suffix`, read as a numeric field.
pub open spec fn suffix_amount(f: Seq<FieldView>, suffix: Seq<char>) -> Option<Amount> {
    match find_suffix(f, suffix) {
        Some(v) => field_amount(v),
        None => None,
    }
}

/// Book levels `i..=10` of one side: level `i` is present when both the
/// price field `{price_code}{i}` and the quantity field `{qty_code}{i}` read
/// as numbers.
pub open spec fn book_levels(f: Seq<FieldView>, price_code: Seq<char>, qty_code: Seq<char>, i: nat) -> Seq<
    DeOrder,
>
    decreases 11 - i,
{
    if i > 10 {
        Seq::empty()
    } else {
        let here = match (
            suffix_amount(f, price_code + decimal(i)),
            suffix_amount(f, qty_code + decimal(i)),
        ) {
            (Some(p), Some(q)) => seq![DeOrder { price: Price(p), qty: Qty(q) }],
            _ => Seq::empty(),
        };
        here + book_levels(f, price_code, qty_code, i + 1)
    }
}

/// The snapshot a frame carries at time `now_ms`: only for an `FD` frame
/// (field `p_cmd` equal to `FD`), asks from `_GAP{i}`/`_GAV{i}` and bids from
/// `_GBP{i}`/`_GBV{i}` for i = 1..=10 in that order, and only when some level
/// is present.
pub open spec fn depth_at(f: Seq<FieldView>, now_ms: u64) -> Option<DepthView> {
    let asks = book_levels(f, "_GAP"@, "_GAV"@, 1);
    let bids = book_levels(f, "_GBP"@, "_GBV"@, 1);
    if find_name(f, "p_cmd"@) != Some("FD"@) {
        None
    } else if asks.len() == 0 && bids.len() == 0 {
        None
    } else {
        Some(DepthView { last_update_id: now_ms, time: now_ms, bids, asks })
    }
}

fn suffix_value(fields: &[(String, String)], suffix: &str) -> (r: Option<Amount>)
    ensures
        r == suffix_amount(fields_view(fields@), suffix@),
{
    match find_by(fields, suffix, false) {
        Some(i) => parse_field(fields[i].1.as_str()),
        None => None,
    }
}

fn level_suffix(code: &str, i: u64) -> (r: String)
    ensures
        r@ == code@ + decimal(i as nat),
{
    let mut s = owned(code);
    let d = u64_to_decimal(i);
    s.append(d.as_str());
    s
}

fn collect_levels(fields: &[(String, String)], price_code: &str, qty_code: &str) -> (r: Vec<
    DeOrder,
>)
    ensures
        r@ == book_levels(fields_view(fields@), price_code@, qty_code@, 1),
{
    let ghost f = fields_view(fields@);
    let mut out: Vec<DeOrder> = Vec::new();
    let mut i: u64 = 1;
    while i <= 10
        invariant
            1 <= i <= 11,
            f == fields_view(fields@),
            out@ + book_levels(f, price_code@, qty_code@, i as nat) == book_levels(
                f,
                price_code@,
                qty_code@,
                1,
            ),
        decreases 11 - i,
    {
        let ghost before = out@;
        let ps = level_suffix(price_code, i);
        let qs = level_suffix(qty_code, i);
        let p = suffix_value(fields, ps.as_str());
        let q = suffix_value(fields, qs.as_str());
        match (p, q) {
            (Some(price), Some(qty)) => {
                out.push(DeOrder { price: Price(price), qty: Qty(qty) });
            },
            _ => {},
        }
        proof {
            assert(out@ + book_levels(f, price_code@, qty_code@, (i + 1) as nat) =~= before
                + book_levels(f, price_code@, qty_code@, i as nat));
        }
        i = i + 1;
    }
    proof {
        assert(book_levels(f, price_code@, qty_code@, 11) =~= Seq::<DeOrder>::empty());
        assert(out@ =~= out@ + book_levels(f, price_code@, qty_code@, 11));
    }
    out
}

/// Order-book snapshot of a frame's fields, stamped with `now_ms`.
pub fn fields_to_depth_at(fields: &[(String, String)], now_ms: u64) -> (r: Option<DepthPayload>)
    ensures
        r matches Some(d) ==> depth_at(fields_view(fields@), now_ms) == Some(d@),
        r is None ==> depth_at(fields_view(fields@), now_ms) is None,
{
    let cmd_fd = match find_by(fields, "p_cmd", true) {
        Some(i) => text_eq(fields[i].1.as_str(), "FD"),
        None => false,
    };
    if !cmd_fd {
        return None;
    }
    let asks = collect_levels(fields, "_GAP", "_GAV");
    let bids = collect_levels(fields, "_GBP", "_GBV");
    if asks.len() == 0 && bids.len() == 0 {
        return None;
    }
    Some(DepthPayload { last_update_id: now_ms, time: now_ms, bids, asks })
}

/// std's clock reading type.
#[verifier::external_type_specification]
#[verifier::external_body]
pub struct ExSystemTime(std::time::SystemTime);

/// std's error for a clock reading before the reference time.
#[verifier::external_type_specification]
#[verifier::external_body]
pub struct ExSystemTimeError(std::time::SystemTimeError);

/// std's `SystemTime::now`: the system clock's reading (nothing is stated
/// of which time it is).
#[verifier::external_body]
fn system_now() -> std::time::SystemTime {
    std::time::SystemTime::now()
}

/// std's `SystemTime::duration_since`, against `UNIX_EPOCH`: the time since
/// 1970-01-01T00:00:00Z, or an error when the reading is earlier (nothing is
/// stated of the value).
#[verifier::external_body]
fn since_unix_epoch(t: &std::time::SystemTime) -> Result<
    core::time::Duration,
    std::time::SystemTimeError,
> {
    t.duration_since(std::time::UNIX_EPOCH)
}

/// std's `Duration::as_millis`: the whole milliseconds of a duration
/// (nothing is stated of the value; the duration is opaque here).
#[verifier::external_body]
fn whole_millis(d: &core::time::Duration) -> u128 {
    d.as_millis()
}

/// Milliseconds since the Unix epoch, from the system clock: 0 when the
/// clock reads before the epoch, and the low 64 bits of the count.
pub(crate) fn unix_time_millis() -> u64 {
    match since_unix_epoch(&system_now()) {
        Ok(d) => {
            let ms = whole_millis(&d);
            #[verifier::truncate]
            (ms as u64)
        },
        Err(_) => 0,
    }
}

/// Order-book snapshot of a frame's fields, stamped with the current time.
pub fn fields_to_depth(fields: &[(String, String)]) -> (r: Option<DepthPayload>)
    ensures
        r matches Some(d) ==> depth_at(fields_view(fields@), d.time) == Some(d@),
        r is None ==> forall|t: u64| depth_at(fields_view(fields@), t) is None,
{
    let now = unix_time_millis();
    let r = fields_to_depth_at(fields, now);
    proof {
        if r is None {
            assert forall|t: u64| depth_at(fields_view(fields@), t) is None by {
                assert(depth_at(fields_view(fields@), now) is None);
            }
        }
    }
    r
}

/// One executed trade.
#[derive(Debug, Clone, Copy, PartialEq, Eq, Structural)]
pub struct Trade {
    pub time: u64,
    pub is_sell: bool,
    pub price: Price,
    pub qty: Qty,
}

/// The trade a frame carries at time `now_ms`: only for an `ST` frame (first
/// field whose name ends with `p_cmd` equal to `ST`), with price `_DPP` and
/// quantity `_DV` both numbers, and sell side when `_DYSS` is `1`.
pub open spec fn trade_at(f: Seq<FieldView>, now_ms: u64) -> Option<Trade> {
    if find_suffix(f, "p_cmd"@) != Some("ST"@) {
        None
    } else {
        match (suffix_amount(f, "_DPP"@), suffix_amount(f, "_DV"@)) {
            (Some(p), Some(q)) => Some(
                Trade {
                    time: now_ms,
                    is_sell: find_suffix(f, "_DYSS"@) == Some("1"@),
                    price: Price(p),
                    qty: Qty(q),
                },
            ),
            _ => None,
        }
    }
}

/// Trade of a frame's fields, stamped with `now_ms`.
pub fn fields_to_trade_at(fields: &[(String, String)], now_ms: u64) -> (r: Option<Trade>)
    ensures
        r == trade_at(fields_view(fields@), now_ms),
{
    let is_st = match find_by(fields, "p_cmd", false) {
        Some(i) => text_eq(fields[i].1.as_str(), "ST"),
        None => false,
    };
    if !is_st {
        return None;
    }
    let price = match suffix_value(fields, "_DPP") {
        Some(p) => p,
        None => return None,
    };
    let qty = match suffix_value(fields, "_DV") {
        Some(q) => q,
        None => return None,
    };
    let is_sell = match find_by(fields, "_DYSS", false) {
        Some(i) => text_eq(fields[i].1.as_str(), "1"),
        None => false,
    };
    Some(Trade { time: now_ms, is_sell, price: Price(price), qty: Qty(qty) })
}

/// Trade of a frame's fields, stamped with the current time.
pub fn fields_to_trade(fields: &[(String, String)]) -> (r: Option<Trade>)
    ensures
        r matches Some(t) ==> trade_at(fields_view(fields@), t.time) == Some(t),
        r is None ==> forall|t: u64| trade_at(fields_view(fields@), t) is None,
{
    let now = unix_time_millis();
    let r = fields_to_trade_at(fields, now);
    proof {
        if r is None {
            assert forall|t: u64| trade_at(fields_view(fields@), t) is None by {
                assert(trade_at(fields_view(fields@), now) is None);
            }
        }
    }
    r
}

/// Query string of an EVENT I/F connection; the parameter order is fixed
/// by the API.
pub open spec fn event_params(issue_code: Seq<char>, market_code: Seq<char>) -> Seq<char> {
    "p_rid=22&p_board_no=1000&p_gyou_no=1&p_mkt_code="@ + market_code
        + "&p_eno=0&p_evt_cmd=ST,KP,FD&p_issue_code="@ + issue_code
}

/// Builds the EVENT I/F connection parameters.
pub fn build_event_params(issue_code: &str, market_code: &str) -> (r: String)
    ensures
        r@ == event_params(issue_code@, market_code@),
{
    let mut s = owned("p_rid=22&p_board_no=1000&p_gyou_no=1&p_mkt_code=");
    s.append(market_code);
    s.append("&p_eno=0&p_evt_cmd=ST,KP,FD&p_issue_code=");
    s.append(issue_code);
    s
}

/// The EVENT I/F endpoints of the current session.
#[derive(Debug, Clone)]
pub struct EventUrls {
    http: Option<String>,
    ws: Option<String>,
}

impl EventUrls {
    /// The long-polling endpoint, if set.
    pub closed spec fn http_view(&self) -> Option<Seq<char>> {
        match self.http {
            Some(u) => Some(u@),
            None => None,
        }
    }

    /// The WebSocket endpoint, if set.
    pub closed spec fn ws_view(&self) -> Option<Seq<char>> {
        match self.ws {
            Some(u) => Some(u@),
            None => None,
        }
    }

    /// No endpoint known.
    pub fn new() -> (r: Self)
        ensures
            r.http_view() is None,
            r.ws_view() is None,
    {
        EventUrls { http: None, ws: None }
    }

    /// Sets the WebSocket endpoint.
    pub fn set_event_ws_url(&mut self, url: String)
        ensures
            final(self).ws_view() == Some(url@),
            final(self).http_view() == old(self).http_view(),
    {
        self.ws = Some(url);
    }

    /// Sets the long-polling endpoint.
    pub fn set_event_http_url(&mut self, url: String)
        ensures
            final(self).http_view() == Some(url@),
            final(self).ws_view() == old(self).ws_view(),
    {
        self.http = Some(url);
    }

    /// The WebSocket endpoint, if set.
    pub fn get_event_ws_url(&self) -> (r: Option<String>)
        ensures
            r matches Some(u) ==> self.ws_view() == Some(u@),
            r is None ==> self.ws_view() is None,
    {
        match &self.ws {
            Some(u) => Some(u.clone()),
            None => None,
        }
    }

    /// The long-polling endpoint, if set.
    pub fn get_event_http_url(&self) -> (r: Option<String>)
        ensures
            r matches Some(u) ==> self.http_view() == Some(u@),
            r is None ==> self.http_view() is None,
    {
        match &self.http {
            Some(u) => Some(u.clone()),
            None => None,
        }
    }
}

// ── Line framing of the event stream ───────────────────────────────────────

/// The complete lines of a text (each up to and including a newline),
/// trimmed of white space, with empty lines dropped.
pub open spec fn event_lines(t: Seq<char>) -> Seq<Seq<char>>
    decreases t.len(),
{
    let k = first_index(t, '\n');
    if k >= t.len() {
        Seq::empty()
    } else {
        let line = trimmed(t.take(k + 1 as int));
        let rest = event_lines(t.skip(k + 1 as int));
        if line.len() == 0 {
            rest
        } else {
            seq![line] + rest
        }
    }
}

/// The text after the last newline (all of it when there is none).
pub open spec fn line_remainder(t: Seq<char>) -> Seq<char>
    decreases t.len(),
{
    let k = first_index(t, '\n');
    if k >= t.len() {
        t
    } else {
        line_remainder(t.skip(k + 1 as int))
    }
}

/// Text of the event stream received but not yet ended by a newline.  The
/// stream's chunks may cut a frame anywhere; frames are the lines.
#[derive(Debug, Clone)]
pub struct EventLineBuffer {
    pending: String,
}

impl EventLineBuffer {
    /// The text waiting for its newline.
    pub closed spec fn pending_view(&self) -> Seq<char> {
        self.pending@
    }

    /// Nothing pending.
    pub fn new() -> (r: Self)
        ensures
            r.pending_view() == Seq::<char>::empty(),
    {
        EventLineBuffer { pending: String::new() }
    }

    /// Appends a received chunk and takes out the lines it completes,
    /// trimmed and without empty ones; the text after the last newline stays
    /// pending.
    pub fn push_text(&mut self, text: &str) -> (r: Vec<String>)
        ensures
            r@.map_values(|l: String| l@) == event_lines(old(self).pending_view() + text@),
            final(self).pending_view() == line_remainder(old(self).pending_view() + text@),
    {
        let mut s = self.pending.clone();
        s.append(text);
        let ghost t = s@;
        assert(t == old(self).pending_view() + text@);
        let n = s.as_str().unicode_len();
        let mut out: Vec<String> = Vec::new();
        let mut start: usize = 0;
        assert(t.skip(0) =~= t);
        assert(out@.map_values(|l: String| l@) =~= Seq::<Seq<char>>::empty());
        loop
            invariant
                start <= n == t.len(),
                s@ == t,
                t == old(self).pending_view() + text@,
                out@.map_values(|l: String| l@) + event_lines(t.skip(start as int)) == event_lines(t),
                line_remainder(t.skip(start as int)) == line_remainder(t),
            decreases n - start,
        {
            let ghost rest = t.skip(start as int);
            let ghost before = out@;
            let k = find_char_from(s.as_str(), start, '\n');
            if k >= n {
                let tail = substring(s.as_str(), start, n);
                proof {
                    assert(first_index(rest, '\n') >= rest.len());
                    assert(event_lines(rest) =~= Seq::<Seq<char>>::empty());
                    assert(tail@ =~= rest);
                    assert(out@.map_values(|l: String| l@) + event_lines(rest) =~= out@.map_values(
                        |l: String| l@,
                    ));
                }
                self.pending = tail;
                return out;
            }
            let line = substring(s.as_str(), start, k + 1);
            let tl = trim_text(line.as_str());
            proof {
                assert(rest.take(k - start + 1) =~= t.subrange(start as int, k + 1));
                assert(rest.skip(k - start + 1) =~= t.skip(k + 1));
            }
            if tl.as_str().unicode_len() > 0 {
                out.push(tl);
                proof {
                    assert(out@.map_values(|l: String| l@) =~= before.map_values(|l: String| l@)
                        + seq![tl@]);
                }
            }
            start = k + 1;
        }
    }
}

// ── Grouping of trades by ticker ────────────────────────────────────────────

/// Position of the first group for `key`, or -1.
pub open spec fn group_index(g: Seq<(Seq<char>, Seq<Trade>)>, key: Seq<char>) -> int
    decreases g.len(),
{
    if g.len() == 0 {
        -1
    } else {
        let i = group_index(g.drop_last(), key);
        if i >= 0 {
            i
        } else if g.last().0 == key {
            g.len() - 1
        } else {
            -1
        }
    }
}

/// Trades of several streams grouped by ticker: groups in the order in
/// which their ticker first brings trades, each holding its streams' trades
/// in stream order; streams without trades are skipped.
pub open spec fn grouped_trades(events: Seq<(Seq<char>, Seq<Trade>)>) -> Seq<(Seq<char>, Seq<Trade>)>
    decreases events.len(),
{
    if events.len() == 0 {
        Seq::empty()
    } else {
        let g = grouped_trades(events.drop_last());
        let (key, trades) = events.last();
        if trades.len() == 0 {
            g
        } else {
            let i = group_index(g, key);
            if i >= 0 {
                g.update(i, (key, g[i].1 + trades))
            } else {
                g.push((key, trades))
            }
        }
    }
}

/// View of a list of (ticker, trades) pairs.
pub open spec fn trade_groups_view(v: Seq<(String, Vec<Trade>)>) -> Seq<(Seq<char>, Seq<Trade>)> {
    v.map_values(|p: (String, Vec<Trade>)| (p.0@, p.1@))
}

proof fn lemma_group_index(g: Seq<(Seq<char>, Seq<Trade>)>, key: Seq<char>, j: int)
    requires
        0 <= j <= g.len(),
        forall|k: int| 0 <= k < j ==> #[trigger] g[k].0 != key,
        j == g.len() || g[j].0 == key,
    ensures
        group_index(g, key) == (if j == g.len() {
            -1
        } else {
            j
        }),
    decreases g.len(),
{
    if g.len() > 0 {
        let init = g.drop_last();
        if j < g.len() - 1 {
            assert forall|k: int| 0 <= k < j implies #[trigger] init[k].0 != key by {
                assert(init[k] == g[k]);
            }
            assert(init[j] == g[j]);
            lemma_group_index(init, key, j);
        } else {
            assert forall|k: int| 0 <= k < init.len() implies #[trigger] init[k].0 != key by {
                assert(init[k] == g[k]);
            }
            lemma_group_index(init, key, init.len() as int);
        }
    }
}

/// Groups the trades of several streams by ticker text (the first step of
/// feeding a tick's trades to the virtual exchange, one call per ticker).
pub fn group_trades_by_ticker(events: Vec<(String, Vec<Trade>)>) -> (r: Vec<(String, Vec<Trade>)>)
    ensures
        trade_groups_view(r@) == grouped_trades(trade_groups_view(events@)),
{
    let ghost ev = trade_groups_view(events@);
    let mut groups: Vec<(String, Vec<Trade>)> = Vec::new();
    let n = events.len();
    let mut i: usize = 0;
    assert(ev.take(0) =~= Seq::<(Seq<char>, Seq<Trade>)>::empty());
    assert(trade_groups_view(groups@) =~= Seq::<(Seq<char>, Seq<Trade>)>::empty());
    while i < n
        invariant
            n == events@.len(),
            ev == trade_groups_view(events@),
            i <= n,
            trade_groups_view(groups@) == grouped_trades(ev.take(i as int)),
        decreases n - i,
    {
        let ghost g = trade_groups_view(groups@);
        assert(ev.take(i + 1).drop_last() =~= ev.take(i as int));
        assert(ev.take(i + 1).last() == ev[i as int]);
        let key = &events[i].0;
        let trades = &events[i].1;
        if trades.len() > 0 {
            let m = groups.len();
            let mut j: usize = 0;
            while j < m && !text_eq(groups[j].0.as_str(), key.as_str())
                invariant
                    m == groups@.len(),
                    j <= m,
                    g == trade_groups_view(groups@),
                    forall|k: int| 0 <= k < j ==> #[trigger] g[k].0 != key@,
                decreases m - j,
            {
                j = j + 1;
            }
            proof {
                lemma_group_index(g, key@, j as int);
            }
            if j < m {
                let mut merged: Vec<Trade> = groups[j].1.clone();
                let mut k: usize = 0;
                let ghost base = merged@;
                assert(base == groups@[j as int].1@);
                while k < trades.len()
                    invariant
                        k <= trades@.len(),
                        merged@ == base + trades@.take(k as int),
                    decreases trades@.len() - k,
                {
                    merged.push(trades[k]);
                    assert(trades@.take(k + 1) =~= trades@.take(k as int).push(trades@[k as int]));
                    assert(merged@ =~= base + trades@.take(k + 1));
                    k = k + 1;
                }
                assert(trades@.take(trades@.len() as int) =~= trades@);
                let name = groups[j].0.clone();
                groups.set(j, (name, merged));
                proof {
                    assert(trade_groups_view(groups@) =~= g.update(j as int, (key@, g[j as int].1 + trades@)));
                }
            } else {
                let mut copy: Vec<Trade> = Vec::new();
                let mut k: usize = 0;
                while k < trades.len()
                    invariant
                        k <= trades@.len(),
                        copy@ == trades@.take(k as int),
                    decreases trades@.len() - k,
                {
                    copy.push(trades[k]);
                    assert(copy@ =~= trades@.take(k + 1));
                    k = k + 1;
                }
                assert(copy@ =~= trades@);
                groups.push((key.clone(), copy));
                proof {
                    assert(trade_groups_view(groups@) =~= g.push((key@, trades@)));
                }
            }
        }
        i = i + 1;
    }
    assert(ev.take(n as int) =~= ev);
    groups
}

} // verus!
