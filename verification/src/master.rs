//! Issue master of the Tachibana MASTER I/F: record model, conversion to
//! ticker metadata, splitting of the Shift-JIS record stream, and the
//! in-memory stores that hold master records and test fixtures.

use vstd::prelude::*;
use vstd::utf8::is_ascii_chars;
use crate::market::{Kline, Price, Qty, bytes_of};
use crate::numeric::Amount;
use crate::tachibana::MarketPriceRecord;
use crate::text::{owned, substring, text_eq};
use crate::ticker::{Exchange, Ticker, TickerInfo, display_ok};

verus! {

/// One record of the master download; only `CLMIssueMstKabu` records (stock
/// issues) are used.
#[derive(Debug, Clone)]
pub struct MasterRecord {
    pub clm_id: String,
    pub issue_code: String,
    pub issue_name: String,
    pub issue_name_short: String,
    pub issue_name_kana: String,
    pub issue_name_english: String,
    pub primary_market: String,
    pub sector_code: String,
    pub sector_name: String,
}

/// Display symbol derived from an English issue name: none for an empty
/// name; otherwise the name cut to its first 28 bytes, kept only when ASCII.
pub open spec fn display_from_english(name: Seq<char>) -> Option<Seq<char>> {
    if name.len() == 0 {
        None
    } else if bytes_of(name).len() <= 28 {
        if is_ascii_chars(name) {
            Some(name)
        } else {
            None
        }
    } else if is_ascii_chars(prefix28(name)) {
        Some(prefix28(name))
    } else {
        None
    }
}

/// The first 28 characters (all of them when there are fewer).
pub open spec fn prefix28(name: Seq<char>) -> Seq<char> {
    if name.len() >= 28 {
        name.take(28)
    } else {
        name
    }
}

/// Whether a record converts: a stock issue with an issue code.
pub open spec fn is_convertible(clm_id: Seq<char>, issue_code: Seq<char>) -> bool {
    clm_id == "CLMIssueMstKabu"@ && issue_code.len() > 0
}

/// Price tick assumed for Tachibana stocks (1 yen).
pub const STOCK_MIN_TICKSIZE_UNITS: i64 = 100_000_000;

/// Trading unit assumed for Tachibana stocks (100 shares).
pub const STOCK_MIN_QTY_UNITS: i64 = 10_000_000_000;

fn english_display(name: &str) -> (r: Option<String>)
    ensures
        r matches Some(d) ==> display_from_english(name@) == Some(d@) && display_ok(d@),
        r is None ==> display_from_english(name@) is None,
{
    let n = name.unicode_len();
    if n == 0 {
        return None;
    }
    if name.as_bytes().len() <= 28 {
        if name.is_ascii() {
            proof {
                vstd::utf8::is_ascii_chars_encode_utf8(name@);
            }
            return Some(owned(name));
        }
        return None;
    }
    let cut = if n >= 28 {
        28
    } else {
        n
    };
    let d = substring(name, 0, cut);
    proof {
        if n < 28 {
            assert(d@ =~= name@);
        } else {
            assert(d@ =~= name@.take(28));
        }
    }
    if d.as_str().is_ascii() {
        Some(d)
    } else {
        None
    }
}

/// Ticker and metadata of a stock issue: symbol = issue code, display
/// symbol from the English name, tick 1 yen, minimum quantity 100 shares,
/// no contract size; `None` for other record kinds and for an empty code.
pub fn master_record_to_ticker_info(record: &MasterRecord) -> (r: Option<(Ticker, TickerInfo)>)
    ensures
        r is Some <==> is_convertible(record.clm_id@, record.issue_code@),
        r matches Some((t, info)) ==> {
            &&& t.symbol_view() == record.issue_code@
            &&& t.exchange == Exchange::Tachibana
            &&& t.display_view() == display_from_english(record.issue_name_english@)
            &&& info.ticker == t
            &&& info.min_ticksize == Price(Amount::Units(STOCK_MIN_TICKSIZE_UNITS))
            &&& info.min_qty == Qty(Amount::Units(STOCK_MIN_QTY_UNITS))
            &&& info.contract_size is None
        },
{
    if !text_eq(record.clm_id.as_str(), "CLMIssueMstKabu") {
        return None;
    }
    if record.issue_code.as_str().is_empty() {
        return None;
    }
    let display = english_display(record.issue_name_english.as_str());
    let ticker = match &display {
        Some(d) => Ticker::new_with_display(
            record.issue_code.as_str(),
            Exchange::Tachibana,
            Some(d.as_str()),
        ),
        None => Ticker::new_with_display(record.issue_code.as_str(), Exchange::Tachibana, None),
    };
    let info = TickerInfo::new(
        ticker.duplicate(),
        Price(Amount::Units(STOCK_MIN_TICKSIZE_UNITS)),
        Qty(Amount::Units(STOCK_MIN_QTY_UNITS)),
        None,
    );
    Some((ticker, info))
}

// ── Shift-JIS record stream ─────────────────────────────────────────────────

/// Shift-JIS lead bytes: the byte after one belongs to the same character.
pub open spec fn is_sjis_lead(b: u8) -> bool {
    (0x81 <= b <= 0x9F) || (0xE0 <= b <= 0xEF)
}

/// Records of a Shift-JIS byte stream split after every `}` (0x7D) that is
/// not the trail byte of a two-byte character.  `in_mb` says the next byte
/// is a trail byte, `buf` holds the bytes of the record in progress; a
/// non-empty remainder without `}` is the last record.
pub open spec fn sjis_records(data: Seq<u8>, in_mb: bool, buf: Seq<u8>) -> Seq<Seq<u8>>
    decreases data.len(),
{
    if data.len() == 0 {
        if buf.len() > 0 {
            seq![buf]
        } else {
            Seq::empty()
        }
    } else {
        let b = data[0];
        let next = buf.push(b);
        if in_mb {
            sjis_records(data.drop_first(), false, next)
        } else if is_sjis_lead(b) {
            sjis_records(data.drop_first(), true, next)
        } else if b == 0x7D {
            seq![next] + sjis_records(data.drop_first(), false, Seq::empty())
        } else {
            sjis_records(data.drop_first(), false, next)
        }
    }
}

/// Splits a Shift-JIS master stream into its JSON records; each record keeps
/// its closing `}`.
pub fn parse_sjis_stream_records(data: &[u8]) -> (r: Vec<Vec<u8>>)
    ensures
        r@.map_values(|v: Vec<u8>| v@) == sjis_records(data@, false, Seq::empty()),
{
    let mut records: Vec<Vec<u8>> = Vec::new();
    let mut buf: Vec<u8> = Vec::new();
    let mut in_mb = false;
    let n = data.len();
    let mut i: usize = 0;
    assert(data@.skip(0) =~= data@);
    while i < n
        invariant
            n == data@.len(),
            i <= n,
            records@.map_values(|v: Vec<u8>| v@) + sjis_records(data@.skip(i as int), in_mb, buf@)
                == sjis_records(data@, false, Seq::empty()),
        decreases n - i,
    {
        let ghost before = records@;
        let ghost rest = data@.skip(i as int);
        assert(rest.drop_first() =~= data@.skip(i + 1));
        assert(rest[0] == data@[i as int]);
        let b = data[i];
        buf.push(b);
        if in_mb {
            in_mb = false;
        } else if (0x81u8 <= b && b <= 0x9Fu8) || (0xE0u8 <= b && b <= 0xEFu8) {
            in_mb = true;
        } else if b == 0x7Du8 {
            let done = buf;
            buf = Vec::new();
            records.push(done);
            proof {
                assert(records@.map_values(|v: Vec<u8>| v@) =~= before.map_values(
                    |v: Vec<u8>| v@,
                ) + seq![done@]);
            }
        }
        i = i + 1;
    }
    let ghost before = records@;
    assert(data@.skip(n as int) =~= Seq::<u8>::empty());
    if buf.len() > 0 {
        records.push(buf);
        assert(records@.map_values(|v: Vec<u8>| v@) =~= before.map_values(|v: Vec<u8>| v@) + seq![
            buf@,
        ]);
    } else {
        assert(before.map_values(|v: Vec<u8>| v@) + Seq::<Seq<u8>>::empty() =~= before.map_values(
            |v: Vec<u8>| v@,
        ));
    }
    records
}

// ── Ticker metadata ─────────────────────────────────────────────────────────

/// A ticker as a key: symbol, venue, display symbol.
pub type TickerKey = (Seq<char>, Exchange, Option<Seq<char>>);

/// Key of a ticker.
pub open spec fn ticker_key(t: Ticker) -> TickerKey {
    (t.symbol_view(), t.exchange, t.display_view())
}

/// Metadata as a value: ticker key, tick, minimum quantity, contract size.
pub type InfoView = (TickerKey, Price, Qty, Option<Qty>);

/// Value of ticker metadata.
pub open spec fn info_view(i: TickerInfo) -> InfoView {
    (ticker_key(i.ticker), i.min_ticksize, i.min_qty, i.contract_size)
}

/// Key of the ticker a stock record converts to (with its display symbol).
pub open spec fn stock_key(rec: MasterRecord) -> TickerKey {
    (rec.issue_code@, Exchange::Tachibana, display_from_english(rec.issue_name_english@))
}

/// Metadata a stock record converts to.
pub open spec fn stock_info(rec: MasterRecord) -> InfoView {
    (
        stock_key(rec),
        Price(Amount::Units(STOCK_MIN_TICKSIZE_UNITS)),
        Qty(Amount::Units(STOCK_MIN_QTY_UNITS)),
        None,
    )
}

/// Metadata of the stock records, keyed by ticker.  Each stock record
/// enters under its ticker with display symbol (replacing an earlier entry)
/// and under its bare ticker, without display symbol (unless that key is
/// already taken), since saved panes name tickers without one.
pub open spec fn metadata_map(records: Seq<MasterRecord>) -> Map<TickerKey, InfoView>
    decreases records.len(),
{
    if records.len() == 0 {
        Map::empty()
    } else {
        let m = metadata_map(records.drop_last());
        let rec = records.last();
        if is_convertible(rec.clm_id@, rec.issue_code@) {
            let k0: TickerKey = (rec.issue_code@, Exchange::Tachibana, None);
            let m1 = if m.contains_key(k0) {
                m
            } else {
                m.insert(k0, stock_info(rec))
            };
            m1.insert(stock_key(rec), stock_info(rec))
        } else {
            m
        }
    }
}

/// The map held by a list of (ticker, metadata) entries, later entries
/// winning.
pub open spec fn entries_metadata(v: Seq<(Ticker, TickerInfo)>) -> Map<TickerKey, InfoView>
    decreases v.len(),
{
    if v.len() == 0 {
        Map::empty()
    } else {
        entries_metadata(v.drop_last()).insert(ticker_key(v.last().0), info_view(v.last().1))
    }
}

/// No ticker occurs twice among the entries.
pub open spec fn distinct_tickers(v: Seq<(Ticker, TickerInfo)>) -> bool {
    forall|i: int, j: int|
        0 <= i < j < v.len() ==> ticker_key(#[trigger] v[i].0) != ticker_key(#[trigger] v[j].0)
}

proof fn lemma_entries_has(v: Seq<(Ticker, TickerInfo)>, k: TickerKey)
    ensures
        entries_metadata(v).contains_key(k) <==> exists|i: int|
            0 <= i < v.len() && ticker_key(#[trigger] v[i].0) == k,
    decreases v.len(),
{
    if v.len() > 0 {
        let init = v.drop_last();
        lemma_entries_has(init, k);
        if exists|i: int| 0 <= i < init.len() && ticker_key(#[trigger] init[i].0) == k {
            let i = choose|i: int| 0 <= i < init.len() && ticker_key(#[trigger] init[i].0) == k;
            assert(v[i] == init[i]);
        }
        if exists|i: int| 0 <= i < v.len() && ticker_key(#[trigger] v[i].0) == k {
            let i = choose|i: int| 0 <= i < v.len() && ticker_key(#[trigger] v[i].0) == k;
            if i < v.len() - 1 {
                assert(init[i] == v[i]);
            }
        }
    }
}

proof fn lemma_entries_update(v: Seq<(Ticker, TickerInfo)>, j: int, t: Ticker, info: TickerInfo)
    requires
        0 <= j < v.len(),
        distinct_tickers(v),
        ticker_key(v[j].0) == ticker_key(t),
    ensures
        entries_metadata(v.update(j, (t, info))) == entries_metadata(v).insert(
            ticker_key(t),
            info_view(info),
        ),
        distinct_tickers(v.update(j, (t, info))),
    decreases v.len(),
{
    let w = v.update(j, (t, info));
    let k = ticker_key(t);
    if j == v.len() - 1 {
        assert(w.drop_last() =~= v.drop_last());
        assert(entries_metadata(w) =~= entries_metadata(v).insert(k, info_view(info)));
    } else {
        let init = v.drop_last();
        assert(w.drop_last() =~= init.update(j, (t, info)));
        assert(init[j] == v[j]);
        assert(distinct_tickers(init)) by {
            assert forall|a: int, b: int| 0 <= a < b < init.len() implies ticker_key(
                #[trigger] init[a].0,
            ) != ticker_key(#[trigger] init[b].0) by {
                assert(init[a] == v[a]);
                assert(init[b] == v[b]);
            }
        }
        lemma_entries_update(init, j, t, info);
        let last = ticker_key(v.last().0);
        assert(last != k) by {
            assert(v[j].0 == init[j].0);
            assert(v.last() == v[v.len() - 1]);
        }
        assert(w.last() == v.last());
        assert(entries_metadata(w) =~= entries_metadata(v).insert(k, info_view(info)));
    }
    assert forall|a: int, b: int| 0 <= a < b < w.len() implies ticker_key(#[trigger] w[a].0)
        != ticker_key(#[trigger] w[b].0) by {
        if a != j && b != j {
            assert(w[a] == v[a] && w[b] == v[b]);
        } else if a == j {
            assert(w[b] == v[b]);
        } else {
            assert(w[a] == v[a]);
        }
    }
}

fn same_ticker(a: &Ticker, b: &Ticker) -> (r: bool)
    ensures
        r == (ticker_key(*a) == ticker_key(*b)),
{
    if !text_eq(a.symbol.as_str(), b.symbol.as_str()) || a.exchange != b.exchange {
        return false;
    }
    match (&a.display, &b.display) {
        (Some(x), Some(y)) => text_eq(x.as_str(), y.as_str()),
        (None, None) => true,
        _ => false,
    }
}

fn ticker_position(v: &Vec<(Ticker, TickerInfo)>, t: &Ticker) -> (r: Option<usize>)
    ensures
        r matches Some(i) ==> i < v@.len() && ticker_key(v@[i as int].0) == ticker_key(*t),
        r is None ==> forall|i: int| 0 <= i < v@.len() ==> ticker_key(#[trigger] v@[i].0) != ticker_key(*t),
{
    let n = v.len();
    let mut i: usize = 0;
    while i < n
        invariant
            n == v@.len(),
            i <= n,
            forall|j: int| 0 <= j < i ==> ticker_key(#[trigger] v@[j].0) != ticker_key(*t),
        decreases n - i,
    {
        if same_ticker(&v[i].0, t) {
            return Some(i);
        }
        i = i + 1;
    }
    None
}

fn put_metadata(v: &mut Vec<(Ticker, TickerInfo)>, t: Ticker, info: TickerInfo, replace: bool)
    requires
        distinct_tickers(old(v)@),
    ensures
        distinct_tickers(final(v)@),
        replace ==> entries_metadata(final(v)@) == entries_metadata(old(v)@).insert(
            ticker_key(t),
            info_view(info),
        ),
        !replace ==> entries_metadata(final(v)@) == (if entries_metadata(old(v)@).contains_key(
            ticker_key(t),
        ) {
            entries_metadata(old(v)@)
        } else {
            entries_metadata(old(v)@).insert(ticker_key(t), info_view(info))
        }),
{
    proof {
        lemma_entries_has(v@, ticker_key(t));
    }
    match ticker_position(v, &t) {
        Some(j) => {
            if replace {
                proof {
                    lemma_entries_update(v@, j as int, t, info);
                }
                v.set(j, (t, info));
            }
        },
        None => {
            let ghost before = v@;
            v.push((t, info));
            proof {
                assert(v@.drop_last() =~= before);
                assert forall|a: int, b: int| 0 <= a < b < v@.len() implies ticker_key(
                    #[trigger] v@[a].0,
                ) != ticker_key(#[trigger] v@[b].0) by {
                    if b < before.len() {
                        assert(v@[a] == before[a] && v@[b] == before[b]);
                    } else {
                        assert(v@[a] == before[a]);
                    }
                }
            }
        },
    }
}

/// Ticker metadata of the cached issue master: for every stock record, its
/// ticker with display symbol and, unless already present, its bare ticker,
/// both with the record's metadata.  No ticker occurs twice.
pub fn cached_ticker_metadata(cache: &IssueMasterCache) -> (r: Vec<(Ticker, TickerInfo)>)
    ensures
        distinct_tickers(r@),
        entries_metadata(r@) == match cache.held() {
            Some(recs) => metadata_map(recs),
            None => Map::<TickerKey, InfoView>::empty(),
        },
{
    let mut out: Vec<(Ticker, TickerInfo)> = Vec::new();
    let records = match cache.records() {
        Some(v) => v,
        None => return out,
    };
    let n = records.len();
    let mut i: usize = 0;
    assert(records@.take(0) =~= Seq::<MasterRecord>::empty());
    while i < n
        invariant
            n == records@.len(),
            i <= n,
            cache.held() == Some(records@),
            distinct_tickers(out@),
            entries_metadata(out@) == metadata_map(records@.take(i as int)),
        decreases n - i,
    {
        let rec = &records[i];
        let ghost m = metadata_map(records@.take(i as int));
        assert(records@.take(i + 1).drop_last() =~= records@.take(i as int));
        assert(records@.take(i + 1).last() == records@[i as int]);
        match master_record_to_ticker_info(rec) {
            Some((ticker, info)) => {
                let bare = Ticker::new(rec.issue_code.as_str(), Exchange::Tachibana);
                put_metadata(&mut out, bare, info.duplicate(), false);
                put_metadata(&mut out, ticker, info, true);
            },
            None => {},
        }
        i = i + 1;
    }
    assert(records@.take(n as int) =~= records@);
    out
}

// ── Streaming download ──────────────────────────────────────────────────────

/// Feeding bytes to the record splitter in state (`in_mb`, `buf`): the
/// records completed on the way, and the state afterwards.
pub open spec fn sjis_feed(data: Seq<u8>, in_mb: bool, buf: Seq<u8>) -> (Seq<Seq<u8>>, bool, Seq<u8>)
    decreases data.len(),
{
    if data.len() == 0 {
        (Seq::empty(), in_mb, buf)
    } else {
        let b = data[0];
        let next = buf.push(b);
        if in_mb {
            sjis_feed(data.drop_first(), false, next)
        } else if is_sjis_lead(b) {
            sjis_feed(data.drop_first(), true, next)
        } else if b == 0x7D {
            let (e, m, r) = sjis_feed(data.drop_first(), false, Seq::empty());
            (seq![next] + e, m, r)
        } else {
            sjis_feed(data.drop_first(), false, next)
        }
    }
}

/// The unfinished record, as a last record when it is not empty.
pub open spec fn sjis_flush(buf: Seq<u8>) -> Seq<Seq<u8>> {
    if buf.len() > 0 {
        seq![buf]
    } else {
        Seq::empty()
    }
}

/// Splitter of the master download stream into records, fed chunk by chunk
/// as the bytes arrive: a chunk may end inside a record or between the two
/// bytes of a Shift-JIS character.
#[derive(Debug, Clone)]
pub struct SjisRecordSplitter {
    buf: Vec<u8>,
    in_mb: bool,
}

impl SjisRecordSplitter {
    /// Whether the next byte is the trail byte of a two-byte character.
    pub closed spec fn in_multibyte(&self) -> bool {
        self.in_mb
    }

    /// Bytes of the record in progress.
    pub closed spec fn pending(&self) -> Seq<u8> {
        self.buf@
    }

    /// A splitter at the start of a stream.
    pub fn new() -> (r: Self)
        ensures
            !r.in_multibyte(),
            r.pending() == Seq::<u8>::empty(),
    {
        SjisRecordSplitter { buf: Vec::new(), in_mb: false }
    }

    /// Feeds one chunk; returns the records it completes, each with its `}`.
    pub fn feed(&mut self, chunk: &[u8]) -> (r: Vec<Vec<u8>>)
        ensures
            (r@.map_values(|v: Vec<u8>| v@), final(self).in_multibyte(), final(self).pending())
                == sjis_feed(chunk@, old(self).in_multibyte(), old(self).pending()),
    {
        let ghost goal = sjis_feed(chunk@, self.in_mb, self.buf@);
        let mut records: Vec<Vec<u8>> = Vec::new();
        let n = chunk.len();
        let mut i: usize = 0;
        assert(chunk@.skip(0) =~= chunk@);
        assert(records@.map_values(|v: Vec<u8>| v@) =~= Seq::<Seq<u8>>::empty());
        while i < n
            invariant
                n == chunk@.len(),
                i <= n,
                ({
                    let (e, m, r) = sjis_feed(chunk@.skip(i as int), self.in_mb, self.buf@);
                    (records@.map_values(|v: Vec<u8>| v@) + e, m, r) == goal
                }),
            decreases n - i,
        {
            let ghost before = records@;
            let ghost rest = chunk@.skip(i as int);
            assert(rest.drop_first() =~= chunk@.skip(i + 1));
            assert(rest[0] == chunk@[i as int]);
            let b = chunk[i];
            self.buf.push(b);
            if self.in_mb {
                self.in_mb = false;
            } else if (0x81u8 <= b && b <= 0x9Fu8) || (0xE0u8 <= b && b <= 0xEFu8) {
                self.in_mb = true;
            } else if b == 0x7Du8 {
                let mut done: Vec<u8> = Vec::new();
                core::mem::swap(&mut done, &mut self.buf);
                records.push(done);
                proof {
                    assert(records@.map_values(|v: Vec<u8>| v@) =~= before.map_values(|v: Vec<u8>| v@)
                        + seq![done@]);
                    assert(self.buf@ =~= Seq::<u8>::empty());
                }
            }
            i = i + 1;
        }
        proof {
            assert(chunk@.skip(n as int) =~= Seq::<u8>::empty());
            assert(records@.map_values(|v: Vec<u8>| v@) + Seq::<Seq<u8>>::empty() =~= records@.map_values(
                |v: Vec<u8>| v@,
            ));
        }
        records
    }
}

/// Splitting a whole stream at once gives what feeding it and then taking
/// the unfinished record gives.
pub proof fn lemma_records_are_feed_then_flush(data: Seq<u8>, in_mb: bool, buf: Seq<u8>)
    ensures
        ({
            let (e, _m, r) = sjis_feed(data, in_mb, buf);
            sjis_records(data, in_mb, buf) == e + sjis_flush(r)
        }),
    decreases data.len(),
{
    if data.len() > 0 {
        let b = data[0];
        let next = buf.push(b);
        let rest = data.drop_first();
        if in_mb {
            lemma_records_are_feed_then_flush(rest, false, next);
        } else if is_sjis_lead(b) {
            lemma_records_are_feed_then_flush(rest, true, next);
        } else if b == 0x7D {
            lemma_records_are_feed_then_flush(rest, false, Seq::empty());
            let (e, _m, r) = sjis_feed(rest, false, Seq::empty());
            assert(seq![next] + e + sjis_flush(r) =~= seq![next] + (e + sjis_flush(r)));
        } else {
            lemma_records_are_feed_then_flush(rest, false, next);
        }
    } else {
        assert(sjis_records(data, in_mb, buf) =~= Seq::<Seq<u8>>::empty() + sjis_flush(buf));
    }
}

/// Feeding two pieces one after the other is feeding their concatenation.
pub proof fn lemma_feed_concat(a: Seq<u8>, b: Seq<u8>, in_mb: bool, buf: Seq<u8>)
    ensures
        ({
            let (e1, m1, r1) = sjis_feed(a, in_mb, buf);
            let (e2, m2, r2) = sjis_feed(b, m1, r1);
            sjis_feed(a + b, in_mb, buf) == (e1 + e2, m2, r2)
        }),
    decreases a.len(),
{
    if a.len() == 0 {
        assert(a + b =~= b);
        let (e2, m2, r2) = sjis_feed(b, in_mb, buf);
        assert(Seq::<Seq<u8>>::empty() + e2 =~= e2);
    } else {
        let x = a[0];
        let next = buf.push(x);
        assert((a + b).drop_first() =~= a.drop_first() + b);
        assert((a + b)[0] == x);
        if in_mb {
            lemma_feed_concat(a.drop_first(), b, false, next);
        } else if is_sjis_lead(x) {
            lemma_feed_concat(a.drop_first(), b, true, next);
        } else if x == 0x7D {
            lemma_feed_concat(a.drop_first(), b, false, Seq::empty());
            let (e1, m1, r1) = sjis_feed(a.drop_first(), false, Seq::empty());
            let (e2, m2, r2) = sjis_feed(b, m1, r1);
            assert(seq![next] + (e1 + e2) =~= seq![next] + e1 + e2);
        } else {
            lemma_feed_concat(a.drop_first(), b, false, next);
        }
    }
}

/// Whether every collected record is a stock issue with an issue code.
pub open spec fn all_stock_records(records: Seq<MasterRecord>) -> bool {
    forall|i: int| 0 <= i < records.len() ==> is_convertible(
        #[trigger] records[i].clm_id@,
        records[i].issue_code@,
    )
}

/// One record of the download taken by the collector holding `records`
/// (`seen_stock` once a stock record was kept): the new list, the new flag,
/// and whether the download is over.  The completion record ends it; stock
/// records with a code are kept; once stock records were seen, any other
/// record ends it (the stock section is contiguous); earlier records are
/// skipped.
pub open spec fn collect_step(records: Seq<MasterRecord>, seen_stock: bool, record: MasterRecord) -> (
    Seq<MasterRecord>,
    bool,
    bool,
) {
    if record.clm_id@ == "CLMEventDownloadComplete"@ {
        (records, seen_stock, true)
    } else if is_convertible(record.clm_id@, record.issue_code@) {
        (records.push(record), true, false)
    } else if seen_stock {
        (records, seen_stock, true)
    } else {
        (records, seen_stock, false)
    }
}

/// The stock records collected from a master download as its records come
/// in.
#[derive(Debug, Clone)]
pub struct MasterCollector {
    records: Vec<MasterRecord>,
    seen_stock: bool,
}

impl MasterCollector {
    /// Records kept so far.
    pub closed spec fn kept(&self) -> Seq<MasterRecord> {
        self.records@
    }

    /// Whether a stock record was kept.
    pub closed spec fn seen_stock(&self) -> bool {
        self.seen_stock
    }

    /// Nothing collected.
    pub fn new() -> (r: Self)
        ensures
            r.kept() == Seq::<MasterRecord>::empty(),
            !r.seen_stock(),
    {
        MasterCollector { records: Vec::new(), seen_stock: false }
    }

    /// Takes one decoded record; `true` when the download is over.  Every
    /// kept record is a stock issue with a code.
    pub fn accept(&mut self, record: MasterRecord) -> (r: bool)
        ensures
            (final(self).kept(), final(self).seen_stock(), r) == collect_step(
                old(self).kept(),
                old(self).seen_stock(),
                record,
            ),
            all_stock_records(old(self).kept()) ==> all_stock_records(final(self).kept()),
    {
        if text_eq(record.clm_id.as_str(), "CLMEventDownloadComplete") {
            return true;
        }
        if text_eq(record.clm_id.as_str(), "CLMIssueMstKabu") && !record.issue_code.as_str().is_empty() {
            self.records.push(record);
            self.seen_stock = true;
            return false;
        }
        self.seen_stock
    }

    /// The records kept.
    pub fn into_records(self) -> (r: Vec<MasterRecord>)
        ensures
            r@ == self.kept(),
    {
        self.records
    }

    /// Outcome of a download cut off by a transport error: the records kept
    /// so far when there are any, `None` (the error stands) otherwise.
    pub fn into_partial(self) -> (r: Option<Vec<MasterRecord>>)
        ensures
            self.kept().len() > 0 ==> (r matches Some(v) && v@ == self.kept()),
            self.kept().len() == 0 ==> r is None,
    {
        if self.records.len() > 0 {
            Some(self.records)
        } else {
            None
        }
    }
}

// ── Stores ──────────────────────────────────────────────────────────────────

/// The issue master held in memory, once downloaded (or injected by tests).
#[derive(Debug)]
pub struct IssueMasterCache {
    records: Option<Vec<MasterRecord>>,
}

impl IssueMasterCache {
    /// The records held, if any.
    pub closed spec fn held(&self) -> Option<Seq<MasterRecord>> {
        match self.records {
            Some(v) => Some(v@),
            None => None,
        }
    }

    /// An empty cache.
    pub fn new() -> (r: Self)
        ensures
            r.held() is None,
    {
        IssueMasterCache { records: None }
    }

    /// Stores `records`, replacing what was held.
    pub fn inject_master_cache(&mut self, records: Vec<MasterRecord>)
        ensures
            final(self).held() == Some(records@),
    {
        self.records = Some(records);
    }

    /// Drops the held records.
    pub fn clear_master_cache(&mut self)
        ensures
            final(self).held() is None,
    {
        self.records = None;
    }

    /// The held records, if any.
    pub fn records(&self) -> (r: Option<&Vec<MasterRecord>>)
        ensures
            r matches Some(v) ==> self.held() == Some(v@),
            r is None ==> self.held() is None,
    {
        match &self.records {
            Some(v) => Some(v),
            None => None,
        }
    }
}

/// Canned market data that replaces network fetches in end-to-end tests:
/// daily candles per issue code and a snapshot of price records.
#[derive(Debug)]
pub struct MockFixtures {
    daily: Option<Vec<(String, Vec<Kline>)>>,
    market_prices: Option<Vec<MarketPriceRecord>>,
}

/// Candles held for each issue code.
pub type DailyMap = Map<Seq<char>, Seq<Kline>>;

/// Map held by a list of (issue code, candles) entries, later entries
/// winning.
pub open spec fn daily_map(entries: Seq<(String, Vec<Kline>)>) -> DailyMap
    decreases entries.len(),
{
    if entries.len() == 0 {
        Map::empty()
    } else {
        daily_map(entries.drop_last()).insert(entries.last().0@, entries.last().1@)
    }
}

impl MockFixtures {
    /// The candle table: `None` when cleared or never filled.
    pub closed spec fn daily_view(&self) -> Option<DailyMap> {
        match self.daily {
            Some(v) => Some(daily_map(v@)),
            None => None,
        }
    }

    /// The price records held, or `None`.
    pub closed spec fn market_prices_view(&self) -> Option<Seq<MarketPriceRecord>> {
        match self.market_prices {
            Some(v) => Some(v@),
            None => None,
        }
    }

    /// No fixtures.
    pub fn new() -> (r: Self)
        ensures
            r.daily_view() is None,
            r.market_prices_view() is None,
    {
        MockFixtures { daily: None, market_prices: None }
    }

    /// Sets the candles of one issue code, keeping the other codes.
    pub fn inject_daily_klines(&mut self, issue_code: String, klines: Vec<Kline>)
        ensures
            final(self).daily_view() == Some(
                match old(self).daily_view() {
                    Some(m) => m,
                    None => Map::<Seq<char>, Seq<Kline>>::empty(),
                }.insert(issue_code@, klines@),
            ),
            final(self).market_prices_view() == old(self).market_prices_view(),
    {
        let ghost old_view = match old(self).daily_view() {
            Some(m) => m,
            None => Map::<Seq<char>, Seq<Kline>>::empty(),
        };
        let mut table = match self.daily.take() {
            Some(v) => v,
            None => Vec::new(),
        };
        let ghost before = table@;
        assert(daily_map(before) == old_view) by {
            if old(self).daily is None {
                assert(before =~= Seq::<(String, Vec<Kline>)>::empty());
            }
        }
        table.push((issue_code, klines));
        assert(table@.drop_last() =~= before);
        self.daily = Some(table);
    }

    /// Drops every candle fixture.
    pub fn clear_daily_klines(&mut self)
        ensures
            final(self).daily_view() is None,
            final(self).market_prices_view() == old(self).market_prices_view(),
    {
        self.daily = None;
    }

    /// Copy of the candles held for `issue_code`.
    pub fn get_mock_daily_klines(&self, issue_code: &str) -> (r: Option<Vec<Kline>>)
        ensures
            r matches Some(k) ==> self.daily_view() matches Some(m) && m.contains_key(issue_code@)
                && m[issue_code@] == k@,
            r is None ==> !(self.daily_view() matches Some(m) && m.contains_key(issue_code@)),
    {
        let table = match &self.daily {
            Some(v) => v,
            None => return None,
        };
        let mut i = table.len();
        while i > 0
            invariant
                i <= table@.len(),
                self.daily == Some(*table),
                forall|j: int| i <= j < table@.len() ==> #[trigger] table@[j].0@ != issue_code@,
            decreases i,
        {
            if text_eq(table[i - 1].0.as_str(), issue_code) {
                let src = &table[i - 1].1;
                let mut out: Vec<Kline> = Vec::new();
                let mut j: usize = 0;
                while j < src.len()
                    invariant
                        j <= src@.len(),
                        out@ == src@.take(j as int),
                    decreases src@.len() - j,
                {
                    out.push(src[j]);
                    assert(out@ =~= src@.take(j + 1));
                    j = j + 1;
                }
                proof {
                    assert(out@ =~= src@);
                    lemma_daily_hit(table@, (i - 1) as int, issue_code@);
                }
                return Some(out);
            }
            i = i - 1;
        }
        proof {
            lemma_daily_miss(table@, issue_code@);
        }
        None
    }

    /// Replaces the price-record fixture.
    pub fn inject_market_prices(&mut self, records: Vec<MarketPriceRecord>)
        ensures
            final(self).market_prices_view() == Some(records@),
            final(self).daily_view() == old(self).daily_view(),
    {
        self.market_prices = Some(records);
    }

    /// Copy of the price-record fixture.
    pub fn get_mock_market_prices(&self) -> (r: Option<Vec<MarketPriceRecord>>)
        ensures
            r matches Some(v) ==> self.market_prices_view() == Some(v@),
            r is None ==> self.market_prices_view() is None,
    {
        match &self.market_prices {
            Some(src) => {
                let mut out: Vec<MarketPriceRecord> = Vec::new();
                let mut j: usize = 0;
                while j < src.len()
                    invariant
                        j <= src@.len(),
                        out@ == src@.take(j as int),
                    decreases src@.len() - j,
                {
                    out.push(src[j].duplicate());
                    assert(out@ =~= src@.take(j + 1));
                    j = j + 1;
                }
                assert(out@ =~= src@);
                Some(out)
            },
            None => None,
        }
    }

    /// Drops the price-record fixture.
    pub fn clear_market_prices(&mut self)
        ensures
            final(self).market_prices_view() is None,
            final(self).daily_view() == old(self).daily_view(),
    {
        self.market_prices = None;
    }
}

proof fn lemma_daily_hit(entries: Seq<(String, Vec<Kline>)>, idx: int, key: Seq<char>)
    requires
        0 <= idx < entries.len(),
        entries[idx].0@ == key,
        forall|j: int| idx < j < entries.len() ==> #[trigger] entries[j].0@ != key,
    ensures
        daily_map(entries).contains_key(key),
        daily_map(entries)[key] == entries[idx].1@,
    decreases entries.len(),
{
    if idx < entries.len() - 1 {
        let init = entries.drop_last();
        assert forall|j: int| idx < j < init.len() implies #[trigger] init[j].0@ != key by {
            assert(init[j] == entries[j]);
        }
        assert(init[idx] == entries[idx]);
        lemma_daily_hit(init, idx, key);
    }
}

proof fn lemma_daily_miss(entries: Seq<(String, Vec<Kline>)>, key: Seq<char>)
    requires
        forall|j: int| 0 <= j < entries.len() ==> #[trigger] entries[j].0@ != key,
    ensures
        !daily_map(entries).contains_key(key),
    decreases entries.len(),
{
    if entries.len() > 0 {
        let init = entries.drop_last();
        assert forall|j: int| 0 <= j < init.len() implies #[trigger] init[j].0@ != key by {
            assert(init[j] == entries[j]);
        }
        lemma_daily_miss(init, key);
    }
}

} // verus!
