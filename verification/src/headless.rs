//! Command-line arguments of the headless mode and the parsers of ticker and
//! timeframe names.

use vstd::prelude::*;
use crate::text::{
    find_char_from, first_index, owned, seq_ends_with, substring, text_ends_with, text_eq,
};
use crate::ticker::{Exchange, Ticker, Timeframe, exchange_name};

verus! {

/// Arguments of `--headless` mode.
#[derive(Debug, Clone, PartialEq)]
pub struct HeadlessArgs {
    pub ticker: String,
    pub timeframe: String,
}

/// Scan of the arguments from position `i` with the values found so far:
/// `--ticker` takes the next argument (or clears the ticker when there is
/// none), `--timeframe` takes the next argument when there is one, anything
/// else is skipped.
pub open spec fn scan_args(args: Seq<Seq<char>>, i: int, ticker: Option<Seq<char>>, timeframe: Seq<
    char,
>) -> (Option<Seq<char>>, Seq<char>)
    decreases args.len() - i,
{
    if i >= args.len() || i < 0 {
        (ticker, timeframe)
    } else if args[i] == "--ticker"@ {
        if i + 1 < args.len() {
            scan_args(args, i + 2, Some(args[i + 1]), timeframe)
        } else {
            (None, timeframe)
        }
    } else if args[i] == "--timeframe"@ {
        if i + 1 < args.len() {
            scan_args(args, i + 2, ticker, args[i + 1])
        } else {
            (ticker, timeframe)
        }
    } else {
        scan_args(args, i + 1, ticker, timeframe)
    }
}

/// Views of a list of arguments.
pub open spec fn args_view(args: Seq<String>) -> Seq<Seq<char>> {
    args.map_values(|a: String| a@)
}

/// Parses `--ticker <Exchange:Symbol>` (required) and `--timeframe <TF>`
/// (default `M1`) from the process arguments; the first argument, the
/// program name, is skipped.
pub fn parse_headless_args(args: &[String]) -> (r: Result<HeadlessArgs, String>)
    ensures
        ({
            let (t, tf) = scan_args(args_view(args@), 1, None, "M1"@);
            &&& t is None ==> (r matches Err(m) && m@ == "--ticker is required in headless mode"@)
            &&& t matches Some(tv) ==> (r matches Ok(a) && a.ticker@ == tv && a.timeframe@ == tf)
        }),
{
    let ghost v = args_view(args@);
    let mut ticker: Option<String> = None;
    let mut timeframe = owned("M1");
    let n = args.len();
    let mut i: usize = 1;
    while i < n
        invariant
            n == args@.len(),
            v == args_view(args@),
            1 <= i <= n || n == 0,
            scan_args(v, i as int, match ticker {
                Some(t) => Some(t@),
                None => None,
            }, timeframe@) == scan_args(v, 1, None, "M1"@),
        decreases n - i,
    {
        let a = args[i].as_str();
        assert(v[i as int] == a@);
        if text_eq(a, "--ticker") {
            if i + 1 < n {
                assert(v[i + 1] == args@[i + 1]@);
                ticker = Some(args[i + 1].clone());
                i = i + 2;
            } else {
                ticker = None;
                i = n;
            }
        } else if text_eq(a, "--timeframe") {
            if i + 1 < n {
                assert(v[i + 1] == args@[i + 1]@);
                timeframe = args[i + 1].clone();
                i = i + 2;
            } else {
                i = n;
            }
        } else {
            i = i + 1;
        }
    }
    match ticker {
        Some(t) => Ok(HeadlessArgs { ticker: t, timeframe }),
        None => Err(owned("--ticker is required in headless mode")),
    }
}

/// The exchange part and symbol part of `Exchange:Symbol`, split at the first
/// colon.
pub open spec fn split_colon(s: Seq<char>) -> Option<(Seq<char>, Seq<char>)> {
    let k = first_index(s, ':');
    if k == s.len() {
        None
    } else {
        Some((s.take(k as int), s.skip(k + 1 as int)))
    }
}

/// `BinanceLinear` → `Binance Linear`: a trailing `Linear`, `Inverse` or
/// `Spot` (tried in that order) is separated by a space.
pub open spec fn normalize_exchange(e: Seq<char>) -> Seq<char> {
    if seq_ends_with(e, "Linear"@) {
        e.take(e.len() - "Linear"@.len()) + " Linear"@
    } else if seq_ends_with(e, "Inverse"@) {
        e.take(e.len() - "Inverse"@.len()) + " Inverse"@
    } else if seq_ends_with(e, "Spot"@) {
        e.take(e.len() - "Spot"@.len()) + " Spot"@
    } else {
        e
    }
}

fn normalized_exchange(e: &str) -> (r: String)
    ensures
        r@ == normalize_exchange(e@),
{
    let n = e.unicode_len();
    if text_ends_with(e, "Linear") {
        let mut s = substring(e, 0, n - "Linear".unicode_len());
        s.append(" Linear");
        s
    } else if text_ends_with(e, "Inverse") {
        let mut s = substring(e, 0, n - "Inverse".unicode_len());
        s.append(" Inverse");
        s
    } else if text_ends_with(e, "Spot") {
        let mut s = substring(e, 0, n - "Spot".unicode_len());
        s.append(" Spot");
        s
    } else {
        owned(e)
    }
}

/// Whether the ticker `t` is what `Exchange:Symbol` text `s` names: split at
/// the first colon, the exchange part, normalized, is the name of `t`'s
/// venue, and the rest is its symbol, without display symbol.
pub open spec fn names_ticker(s: Seq<char>, t: Ticker) -> bool {
    split_colon(s) matches Some((ex, sym)) && t.symbol_view() == sym && exchange_name(t.exchange)
        == normalize_exchange(ex) && t.display_view() is None
}

/// Reads `Exchange:Symbol` text; `bad_format` begins the message for text
/// without a colon (the text and a closing quote follow it).
pub(crate) fn parse_exchange_symbol(s: &str, bad_format: &str) -> (r: Result<Ticker, String>)
    ensures
        split_colon(s@) is None ==> (r matches Err(m) && m@ == bad_format@ + s@ + "'"@),
        split_colon(s@) matches Some((ex, sym)) ==> {
            &&& (forall|e: Exchange| exchange_name(e) != normalize_exchange(ex)) ==> (r matches Err(
                m,
            ) && m@ == "unknown exchange: "@ + ex)
            &&& (exists|e: Exchange| exchange_name(e) == normalize_exchange(ex)) ==> (r matches Ok(
                t,
            ) && names_ticker(s@, t))
        },
{
    let n = s.unicode_len();
    let k = find_char_from(s, 0, ':');
    proof {
        assert(s@.skip(0) =~= s@);
    }
    if k == n {
        let mut m = owned(bad_format);
        m.append(s);
        m.append("'");
        return Err(m);
    }
    let ex = substring(s, 0, k);
    let sym = substring(s, k + 1, n);
    proof {
        assert(ex@ =~= s@.take(k as int));
        assert(sym@ =~= s@.skip(k + 1));
    }
    let normalized = normalized_exchange(ex.as_str());
    match Exchange::from_name(normalized.as_str()) {
        Some(e) => Ok(Ticker::new(sym.as_str(), e)),
        None => {
            let mut m = owned("unknown exchange: ");
            m.append(ex.as_str());
            Err(m)
        },
    }
}

/// Parses `Exchange:Symbol` (e.g. `BinanceLinear:BTCUSDT`) into a ticker.
pub fn parse_ticker_str(s: &str) -> (r: Result<Ticker, String>)
    ensures
        split_colon(s@) is None ==> (r matches Err(m) && m@
            == "invalid ticker format: expected 'Exchange:Symbol', got '"@ + s@ + "'"@),
        split_colon(s@) matches Some((ex, sym)) ==> {
            &&& (forall|e: Exchange| exchange_name(e) != normalize_exchange(ex)) ==> (r matches Err(
                m,
            ) && m@ == "unknown exchange: "@ + ex)
            &&& (exists|e: Exchange| exchange_name(e) == normalize_exchange(ex)) ==> (r matches Ok(
                t,
            ) && names_ticker(s@, t))
        },
{
    parse_exchange_symbol(s, "invalid ticker format: expected 'Exchange:Symbol', got '")
}

/// The timeframe a name denotes: `MS100`, `MS200`, `MS300`, `MS500`,
/// `MS1000`/`S1`, `M1`/`1m`, `M3`/`3m`, `M5`/`5m`, `M15`/`15m`, `M30`/`30m`,
/// `H1`/`1h`, `H2`/`2h`, `H4`/`4h`, `H12`/`12h`, `D1`/`1d`.
pub open spec fn timeframe_named(s: Seq<char>) -> Option<Timeframe> {
    if s == "MS100"@ {
        Some(Timeframe::MS100)
    } else if s == "MS200"@ {
        Some(Timeframe::MS200)
    } else if s == "MS300"@ {
        Some(Timeframe::MS300)
    } else if s == "MS500"@ {
        Some(Timeframe::MS500)
    } else if s == "MS1000"@ || s == "S1"@ {
        Some(Timeframe::MS1000)
    } else if s == "M1"@ || s == "1m"@ {
        Some(Timeframe::M1)
    } else if s == "M3"@ || s == "3m"@ {
        Some(Timeframe::M3)
    } else if s == "M5"@ || s == "5m"@ {
        Some(Timeframe::M5)
    } else if s == "M15"@ || s == "15m"@ {
        Some(Timeframe::M15)
    } else if s == "M30"@ || s == "30m"@ {
        Some(Timeframe::M30)
    } else if s == "H1"@ || s == "1h"@ {
        Some(Timeframe::H1)
    } else if s == "H2"@ || s == "2h"@ {
        Some(Timeframe::H2)
    } else if s == "H4"@ || s == "4h"@ {
        Some(Timeframe::H4)
    } else if s == "H12"@ || s == "12h"@ {
        Some(Timeframe::H12)
    } else if s == "D1"@ || s == "1d"@ {
        Some(Timeframe::D1)
    } else {
        None
    }
}

/// Parses a timeframe name.
pub fn parse_timeframe_str(s: &str) -> (r: Result<Timeframe, String>)
    ensures
        timeframe_named(s@) matches Some(tf) ==> r == Ok::<Timeframe, String>(tf),
        timeframe_named(s@) is None ==> (r matches Err(m) && m@ == "unknown timeframe: "@ + s@),
{
    if text_eq(s, "MS100") {
        Ok(Timeframe::MS100)
    } else if text_eq(s, "MS200") {
        Ok(Timeframe::MS200)
    } else if text_eq(s, "MS300") {
        Ok(Timeframe::MS300)
    } else if text_eq(s, "MS500") {
        Ok(Timeframe::MS500)
    } else if text_eq(s, "MS1000") || text_eq(s, "S1") {
        Ok(Timeframe::MS1000)
    } else if text_eq(s, "M1") || text_eq(s, "1m") {
        Ok(Timeframe::M1)
    } else if text_eq(s, "M3") || text_eq(s, "3m") {
        Ok(Timeframe::M3)
    } else if text_eq(s, "M5") || text_eq(s, "5m") {
        Ok(Timeframe::M5)
    } else if text_eq(s, "M15") || text_eq(s, "15m") {
        Ok(Timeframe::M15)
    } else if text_eq(s, "M30") || text_eq(s, "30m") {
        Ok(Timeframe::M30)
    } else if text_eq(s, "H1") || text_eq(s, "1h") {
        Ok(Timeframe::H1)
    } else if text_eq(s, "H2") || text_eq(s, "2h") {
        Ok(Timeframe::H2)
    } else if text_eq(s, "H4") || text_eq(s, "4h") {
        Ok(Timeframe::H4)
    } else if text_eq(s, "H12") || text_eq(s, "12h") {
        Ok(Timeframe::H12)
    } else if text_eq(s, "D1") || text_eq(s, "1d") {
        Ok(Timeframe::D1)
    } else {
        let mut m = owned("unknown timeframe: ");
        m.append(s);
        Err(m)
    }
}

} // verus!
