//! Request and response model of the Tachibana e-shiten API: the request
//! serial number, the login exchange, the market-data requests, the common
//! result check and the decoding of replies.

use vstd::prelude::*;
use crate::event::unix_time_millis;
use crate::market::bytes_of;
use crate::text::{decimal, owned, text_eq, u64_to_decimal};

verus! {

// ── Request serial number ───────────────────────────────────────────────────

/// Counter that numbers the requests of a process.  It starts unset (zero);
/// the first request seeds it with the current Unix time in seconds, so the
/// numbers of a later process exceed those of an earlier one.
#[derive(Debug)]
pub struct RequestCounter {
    value: u64,
}

/// The number handed out by a counter holding `value` when the clock reads
/// `epoch_secs`.
pub open spec fn serial_issued(value: u64, epoch_secs: u64) -> u64 {
    if value == 0 {
        epoch_secs
    } else {
        value
    }
}

/// Successor of a serial number, wrapping at `u64::MAX`.
pub open spec fn serial_next(n: u64) -> u64 {
    if n == u64::MAX {
        0
    } else {
        (n + 1) as u64
    }
}

impl RequestCounter {
    /// The value held.
    pub closed spec fn value(&self) -> u64 {
        self.value
    }

    /// An unset counter.
    pub fn new() -> (r: Self)
        ensures
            r.value() == 0,
    {
        RequestCounter { value: 0 }
    }

    /// Hands out the next number: the held value, or `epoch_secs` when the
    /// counter is unset; the counter then holds its successor.
    pub fn advance(&mut self, epoch_secs: u64) -> (r: u64)
        ensures
            r == serial_issued(old(self).value(), epoch_secs),
            final(self).value() == serial_next(r),
    {
        if self.value == 0 {
            self.value = epoch_secs;
        }
        let r = self.value;
        self.value = self.value.wrapping_add(1);
        r
    }
}

/// The next request number `p_no`, in decimal.
pub fn next_p_no(counter: &mut RequestCounter) -> (r: String)
    ensures
        old(counter).value() != 0 ==> r@ == decimal(old(counter).value() as nat),
        old(counter).value() != 0 ==> final(counter).value() == serial_next(old(counter).value()),
        exists|n: u64|
            #![trigger serial_next(n)]
            r@ == decimal(n as nat) && final(counter).value() == serial_next(n) && (old(
                counter,
            ).value() != 0 ==> n == old(counter).value())
                && (old(counter).value() == 0 ==> n <= u64::MAX / 1000),
{
    let secs = unix_time_millis() / 1000;
    let n = counter.advance(secs);
    u64_to_decimal(n)
}

/// Whether `c` is an ASCII decimal digit.
pub open spec fn is_digit_char(c: char) -> bool {
    '0' <= c && c <= '9'
}

/// The year part of a `p_sd_date`: four digits, or a sign and at least
/// four digits (chrono's `%Y` outside the years 0 to 9999).
pub open spec fn is_year_text(y: Seq<char>) -> bool {
    ||| y.len() == 4 && forall|i: int| 0 <= i < 4 ==> is_digit_char(#[trigger] y[i])
    ||| y.len() >= 5 && (y[0] == '+' || y[0] == '-') && forall|i: int|
        1 <= i < y.len() ==> is_digit_char(#[trigger] y[i])
}

/// Character `i` of the 19 that follow the year in a `p_sd_date`:
/// `.MM.DD-hh:mm:ss.sss`.
pub open spec fn is_date_tail_char(i: int, c: char) -> bool {
    if i == 0 || i == 3 || i == 15 {
        c == '.'
    } else if i == 6 {
        c == '-'
    } else if i == 9 || i == 12 {
        c == ':'
    } else {
        is_digit_char(c)
    }
}

/// Text in the form `YYYY.MM.DD-hh:mm:ss.sss`.
pub open spec fn is_p_sd_date_text(s: Seq<char>) -> bool {
    &&& s.len() >= 23
    &&& is_year_text(s.take(s.len() - 19))
    &&& forall|i: int| 0 <= i < 19 ==> #[trigger] is_date_tail_char(i, s[s.len() - 19 + i])
}

/// The local time as the API's `p_sd_date`: chrono's `Local::now()`
/// formatted with `%Y.%m.%d-%H:%M:%S%.3f`.  chrono writes the month, day,
/// hour, minute and second as two digits (a leap second as `60`) and the
/// milliseconds as three, and the year as four digits, with a sign outside
/// the years 0 to 9999; which time it is depends on the clock and the
/// machine's time zone and is not stated.
#[verifier::external_body]
fn current_p_sd_date() -> (r: String)
    ensures
        is_p_sd_date_text(r@),
{
    chrono::Local::now().format("%Y.%m.%d-%H:%M:%S%.3f").to_string()
}

// ── Errors ──────────────────────────────────────────────────────────────────

/// Failures that the protocol logic itself detects.
#[derive(Debug, Clone, PartialEq, Eq)]
pub enum TachibanaError {
    /// Login refused; the text carries the code and the server's message.
    LoginFailed(String),
    /// Unread notices block the session: no virtual URLs were issued.
    UnreadNotices,
    /// A business API reported an error code.
    ApiError { code: String, message: String },
}

/// Whether a result code means success: empty or `"0"`.
pub open spec fn is_ok_code(code: Seq<char>) -> bool {
    code.len() == 0 || code == "0"@
}

fn ok_code(code: &String) -> (r: bool)
    ensures
        r == is_ok_code(code@),
{
    code.as_str().is_empty() || text_eq(code.as_str(), "0")
}

fn joined_message(code: &String, label: &str, text: &String) -> (r: String)
    ensures
        r@ == "code="@ + code@ + label@ + text@,
{
    let mut s = owned("code=");
    s.append(code.as_str());
    s.append(label);
    s.append(text.as_str());
    s
}

/// The verdict on a saved session from the reply to a probe request: only
/// a `p_errno` of `"0"` or empty keeps the session; any other code (`"2"`
/// is expiry) is an error carrying the code and `p_err`.
pub fn validate_session_reply(p_errno: String, p_err: String) -> (r: Result<(), TachibanaError>)
    ensures
        is_ok_code(p_errno@) ==> r is Ok,
        !is_ok_code(p_errno@) ==> r == Err::<(), TachibanaError>(
            TachibanaError::ApiError { code: p_errno, message: p_err },
        ),
{
    if ok_code(&p_errno) {
        Ok(())
    } else {
        Err(TachibanaError::ApiError { code: p_errno, message: p_err })
    }
}

// ── Session and login ───────────────────────────────────────────────────────

/// Virtual URLs of a logged-in session (valid for one day).
#[derive(Debug, Clone)]
pub struct TachibanaSession {
    pub url_request: String,
    pub url_master: String,
    pub url_price: String,
    pub url_event: String,
    pub url_event_ws: String,
}

impl TachibanaSession {
    /// A copy of the session.
    pub fn duplicate(&self) -> (r: Self)
        ensures
            r == *self,
    {
        TachibanaSession {
            url_request: self.url_request.clone(),
            url_master: self.url_master.clone(),
            url_price: self.url_price.clone(),
            url_event: self.url_event.clone(),
            url_event_ws: self.url_event_ws.clone(),
        }
    }

    /// The session a login reply grants.  Checked in order: a non-success
    /// `p_errno` (`LoginFailed("code={p_errno}, p_err={p_err}")`), a
    /// non-success result code (`LoginFailed("code={code}, message={text}")`),
    /// the unread-notice flag `"1"` (`UnreadNotices`); otherwise the URLs.
    pub fn try_from(resp: LoginResponse) -> (r: Result<TachibanaSession, TachibanaError>)
        ensures
            !is_ok_code(resp.p_errno@) ==> (r matches Err(TachibanaError::LoginFailed(m)) && m@
                == "code="@ + resp.p_errno@ + ", p_err="@ + resp.p_err@),
            is_ok_code(resp.p_errno@) && !is_ok_code(resp.result_code@) ==> (r matches Err(
                TachibanaError::LoginFailed(m),
            ) && m@ == "code="@ + resp.result_code@ + ", message="@ + resp.result_text@),
            is_ok_code(resp.p_errno@) && is_ok_code(resp.result_code@) && resp.unread_notice_flag@
                == "1"@ ==> r matches Err(TachibanaError::UnreadNotices),
            is_ok_code(resp.p_errno@) && is_ok_code(resp.result_code@) && resp.unread_notice_flag@
                != "1"@ ==> (r matches Ok(s) && s.url_request == resp.url_request && s.url_master
                == resp.url_master && s.url_price == resp.url_price && s.url_event == resp.url_event
                && s.url_event_ws == resp.url_event_ws),
    {
        if !ok_code(&resp.p_errno) {
            return Err(TachibanaError::LoginFailed(joined_message(&resp.p_errno, ", p_err=", &resp.p_err)));
        }
        if !ok_code(&resp.result_code) {
            return Err(
                TachibanaError::LoginFailed(
                    joined_message(&resp.result_code, ", message=", &resp.result_text),
                ),
            );
        }
        if text_eq(resp.unread_notice_flag.as_str(), "1") {
            return Err(TachibanaError::UnreadNotices);
        }
        Ok(
            TachibanaSession {
                url_request: resp.url_request,
                url_master: resp.url_master,
                url_price: resp.url_price,
                url_event: resp.url_event,
                url_event_ws: resp.url_event_ws,
            },
        )
    }
}

/// Login request (`CLMAuthLoginRequest`); `json_ofmt` `"5"` asks for named
/// fields in the reply.
#[derive(Debug)]
pub struct LoginRequest {
    pub p_no: String,
    pub p_sd_date: String,
    pub clm_id: &'static str,
    pub user_id: String,
    pub password: String,
    pub json_ofmt: &'static str,
}

impl LoginRequest {
    /// A login request numbered from `counter`.
    pub fn new(counter: &mut RequestCounter, user_id: String, password: String) -> (r: Self)
        ensures
            is_p_sd_date_text(r.p_sd_date@),
            r.clm_id@ == "CLMAuthLoginRequest"@,
            r.json_ofmt@ == "5"@,
            r.user_id == user_id,
            r.password == password,
            old(counter).value() != 0 ==> r.p_no@ == decimal(old(counter).value() as nat),
            exists|n: u64|
                #![trigger serial_next(n)]
                r.p_no@ == decimal(n as nat) && final(counter).value() == serial_next(n) && (old(
                    counter,
                ).value() != 0 ==> n == old(counter).value())
                    && (old(counter).value() == 0 ==> n <= u64::MAX / 1000),
    {
        let p_no = next_p_no(counter);
        LoginRequest {
            p_no,
            p_sd_date: current_p_sd_date(),
            clm_id: "CLMAuthLoginRequest",
            user_id,
            password,
            json_ofmt: "5",
        }
    }
}

/// Bytes that URL encoding leaves as they are: ASCII letters, digits and
/// `-`, `.`, `_`, `~`.
pub open spec fn is_unreserved(b: u8) -> bool {
    (48 <= b <= 57) || (65 <= b <= 90) || (97 <= b <= 122) || b == 45 || b == 46 || b == 95 || b
        == 126
}

/// Upper-case hexadecimal digit of `d` (0..=15).
pub open spec fn hex_upper(d: u8) -> char {
    if d < 10 {
        (48 + d) as char
    } else {
        (55 + d) as char
    }
}

/// Percent-encoding of a byte string: unreserved bytes stay, every other
/// byte becomes `%` and two upper-case hex digits.
pub open spec fn percent_encode(b: Seq<u8>) -> Seq<char>
    decreases b.len(),
{
    if b.len() == 0 {
        Seq::empty()
    } else {
        let x = b[0];
        let head = if is_unreserved(x) {
            seq![x as char]
        } else {
            seq!['%', hex_upper(x / 16), hex_upper(x % 16)]
        };
        head + percent_encode(b.drop_first())
    }
}

/// `urlencoding::encode`: the crate documents it as percent-encoding every
/// byte of the UTF-8 text except alphanumerics and `-`, `_`, `.`, `~`, with
/// upper-case hex digits.
#[verifier::external_body]
fn url_encode(s: &str) -> (r: String)
    ensures
        r@ == percent_encode(bytes_of(s@)),
{
    urlencoding::encode(s).into_owned()
}

/// The login request sent for a user: the password is URL-encoded.
pub fn build_login_request(counter: &mut RequestCounter, user_id: String, password: &str) -> (r:
    LoginRequest)
    ensures
        r.clm_id@ == "CLMAuthLoginRequest"@,
        r.json_ofmt@ == "5"@,
        r.user_id == user_id,
        r.password@ == percent_encode(bytes_of(password@)),
        old(counter).value() != 0 ==> r.p_no@ == decimal(old(counter).value() as nat),
        exists|n: u64|
            #![trigger serial_next(n)]
            r.p_no@ == decimal(n as nat) && final(counter).value() == serial_next(n) && (old(
                counter,
            ).value() != 0 ==> n == old(counter).value())
                && (old(counter).value() == 0 ==> n <= u64::MAX / 1000),
{
    let encoded = url_encode(password);
    LoginRequest::new(counter, user_id, encoded)
}

/// Base URL of the production environment.
pub const BASE_URL_PROD: &'static str = "https://kabuka.e-shiten.jp/e_api_v4r8/";

/// Base URL of the demo environment.
pub const BASE_URL_DEMO: &'static str = "https://demo-kabuka.e-shiten.jp/e_api_v4r8/";

/// Path of the authentication endpoint under a base URL.
pub const AUTH_PATH: &'static str = "auth/";

/// URL of the authentication endpoint.
pub fn auth_url(base_url: &str) -> (r: String)
    ensures
        r@ == base_url@ + "auth/"@,
{
    let mut s = owned(base_url);
    s.append(AUTH_PATH);
    s
}

/// Reply to a login (`CLMAuthLoginAck`).
#[derive(Debug, Clone)]
pub struct LoginResponse {
    pub clm_id: String,
    pub p_errno: String,
    pub p_err: String,
    pub result_code: String,
    pub url_request: String,
    pub url_master: String,
    pub url_price: String,
    pub url_event: String,
    pub url_event_ws: String,
    pub unread_notice_flag: String,
    pub result_text: String,
}

// ── Response decoding ───────────────────────────────────────────────────────

/// Whether every byte is ASCII (below 0x80).
pub open spec fn is_ascii_bytes(b: Seq<u8>) -> bool {
    forall|i: int| 0 <= i < b.len() ==> #[trigger] b[i] < 0x80
}

/// The characters of ASCII bytes.
pub open spec fn ascii_text(b: Seq<u8>) -> Seq<char> {
    b.map_values(|x: u8| x as char)
}

/// Text that `encoding_rs::SHIFT_JIS.decode` gives for a byte string, and
/// whether it replaced malformed sequences.
pub uninterp spec fn shift_jis_decode(bytes: Seq<u8>) -> (Seq<char>, bool);

/// `encoding_rs::SHIFT_JIS.decode` (with its BOM sniffing) and the text made
/// owned.  The crate documents Shift_JIS as ASCII-compatible (bytes
/// 0x00..=0x7F map to U+0000..=U+007F) and ASCII-only input as decoded
/// without change; that much is stated, the rest is named.
#[verifier::external_body]
fn decode_shift_jis(bytes: &[u8]) -> (r: (String, bool))
    ensures
        (r.0@, r.1) == shift_jis_decode(bytes@),
        is_ascii_bytes(bytes@) ==> r.0@ == ascii_text(bytes@) && !r.1,
{
    let (text, _, had_errors) = encoding_rs::SHIFT_JIS.decode(bytes);
    (text.into_owned(), had_errors)
}

/// Text of an API reply body, which the API sends in Shift_JIS, and whether
/// malformed sequences had to be replaced.
pub fn decode_response_body(bytes: &[u8]) -> (r: (String, bool))
    ensures
        (r.0@, r.1) == shift_jis_decode(bytes@),
        is_ascii_bytes(bytes@) ==> r.0@ == ascii_text(bytes@) && !r.1,
{
    decode_shift_jis(bytes)
}

// ── URL building ────────────────────────────────────────────────────────────

/// An API URL: the JSON query follows the base URL after a `?`.
pub fn build_api_url(base_url: &str, json_query: &str) -> (r: String)
    ensures
        r@ == base_url@ + "?"@ + json_query@,
{
    let mut s = owned(base_url);
    s.append("?");
    s.append(json_query);
    s
}

// ── Market data requests ────────────────────────────────────────────────────

/// Texts joined with `,` between them.
pub open spec fn join_comma(parts: Seq<Seq<char>>) -> Seq<char>
    decreases parts.len(),
{
    if parts.len() == 0 {
        Seq::empty()
    } else if parts.len() == 1 {
        parts[0]
    } else {
        join_comma(parts.drop_last()) + ","@ + parts.last()
    }
}

fn join_with_comma(parts: &[&str]) -> (r: String)
    ensures
        r@ == join_comma(parts@.map_values(|p: &str| p@)),
{
    let ghost views = parts@.map_values(|p: &str| p@);
    let mut s = String::new();
    let n = parts.len();
    let mut i: usize = 0;
    while i < n
        invariant
            n == parts@.len(),
            i <= n,
            views == parts@.map_values(|p: &str| p@),
            s@ == join_comma(views.take(i as int)),
        decreases n - i,
    {
        assert(views.take(i + 1).drop_last() =~= views.take(i as int));
        if i > 0 {
            s.append(",");
        } else {
            assert(views.take(1) =~= seq![views[0]]);
        }
        s.append(parts[i]);
        i = i + 1;
    }
    assert(views.take(n as int) =~= views);
    s
}

/// Snapshot price request (`CLMMfdsGetMarketPrice`), up to 120 issues.
#[derive(Debug)]
pub struct MarketPriceRequest {
    pub p_no: String,
    pub p_sd_date: String,
    pub clm_id: &'static str,
    pub target_issue_codes: String,
    pub target_columns: String,
    pub json_ofmt: &'static str,
}

/// Default columns: last price, open, high, low, volume, previous close.
pub const DEFAULT_COLUMNS: &'static str = "pDPP,pDOP,pDHP,pDLP,pDV,pPRP";

impl MarketPriceRequest {
    /// A snapshot request for the given issue codes, numbered from `counter`.
    pub fn new(counter: &mut RequestCounter, issue_codes: &[&str]) -> (r: Self)
        ensures
            is_p_sd_date_text(r.p_sd_date@),
            r.clm_id@ == "CLMMfdsGetMarketPrice"@,
            r.json_ofmt@ == "5"@,
            r.target_issue_codes@ == join_comma(issue_codes@.map_values(|p: &str| p@)),
            r.target_columns@ == "pDPP,pDOP,pDHP,pDLP,pDV,pPRP"@,
            old(counter).value() != 0 ==> r.p_no@ == decimal(old(counter).value() as nat),
            exists|n: u64|
                #![trigger serial_next(n)]
                r.p_no@ == decimal(n as nat) && final(counter).value() == serial_next(n) && (old(
                    counter,
                ).value() != 0 ==> n == old(counter).value())
                    && (old(counter).value() == 0 ==> n <= u64::MAX / 1000),
    {
        let p_no = next_p_no(counter);
        MarketPriceRequest {
            p_no,
            p_sd_date: current_p_sd_date(),
            clm_id: "CLMMfdsGetMarketPrice",
            target_issue_codes: join_with_comma(issue_codes),
            target_columns: owned(DEFAULT_COLUMNS),
            json_ofmt: "5",
        }
    }
}

/// One issue's price snapshot; every value is text, `"*"` meaning absent.
#[derive(Debug, Clone)]
pub struct MarketPriceRecord {
    pub issue_code: String,
    pub current_price: String,
    pub open: String,
    pub high: String,
    pub low: String,
    pub volume: String,
    pub prev_close: String,
}

impl MarketPriceRecord {
    /// A copy of the record.
    pub fn duplicate(&self) -> (r: Self)
        ensures
            r == *self,
    {
        MarketPriceRecord {
            issue_code: self.issue_code.clone(),
            current_price: self.current_price.clone(),
            open: self.open.clone(),
            high: self.high.clone(),
            low: self.low.clone(),
            volume: self.volume.clone(),
            prev_close: self.prev_close.clone(),
        }
    }
}

/// Reply to a snapshot request.
#[derive(Debug, Clone)]
pub struct MarketPriceResponse {
    pub records: Vec<MarketPriceRecord>,
}

/// Market code of the Tokyo Stock Exchange.
pub const TSE_MARKET_CODE: &'static str = "00";

/// Daily history request (`CLMMfdsGetMarketPriceHistory`), one issue.
#[derive(Debug)]
pub struct DailyHistoryRequest {
    pub p_no: String,
    pub p_sd_date: String,
    pub clm_id: &'static str,
    pub issue_code: String,
    pub market_code: String,
    pub json_ofmt: &'static str,
}

impl DailyHistoryRequest {
    /// A history request for one issue on the Tokyo Stock Exchange.
    pub fn new(counter: &mut RequestCounter, issue_code: &str) -> (r: Self)
        ensures
            is_p_sd_date_text(r.p_sd_date@),
            r.clm_id@ == "CLMMfdsGetMarketPriceHistory"@,
            r.json_ofmt@ == "5"@,
            r.issue_code@ == issue_code@,
            r.market_code@ == "00"@,
            old(counter).value() != 0 ==> r.p_no@ == decimal(old(counter).value() as nat),
            exists|n: u64|
                #![trigger serial_next(n)]
                r.p_no@ == decimal(n as nat) && final(counter).value() == serial_next(n) && (old(
                    counter,
                ).value() != 0 ==> n == old(counter).value())
                    && (old(counter).value() == 0 ==> n <= u64::MAX / 1000),
    {
        let p_no = next_p_no(counter);
        DailyHistoryRequest {
            p_no,
            p_sd_date: current_p_sd_date(),
            clm_id: "CLMMfdsGetMarketPriceHistory",
            issue_code: owned(issue_code),
            market_code: owned(TSE_MARKET_CODE),
            json_ofmt: "5",
        }
    }
}

/// Reply to a daily history request.
#[derive(Debug, Clone)]
pub struct DailyHistoryResponse {
    pub records: Vec<crate::market::DailyHistoryRecord>,
}

/// Master download request (`CLMEventDownload`); `json_ofmt` `"4"`.
#[derive(Debug)]
pub struct MasterDownloadRequest {
    pub p_no: String,
    pub p_sd_date: String,
    pub clm_id: &'static str,
    pub json_ofmt: &'static str,
}

impl MasterDownloadRequest {
    /// A master download request numbered from `counter`.
    pub fn new(counter: &mut RequestCounter) -> (r: Self)
        ensures
            is_p_sd_date_text(r.p_sd_date@),
            r.clm_id@ == "CLMEventDownload"@,
            r.json_ofmt@ == "4"@,
            old(counter).value() != 0 ==> r.p_no@ == decimal(old(counter).value() as nat),
            exists|n: u64|
                #![trigger serial_next(n)]
                r.p_no@ == decimal(n as nat) && final(counter).value() == serial_next(n) && (old(
                    counter,
                ).value() != 0 ==> n == old(counter).value())
                    && (old(counter).value() == 0 ==> n <= u64::MAX / 1000),
    {
        let p_no = next_p_no(counter);
        MasterDownloadRequest {
            p_no,
            p_sd_date: current_p_sd_date(),
            clm_id: "CLMEventDownload",
            json_ofmt: "4",
        }
    }
}

// ── Common result check ─────────────────────────────────────────────────────

/// A business API reply: the common error fields and the payload.
#[derive(Debug, Clone)]
pub struct ApiResponse<T> {
    pub p_errno: String,
    pub p_err: String,
    pub result_code: String,
    pub result_text: String,
    pub data: T,
}

impl<T> ApiResponse<T> {
    /// The payload when both codes mean success; otherwise the first failing
    /// code (`p_errno` before the result code) with its message.
    pub fn check(self) -> (r: Result<T, TachibanaError>)
        ensures
            !is_ok_code(self.p_errno@) ==> (r matches Err(TachibanaError::ApiError { code, message })
                && code == self.p_errno && message == self.p_err),
            is_ok_code(self.p_errno@) && !is_ok_code(self.result_code@) ==> (r matches Err(
                TachibanaError::ApiError { code, message },
            ) && code == self.result_code && message == self.result_text),
            is_ok_code(self.p_errno@) && is_ok_code(self.result_code@) ==> r == Ok::<
                T,
                TachibanaError,
            >(self.data),
    {
        if !ok_code(&self.p_errno) {
            return Err(TachibanaError::ApiError { code: self.p_errno, message: self.p_err });
        }
        if !ok_code(&self.result_code) {
            return Err(
                TachibanaError::ApiError { code: self.result_code, message: self.result_text },
            );
        }
        Ok(self.data)
    }
}

} // verus!
