//! Boundary types of the agent replay API: the client-chosen order id, the
//! millisecond timestamp and the structured ticker.

use vstd::prelude::*;
use core::num::TryFromIntError;

verus! {

// ── ClientOrderId ───────────────────────────────────────────────────────────

/// Characters allowed in a client order id: `[A-Za-z0-9_-]`.
pub open spec fn is_id_char(c: char) -> bool {
    ('a' <= c && c <= 'z') || ('A' <= c && c <= 'Z') || ('0' <= c && c <= '9') || c == '_' || c
        == '-'
}

/// Whether `s` is an acceptable client order id: 1 to 64 characters, every
/// character in `[A-Za-z0-9_-]`.
pub open spec fn is_valid_client_order_id(s: Seq<char>) -> bool {
    &&& 1 <= s.len() <= 64
    &&& forall|i: int| 0 <= i < s.len() ==> #[trigger] is_id_char(s[i])
}

/// `c` is the first character of `s` outside the id alphabet.
pub open spec fn is_first_bad_char(s: Seq<char>, c: char) -> bool {
    exists|i: int|
        0 <= i < s.len() && s[i] == c && !is_id_char(c) && (forall|j: int|
            0 <= j < i ==> #[trigger] is_id_char(s[j]))
}

/// Why a client order id was refused.
#[derive(Debug, Clone, Copy, PartialEq, Eq)]
pub enum ClientOrderIdError {
    /// The length in characters (given) is outside 1..=64.
    InvalidLength(usize),
    /// The first character outside `[A-Za-z0-9_-]`.
    InvalidCharacter(char),
}

/// Client-assigned order id used for order idempotency.
#[derive(Debug, PartialEq, Eq, Hash)]
pub struct ClientOrderId(String);

impl Clone for ClientOrderId {
    fn clone(&self) -> (r: Self)
        ensures
            r@ == self@,
    {
        self.duplicate()
    }
}

impl View for ClientOrderId {
    type V = Seq<char>;

    closed spec fn view(&self) -> Seq<char> {
        self.0@
    }
}

impl ClientOrderId {
    /// The id text is always a valid client order id.
    #[verifier::type_invariant]
    pub open spec fn wf(&self) -> bool {
        is_valid_client_order_id(self@)
    }

    /// Checks `value` and wraps it.  The length test comes first, then the
    /// character test, which reports the first offending character.
    pub fn new(value: &str) -> (r: Result<Self, ClientOrderIdError>)
        ensures
            r is Ok <==> is_valid_client_order_id(value@),
            r matches Ok(id) ==> id@ == value@,
            r matches Err(ClientOrderIdError::InvalidLength(n)) ==> n == value@.len() && !(1
                <= value@.len() <= 64),
            r matches Err(ClientOrderIdError::InvalidCharacter(c)) ==> 1 <= value@.len() <= 64
                && is_first_bad_char(value@, c),
            !(1 <= value@.len() <= 64) ==> r is Err && r->Err_0 is InvalidLength,
    {
        match Self::validate(value) {
            Ok(()) => Ok(ClientOrderId(String::from_str(value))),
            Err(e) => Err(e),
        }
    }

    /// A copy of the id.
    pub fn duplicate(&self) -> (r: Self)
        ensures
            r@ == self@,
    {
        proof {
            use_type_invariant(self);
        }
        ClientOrderId(self.0.clone())
    }

    /// The id text.
    pub fn as_str(&self) -> (r: &str)
        ensures
            r@ == self@,
    {
        self.0.as_str()
    }

    fn validate(value: &str) -> (r: Result<(), ClientOrderIdError>)
        ensures
            r is Ok <==> is_valid_client_order_id(value@),
            r matches Err(ClientOrderIdError::InvalidLength(n)) ==> n == value@.len() && !(1
                <= value@.len() <= 64),
            r matches Err(ClientOrderIdError::InvalidCharacter(c)) ==> 1 <= value@.len() <= 64
                && is_first_bad_char(value@, c),
            !(1 <= value@.len() <= 64) ==> r is Err && r->Err_0 is InvalidLength,
    {
        let n = value.unicode_len();
        if n == 0 || n > 64 {
            return Err(ClientOrderIdError::InvalidLength(n));
        }
        let mut i: usize = 0;
        while i < n
            invariant
                n == value@.len(),
                i <= n,
                1 <= value@.len() <= 64,
                forall|j: int| 0 <= j < i ==> #[trigger] is_id_char(value@[j]),
            decreases n - i,
        {
            let c = value.get_char(i);
            if !(('a' <= c && c <= 'z') || ('A' <= c && c <= 'Z') || ('0' <= c && c <= '9') || c
                == '_' || c == '-') {
                assert(is_first_bad_char(value@, c)) by {
                    assert(value@[i as int] == c);
                }
                return Err(ClientOrderIdError::InvalidCharacter(c));
            }
            i = i + 1;
        }
        Ok(())
    }
}

// ── EpochMs ─────────────────────────────────────────────────────────────────

/// Unix time in milliseconds at the agent API boundary.
#[derive(Debug, Clone, Copy, PartialEq, Eq, PartialOrd, Ord, Hash, Structural)]
pub struct EpochMs(pub u64);

/// `i64::try_from(u64)`: std documents that the conversion fails exactly when
/// the value is outside the target type's range, and otherwise keeps the value.
pub assume_specification[ <i64 as TryFrom<u64>>::try_from ](a: u64) -> (r: Result<i64, <i64 as TryFrom<u64>>::Error>)
    ensures
        r is Ok <==> a <= i64::MAX,
        r matches Ok(v) ==> v == a,
;

impl EpochMs {
    /// Wraps a millisecond count.
    pub fn new(ms: u64) -> (r: Self)
        ensures
            r.0 == ms,
    {
        EpochMs(ms)
    }

    /// The millisecond count.
    pub fn as_u64(self) -> (r: u64)
        ensures
            r == self.0,
    {
        self.0
    }

    /// The millisecond count as `i64`; an error when it exceeds `i64::MAX`
    /// (no silent wrap to a negative value).
    pub fn try_as_i64(self) -> (r: Result<i64, <i64 as TryFrom<u64>>::Error>)
        ensures
            self.0 <= i64::MAX ==> r == Ok::<i64, TryFromIntError>(self.0 as i64),
            self.0 > i64::MAX ==> r is Err,
    {
        i64::try_from(self.0)
    }
}

impl From<u64> for EpochMs {
    fn from(ms: u64) -> (r: Self) {
        EpochMs(ms)
    }
}

impl vstd::std_specs::convert::FromSpecImpl<u64> for EpochMs {
    open spec fn obeys_from_spec() -> bool {
        true
    }

    open spec fn from_spec(ms: u64) -> Self {
        EpochMs(ms)
    }
}

// ── TickerContract ──────────────────────────────────────────────────────────

/// A ticker as exchange name plus symbol.
#[derive(Debug, Clone, PartialEq, Eq, Hash)]
pub struct TickerContract {
    pub exchange: String,
    pub symbol: String,
}

/// Why a ticker object was refused when read from a request.
#[derive(Debug, Clone, Copy, PartialEq, Eq)]
pub enum TickerContractError {
    MissingExchange,
    MissingSymbol,
    EmptyExchange,
    EmptySymbol,
}

impl TickerContractError {
    /// The error's text, naming the field at fault.
    pub fn message(&self) -> (r: String)
        ensures
            r@ == match *self {
                TickerContractError::MissingExchange => "missing field `exchange`"@,
                TickerContractError::MissingSymbol => "missing field `symbol`"@,
                TickerContractError::EmptyExchange => "ticker.exchange must not be empty"@,
                TickerContractError::EmptySymbol => "ticker.symbol must not be empty"@,
            },
    {
        match self {
            TickerContractError::MissingExchange => String::from_str("missing field `exchange`"),
            TickerContractError::MissingSymbol => String::from_str("missing field `symbol`"),
            TickerContractError::EmptyExchange => String::from_str("ticker.exchange must not be empty"),
            TickerContractError::EmptySymbol => String::from_str("ticker.symbol must not be empty"),
        }
    }
}

impl TickerContract {
    /// Builds a ticker from its two parts.
    pub fn new(exchange: &str, symbol: &str) -> (r: Self)
        ensures
            r.exchange@ == exchange@,
            r.symbol@ == symbol@,
    {
        TickerContract { exchange: String::from_str(exchange), symbol: String::from_str(symbol) }
    }

    /// Assembles a ticker from the fields read out of a request object: both
    /// must be present (exchange checked first) and both non-empty (exchange
    /// checked first).
    pub fn from_fields(exchange: Option<String>, symbol: Option<String>) -> (r: Result<
        Self,
        TickerContractError,
    >)
        ensures
            exchange is None ==> r == Err::<Self, _>(TickerContractError::MissingExchange),
            exchange is Some && symbol is None ==> r == Err::<Self, _>(
                TickerContractError::MissingSymbol,
            ),
            exchange matches Some(e) && symbol is Some && e@.len() == 0 ==> r == Err::<Self, _>(
                TickerContractError::EmptyExchange,
            ),
            exchange matches Some(e) && symbol matches Some(s) && e@.len() > 0 && s@.len() == 0
                ==> r == Err::<Self, _>(TickerContractError::EmptySymbol),
            r matches Ok(t) ==> exchange matches Some(e) && symbol matches Some(s) && t.exchange
                == e && t.symbol == s && e@.len() > 0 && s@.len() > 0,
            (exchange matches Some(e) && symbol matches Some(s) && e@.len() > 0 && s@.len() > 0)
                ==> r is Ok,
    {
        let exchange = match exchange {
            Some(e) => e,
            None => return Err(TickerContractError::MissingExchange),
        };
        let symbol = match symbol {
            Some(s) => s,
            None => return Err(TickerContractError::MissingSymbol),
        };
        if exchange.as_str().is_empty() {
            return Err(TickerContractError::EmptyExchange);
        }
        if symbol.as_str().is_empty() {
            return Err(TickerContractError::EmptySymbol);
        }
        Ok(TickerContract { exchange, symbol })
    }
}

} // verus!
