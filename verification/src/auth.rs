//! The session of the logged-in user: which environment to talk to, and the
//! session kept in memory together with the event endpoints it grants.

use vstd::prelude::*;
use crate::event::EventUrls;
use crate::tachibana::{BASE_URL_DEMO, BASE_URL_PROD, TachibanaError, TachibanaSession};
use crate::text::{find_char_from, first_index, owned, substring};

verus! {

/// Base URL of the demo environment when `is_demo`, of production otherwise.
pub fn base_url(is_demo: bool) -> (r: &'static str)
    ensures
        r@ == (if is_demo { BASE_URL_DEMO@ } else { BASE_URL_PROD@ }),
{
    if is_demo {
        BASE_URL_DEMO
    } else {
        BASE_URL_PROD
    }
}

/// The session held in memory, if any.
#[derive(Debug)]
pub struct SessionStore {
    session: Option<TachibanaSession>,
}

impl SessionStore {
    /// The session held, if any.
    pub closed spec fn current(&self) -> Option<TachibanaSession> {
        self.session
    }

    /// A store that holds no session.
    pub fn new() -> (r: Self)
        ensures
            r.current() is None,
    {
        SessionStore { session: None }
    }
}

/// A copy of the stored session, if any.
pub fn get_session(store: &SessionStore) -> (r: Option<TachibanaSession>)
    ensures
        r == store.current(),
{
    match &store.session {
        Some(s) => Some(s.duplicate()),
        None => None,
    }
}

/// Keeps `session` and points the event endpoints at its URLs.
pub fn store_session(store: &mut SessionStore, urls: &mut EventUrls, session: TachibanaSession)
    ensures
        final(store).current() == Some(session),
        final(urls).ws_view() == Some(session.url_event_ws@),
        final(urls).http_view() == Some(session.url_event@),
{
    urls.set_event_ws_url(session.url_event_ws.clone());
    urls.set_event_http_url(session.url_event.clone());
    store.session = Some(session);
}

/// Forgets the stored session.
pub fn clear_session(store: &mut SessionStore)
    ensures
        final(store).current() is None,
{
    store.session = None;
}

/// The key under which the login screen looks up the user-facing text of a
/// login error: `UNREAD_NOTICES` for unread notices; for a refusal whose
/// text starts with `code=`, the code (up to the first comma); the empty
/// key for any other refusal; none for other errors, which show their own
/// text.
pub open spec fn login_error_key_of(err: TachibanaError) -> Option<Seq<char>> {
    match err {
        TachibanaError::UnreadNotices => Some("UNREAD_NOTICES"@),
        TachibanaError::LoginFailed(m) => if m@.len() >= 5 && m@.take(5) == "code="@ {
            let rest = m@.skip(5);
            Some(rest.take(first_index(rest, ',') as int))
        } else {
            Some(Seq::empty())
        },
        TachibanaError::ApiError { .. } => None,
    }
}

/// The lookup key of a login error's user-facing text.
pub fn login_error_key(err: &TachibanaError) -> (r: Option<String>)
    ensures
        r matches Some(k) ==> login_error_key_of(*err) == Some(k@),
        r is None ==> login_error_key_of(*err) is None,
{
    match err {
        TachibanaError::UnreadNotices => Some(owned("UNREAD_NOTICES")),
        TachibanaError::LoginFailed(m) => {
            let text = m.as_str();
            let n = text.unicode_len();
            if n >= 5 {
                let head = substring(text, 0, 5);
                if crate::text::text_eq(head.as_str(), "code=") {
                    let k = find_char_from(text, 5, ',');
                    let code = substring(text, 5, k);
                    proof {
                        assert(head@ =~= m@.take(5));
                        assert(code@ =~= m@.skip(5).take(first_index(m@.skip(5), ',') as int));
                    }
                    return Some(code);
                }
                proof {
                    assert(head@ =~= m@.take(5));
                }
            }
            Some(String::new())
        },
        TachibanaError::ApiError { .. } => None,
    }
}

} // verus!
