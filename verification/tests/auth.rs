use flowsurface::auth::{SessionStore, base_url, clear_session, get_session, store_session};
use flowsurface::event::EventUrls;
use flowsurface::tachibana::{BASE_URL_DEMO, BASE_URL_PROD, TachibanaSession};

fn session() -> TachibanaSession {
    TachibanaSession {
        url_request: "https://req.test/".to_string(),
        url_master: "https://master.test/".to_string(),
        url_price: "https://price.test/".to_string(),
        url_event: "https://event.test/".to_string(),
        url_event_ws: "wss://ws.test/".to_string(),
    }
}

#[test]
fn base_url_returns_demo_url_when_is_demo_true() {
    assert_eq!(base_url(true), BASE_URL_DEMO);
}

#[test]
fn base_url_returns_prod_url_when_is_demo_false() {
    assert_eq!(base_url(false), BASE_URL_PROD);
}

#[test]
fn base_urls_are_the_api_endpoints() {
    assert_eq!(base_url(true), "https://demo-kabuka.e-shiten.jp/e_api_v4r8/");
    assert_eq!(base_url(false), "https://kabuka.e-shiten.jp/e_api_v4r8/");
}

#[test]
fn get_session_returns_none_when_no_session_stored() {
    let mut store = SessionStore::new();
    clear_session(&mut store);
    assert!(get_session(&store).is_none());
}

#[test]
fn store_session_makes_get_session_return_stored_value() {
    let mut store = SessionStore::new();
    let mut urls = EventUrls::new();
    clear_session(&mut store);
    store_session(&mut store, &mut urls, session());
    let retrieved = get_session(&store).expect("session stored");
    assert_eq!(retrieved.url_price, "https://price.test/");
    clear_session(&mut store);
}

#[test]
fn store_session_sets_event_urls() {
    let mut store = SessionStore::new();
    let mut urls = EventUrls::new();
    store_session(&mut store, &mut urls, session());
    assert_eq!(urls.get_event_ws_url().unwrap(), "wss://ws.test/");
    assert_eq!(urls.get_event_http_url().unwrap(), "https://event.test/");
}

#[test]
fn clear_session_removes_stored_session() {
    let mut store = SessionStore::new();
    let mut urls = EventUrls::new();
    store_session(&mut store, &mut urls, session());
    clear_session(&mut store);
    assert!(get_session(&store).is_none());
}
