use flowsurface::state::{Layouts, ReplayConfig, State};

#[test]
fn replay_config_default_is_live_with_empty_strings() {
    let cfg = ReplayConfig::default();
    assert_eq!(cfg.mode, "live");
    assert!(cfg.range_start.is_empty());
    assert!(cfg.range_end.is_empty());
}

#[test]
fn state_from_parts_places_each_part() {
    let replay = ReplayConfig {
        mode: "replay".into(),
        range_start: "2026-04-10 09:00".into(),
        range_end: "2026-04-10 15:00".into(),
    };
    let layouts: Layouts<u8> = Layouts { layouts: vec![1, 2], active_layout: Some("main".into()) };
    let state = State::from_parts(
        layouts,
        "dark",
        Some("custom"),
        Some((800u32, 600u32)),
        "UTC",
        'L',
        1.5f32,
        0.8f64,
        true,
        "quote",
        None::<String>,
        replay,
    );
    assert_eq!(state.layout_manager.layouts, vec![1, 2]);
    assert_eq!(state.layout_manager.active_layout.as_deref(), Some("main"));
    assert_eq!(state.selected_theme, "dark");
    assert_eq!(state.custom_theme, Some("custom"));
    assert_eq!(state.main_window, Some((800, 600)));
    assert_eq!(state.timezone, "UTC");
    assert_eq!(state.sidebar, 'L');
    assert_eq!(state.scale_factor, 1.5);
    assert_eq!(state.audio_cfg, 0.8);
    assert!(state.trade_fetch_enabled);
    assert_eq!(state.size_in_quote_ccy, "quote");
    assert_eq!(state.proxy_cfg, None);
    assert_eq!(state.replay.mode, "replay");
    assert_eq!(state.replay.range_start, "2026-04-10 09:00");
    assert_eq!(state.replay.range_end, "2026-04-10 15:00");
}
