//! Persisted application state: the replay settings and the container that
//! gathers the saved window, theme and layout settings.

use vstd::prelude::*;
use crate::text::owned;

verus! {

/// Replay settings as the user last entered them.
#[derive(Debug, Clone)]
pub struct ReplayConfig {
    /// `"live"` or `"replay"`.
    pub mode: String,
    /// Start of the range as typed, e.g. `"2026-04-10 09:00"`.
    pub range_start: String,
    /// End of the range as typed, e.g. `"2026-04-10 15:00"`.
    pub range_end: String,
}

impl Default for ReplayConfig {
    /// Live mode with both range fields empty.
    fn default() -> (r: Self)
        ensures
            r.mode@ == "live"@,
            r.range_start@ == Seq::<char>::empty(),
            r.range_end@ == Seq::<char>::empty(),
    {
        ReplayConfig { mode: owned("live"), range_start: String::new(), range_end: String::new() }
    }
}

/// The saved layouts and the name of the active one.
#[derive(Debug, Clone)]
pub struct Layouts<L> {
    pub layouts: Vec<L>,
    pub active_layout: Option<String>,
}

/// Everything the application saves between runs.  The parameters are the
/// types of the theme, window, time zone, sidebar, scale, audio, size-unit
/// and proxy settings and of a layout.
#[derive(Debug, Clone)]
pub struct State<L, Th, Win, Tz, Sb, Sf, Au, Su, Px> {
    pub layout_manager: Layouts<L>,
    pub selected_theme: Th,
    pub custom_theme: Option<Th>,
    pub main_window: Option<Win>,
    pub timezone: Tz,
    pub sidebar: Sb,
    pub scale_factor: Sf,
    pub audio_cfg: Au,
    pub trade_fetch_enabled: bool,
    pub size_in_quote_ccy: Su,
    pub proxy_cfg: Option<Px>,
    pub replay: ReplayConfig,
}

impl<L, Th, Win, Tz, Sb, Sf, Au, Su, Px> State<L, Th, Win, Tz, Sb, Sf, Au, Su, Px> {
    /// The state made of the given parts, each in its own field; the volume
    /// size unit goes to `size_in_quote_ccy`.
    pub fn from_parts(
        layout_manager: Layouts<L>,
        selected_theme: Th,
        custom_theme: Option<Th>,
        main_window: Option<Win>,
        timezone: Tz,
        sidebar: Sb,
        scale_factor: Sf,
        audio_cfg: Au,
        trade_fetch_enabled: bool,
        volume_size_unit: Su,
        proxy_cfg: Option<Px>,
        replay: ReplayConfig,
    ) -> (r: Self)
        ensures
            r.layout_manager == layout_manager,
            r.selected_theme == selected_theme,
            r.custom_theme == custom_theme,
            r.main_window == main_window,
            r.timezone == timezone,
            r.sidebar == sidebar,
            r.scale_factor == scale_factor,
            r.audio_cfg == audio_cfg,
            r.trade_fetch_enabled == trade_fetch_enabled,
            r.size_in_quote_ccy == volume_size_unit,
            r.proxy_cfg == proxy_cfg,
            r.replay == replay,
    {
        State {
            layout_manager,
            selected_theme,
            custom_theme,
            main_window,
            timezone,
            sidebar,
            scale_factor,
            audio_cfg,
            trade_fetch_enabled,
            size_in_quote_ccy: volume_size_unit,
            proxy_cfg,
            replay,
        }
    }
}

} // verus!
