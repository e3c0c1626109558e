//! The settings window's model: the wallpaper history and queue, the
//! countdown, the interval fields and the settings, and how each message
//! changes them. The window itself, the downloads and the fetches are run by
//! the application, which performs the [`Effect`] each update asks for.

use std::collections::VecDeque;
use vstd::prelude::*;

use crate::config::{ConfigView, PaperyConfig};
use crate::rng;
use crate::scheduler::SchedulerEvent;
use crate::text::{
    clone_strings, decimal, parse_u64, parse_unsigned, position_of_string, seq_views, string_of,
    u64_to_string,
};
use crate::tray::TrayAction;
use crate::wallpaper::{
    clone_wallpaper, enabled_providers, enabled_providers_of, provider_view, views_of, Provider,
    ProviderView, WallpaperInfo, WallpaperView,
};

verus! {

broadcast use vstd::seq_lib::group_seq_properties;

/// Start-up flags of the settings window (it takes none).
#[derive(Debug, Clone, Copy)]
pub struct PaperyFlags;

/// The status line under the window's header.
pub enum Status {
    /// No source is enabled.
    NoSources,
    /// A message to show as it is.
    Text(String),
}

pub enum StatusView {
    NoSources,
    Text(Seq<char>),
}

pub open spec fn status_view(s: Status) -> StatusView {
    match s {
        Status::NoSources => StatusView::NoSources,
        Status::Text(t) => StatusView::Text(t@),
    }
}

/// What the window's model is told.
pub enum AppMessage {
    NextWallpaper,
    PreviousWallpaper,
    TogglePause,
    SetWallpaperFromHistory(usize),
    ToggleFavorite(usize),
    TimerTick(SchedulerEvent),
    /// The wallpapers a fetch brought, or why it brought none.
    WallpapersFetched(Result<Vec<WallpaperInfo>, String>),
    /// A downloaded wallpaper (with its local path), or why the download failed.
    WallpaperReady(Result<WallpaperInfo, String>),
    /// A download was skipped (`Ok`) or failed.
    WallpaperSet(Result<(), String>),
    ConfigChanged(PaperyConfig),
    ToggleSourceBing,
    ToggleSourceNasa,
    ToggleSourceWallhaven,
    ToggleSourceEarthView,
    ToggleSourceLocal,
    SetRotationInterval(u64),
    SetIntervalHours(String),
    SetIntervalMinutes(String),
    SetIntervalSeconds(String),
    SetScalingMode(String),
    SetThemeFilter(String),
    FetchMore,
    Tray(TrayAction),
}

/// The outside work an update asks for.
pub enum Effect {
    Nothing,
    /// Set the file `path` as the wallpaper with the configured scaling;
    /// when `report` holds, a failure goes to the status line.
    Apply { path: String, report: bool },
    /// Download the wallpaper (and filter it by theme), then report back
    /// with `WallpaperReady` (or `WallpaperSet(Ok(()))` when filtered out).
    Download(WallpaperInfo),
    /// Fetch a few wallpapers from each source, shuffled, and report back
    /// with `WallpapersFetched`.
    Fetch(Vec<Provider>),
    /// Leave the program.
    Exit,
}

pub enum EffectView {
    Nothing,
    Apply { path: Seq<char>, report: bool },
    Download(WallpaperView),
    Fetch(Seq<ProviderView>),
    Exit,
}

pub open spec fn effect_view(e: Effect) -> EffectView {
    match e {
        Effect::Nothing => EffectView::Nothing,
        Effect::Apply { path, report } => EffectView::Apply { path: path@, report },
        Effect::Download(w) => EffectView::Download(w@),
        Effect::Fetch(ps) => EffectView::Fetch(ps@.map_values(|p: Provider| provider_view(p))),
        Effect::Exit => EffectView::Exit,
    }
}

/// The result of an update: the outside work, whether the settings are to
/// be written, and the new value of the tray's pause flag when it changes.
pub struct Outcome {
    pub effect: Effect,
    pub save_config: bool,
    pub tray_paused: Option<bool>,
}

pub struct OutcomeView {
    pub effect: EffectView,
    pub save_config: bool,
    pub tray_paused: Option<bool>,
}

pub open spec fn outcome_view(o: Outcome) -> OutcomeView {
    OutcomeView { effect: effect_view(o.effect), save_config: o.save_config, tray_paused: o.tray_paused }
}

/// The window's state.
pub struct AppModel {
    config: PaperyConfig,
    current_wallpaper: Option<WallpaperInfo>,
    history: Vec<WallpaperInfo>,
    history_index: usize,
    wallpaper_queue: VecDeque<WallpaperInfo>,
    seconds_until_next: u64,
    status_message: Option<Status>,
    is_fetching: bool,
    interval_hours: String,
    interval_minutes: String,
    interval_seconds: String,
}

pub struct AppView {
    pub config: ConfigView,
    pub current: Option<WallpaperView>,
    pub history: Seq<WallpaperView>,
    pub history_index: int,
    pub queue: Seq<WallpaperView>,
    pub seconds_until_next: u64,
    pub status: Option<StatusView>,
    pub is_fetching: bool,
    pub interval_hours: Seq<char>,
    pub interval_minutes: Seq<char>,
    pub interval_seconds: Seq<char>,
}

pub open spec fn opt_wallpaper_view(o: Option<WallpaperInfo>) -> Option<WallpaperView> {
    match o {
        Some(w) => Some(w@),
        None => None,
    }
}

pub open spec fn opt_status_view(o: Option<Status>) -> Option<StatusView> {
    match o {
        Some(s) => Some(status_view(s)),
        None => None,
    }
}

impl View for AppModel {
    type V = AppView;

    closed spec fn view(&self) -> AppView {
        AppView {
            config: self.config@,
            current: opt_wallpaper_view(self.current_wallpaper),
            history: views_of(self.history@),
            history_index: self.history_index as int,
            queue: views_of(self.wallpaper_queue@),
            seconds_until_next: self.seconds_until_next,
            status: opt_status_view(self.status_message),
            is_fetching: self.is_fetching,
            interval_hours: self.interval_hours@,
            interval_minutes: self.interval_minutes@,
            interval_seconds: self.interval_seconds@,
        }
    }
}

// ---------------------------------------------------------------------------
// The transitions
// ---------------------------------------------------------------------------

pub open spec fn outcome(effect: EffectView, save_config: bool, tray_paused: Option<bool>) -> OutcomeView {
    OutcomeView { effect, save_config, tray_paused }
}

/// Setting a wallpaper from the history or the current one: only one with a
/// local file can be set.
pub open spec fn apply_effect(w: WallpaperView, report: bool) -> EffectView {
    match w.local_path {
        Some(p) => EffectView::Apply { path: p, report },
        None => EffectView::Nothing,
    }
}

/// Asking the enabled sources for more wallpapers: with none enabled, the
/// status says so; otherwise a fetch starts.
pub open spec fn fetch_step(v: AppView) -> (AppView, EffectView) {
    let ps = enabled_providers_of(v.config);
    if ps.len() == 0 {
        (AppView { status: Some(StatusView::NoSources), ..v }, EffectView::Nothing)
    } else {
        (AppView { is_fetching: true, ..v }, EffectView::Fetch(ps))
    }
}

/// Moving on to a new wallpaper: the first queued one is downloaded; with
/// an empty queue, more are fetched.
pub open spec fn next_step(v: AppView) -> (AppView, EffectView) {
    if v.queue.len() > 0 {
        (AppView { queue: v.queue.drop_first(), ..v }, EffectView::Download(v.queue[0]))
    } else {
        fetch_step(v)
    }
}

/// Pausing or resuming: the flag flips, is saved and passed to the tray;
/// resuming restarts the countdown from the full interval.
pub open spec fn toggle_pause_step(v: AppView) -> (AppView, OutcomeView) {
    let paused = !v.config.paused;
    (
        AppView {
            config: ConfigView { paused, ..v.config },
            seconds_until_next: if !paused { v.config.rotation_interval_secs } else { v.seconds_until_next },
            ..v
        },
        outcome(EffectView::Nothing, true, Some(paused)),
    )
}

/// A number field's value: what it parses to, or 0.
pub open spec fn field_value(s: Seq<char>) -> nat {
    match parse_unsigned(s, u64::MAX as nat) {
        Some(n) => n,
        None => 0,
    }
}

/// The interval the three fields spell, in seconds.
pub open spec fn fields_total(h: Seq<char>, m: Seq<char>, s: Seq<char>) -> nat {
    field_value(h) * 3600 + field_value(m) * 60 + field_value(s)
}

/// Taking the interval from the fields: a positive total becomes the
/// interval (saved) and restarts the countdown; zero changes nothing.
pub open spec fn fields_step(v: AppView) -> (AppView, OutcomeView) {
    let t = fields_total(v.interval_hours, v.interval_minutes, v.interval_seconds);
    if t > 0 {
        (
            AppView {
                config: ConfigView { rotation_interval_secs: t as u64, ..v.config },
                seconds_until_next: t as u64,
                ..v
            },
            outcome(EffectView::Nothing, true, None),
        )
    } else {
        (v, outcome(EffectView::Nothing, false, None))
    }
}

/// Position of the first occurrence of `x` in `s`.
pub open spec fn first_index(s: Seq<Seq<char>>, x: Seq<char>) -> int
    decreases s.len(),
{
    if s.len() == 0 || s[0] == x {
        0
    } else {
        1 + first_index(s.drop_first(), x)
    }
}

/// Toggling a favourite: its first occurrence is removed, or it is added
/// at the end.
pub open spec fn toggled(favs: Seq<Seq<char>>, p: Seq<char>) -> Seq<Seq<char>> {
    if favs.contains(p) {
        favs.remove(first_index(favs, p))
    } else {
        favs.push(p)
    }
}

/// A settings change that is saved and does nothing else.
pub open spec fn config_step(v: AppView, c: ConfigView) -> (AppView, OutcomeView) {
    (AppView { config: c, ..v }, outcome(EffectView::Nothing, true, None))
}

pub open spec fn plain(p: (AppView, EffectView)) -> (AppView, OutcomeView) {
    (p.0, outcome(p.1, false, None))
}

/// How each message changes the model, and what it asks for.
pub open spec fn step(v: AppView, m: AppMessage) -> (AppView, OutcomeView) {
    match m {
        AppMessage::NextWallpaper => if v.history_index + 1 < v.history.len() {
            let i = v.history_index + 1;
            (AppView { history_index: i, ..v }, outcome(apply_effect(v.history[i], false), false, None))
        } else {
            plain(next_step(v))
        },
        AppMessage::PreviousWallpaper => if v.history_index > 0 {
            let i = v.history_index - 1;
            (AppView { history_index: i, ..v }, outcome(apply_effect(v.history[i], false), false, None))
        } else {
            (v, outcome(EffectView::Nothing, false, None))
        },
        AppMessage::TogglePause => toggle_pause_step(v),
        AppMessage::SetWallpaperFromHistory(i) => if i < v.history.len() {
            (AppView { history_index: i as int, ..v }, outcome(apply_effect(v.history[i as int], false), false, None))
        } else {
            (v, outcome(EffectView::Nothing, false, None))
        },
        AppMessage::ToggleFavorite(i) => if i < v.history.len() && v.history[i as int].local_path is Some {
            config_step(v, ConfigView {
                favorites: toggled(v.config.favorites, v.history[i as int].local_path->0),
                ..v.config
            })
        } else {
            (v, outcome(EffectView::Nothing, false, None))
        },
        AppMessage::TimerTick(_) => if !v.config.paused {
            let s = if v.seconds_until_next > 0 { (v.seconds_until_next - 1) as u64 } else { 0u64 };
            if s == 0 {
                plain(next_step(AppView { seconds_until_next: v.config.rotation_interval_secs, ..v }))
            } else {
                (AppView { seconds_until_next: s, ..v }, outcome(EffectView::Nothing, false, None))
            }
        } else {
            (v, outcome(EffectView::Nothing, false, None))
        },
        AppMessage::WallpapersFetched(r) => match r {
            Ok(wps) => {
                let v1 = AppView { is_fetching: false, queue: v.queue + views_of(wps@), status: None, ..v };
                if v1.current is None && v1.queue.len() > 0 {
                    plain(next_step(v1))
                } else {
                    (v1, outcome(EffectView::Nothing, false, None))
                }
            },
            Err(e) => (
                AppView { is_fetching: false, status: Some(StatusView::Text(e@)), ..v },
                outcome(EffectView::Nothing, false, None),
            ),
        },
        AppMessage::WallpaperReady(r) => match r {
            Ok(wp) => (
                AppView {
                    current: Some(wp@),
                    history: v.history.push(wp@),
                    history_index: v.history.len() as int,
                    status: None,
                    ..v
                },
                outcome(apply_effect(wp@, true), false, None),
            ),
            Err(e) => (AppView { status: Some(StatusView::Text(e@)), ..v }, outcome(EffectView::Nothing, false, None)),
        },
        AppMessage::WallpaperSet(r) => match r {
            Ok(_) => (v, outcome(EffectView::Nothing, false, None)),
            Err(e) => (AppView { status: Some(StatusView::Text(e@)), ..v }, outcome(EffectView::Nothing, false, None)),
        },
        AppMessage::ConfigChanged(c) => (AppView { config: c@, ..v }, outcome(EffectView::Nothing, false, None)),
        AppMessage::ToggleSourceBing => config_step(v, ConfigView { source_bing: !v.config.source_bing, ..v.config }),
        AppMessage::ToggleSourceNasa => config_step(v, ConfigView { source_nasa: !v.config.source_nasa, ..v.config }),
        AppMessage::ToggleSourceWallhaven => config_step(v, ConfigView { source_wallhaven: !v.config.source_wallhaven, ..v.config }),
        AppMessage::ToggleSourceEarthView => config_step(v, ConfigView { source_earthview: !v.config.source_earthview, ..v.config }),
        AppMessage::ToggleSourceLocal => config_step(v, ConfigView { source_local: !v.config.source_local, ..v.config }),
        AppMessage::SetRotationInterval(secs) => config_step(
            AppView { seconds_until_next: secs, ..v },
            ConfigView { rotation_interval_secs: secs, ..v.config },
        ),
        AppMessage::SetIntervalHours(h) => fields_step(AppView { interval_hours: h@, ..v }),
        AppMessage::SetIntervalMinutes(m) => fields_step(AppView { interval_minutes: m@, ..v }),
        AppMessage::SetIntervalSeconds(s) => fields_step(AppView { interval_seconds: s@, ..v }),
        AppMessage::SetScalingMode(mode) => {
            let (v1, o) = config_step(v, ConfigView { scaling_mode: mode@, ..v.config });
            (v1, outcome(
                match v.current {
                    Some(w) => apply_effect(w, false),
                    None => EffectView::Nothing,
                },
                true,
                None,
            ))
        },
        AppMessage::SetThemeFilter(f) => config_step(v, ConfigView { theme_filter: f@, ..v.config }),
        AppMessage::FetchMore => if !v.is_fetching {
            plain(fetch_step(v))
        } else {
            (v, outcome(EffectView::Nothing, false, None))
        },
        AppMessage::Tray(a) => match a {
            TrayAction::ShowWindow => (v, outcome(EffectView::Nothing, false, None)),
            TrayAction::NextWallpaper => plain(next_step(v)),
            TrayAction::TogglePause => toggle_pause_step(v),
            TrayAction::Quit => (v, outcome(EffectView::Exit, false, None)),
        },
    }
}

/// Messages the model can take: the interval fields must spell an interval
/// that fits in a `u64` (beyond that the computation overflows).
pub open spec fn accepts_message(v: AppView, m: AppMessage) -> bool {
    match m {
        AppMessage::SetIntervalHours(h) => fields_total(h@, v.interval_minutes, v.interval_seconds) <= u64::MAX,
        AppMessage::SetIntervalMinutes(mm) => fields_total(v.interval_hours, mm@, v.interval_seconds) <= u64::MAX,
        AppMessage::SetIntervalSeconds(s) => fields_total(v.interval_hours, v.interval_minutes, s@) <= u64::MAX,
        _ => true,
    }
}

/// What a fetch gathered from all sources, shuffled; `None` when it is
/// nothing (the fetch then reports a network error).
pub fn shuffled_batch(all: Vec<WallpaperInfo>) -> (r: Option<Vec<WallpaperInfo>>)
    ensures
        all@.len() == 0 <==> r is None,
        r matches Some(v) ==> v@.len() == all@.len() && v@.to_multiset() == all@.to_multiset(),
{
    let mut v = all;
    rng::shuffle(&mut v);
    if v.len() == 0 {
        None
    } else {
        Some(v)
    }
}

/// Text of the countdown: minutes, a colon, and two-digit seconds.
pub open spec fn countdown_of(secs: u64) -> Seq<char> {
    let s = (secs % 60) as nat;
    decimal((secs / 60) as nat) + ":"@ + if s < 10 { "0"@ + decimal(s) } else { decimal(s) }
}

/// The countdown as shown in the header, e.g. `29:05`.
pub fn countdown_text(secs: u64) -> (r: String)
    ensures
        r@ == countdown_of(secs),
{
    let mut r = u64_to_string(secs / 60);
    r.append(":");
    let s = secs % 60;
    if s < 10 {
        r.append("0");
    }
    let t = u64_to_string(s);
    r.append(t.as_str());
    r
}

// ---------------------------------------------------------------------------
// The model
// ---------------------------------------------------------------------------

fn apply_wallpaper(w: &WallpaperInfo, report: bool) -> (e: Effect)
    ensures
        effect_view(e) == apply_effect(w@, report),
{
    match &w.local_path {
        Some(p) => Effect::Apply { path: p.clone(), report },
        None => Effect::Nothing,
    }
}

fn field_number(s: &String) -> (r: u64)
    ensures
        r as nat == field_value(s@),
{
    match parse_u64(s.as_str()) {
        Some(n) => n,
        None => 0,
    }
}

impl AppModel {
    /// Validity: the history position is within the history (or 0 while it
    /// is empty).
    pub closed spec fn wf(&self) -> bool {
        self.history_index < self.history@.len() || self.history_index == 0
    }

    /// The model at start-up: nothing shown yet, the countdown at the full
    /// interval, and the interval fields filled in from it (hours, minutes,
    /// seconds).
    pub fn new(config: PaperyConfig) -> (r: AppModel)
        ensures
            r.wf(),
            r@.config == config@,
            r@.current is None,
            r@.history.len() == 0,
            r@.history_index == 0,
            r@.queue.len() == 0,
            r@.seconds_until_next == config.rotation_interval_secs,
            r@.status is None,
            !r@.is_fetching,
            r@.interval_hours == decimal((config.rotation_interval_secs / 3600) as nat),
            r@.interval_minutes == decimal(((config.rotation_interval_secs % 3600) / 60) as nat),
            r@.interval_seconds == decimal((config.rotation_interval_secs % 60) as nat),
    {
        let total = config.rotation_interval_secs;
        let hours = u64_to_string(total / 3600);
        let minutes = u64_to_string((total % 3600) / 60);
        let seconds = u64_to_string(total % 60);
        let r = AppModel {
            config,
            current_wallpaper: None,
            history: Vec::new(),
            history_index: 0,
            wallpaper_queue: VecDeque::new(),
            seconds_until_next: total,
            status_message: None,
            is_fetching: false,
            interval_hours: hours,
            interval_minutes: minutes,
            interval_seconds: seconds,
        };
        assert(r@.history =~= Seq::<WallpaperView>::empty());
        assert(r@.queue =~= Seq::<WallpaperView>::empty());
        r
    }

    pub fn config(&self) -> (r: &PaperyConfig)
        ensures
            r@ == self@.config,
    {
        &self.config
    }

    pub fn current_wallpaper(&self) -> (r: Option<&WallpaperInfo>)
        ensures
            match r {
                Some(w) => self@.current == Some(w@),
                None => self@.current is None,
            },
    {
        match &self.current_wallpaper {
            Some(w) => Some(w),
            None => None,
        }
    }

    pub fn history(&self) -> (r: &Vec<WallpaperInfo>)
        ensures
            views_of(r@) == self@.history,
    {
        &self.history
    }

    pub fn history_index(&self) -> (r: usize)
        ensures
            r as int == self@.history_index,
    {
        self.history_index
    }

    pub fn seconds_until_next(&self) -> (r: u64)
        ensures
            r == self@.seconds_until_next,
    {
        self.seconds_until_next
    }

    pub fn status(&self) -> (r: Option<&Status>)
        ensures
            match r {
                Some(st) => self@.status == Some(status_view(*st)),
                None => self@.status is None,
            },
    {
        match &self.status_message {
            Some(st) => Some(st),
            None => None,
        }
    }

    pub fn interval_fields(&self) -> (r: (&String, &String, &String))
        ensures
            r.0@ == self@.interval_hours,
            r.1@ == self@.interval_minutes,
            r.2@ == self@.interval_seconds,
    {
        (&self.interval_hours, &self.interval_minutes, &self.interval_seconds)
    }

    /// Puts a message on the status line (a failure to set a wallpaper).
    pub fn set_status_text(&mut self, text: String)
        requires
            old(self).wf(),
        ensures
            final(self).wf(),
            final(self)@ == (AppView { status: Some(StatusView::Text(text@)), ..old(self)@ }),
    {
        self.status_message = Some(Status::Text(text));
    }

    fn fetch_wallpapers(&mut self) -> (e: Effect)
        requires
            old(self).wf(),
        ensures
            final(self).wf(),
            (final(self)@, effect_view(e)) == fetch_step(old(self)@),
    {
        let providers = enabled_providers(&self.config);
        if providers.len() == 0 {
            self.status_message = Some(Status::NoSources);
            return Effect::Nothing;
        }
        self.is_fetching = true;
        Effect::Fetch(providers)
    }

    fn set_next_wallpaper(&mut self) -> (e: Effect)
        requires
            old(self).wf(),
        ensures
            final(self).wf(),
            (final(self)@, effect_view(e)) == next_step(old(self)@),
    {
        let ghost before = self.wallpaper_queue@;
        match self.wallpaper_queue.pop_front() {
            Some(wp) => {
                assert(views_of(self.wallpaper_queue@) =~= views_of(before).drop_first());
                Effect::Download(wp)
            },
            None => self.fetch_wallpapers(),
        }
    }

    fn toggle_pause(&mut self) -> (o: Outcome)
        requires
            old(self).wf(),
        ensures
            final(self).wf(),
            (final(self)@, outcome_view(o)) == toggle_pause_step(old(self)@),
    {
        self.config.paused = !self.config.paused;
        if !self.config.paused {
            self.seconds_until_next = self.config.rotation_interval_secs;
        }
        Outcome { effect: Effect::Nothing, save_config: true, tray_paused: Some(self.config.paused) }
    }

    fn apply_interval_from_fields(&mut self) -> (o: Outcome)
        requires
            old(self).wf(),
            fields_total(old(self)@.interval_hours, old(self)@.interval_minutes, old(self)@.interval_seconds) <= u64::MAX,
        ensures
            final(self).wf(),
            (final(self)@, outcome_view(o)) == fields_step(old(self)@),
    {
        let h = field_number(&self.interval_hours);
        let m = field_number(&self.interval_minutes);
        let s = field_number(&self.interval_seconds);
        let total = h * 3600 + m * 60 + s;
        if total > 0 {
            self.config.rotation_interval_secs = total;
            self.seconds_until_next = total;
            return Outcome { effect: Effect::Nothing, save_config: true, tray_paused: None };
        }
        Outcome { effect: Effect::Nothing, save_config: false, tray_paused: None }
    }

    /// Whether the model can take `msg` (see [`accepts_message`]).
    pub fn accepts(&self, msg: &AppMessage) -> (r: bool)
        ensures
            r == accepts_message(self@, *msg),
    {
        let h = field_number(&self.interval_hours) as u128;
        let m = field_number(&self.interval_minutes) as u128;
        let s = field_number(&self.interval_seconds) as u128;
        match msg {
            AppMessage::SetIntervalHours(v) => field_number(v) as u128 * 3600 + m * 60 + s <= u64::MAX as u128,
            AppMessage::SetIntervalMinutes(v) => h * 3600 + field_number(v) as u128 * 60 + s <= u64::MAX as u128,
            AppMessage::SetIntervalSeconds(v) => h * 3600 + m * 60 + field_number(v) as u128 <= u64::MAX as u128,
            _ => true,
        }
    }

    fn on_toggle_favorite(&mut self, index: usize) -> (o: Outcome)
        requires
            old(self).wf(),
        ensures
            final(self).wf(),
            (final(self)@, outcome_view(o)) == step(old(self)@, AppMessage::ToggleFavorite(index)),
    {
        if index < self.history.len() {
            if let Some(path) = &self.history[index].local_path {
                let ghost favs = seq_views(self.config.favorites@);
                match position_of_string(&self.config.favorites, path.as_str()) {
                    Some(pos) => {
                        proof {
                            lemma_first_index(favs, path@, pos as int);
                        }
                        self.config.favorites.remove(pos);
                        assert(seq_views(self.config.favorites@) =~= favs.remove(pos as int));
                    },
                    None => {
                        self.config.favorites.push(path.clone());
                        assert(seq_views(self.config.favorites@) =~= favs.push(path@));
                    },
                }
                return Outcome { effect: Effect::Nothing, save_config: true, tray_paused: None };
            }
        }
        Outcome { effect: Effect::Nothing, save_config: false, tray_paused: None }
    }

    fn on_history_move(&mut self, msg: AppMessage) -> (o: Outcome)
        requires
            old(self).wf(),
            msg is NextWallpaper || msg is PreviousWallpaper || msg is SetWallpaperFromHistory,
        ensures
            final(self).wf(),
            (final(self)@, outcome_view(o)) == step(old(self)@, msg),
    {
        match msg {
            AppMessage::NextWallpaper => {
                let n = self.history.len();
                if self.history_index + 1 < n {
                    self.history_index = self.history_index + 1;
                    let e = apply_wallpaper(&self.history[self.history_index], false);
                    return Outcome { effect: e, save_config: false, tray_paused: None };
                }
                let e = self.set_next_wallpaper();
                Outcome { effect: e, save_config: false, tray_paused: None }
            },
            AppMessage::PreviousWallpaper => {
                if self.history_index > 0 {
                    self.history_index = self.history_index - 1;
                    let e = apply_wallpaper(&self.history[self.history_index], false);
                    return Outcome { effect: e, save_config: false, tray_paused: None };
                }
                Outcome { effect: Effect::Nothing, save_config: false, tray_paused: None }
            },
            AppMessage::SetWallpaperFromHistory(index) => {
                if index < self.history.len() {
                    self.history_index = index;
                    let e = apply_wallpaper(&self.history[index], false);
                    return Outcome { effect: e, save_config: false, tray_paused: None };
                }
                Outcome { effect: Effect::Nothing, save_config: false, tray_paused: None }
            },
            _ => Outcome { effect: Effect::Nothing, save_config: false, tray_paused: None },
        }
    }

    fn on_timer_tick(&mut self, ev: SchedulerEvent) -> (o: Outcome)
        requires
            old(self).wf(),
        ensures
            final(self).wf(),
            (final(self)@, outcome_view(o)) == step(old(self)@, AppMessage::TimerTick(ev)),
    {
        if !self.config.paused {
            if self.seconds_until_next > 0 {
                self.seconds_until_next = self.seconds_until_next - 1;
            }
            if self.seconds_until_next == 0 {
                self.seconds_until_next = self.config.rotation_interval_secs;
                let e = self.set_next_wallpaper();
                return Outcome { effect: e, save_config: false, tray_paused: None };
            }
        }
        Outcome { effect: Effect::Nothing, save_config: false, tray_paused: None }
    }

    fn extend_queue(&mut self, wallpapers: &Vec<WallpaperInfo>)
        requires
            old(self).wf(),
        ensures
            final(self).wf(),
            final(self)@ == (AppView { queue: old(self)@.queue + views_of(wallpapers@), ..old(self)@ }),
    {
        let ghost q0 = views_of(self.wallpaper_queue@);
        let mut i: usize = 0;
        while i < wallpapers.len()
            invariant
                i <= wallpapers@.len(),
                views_of(self.wallpaper_queue@) =~= q0 + views_of(wallpapers@).take(i as int),
                self.history == old(self).history,
                self.history_index == old(self).history_index,
                self.config == old(self).config,
                self.current_wallpaper == old(self).current_wallpaper,
                self.seconds_until_next == old(self).seconds_until_next,
                self.status_message == old(self).status_message,
                self.is_fetching == old(self).is_fetching,
                self.interval_hours == old(self).interval_hours,
                self.interval_minutes == old(self).interval_minutes,
                self.interval_seconds == old(self).interval_seconds,
            decreases wallpapers@.len() - i,
        {
            let ghost before = views_of(self.wallpaper_queue@);
            let w = clone_wallpaper(&wallpapers[i]);
            self.wallpaper_queue.push_back(w);
            assert(views_of(self.wallpaper_queue@) =~= before.push(wallpapers@[i as int]@));
            assert(views_of(wallpapers@).take(i as int + 1) =~= views_of(wallpapers@).take(i as int).push(wallpapers@[i as int]@));
            i = i + 1;
        }
        assert(views_of(wallpapers@).take(wallpapers@.len() as int) =~= views_of(wallpapers@));
    }

    fn on_fetched(&mut self, result: Result<Vec<WallpaperInfo>, String>) -> (o: Outcome)
        requires
            old(self).wf(),
        ensures
            final(self).wf(),
            (final(self)@, outcome_view(o)) == step(old(self)@, AppMessage::WallpapersFetched(result)),
    {
        self.is_fetching = false;
        match result {
            Ok(wallpapers) => {
                self.extend_queue(&wallpapers);
                self.status_message = None;
                if self.current_wallpaper.is_none() && self.wallpaper_queue.len() > 0 {
                    let e = self.set_next_wallpaper();
                    return Outcome { effect: e, save_config: false, tray_paused: None };
                }
                Outcome { effect: Effect::Nothing, save_config: false, tray_paused: None }
            },
            Err(e) => {
                self.status_message = Some(Status::Text(e));
                Outcome { effect: Effect::Nothing, save_config: false, tray_paused: None }
            },
        }
    }

    fn on_ready(&mut self, result: Result<WallpaperInfo, String>) -> (o: Outcome)
        requires
            old(self).wf(),
        ensures
            final(self).wf(),
            (final(self)@, outcome_view(o)) == step(old(self)@, AppMessage::WallpaperReady(result)),
    {
        match result {
            Ok(wp) => {
                self.current_wallpaper = Some(clone_wallpaper(&wp));
                self.history.push(clone_wallpaper(&wp));
                self.history_index = self.history.len() - 1;
                self.status_message = None;
                assert(views_of(self.history@) =~= views_of(old(self).history@).push(wp@));
                let e = apply_wallpaper(&wp, true);
                Outcome { effect: e, save_config: false, tray_paused: None }
            },
            Err(e) => {
                self.status_message = Some(Status::Text(e));
                Outcome { effect: Effect::Nothing, save_config: false, tray_paused: None }
            },
        }
    }

    fn on_settings(&mut self, msg: AppMessage) -> (o: Outcome)
        requires
            old(self).wf(),
            accepts_message(old(self)@, msg),
            msg is ToggleSourceBing || msg is ToggleSourceNasa || msg is ToggleSourceWallhaven
                || msg is ToggleSourceEarthView || msg is ToggleSourceLocal || msg is SetRotationInterval
                || msg is SetIntervalHours || msg is SetIntervalMinutes || msg is SetIntervalSeconds
                || msg is SetScalingMode || msg is SetThemeFilter || msg is ConfigChanged,
        ensures
            final(self).wf(),
            (final(self)@, outcome_view(o)) == step(old(self)@, msg),
    {
        let saved = Outcome { effect: Effect::Nothing, save_config: true, tray_paused: None };
        match msg {
            AppMessage::ConfigChanged(new_config) => {
                self.config = new_config;
                Outcome { effect: Effect::Nothing, save_config: false, tray_paused: None }
            },
            AppMessage::ToggleSourceBing => {
                self.config.source_bing = !self.config.source_bing;
                saved
            },
            AppMessage::ToggleSourceNasa => {
                self.config.source_nasa = !self.config.source_nasa;
                saved
            },
            AppMessage::ToggleSourceWallhaven => {
                self.config.source_wallhaven = !self.config.source_wallhaven;
                saved
            },
            AppMessage::ToggleSourceEarthView => {
                self.config.source_earthview = !self.config.source_earthview;
                saved
            },
            AppMessage::ToggleSourceLocal => {
                self.config.source_local = !self.config.source_local;
                saved
            },
            AppMessage::SetRotationInterval(secs) => {
                self.config.rotation_interval_secs = secs;
                self.seconds_until_next = secs;
                saved
            },
            AppMessage::SetIntervalHours(val) => {
                self.interval_hours = val;
                self.apply_interval_from_fields()
            },
            AppMessage::SetIntervalMinutes(val) => {
                self.interval_minutes = val;
                self.apply_interval_from_fields()
            },
            AppMessage::SetIntervalSeconds(val) => {
                self.interval_seconds = val;
                self.apply_interval_from_fields()
            },
            AppMessage::SetScalingMode(mode) => {
                self.config.scaling_mode = mode;
                let e = match &self.current_wallpaper {
                    Some(wp) => apply_wallpaper(wp, false),
                    None => Effect::Nothing,
                };
                Outcome { effect: e, save_config: true, tray_paused: None }
            },
            AppMessage::SetThemeFilter(filter) => {
                self.config.theme_filter = filter;
                saved
            },
            _ => saved,
        }
    }

    /// Takes one message (see [`step`]).
    pub fn update(&mut self, msg: AppMessage) -> (o: Outcome)
        requires
            old(self).wf(),
            accepts_message(old(self)@, msg),
        ensures
            final(self).wf(),
            (final(self)@, outcome_view(o)) == step(old(self)@, msg),
    {
        match msg {
            AppMessage::NextWallpaper => self.on_history_move(msg),
            AppMessage::PreviousWallpaper => self.on_history_move(msg),
            AppMessage::SetWallpaperFromHistory(_) => self.on_history_move(msg),
            AppMessage::TogglePause => self.toggle_pause(),
            AppMessage::ToggleFavorite(index) => self.on_toggle_favorite(index),
            AppMessage::TimerTick(ev) => self.on_timer_tick(ev),
            AppMessage::WallpapersFetched(result) => self.on_fetched(result),
            AppMessage::WallpaperReady(result) => self.on_ready(result),
            AppMessage::WallpaperSet(result) => {
                if let Err(e) = result {
                    self.status_message = Some(Status::Text(e));
                }
                Outcome { effect: Effect::Nothing, save_config: false, tray_paused: None }
            },
            AppMessage::FetchMore => {
                if !self.is_fetching {
                    let e = self.fetch_wallpapers();
                    return Outcome { effect: e, save_config: false, tray_paused: None };
                }
                Outcome { effect: Effect::Nothing, save_config: false, tray_paused: None }
            },
            AppMessage::Tray(action) => match action {
                TrayAction::ShowWindow => Outcome { effect: Effect::Nothing, save_config: false, tray_paused: None },
                TrayAction::NextWallpaper => {
                    let e = self.set_next_wallpaper();
                    Outcome { effect: e, save_config: false, tray_paused: None }
                },
                TrayAction::TogglePause => self.toggle_pause(),
                TrayAction::Quit => Outcome { effect: Effect::Exit, save_config: false, tray_paused: None },
            },
            _ => self.on_settings(msg),
        }
    }
}

proof fn lemma_first_index(s: Seq<Seq<char>>, x: Seq<char>, i: int)
    requires
        0 <= i < s.len(),
        s[i] == x,
        forall|j: int| 0 <= j < i ==> s[j] != x,
    ensures
        first_index(s, x) == i,
        s.contains(x),
    decreases i,
{
    if i > 0 {
        lemma_first_index(s.drop_first(), x, i - 1);
    }
}

/// Going back in the history and then forward again returns to the same
/// wallpaper, and sets it again.
pub proof fn lemma_back_and_forth(v: AppView)
    requires
        0 < v.history_index < v.history.len(),
    ensures
        ({
            let (v1, _) = step(v, AppMessage::PreviousWallpaper);
            let (v2, o2) = step(v1, AppMessage::NextWallpaper);
            v2.history_index == v.history_index && o2.effect == apply_effect(v.history[v.history_index], false)
        }),
{
}

/// A downloaded wallpaper becomes the current one and the newest entry of
/// the history, and the history position moves to it.
pub proof fn lemma_ready_is_current(v: AppView, wp: WallpaperInfo)
    ensures
        ({
            let (v1, _) = step(v, AppMessage::WallpaperReady(Ok(wp)));
            &&& v1.current == Some(wp@)
            &&& v1.history.last() == wp@
            &&& v1.history_index == v1.history.len() - 1
            &&& v1.history.drop_last() == v.history
        }),
{
    assert(v.history.push(wp@).drop_last() =~= v.history);
}

/// Pausing and resuming leaves the settings as they were and restarts the
/// countdown from the full interval; the tray learns each change.
pub proof fn lemma_pause_resume(v: AppView)
    requires
        !v.config.paused,
    ensures
        ({
            let (v1, o1) = step(v, AppMessage::TogglePause);
            let (v2, o2) = step(v1, AppMessage::TogglePause);
            &&& v1.config.paused && o1.tray_paused == Some(true)
            &&& v2.config == v.config && o2.tray_paused == Some(false)
            &&& v2.seconds_until_next == v.config.rotation_interval_secs
        }),
{
}

/// Marking a wallpaper as favourite and unmarking it again gives back the
/// favourites as they were.
pub proof fn lemma_favorite_twice(favs: Seq<Seq<char>>, p: Seq<char>)
    requires
        !favs.contains(p),
    ensures
        toggled(toggled(favs, p), p) == favs,
{
    let f1 = favs.push(p);
    assert(f1[favs.len() as int] == p);
    lemma_first_index(f1, p, favs.len() as int);
    assert(f1.remove(favs.len() as int) =~= favs);
}

/// While paused, timer ticks change nothing.
pub proof fn lemma_paused_tick(v: AppView, ev: SchedulerEvent)
    requires
        v.config.paused,
    ensures
        step(v, AppMessage::TimerTick(ev)).0 == v,
        step(v, AppMessage::TimerTick(ev)).1.effect == EffectView::Nothing,
{
}

/// The H:M:S interval fields: after any of them changes, the three fields
/// spell `hours × 3600 + minutes × 60 + seconds` seconds (a field that is
/// not a number counts as 0). A positive total becomes the rotation interval
/// and the countdown, and is saved; a total of zero changes neither.
pub proof fn lemma_interval_fields(v: AppView, text: String)
    ensures
        ({
            let t = field_value(v.interval_hours) * 3600 + field_value(v.interval_minutes) * 60 + field_value(text@);
            let (v1, o) = step(v, AppMessage::SetIntervalSeconds(text));
            &&& v1.interval_seconds == text@
            &&& 0 < t <= u64::MAX ==> v1.config.rotation_interval_secs == t && v1.seconds_until_next == t
                && o.save_config
            &&& t == 0 ==> v1.config == v.config && v1.seconds_until_next == v.seconds_until_next && !o.save_config
        }),
        ({
            let t = field_value(v.interval_hours) * 3600 + field_value(text@) * 60 + field_value(v.interval_seconds);
            let (v1, o) = step(v, AppMessage::SetIntervalMinutes(text));
            &&& v1.interval_minutes == text@
            &&& 0 < t <= u64::MAX ==> v1.config.rotation_interval_secs == t && v1.seconds_until_next == t
                && o.save_config
            &&& t == 0 ==> v1.config == v.config && v1.seconds_until_next == v.seconds_until_next && !o.save_config
        }),
        ({
            let t = field_value(text@) * 3600 + field_value(v.interval_minutes) * 60 + field_value(v.interval_seconds);
            let (v1, o) = step(v, AppMessage::SetIntervalHours(text));
            &&& v1.interval_hours == text@
            &&& 0 < t <= u64::MAX ==> v1.config.rotation_interval_secs == t && v1.seconds_until_next == t
                && o.save_config
            &&& t == 0 ==> v1.config == v.config && v1.seconds_until_next == v.seconds_until_next && !o.save_config
        }),
{
}

/// The tray's "next wallpaper" moves on from the queue: with queued
/// wallpapers the first one is downloaded and leaves the queue; with none,
/// more are fetched from the enabled sources (or the status says that none
/// is enabled). The history and the settings stay, nothing is saved. At the
/// end of the history it does what the window's next button does.
pub proof fn lemma_tray_next(v: AppView)
    ensures
        ({
            let (v1, o) = step(v, AppMessage::Tray(TrayAction::NextWallpaper));
            &&& v1.history == v.history && v1.history_index == v.history_index && v1.config == v.config
            &&& !o.save_config && o.tray_paused is None
            &&& v.queue.len() > 0 ==> o.effect == EffectView::Download(v.queue[0]) && v1.queue == v.queue.drop_first()
            &&& v.queue.len() == 0 && enabled_providers_of(v.config).len() > 0 ==> o.effect == EffectView::Fetch(
                enabled_providers_of(v.config),
            ) && v1.is_fetching && v1.queue.len() == 0
            &&& v.queue.len() == 0 && enabled_providers_of(v.config).len() == 0 ==> o.effect == EffectView::Nothing
                && v1.status == Some(StatusView::NoSources)
            &&& v.history_index + 1 >= v.history.len() ==> step(v, AppMessage::Tray(TrayAction::NextWallpaper))
                == step(v, AppMessage::NextWallpaper)
        }),
{
}

/// The interval fields a new model shows (hours, minutes, seconds) spell
/// the configured interval: read back, they give hours × 3600 + minutes ×
/// 60 + seconds == the interval.
pub proof fn lemma_new_fields_spell_interval(t: u64)
    ensures
        field_value(decimal((t / 3600) as nat)) == t / 3600,
        field_value(decimal(((t % 3600) / 60) as nat)) == (t % 3600) / 60,
        field_value(decimal((t % 60) as nat)) == t % 60,
        field_value(decimal((t / 3600) as nat)) * 3600 + field_value(decimal(((t % 3600) / 60) as nat)) * 60
            + field_value(decimal((t % 60) as nat)) == t,
{
    crate::text::lemma_parse_decimal((t / 3600) as nat, u64::MAX as nat);
    crate::text::lemma_parse_decimal(((t % 3600) / 60) as nat, u64::MAX as nat);
    crate::text::lemma_parse_decimal((t % 60) as nat, u64::MAX as nat);
    assert((t / 3600) * 3600 + ((t % 3600) / 60) * 60 + t % 60 == t) by (nonlinear_arith);
}

/// Where a contained path first occurs.
proof fn lemma_first_index_found(s: Seq<Seq<char>>, x: Seq<char>)
    requires
        s.contains(x),
    ensures
        0 <= first_index(s, x) < s.len(),
        s[first_index(s, x)] == x,
    decreases s.len(),
{
    if s[0] != x {
        let j = choose|j: int| 0 <= j < s.len() && s[j] == x;
        assert(s.drop_first()[j - 1] == x);
        lemma_first_index_found(s.drop_first(), x);
    }
}

/// What setting the history entry `i` asks for: the file of a downloaded
/// wallpaper is set (failures not reported), else nothing.
pub open spec fn history_apply(v: AppView, i: int) -> EffectView {
    match v.history[i].local_path {
        Some(p) => EffectView::Apply { path: p, report: false },
        None => EffectView::Nothing,
    }
}

/// Moving through the history: back one, forward one (at the end of the
/// history, forward moves on to a new wallpaper instead), or to entry `i`;
/// the entry moved to is set again. Out of range, nothing happens. None of
/// these changes the history itself or the settings.
pub proof fn lemma_history_moves(v: AppView, i: usize)
    ensures
        ({
            let (v1, o) = step(v, AppMessage::PreviousWallpaper);
            &&& v.history_index > 0 ==> v1 == (AppView { history_index: v.history_index - 1, ..v })
                && o.effect == history_apply(v, v.history_index - 1)
            &&& v.history_index <= 0 ==> v1 == v && o.effect == EffectView::Nothing
            &&& !o.save_config
        }),
        ({
            let (v1, o) = step(v, AppMessage::NextWallpaper);
            &&& v.history_index + 1 < v.history.len() ==> v1 == (AppView { history_index: v.history_index + 1, ..v })
                && o.effect == history_apply(v, v.history_index + 1)
            &&& v1.history == v.history && v1.config == v.config && !o.save_config
        }),
        ({
            let (v1, o) = step(v, AppMessage::SetWallpaperFromHistory(i));
            &&& i < v.history.len() ==> v1 == (AppView { history_index: i as int, ..v }) && o.effect == history_apply(
                v,
                i as int,
            )
            &&& i >= v.history.len() ==> v1 == v && o.effect == EffectView::Nothing
            &&& !o.save_config
        }),
{
}

/// Each source switch flips its own source and nothing else, and is saved.
pub proof fn lemma_source_toggles(v: AppView)
    ensures
        step(v, AppMessage::ToggleSourceBing).0.config == (ConfigView { source_bing: !v.config.source_bing, ..v.config }),
        step(v, AppMessage::ToggleSourceNasa).0.config == (ConfigView { source_nasa: !v.config.source_nasa, ..v.config }),
        step(v, AppMessage::ToggleSourceWallhaven).0.config == (ConfigView {
            source_wallhaven: !v.config.source_wallhaven,
            ..v.config
        }),
        step(v, AppMessage::ToggleSourceEarthView).0.config == (ConfigView {
            source_earthview: !v.config.source_earthview,
            ..v.config
        }),
        step(v, AppMessage::ToggleSourceLocal).0.config == (ConfigView {
            source_local: !v.config.source_local,
            ..v.config
        }),
        step(v, AppMessage::ToggleSourceBing).1.save_config,
        step(v, AppMessage::ToggleSourceNasa).1.save_config,
        step(v, AppMessage::ToggleSourceWallhaven).1.save_config,
        step(v, AppMessage::ToggleSourceEarthView).1.save_config,
        step(v, AppMessage::ToggleSourceLocal).1.save_config,
        step(v, AppMessage::ToggleSourceBing).0.queue == v.queue,
        step(v, AppMessage::ToggleSourceBing).1.effect == EffectView::Nothing,
{
}

/// The look settings: the scaling mode is taken, saved and applied to the
/// wallpaper shown (when it is on disk); the theme filter is taken and
/// saved; the interval chosen directly becomes the interval and the
/// countdown, and is saved.
pub proof fn lemma_look_settings(v: AppView, mode: String, filter: String, secs: u64)
    ensures
        ({
            let (v1, o) = step(v, AppMessage::SetScalingMode(mode));
            &&& v1.config == (ConfigView { scaling_mode: mode@, ..v.config }) && o.save_config
            &&& (v.current matches Some(w) && w.local_path is Some) ==> o.effect == (EffectView::Apply {
                path: v.current->0.local_path->0,
                report: false,
            })
            &&& !(v.current matches Some(w) && w.local_path is Some) ==> o.effect == EffectView::Nothing
        }),
        ({
            let (v1, o) = step(v, AppMessage::SetThemeFilter(filter));
            v1.config == (ConfigView { theme_filter: filter@, ..v.config }) && o.save_config
        }),
        ({
            let (v1, o) = step(v, AppMessage::SetRotationInterval(secs));
            &&& v1.config == (ConfigView { rotation_interval_secs: secs, ..v.config })
            &&& v1.seconds_until_next == secs && o.save_config
        }),
{
}

/// The favourite switch of history entry `i` (a downloaded one): its path
/// is added at the end when it is not a favourite, and otherwise one
/// occurrence of it is taken out; the change is saved.
pub proof fn lemma_favorite_switch(v: AppView, i: usize)
    requires
        i < v.history.len(),
        v.history[i as int].local_path is Some,
    ensures
        ({
            let p = v.history[i as int].local_path->0;
            let favs = v.config.favorites;
            let (v1, o) = step(v, AppMessage::ToggleFavorite(i));
            &&& o.save_config
            &&& !favs.contains(p) ==> v1.config.favorites == favs.push(p)
            &&& favs.contains(p) ==> v1.config.favorites.len() == favs.len() - 1 && v1.config.favorites.to_multiset()
                == favs.to_multiset().remove(p)
            &&& v1.config == (ConfigView { favorites: v1.config.favorites, ..v.config })
        }),
{
    let p = v.history[i as int].local_path->0;
    let favs = v.config.favorites;
    if favs.contains(p) {
        lemma_first_index_found(favs, p);
        let k = first_index(favs, p);
        vstd::seq_lib::lemma_multiset_commutative(favs.take(k), favs.skip(k));
        assert(favs == favs.take(k) + favs.skip(k));
        assert(favs.remove(k) =~= favs.take(k) + favs.skip(k + 1));
        vstd::seq_lib::lemma_multiset_commutative(favs.take(k), favs.skip(k + 1));
        assert(favs.skip(k) =~= seq![p] + favs.skip(k + 1));
        vstd::seq_lib::lemma_multiset_commutative(seq![p], favs.skip(k + 1));
        assert(seq![p].to_multiset() =~= vstd::multiset::Multiset::empty().insert(p)) by {
            assert(seq![p] =~= Seq::<Seq<char>>::empty().push(p));
        }
    }
}

/// Timer ticks while running: the countdown goes down by one second; when
/// it runs out, it restarts from the interval and the next queued
/// wallpaper is downloaded (or more are fetched when the queue is empty).
pub proof fn lemma_running_tick(v: AppView, ev: SchedulerEvent)
    requires
        !v.config.paused,
    ensures
        ({
            let (v1, o) = step(v, AppMessage::TimerTick(ev));
            &&& v.seconds_until_next > 1 ==> v1 == (AppView {
                seconds_until_next: (v.seconds_until_next - 1) as u64,
                ..v
            }) && o.effect == EffectView::Nothing
            &&& v.seconds_until_next <= 1 ==> v1.seconds_until_next == v.config.rotation_interval_secs
            &&& v.seconds_until_next <= 1 && v.queue.len() > 0 ==> o.effect == EffectView::Download(v.queue[0])
                && v1.queue == v.queue.drop_first()
            &&& v1.history == v.history && v1.config == v.config && !o.save_config
        }),
{
}

/// Fetched wallpapers join the end of the queue; when none is shown yet, the
/// first queued one is downloaded right away. A failed fetch leaves the
/// queue and puts its reason on the status line.
pub proof fn lemma_fetched(v: AppView, wps: Vec<WallpaperInfo>, e: String)
    ensures
        ({
            let (v1, o) = step(v, AppMessage::WallpapersFetched(Ok(wps)));
            let q = v.queue + views_of(wps@);
            &&& !v1.is_fetching && v1.status is None && v1.history == v.history && v1.config == v.config
            &&& v.current is None && q.len() > 0 ==> o.effect == EffectView::Download(q[0]) && v1.queue == q.drop_first()
            &&& !(v.current is None && q.len() > 0) ==> o.effect == EffectView::Nothing && v1.queue == q
        }),
        ({
            let (v1, o) = step(v, AppMessage::WallpapersFetched(Err(e)));
            &&& !v1.is_fetching && v1.status == Some(StatusView::Text(e@)) && v1.queue == v.queue
            &&& o.effect == EffectView::Nothing
        }),
{
}

/// The countdown reads back as the time left: minutes, a colon, and two
/// digits of seconds, whose values give `secs` again.
pub proof fn lemma_countdown_reads_back(secs: u64)
    ensures
        ({
            let c = countdown_of(secs);
            let n = c.len() as int;
            &&& n >= 4
            &&& c[n - 3] == ':'
            &&& crate::text::all_digits(c.skip(n - 2)) && crate::text::digits_value(c.skip(n - 2)) == secs % 60
            &&& crate::text::all_digits(c.take(n - 3)) && crate::text::digits_value(c.take(n - 3)) == secs / 60
        }),
{
    reveal_strlit(":");
    reveal_strlit("0");
    let m = decimal((secs / 60) as nat);
    let sv = (secs % 60) as nat;
    crate::text::lemma_decimal_digits((secs / 60) as nat);
    crate::text::lemma_decimal_digits(sv);
    let tail = if sv < 10 { "0"@ + decimal(sv) } else { decimal(sv) };
    let c = countdown_of(secs);
    assert(c == m + ":"@ + tail);
    let n = c.len() as int;
    if sv < 10 {
        assert(decimal(sv) == seq![crate::text::digit_char(sv)]);
        assert(tail.len() == 2);
    } else {
        assert(decimal(sv) == decimal(sv / 10).push(crate::text::digit_char(sv % 10)));
        assert(sv / 10 < 10);
        assert(decimal(sv / 10).len() == 1);
        assert(tail.len() == 2);
    }
    assert(c.take(n - 3) =~= m);
    assert(c.skip(n - 2) =~= tail);
    assert(c[n - 3] == ':');
    if sv < 10 {
        assert(tail.drop_last() =~= "0"@);
        assert(tail.last() == decimal(sv)[0]);
        assert(decimal(sv).drop_last() =~= Seq::<char>::empty());
        assert(crate::text::digits_value("0"@) == 0) by {
            assert("0"@.drop_last() =~= Seq::<char>::empty());
        }
        assert(crate::text::digits_value(tail) == crate::text::digits_value(decimal(sv)));
        assert forall|i: int| 0 <= i < tail.len() implies crate::text::is_digit(#[trigger] tail[i]) by {
            if i == 0 {
                assert(tail[0] == '0');
            } else {
                assert(tail[1] == decimal(sv)[0]);
            }
        }
    }
}

} // verus!
