use papery::app::{countdown_text, shuffled_batch, AppMessage, AppModel, Effect, Outcome, Status};
use papery::config::PaperyConfig;
use papery::scheduler::SchedulerEvent;
use papery::tray::TrayAction;
use papery::wallpaper::{Provider, SourceKind, WallpaperInfo};
use std::time::Instant;

fn wp(url: &str) -> WallpaperInfo {
    WallpaperInfo {
        source: SourceKind::Bing,
        url: url.to_string(),
        title: url.to_string(),
        copyright: String::new(),
        local_path: None,
    }
}

fn downloaded(url: &str, path: &str) -> WallpaperInfo {
    let mut w = wp(url);
    w.local_path = Some(path.to_string());
    w
}

fn update(m: &mut AppModel, msg: AppMessage) -> Outcome {
    assert!(m.accepts(&msg));
    m.update(msg)
}

fn tick(m: &mut AppModel) -> Outcome {
    update(m, AppMessage::TimerTick(SchedulerEvent::Tick(Instant::now())))
}

fn applied(o: &Outcome) -> Option<(String, bool)> {
    match &o.effect {
        Effect::Apply { path, report } => Some((path.clone(), *report)),
        _ => None,
    }
}

fn fields(m: &AppModel) -> (String, String, String) {
    let (h, mm, s) = m.interval_fields();
    (h.clone(), mm.clone(), s.clone())
}

#[test]
fn countdown_texts() {
    assert_eq!(countdown_text(1800), "30:00");
    assert_eq!(countdown_text(65), "1:05");
    assert_eq!(countdown_text(0), "0:00");
    assert_eq!(countdown_text(59), "0:59");
    assert_eq!(countdown_text(3599), "59:59");
    assert_eq!(countdown_text(3600), "60:00");
}

#[test]
fn new_model_from_default_settings() {
    let m = AppModel::new(PaperyConfig::default());
    assert_eq!(m.seconds_until_next(), 1800);
    assert!(m.history().is_empty());
    assert_eq!(m.history_index(), 0);
    assert!(m.current_wallpaper().is_none());
    assert!(m.status().is_none());
    assert_eq!(fields(&m), ("0".to_string(), "30".to_string(), "0".to_string()));
    let mut c = PaperyConfig::default();
    c.rotation_interval_secs = 3 * 3600 + 4 * 60 + 5;
    let m = AppModel::new(c);
    assert_eq!(fields(&m), ("3".to_string(), "4".to_string(), "5".to_string()));
}

#[test]
fn fetch_more_asks_enabled_sources_once() {
    let mut m = AppModel::new(PaperyConfig::default());
    let o = update(&mut m, AppMessage::FetchMore);
    match o.effect {
        Effect::Fetch(ps) => {
            assert_eq!(ps.len(), 2);
            assert!(matches!(ps[0], Provider::Bing(_)));
            assert!(matches!(ps[1], Provider::NasaApod(_)));
        }
        _ => panic!("a fetch starts"),
    }
    assert!(!o.save_config);
    // Still fetching: a second request does nothing.
    assert!(matches!(update(&mut m, AppMessage::FetchMore).effect, Effect::Nothing));
}

#[test]
fn fetch_without_sources_reports_it() {
    let mut c = PaperyConfig::default();
    c.source_bing = false;
    c.source_nasa = false;
    let mut m = AppModel::new(c);
    assert!(matches!(update(&mut m, AppMessage::FetchMore).effect, Effect::Nothing));
    assert!(matches!(m.status(), Some(Status::NoSources)));
}

#[test]
fn fetched_wallpapers_are_downloaded_then_applied() {
    let mut m = AppModel::new(PaperyConfig::default());
    update(&mut m, AppMessage::FetchMore);
    let o = update(&mut m, AppMessage::WallpapersFetched(Ok(vec![wp("a"), wp("b")])));
    match o.effect {
        Effect::Download(w) => assert_eq!(w.url, "a"),
        _ => panic!("the first fetched wallpaper is downloaded"),
    }
    let o = update(&mut m, AppMessage::WallpaperReady(Ok(downloaded("a", "/c/a.jpg"))));
    assert_eq!(applied(&o), Some(("/c/a.jpg".to_string(), true)));
    assert_eq!(m.history().len(), 1);
    assert_eq!(m.history_index(), 0);
    assert_eq!(m.current_wallpaper().map(|w| w.url.clone()), Some("a".to_string()));

    // The queue still holds b.
    match update(&mut m, AppMessage::NextWallpaper).effect {
        Effect::Download(w) => assert_eq!(w.url, "b"),
        _ => panic!("b is next"),
    }
    update(&mut m, AppMessage::WallpaperReady(Ok(downloaded("b", "/c/b.jpg"))));
    assert_eq!(m.history_index(), 1);

    // Back and forth through the history.
    let o = update(&mut m, AppMessage::PreviousWallpaper);
    assert_eq!(applied(&o), Some(("/c/a.jpg".to_string(), false)));
    assert_eq!(m.history_index(), 0);
    assert!(matches!(update(&mut m, AppMessage::PreviousWallpaper).effect, Effect::Nothing));
    let o = update(&mut m, AppMessage::NextWallpaper);
    assert_eq!(applied(&o), Some(("/c/b.jpg".to_string(), false)));
    assert_eq!(m.history_index(), 1);
    let o = update(&mut m, AppMessage::SetWallpaperFromHistory(0));
    assert_eq!(applied(&o), Some(("/c/a.jpg".to_string(), false)));
    assert!(matches!(update(&mut m, AppMessage::SetWallpaperFromHistory(7)).effect, Effect::Nothing));
    assert_eq!(m.history_index(), 0);
}

#[test]
fn fetched_wallpapers_wait_when_one_is_shown() {
    let mut m = AppModel::new(PaperyConfig::default());
    update(&mut m, AppMessage::WallpaperReady(Ok(downloaded("a", "/c/a.jpg"))));
    let o = update(&mut m, AppMessage::WallpapersFetched(Ok(vec![wp("b")])));
    assert!(matches!(o.effect, Effect::Nothing));
}

#[test]
fn errors_go_to_the_status_line() {
    let mut m = AppModel::new(PaperyConfig::default());
    update(&mut m, AppMessage::WallpapersFetched(Err("network down".to_string())));
    assert!(matches!(m.status(), Some(Status::Text(t)) if t == "network down"));
    update(&mut m, AppMessage::WallpaperReady(Err("bad image".to_string())));
    assert!(matches!(m.status(), Some(Status::Text(t)) if t == "bad image"));
    update(&mut m, AppMessage::WallpaperSet(Err("no backend".to_string())));
    assert!(matches!(m.status(), Some(Status::Text(t)) if t == "no backend"));
    m.set_status_text("Failed to set wallpaper: x".to_string());
    assert!(matches!(m.status(), Some(Status::Text(t)) if t == "Failed to set wallpaper: x"));
}

#[test]
fn pause_stops_the_countdown_and_resume_restarts_it() {
    let mut m = AppModel::new(PaperyConfig::default());
    tick(&mut m);
    assert_eq!(m.seconds_until_next(), 1799);
    let o = update(&mut m, AppMessage::TogglePause);
    assert!(o.save_config);
    assert_eq!(o.tray_paused, Some(true));
    assert!(m.config().paused);
    tick(&mut m);
    assert_eq!(m.seconds_until_next(), 1799);
    let o = update(&mut m, AppMessage::Tray(TrayAction::TogglePause));
    assert_eq!(o.tray_paused, Some(false));
    assert_eq!(m.seconds_until_next(), 1800);
}

#[test]
fn countdown_reaching_zero_moves_on() {
    let mut m = AppModel::new(PaperyConfig::default());
    let o = update(&mut m, AppMessage::SetRotationInterval(2));
    assert!(o.save_config);
    assert_eq!(m.seconds_until_next(), 2);
    assert!(matches!(tick(&mut m).effect, Effect::Nothing));
    assert_eq!(m.seconds_until_next(), 1);
    // Queue empty: the rotation fetches.
    assert!(matches!(tick(&mut m).effect, Effect::Fetch(_)));
    assert_eq!(m.seconds_until_next(), 2);
}

#[test]
fn favorites_toggle_on_and_off() {
    let mut m = AppModel::new(PaperyConfig::default());
    update(&mut m, AppMessage::WallpaperReady(Ok(downloaded("a", "/c/a.jpg"))));
    let o = update(&mut m, AppMessage::ToggleFavorite(0));
    assert!(o.save_config);
    assert_eq!(m.config().favorites, vec!["/c/a.jpg".to_string()]);
    update(&mut m, AppMessage::ToggleFavorite(0));
    assert!(m.config().favorites.is_empty());
    let o = update(&mut m, AppMessage::ToggleFavorite(3));
    assert!(!o.save_config);
}

#[test]
fn interval_fields_set_the_interval() {
    let mut m = AppModel::new(PaperyConfig::default());
    let o = update(&mut m, AppMessage::SetIntervalMinutes("5".to_string()));
    assert!(o.save_config);
    assert_eq!(m.config().rotation_interval_secs, 300);
    assert_eq!(m.seconds_until_next(), 300);
    let o = update(&mut m, AppMessage::SetIntervalHours("1".to_string()));
    assert!(o.save_config);
    assert_eq!(m.config().rotation_interval_secs, 3900);
    // Fields that spell zero change nothing.
    update(&mut m, AppMessage::SetIntervalHours("0".to_string()));
    let o = update(&mut m, AppMessage::SetIntervalMinutes("abc".to_string()));
    assert!(!o.save_config);
    assert_eq!(m.config().rotation_interval_secs, 300);
    // An interval beyond a u64 is refused.
    let huge = AppMessage::SetIntervalHours("18446744073709551615".to_string());
    assert!(!m.accepts(&huge));
}

#[test]
fn settings_toggles_are_saved() {
    let mut m = AppModel::new(PaperyConfig::default());
    assert!(update(&mut m, AppMessage::ToggleSourceWallhaven).save_config);
    assert!(m.config().source_wallhaven);
    assert!(update(&mut m, AppMessage::ToggleSourceBing).save_config);
    assert!(!m.config().source_bing);
    assert!(update(&mut m, AppMessage::SetThemeFilter("dark".to_string())).save_config);
    assert_eq!(m.config().theme_filter, "dark");
    update(&mut m, AppMessage::WallpaperReady(Ok(downloaded("a", "/c/a.jpg"))));
    let o = update(&mut m, AppMessage::SetScalingMode("fit".to_string()));
    assert!(o.save_config);
    assert_eq!(applied(&o), Some(("/c/a.jpg".to_string(), false)));
    assert_eq!(m.config().scaling_mode, "fit");
}

#[test]
fn tray_quit_exits() {
    let mut m = AppModel::new(PaperyConfig::default());
    assert!(matches!(update(&mut m, AppMessage::Tray(TrayAction::Quit)).effect, Effect::Exit));
    assert!(matches!(update(&mut m, AppMessage::Tray(TrayAction::ShowWindow)).effect, Effect::Nothing));
}

#[test]
fn shuffled_batches() {
    assert!(shuffled_batch(Vec::new()).is_none());
    let got = shuffled_batch(vec![wp("a"), wp("b"), wp("c")]).unwrap();
    let mut urls: Vec<String> = got.iter().map(|w| w.url.clone()).collect();
    urls.sort();
    assert_eq!(urls, vec!["a", "b", "c"]);
}
