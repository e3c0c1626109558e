use papery::daemon::{
    mark_seen, pop_unseen, shuffle_queue, take_next, wallpaper_key, DaemonState, Inspection, NextStep,
    SeenKeys, TrayResponse, MAX_REFETCHES, SEEN_URLS_CAP,
};
use papery::tray::{pause_label, tool_tip_title, TrayAction};
use papery::wallpaper::{SourceKind, WallpaperInfo};
use std::collections::VecDeque;

fn wp(url: &str) -> WallpaperInfo {
    WallpaperInfo {
        source: SourceKind::Bing,
        url: url.to_string(),
        title: format!("title of {url}"),
        copyright: String::new(),
        local_path: None,
    }
}

fn urls_of(q: &VecDeque<WallpaperInfo>) -> Vec<String> {
    q.iter().map(|w| w.url.clone()).collect()
}

#[test]
fn keys_prefer_url_then_path_then_title() {
    assert_eq!(wallpaper_key(&wp("https://a")), "https://a");
    let mut w = wp("");
    w.local_path = Some("/pics/x.jpg".to_string());
    assert_eq!(wallpaper_key(&w), "/pics/x.jpg");
    w.local_path = None;
    assert_eq!(wallpaper_key(&w), "title of ");
}

#[test]
fn seen_keys_mark_and_reset_at_cap() {
    let mut s = SeenKeys::new();
    assert_eq!(s.len(), 0);
    s.mark("a".to_string());
    s.mark("a".to_string());
    assert_eq!(s.len(), 1);
    assert!(s.contains("a"));
    for i in 1..SEEN_URLS_CAP {
        s.mark(format!("k{i}"));
    }
    assert_eq!(s.len(), SEEN_URLS_CAP);
    // Full: the memory is emptied before the new key goes in.
    s.mark("fresh".to_string());
    assert_eq!(s.len(), 1);
    assert!(s.contains("fresh"));
    assert!(!s.contains("a"));
}

#[test]
fn mark_seen_uses_the_wallpaper_key() {
    let mut s = SeenKeys::new();
    mark_seen(&mut s, &wp("https://a"));
    assert!(s.contains("https://a"));
}

#[test]
fn pop_unseen_drops_seen_front_entries() {
    let mut s = SeenKeys::new();
    s.mark("a".to_string());
    s.mark("b".to_string());
    let mut q: VecDeque<WallpaperInfo> = ["a", "b", "c", "a", "d"].iter().map(|u| wp(u)).collect();
    let got = pop_unseen(&mut q, &s).map(|w| w.url);
    assert_eq!(got.as_deref(), Some("c"));
    assert_eq!(urls_of(&q), vec!["a".to_string(), "d".to_string()]);
    let got = pop_unseen(&mut q, &s).map(|w| w.url);
    assert_eq!(got.as_deref(), Some("d"));
    assert!(q.is_empty());
    assert!(pop_unseen(&mut q, &s).is_none());
}

#[test]
fn pop_unseen_empties_an_all_seen_queue() {
    let mut s = SeenKeys::new();
    s.mark("a".to_string());
    let mut q: VecDeque<WallpaperInfo> = ["a", "a"].iter().map(|u| wp(u)).collect();
    assert!(pop_unseen(&mut q, &s).is_none());
    assert!(q.is_empty());
}

#[test]
fn take_next_fetches_then_gives_up_on_freshness() {
    let mut s = SeenKeys::new();
    s.mark("a".to_string());
    let mut q: VecDeque<WallpaperInfo> = ["a"].iter().map(|u| wp(u)).collect();
    assert!(matches!(take_next(&mut q, &s, 0), NextStep::Fetch));
    assert!(q.is_empty());

    let mut q: VecDeque<WallpaperInfo> = ["a", "b"].iter().map(|u| wp(u)).collect();
    match take_next(&mut q, &s, MAX_REFETCHES - 1) {
        NextStep::Show(w) => assert_eq!(w.url, "b"),
        _ => panic!("b is unseen"),
    }

    let mut q: VecDeque<WallpaperInfo> = ["a", "b"].iter().map(|u| wp(u)).collect();
    match take_next(&mut q, &s, MAX_REFETCHES) {
        NextStep::Show(w) => assert_eq!(w.url, "a"),
        _ => panic!("the budget is spent: the first one is shown"),
    }
    assert_eq!(urls_of(&q), vec!["b".to_string()]);

    let mut q: VecDeque<WallpaperInfo> = VecDeque::new();
    assert!(matches!(take_next(&mut q, &s, MAX_REFETCHES), NextStep::Exhausted));
}

#[test]
fn shuffle_keeps_the_same_wallpapers() {
    let mut q: VecDeque<WallpaperInfo> = ["a", "b", "c", "d", "e"].iter().map(|u| wp(u)).collect();
    shuffle_queue(&mut q);
    let mut got = urls_of(&q);
    got.sort();
    assert_eq!(got, vec!["a", "b", "c", "d", "e"]);
}

#[test]
fn countdown_ticks_down_then_rotates() {
    let mut d = DaemonState::new(3, false);
    assert_eq!(d.seconds_left, 3);
    assert!(!d.on_tick());
    assert!(!d.on_tick());
    assert!(!d.on_tick());
    assert_eq!(d.seconds_left, 0);
    assert!(d.on_tick());
    assert_eq!(d.seconds_left, 3);
}

#[test]
fn paused_ticks_change_nothing() {
    let mut d = DaemonState::new(2, true);
    for _ in 0..10 {
        assert!(!d.on_tick());
    }
    assert_eq!(d.seconds_left, 2);
}

#[test]
fn tray_actions_drive_the_loop() {
    let mut d = DaemonState::new(60, false);
    d.on_tick();
    assert_eq!(d.on_tray(TrayAction::ShowWindow), TrayResponse::LaunchGui);
    assert_eq!(d.on_tray(TrayAction::TogglePause), TrayResponse::Nothing);
    assert!(d.paused);
    assert_eq!(d.seconds_left, 59);
    assert_eq!(d.on_tray(TrayAction::TogglePause), TrayResponse::Nothing);
    assert!(!d.paused);
    assert_eq!(d.seconds_left, 60);
    d.on_tick();
    assert_eq!(d.on_tray(TrayAction::NextWallpaper), TrayResponse::RotateNow);
    assert_eq!(d.seconds_left, 60);
    assert_eq!(d.on_tray(TrayAction::Quit), TrayResponse::Exit);
}

#[test]
fn inspection_verdicts() {
    let mut d = DaemonState::new(60, false);
    assert!(!d.on_inspected(&wp("broken"), Inspection::Broken));
    assert!(d.seen.contains("broken"));
    assert_eq!(d.total_shown, 0);
    assert!(!d.on_inspected(&wp("dark"), Inspection::OffTheme));
    assert!(!d.seen.contains("dark"));
    assert!(d.on_inspected(&wp("good"), Inspection::Fine));
    assert!(d.seen.contains("good"));
    assert_eq!(d.total_shown, 1);
    // A rotation asked for from the tray goes through the same inspection.
    assert_eq!(d.on_tray(TrayAction::NextWallpaper), TrayResponse::RotateNow);
    assert!(!d.on_inspected(&wp("blank"), Inspection::Broken));
    assert_eq!(d.total_shown, 1);
    assert!(d.on_inspected(&wp("now"), Inspection::Fine));
    assert!(d.seen.contains("now"));
    assert_eq!(d.total_shown, 2);
}

#[test]
fn reload_restarts_only_on_a_new_interval() {
    let mut d = DaemonState::new(60, false);
    d.on_tick();
    d.reload(60, true);
    assert_eq!(d.seconds_left, 59);
    assert!(d.paused);
    d.reload(120, false);
    assert_eq!(d.seconds_left, 120);
    assert_eq!(d.interval, 120);
    assert!(!d.paused);
}

#[test]
fn tray_labels() {
    assert_eq!(tool_tip_title(false), "Papery - Running");
    assert_eq!(tool_tip_title(true), "Papery - Paused");
    assert_eq!(pause_label(false), "Pause");
    assert_eq!(pause_label(true), "Resume");
}
