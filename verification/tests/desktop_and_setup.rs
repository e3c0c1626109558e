use papery::background::{
    backend_for, desktop_from_lowercase, detect_desktop, file_uri, kde_fill_mode, kde_fill_script, kde_image_script, lockscreen_uses_papery,
    plasma_uses_papery_plugin, scaling_from_name, Backend, Desktop, Scaling,
};
use papery::config::{PaperyConfig, APP_ID};
use papery::pages::Page;
use papery::sddm::{current_theme, passwd_ids, theme_background};

#[test]
fn desktop_override_wins_in_any_case() {
    assert_eq!(detect_desktop(Some("KDE"), "GNOME", "gnome"), Desktop::Kde);
    assert_eq!(detect_desktop(Some("Plasma"), "", ""), Desktop::Kde);
    assert_eq!(detect_desktop(Some("cosmic"), "KDE", ""), Desktop::Cosmic);
    assert_eq!(detect_desktop(Some("Gnome"), "", ""), Desktop::Gnome);
    // An override naming no desktop falls back to the session variables.
    assert_eq!(detect_desktop(Some("xfce"), "GNOME", ""), Desktop::Gnome);
}

#[test]
fn desktop_from_session_variables() {
    assert_eq!(detect_desktop(None, "COSMIC", ""), Desktop::Cosmic);
    assert_eq!(detect_desktop(None, "", "plasmawayland"), Desktop::Kde);
    assert_eq!(detect_desktop(None, "ubuntu:GNOME", "ubuntu"), Desktop::Gnome);
    assert_eq!(detect_desktop(None, "XFCE", "xfce"), Desktop::Other);
    assert_eq!(detect_desktop(None, "", ""), Desktop::Other);
}

#[test]
fn scaling_names_and_fill_modes() {
    assert_eq!(scaling_from_name("fit"), Scaling::Fit);
    assert_eq!(scaling_from_name("stretch"), Scaling::Stretch);
    assert_eq!(scaling_from_name("zoom"), Scaling::Zoom);
    assert_eq!(scaling_from_name("Fit"), Scaling::Zoom);
    assert_eq!(kde_fill_mode("stretch"), 0);
    assert_eq!(kde_fill_mode("fit"), 1);
    assert_eq!(kde_fill_mode("zoom"), 2);
    assert_eq!(kde_fill_mode(""), 2);
}

#[test]
fn kde_scripts() {
    assert_eq!(file_uri("/c/a.jpg"), "file:///c/a.jpg");
    let fill = kde_fill_script("fit");
    assert!(fill.starts_with("var all = desktops();"));
    assert!(fill.contains("d.wallpaperPlugin = 'org.kde.image';"));
    assert!(fill.ends_with("d.writeConfig('FillMode', 1);\n         }"));
    let img = kde_image_script("/home/o'neil/a.jpg", "stretch");
    assert!(img.contains("d.writeConfig('Image', 'file:///home/o\\'neil/a.jpg');"));
    assert!(img.ends_with("d.writeConfig('FillMode', 0);\n         }"));
}

#[test]
fn plasma_plugin_detection() {
    let rc = "[Containments][1]\nactivityId=x\n  WallpaperPlugin=dev.papery.wallpaper  \n";
    assert!(plasma_uses_papery_plugin(rc));
    assert!(plasma_uses_papery_plugin("wallpaperplugin=dev.papery.wallpaper"));
    assert!(!plasma_uses_papery_plugin("wallpaperplugin=org.kde.image\n"));
    assert!(!plasma_uses_papery_plugin("x wallpaperplugin=dev.papery.wallpaper"));
    assert!(!plasma_uses_papery_plugin(""));
    assert!(lockscreen_uses_papery("dev.papery.wallpaper\n"));
    assert!(!lockscreen_uses_papery("org.kde.image\n"));
    assert!(!lockscreen_uses_papery(""));
}

#[test]
fn passwd_lookup() {
    let passwd = "root:x:0:0:root:/root:/bin/bash\nalice:x:1000:1001:Alice:/home/alice:/bin/zsh\n";
    assert_eq!(passwd_ids(passwd, "alice"), Some((1000, 1001)));
    assert_eq!(passwd_ids(passwd, "root"), Some((0, 0)));
    assert_eq!(passwd_ids(passwd, "bob"), None);
    // A line whose ids do not parse is passed over.
    let passwd = "alice:x:abc:1\nalice:x:7:8\n";
    assert_eq!(passwd_ids(passwd, "alice"), Some((7, 8)));
    assert_eq!(passwd_ids("alice:x:1", "alice"), None);
}

#[test]
fn sddm_theme_and_background() {
    let conf = "[Autologin]\nRelogin=false\n\n[Theme]\nCurrent=breeze \nCursorTheme=x\n";
    assert_eq!(current_theme(conf), Some("breeze".to_string()));
    assert_eq!(current_theme("[Theme]\n  Current=x\n"), None);
    assert_eq!(current_theme(""), None);
    let theme = "[General]\n  Background=\"Backgrounds/desktop.jpg\"\ntype=image\n";
    assert_eq!(theme_background(theme), Some("Backgrounds/desktop.jpg".to_string()));
    assert_eq!(theme_background("Background=wall.png"), Some("wall.png".to_string()));
    assert_eq!(theme_background("[General]\ntype=color\n"), None);
}

#[test]
fn pages_titles_and_icons() {
    assert_eq!(Page::Sources.title(), "Sources");
    assert_eq!(Page::Schedule.title(), "Schedule");
    assert_eq!(Page::Appearance.title(), "Appearance");
    assert_eq!(Page::History.title(), "History");
    assert_eq!(Page::Sources.icon(), "applications-internet-symbolic");
    assert_eq!(Page::Schedule.icon(), "preferences-system-time-symbolic");
    assert_eq!(Page::Appearance.icon(), "preferences-desktop-wallpaper-symbolic");
    assert_eq!(Page::History.icon(), "document-open-recent-symbolic");
}

#[test]
fn default_settings() {
    let c = PaperyConfig::default();
    assert!(c.source_bing && c.source_nasa);
    assert!(!c.source_wallhaven && !c.source_earthview && !c.source_local);
    assert_eq!(c.rotation_interval_secs, 1800);
    assert!(!c.paused);
    assert_eq!(c.scaling_mode, "zoom");
    assert_eq!(c.theme_filter, "any");
    assert_eq!(c.max_cache_size, 200);
    assert_eq!(c.wallhaven_categories, "100");
    assert_eq!(c.wallhaven_purity, "100");
    assert_eq!(APP_ID, "dev.papery.CosmicApplet");
}

#[test]
fn desktop_from_lowercased_values() {
    assert_eq!(desktop_from_lowercase(Some("plasma"), "gnome:"), Desktop::Kde);
    assert_eq!(desktop_from_lowercase(Some("KDE"), "gnome:"), Desktop::Gnome);
    assert_eq!(desktop_from_lowercase(None, "pop:cosmic"), Desktop::Cosmic);
    assert_eq!(desktop_from_lowercase(None, ":"), Desktop::Other);
}

#[test]
fn backends_per_desktop() {
    assert_eq!(backend_for(Desktop::Cosmic), Backend::Cosmic);
    assert_eq!(backend_for(Desktop::Kde), Backend::Kde);
    assert_eq!(backend_for(Desktop::Gnome), Backend::Gsettings);
    assert_eq!(backend_for(Desktop::Other), Backend::Gsettings);
}
