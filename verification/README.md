# Papery

A wallpaper rotator for the COSMIC desktop (KDE Plasma and GNOME are
supported too): it fetches wallpapers from Bing, NASA APOD, Wallhaven,
Google Earth View or local folders, rotates them on a timer, keeps a history
with favourites, and offers a tray icon.

## Layout

- `src/` — the verified core, checked with Verus:
  - `wallpaper/` — the sources: request addresses, how each answer becomes
    wallpapers, the weighted pick between sources, random pages;
  - `app.rs` — the settings window's model: every message as a transition
    over an abstract view, with the outside work it asks for;
  - `daemon.rs` — the background rotation: countdown, pause, the memory of
    shown wallpapers, and which queued wallpaper comes next;
  - `seen.rs` — the persistent first-in-first-out list of seen URLs;
  - `download.rs` — cache names (SHA-256 prefixes), download plans and the
    cache cleanup order;
  - `background.rs`, `sddm.rs` — desktop detection, Plasma scripts and the
    small text formats the setup reads;
  - `text.rs` — string helpers specified over `Seq<char>`.
- `app/` — the program around it: the window (libcosmic), HTTP and JSON,
  files, the tray (ksni), commands, and image inspection.
- `tests/` — runtime tests of the library.

Usage: `papery` opens the settings window, `papery --bg` rotates in the
background with a tray icon, `sudo papery --setup-sddm` makes the SDDM login
screen follow the current wallpaper.
