//! Setting the desktop background across desktops: which desktop is
//! running, and what to tell it. The application reads the environment and
//! files, runs the commands and writes the COSMIC background settings.
//!
//! - **COSMIC**: the `cosmic-bg` settings (picked up by `cosmic-bg`)
//! - **KDE Plasma**: `plasma-apply-wallpaperimage`, or a Plasma shell script
//!   through `qdbus6`; the lock screen through `kwriteconfig6`
//! - **GNOME and others**: `gsettings`

use vstd::prelude::*;

use crate::text::{
    ascii_lower_chars, ascii_lower_seq, chars_of, contains_chars, contains_seq, decimal, lines,
    lines_of, lowercase_of, str_eq, string_of, to_lowercase, trim, trim_chars, trim_str, u64_to_string,
    vec_views,
};

verus! {

/// The desktop environment.
#[derive(Debug, Clone, Copy, PartialEq, Eq, Structural)]
pub enum Desktop {
    Cosmic,
    Kde,
    Gnome,
    Other,
}

/// The desktop a lower-case name names, if any.
pub open spec fn desktop_named(l: Seq<char>) -> Option<Desktop> {
    if l == "cosmic"@ {
        Some(Desktop::Cosmic)
    } else if l == "kde"@ || l == "plasma"@ {
        Some(Desktop::Kde)
    } else if l == "gnome"@ {
        Some(Desktop::Gnome)
    } else {
        None
    }
}

/// The desktop a lower-case session description mentions.
pub open spec fn desktop_mentioned(c: Seq<char>) -> Desktop {
    if contains_seq(c, "cosmic"@) {
        Desktop::Cosmic
    } else if contains_seq(c, "kde"@) || contains_seq(c, "plasma"@) {
        Desktop::Kde
    } else if contains_seq(c, "gnome"@) {
        Desktop::Gnome
    } else {
        Desktop::Other
    }
}

/// What a session description mentions decides the desktop: COSMIC first,
/// then KDE Plasma (`kde` or `plasma`), then GNOME, else another one.
pub proof fn lemma_desktop_mentioned(c: Seq<char>)
    ensures
        contains_seq(c, "cosmic"@) ==> desktop_mentioned(c) == Desktop::Cosmic,
        !contains_seq(c, "cosmic"@) && contains_seq(c, "kde"@) ==> desktop_mentioned(c) == Desktop::Kde,
        !contains_seq(c, "cosmic"@) && contains_seq(c, "plasma"@) ==> desktop_mentioned(c) == Desktop::Kde,
        !contains_seq(c, "cosmic"@) && !contains_seq(c, "kde"@) && !contains_seq(c, "plasma"@)
            && contains_seq(c, "gnome"@) ==> desktop_mentioned(c) == Desktop::Gnome,
        !contains_seq(c, "cosmic"@) && !contains_seq(c, "kde"@) && !contains_seq(c, "plasma"@)
            && !contains_seq(c, "gnome"@) ==> desktop_mentioned(c) == Desktop::Other,
        desktop_mentioned(c) == Desktop::Kde <==> !contains_seq(c, "cosmic"@) && (contains_seq(
            c,
            "kde"@,
        ) || contains_seq(c, "plasma"@)),
{
}

/// The names an override takes: `cosmic`, `kde` or `plasma`, `gnome`.
pub proof fn lemma_desktop_named(l: Seq<char>)
    ensures
        desktop_named("cosmic"@) == Some(Desktop::Cosmic),
        desktop_named("kde"@) == Some(Desktop::Kde),
        desktop_named("plasma"@) == Some(Desktop::Kde),
        desktop_named("gnome"@) == Some(Desktop::Gnome),
        desktop_named(l) is Some <==> (l == "cosmic"@ || l == "kde"@ || l == "plasma"@ || l == "gnome"@),
{
    reveal_strlit("cosmic");
    reveal_strlit("kde");
    reveal_strlit("plasma");
    reveal_strlit("gnome");
    assert("kde"@ != "cosmic"@) by {
        assert("kde"@.len() != "cosmic"@.len());
    }
    assert("plasma"@ != "cosmic"@) by {
        assert("plasma"@[0] != "cosmic"@[0]);
    }
    assert("plasma"@ != "kde"@) by {
        assert("plasma"@.len() != "kde"@.len());
    }
}

/// A KDE Plasma session (whose lower-cased description mentions `kde` or
/// `plasma` and not `cosmic`), with no override, is detected as KDE and its
/// background is set through Plasma's tools.
pub proof fn lemma_kde_session(xdg: Seq<char>, session: Seq<char>)
    requires
        !contains_seq(lowercase_of(xdg + ":"@ + session), "cosmic"@),
        contains_seq(lowercase_of(xdg + ":"@ + session), "kde"@)
            || contains_seq(lowercase_of(xdg + ":"@ + session), "plasma"@),
    ensures
        detected_desktop(None, xdg, session) == Desktop::Kde,
        backend_of(detected_desktop(None, xdg, session)) == Backend::Kde,
{
}

/// The desktop named by `PAPERY_DESKTOP` (any case), if it names one.
pub open spec fn desktop_override(v: Seq<char>) -> Option<Desktop> {
    desktop_named(lowercase_of(v))
}

/// The desktop named in `XDG_CURRENT_DESKTOP:XDG_SESSION_DESKTOP` (any case).
pub open spec fn desktop_from_session(xdg: Seq<char>, session: Seq<char>) -> Desktop {
    desktop_mentioned(lowercase_of(xdg + ":"@ + session))
}

/// The running desktop: an explicit `PAPERY_DESKTOP` override when it names
/// a desktop, otherwise what the session variables (empty when unset) name.
pub open spec fn detected_desktop(over: Option<Seq<char>>, xdg: Seq<char>, session: Seq<char>) -> Desktop {
    match over {
        Some(v) => match desktop_override(v) {
            Some(d) => d,
            None => desktop_from_session(xdg, session),
        },
        None => desktop_from_session(xdg, session),
    }
}

/// The running desktop from the lower-cased override (if set) and the
/// lower-cased `XDG_CURRENT_DESKTOP:XDG_SESSION_DESKTOP`: the override when
/// it names a desktop, else the desktop the session mentions.
pub fn desktop_from_lowercase(over: Option<&str>, combined: &str) -> (r: Desktop)
    ensures
        r == match over {
            Some(l) => match desktop_named(l@) {
                Some(d) => d,
                None => desktop_mentioned(combined@),
            },
            None => desktop_mentioned(combined@),
        },
{
    if let Some(ls) = over {
        if str_eq(ls, "cosmic") {
            return Desktop::Cosmic;
        } else if str_eq(ls, "kde") || str_eq(ls, "plasma") {
            return Desktop::Kde;
        } else if str_eq(ls, "gnome") {
            return Desktop::Gnome;
        }
    }
    let cs = chars_of(combined);
    if contains_chars(&cs, "cosmic") {
        Desktop::Cosmic
    } else if contains_chars(&cs, "kde") || contains_chars(&cs, "plasma") {
        Desktop::Kde
    } else if contains_chars(&cs, "gnome") {
        Desktop::Gnome
    } else {
        Desktop::Other
    }
}

/// The running desktop (see [`detected_desktop`]), from the values of
/// `PAPERY_DESKTOP`, `XDG_CURRENT_DESKTOP` and `XDG_SESSION_DESKTOP`.
pub fn detect_desktop(over: Option<&str>, xdg: &str, session: &str) -> (r: Desktop)
    ensures
        r == detected_desktop(
            match over {
                Some(v) => Some(v@),
                None => None,
            },
            xdg@,
            session@,
        ),
{
    let mut combined = xdg.to_string();
    combined.append(":");
    combined.append(session);
    let lower = to_lowercase(combined.as_str());
    match over {
        Some(v) => {
            let l = to_lowercase(v);
            desktop_from_lowercase(Some(l.as_str()), lower.as_str())
        },
        None => desktop_from_lowercase(None, lower.as_str()),
    }
}

/// How the background is set.
#[derive(Debug, Clone, Copy, PartialEq, Eq, Structural)]
pub enum Backend {
    /// The `cosmic-bg` settings.
    Cosmic,
    /// `plasma-apply-wallpaperimage`, or a Plasma shell script.
    Kde,
    /// `gsettings`.
    Gsettings,
}

/// The backend for a desktop: COSMIC's settings on COSMIC, Plasma's tools
/// on KDE, and `gsettings` on GNOME and every other desktop.
pub open spec fn backend_of(d: Desktop) -> Backend {
    match d {
        Desktop::Cosmic => Backend::Cosmic,
        Desktop::Kde => Backend::Kde,
        Desktop::Gnome | Desktop::Other => Backend::Gsettings,
    }
}

/// The backend for a desktop (see [`backend_of`]).
pub fn backend_for(d: Desktop) -> (r: Backend)
    ensures
        r == backend_of(d),
{
    match d {
        Desktop::Cosmic => Backend::Cosmic,
        Desktop::Kde => Backend::Kde,
        Desktop::Gnome | Desktop::Other => Backend::Gsettings,
    }
}

/// How the image fills the screen.
#[derive(Debug, Clone, Copy, PartialEq, Eq, Structural)]
pub enum Scaling {
    Zoom,
    Fit,
    Stretch,
}

pub open spec fn scaling_of(s: Seq<char>) -> Scaling {
    if s == "fit"@ {
        Scaling::Fit
    } else if s == "stretch"@ {
        Scaling::Stretch
    } else {
        Scaling::Zoom
    }
}

/// The scaling a setting names: `fit`, `stretch`, anything else zoom.
pub fn scaling_from_name(s: &str) -> (r: Scaling)
    ensures
        r == scaling_of(s@),
{
    if str_eq(s, "fit") {
        Scaling::Fit
    } else if str_eq(s, "stretch") {
        Scaling::Stretch
    } else {
        Scaling::Zoom
    }
}

/// Plasma's `FillMode` for a scaling setting: 0 stretch, 1 fit (keep the
/// aspect, fit), 2 zoom (keep the aspect, crop).
pub open spec fn fill_mode_of(s: Seq<char>) -> i32 {
    if s == "stretch"@ {
        0
    } else if s == "fit"@ {
        1
    } else {
        2
    }
}

pub fn kde_fill_mode(scaling: &str) -> (r: i32)
    ensures
        r == fill_mode_of(scaling@),
{
    if str_eq(scaling, "stretch") {
        0
    } else if str_eq(scaling, "fit") {
        1
    } else {
        2
    }
}

fn fill_text(scaling: &str) -> (r: String)
    ensures
        r@ == decimal(fill_mode_of(scaling@) as nat),
{
    let f = kde_fill_mode(scaling);
    u64_to_string(f as u64)
}

/// The `file://` URI of a path.
pub open spec fn file_uri_of(path: Seq<char>) -> Seq<char> {
    "file://"@ + path
}

pub fn file_uri(path: &str) -> (r: String)
    ensures
        r@ == file_uri_of(path@),
{
    let mut r = "file://".to_string();
    r.append(path);
    r
}

/// The Plasma shell script that sets the fill mode of every desktop.
pub open spec fn kde_fill_script_of(scaling: Seq<char>) -> Seq<char> {
    "var all = desktops();\n         for (i = 0; i < all.length; i++) {\n             var d = all[i];\n             d.wallpaperPlugin = 'org.kde.image';\n             d.currentConfigGroup = ['Wallpaper', 'org.kde.image', 'General'];\n             d.writeConfig('FillMode', "@
        + decimal(fill_mode_of(scaling) as nat) + ");\n         }"@
}

pub fn kde_fill_script(scaling: &str) -> (r: String)
    ensures
        r@ == kde_fill_script_of(scaling@),
{
    let mut r = "var all = desktops();\n         for (i = 0; i < all.length; i++) {\n             var d = all[i];\n             d.wallpaperPlugin = 'org.kde.image';\n             d.currentConfigGroup = ['Wallpaper', 'org.kde.image', 'General'];\n             d.writeConfig('FillMode', ".to_string();
    let f = fill_text(scaling);
    r.append(f.as_str());
    r.append(");\n         }");
    r
}

/// A path with each `'` written as `\'`, for a quoted script string.
pub open spec fn escape_quotes(s: Seq<char>) -> Seq<char>
    decreases s.len(),
{
    if s.len() == 0 {
        seq![]
    } else if s.last() == '\'' {
        escape_quotes(s.drop_last()) + seq!['\\', '\'']
    } else {
        escape_quotes(s.drop_last()).push(s.last())
    }
}

fn escape_quotes_str(s: &str) -> (r: String)
    ensures
        r@ == escape_quotes(s@),
{
    let cs = chars_of(s);
    let mut out: Vec<char> = Vec::new();
    let mut i: usize = 0;
    while i < cs.len()
        invariant
            i <= cs@.len(),
            out@ =~= escape_quotes(cs@.take(i as int)),
        decreases cs@.len() - i,
    {
        assert(cs@.take(i as int + 1).drop_last() =~= cs@.take(i as int));
        if cs[i] == '\'' {
            out.push('\\');
            out.push('\'');
        } else {
            out.push(cs[i]);
        }
        i = i + 1;
    }
    assert(cs@.take(cs@.len() as int) =~= cs@);
    string_of(&out)
}

/// The Plasma shell script that sets the image and the fill mode of every
/// desktop.
pub open spec fn kde_image_script_of(path: Seq<char>, scaling: Seq<char>) -> Seq<char> {
    "var all = desktops();\n         for (i = 0; i < all.length; i++) {\n             var d = all[i];\n             d.wallpaperPlugin = 'org.kde.image';\n             d.currentConfigGroup = ['Wallpaper', 'org.kde.image', 'General'];\n             d.writeConfig('Image', 'file://"@
        + escape_quotes(path) + "');\n             d.writeConfig('FillMode', "@
        + decimal(fill_mode_of(scaling) as nat) + ");\n         }"@
}

pub fn kde_image_script(path: &str, scaling: &str) -> (r: String)
    ensures
        r@ == kde_image_script_of(path@, scaling@),
{
    let mut r = "var all = desktops();\n         for (i = 0; i < all.length; i++) {\n             var d = all[i];\n             d.wallpaperPlugin = 'org.kde.image';\n             d.currentConfigGroup = ['Wallpaper', 'org.kde.image', 'General'];\n             d.writeConfig('Image', 'file://".to_string();
    let p = escape_quotes_str(path);
    r.append(p.as_str());
    r.append("');\n             d.writeConfig('FillMode', ");
    let f = fill_text(scaling);
    r.append(f.as_str());
    r.append(");\n         }");
    r
}

/// The Papery wallpaper plugin's id.
pub open spec fn papery_plugin_line() -> Seq<char> {
    "wallpaperplugin=dev.papery.wallpaper"@
}

/// Whether Plasma's applet settings select the Papery wallpaper plugin for
/// some containment: a line reading `wallpaperplugin=dev.papery.wallpaper`
/// (any ASCII case, surrounding white space ignored).
pub open spec fn selects_papery_plugin(appletsrc: Seq<char>) -> bool {
    exists|i: int| 0 <= i < lines_of(appletsrc).len()
        && ascii_lower_seq(trim(#[trigger] lines_of(appletsrc)[i])) == papery_plugin_line()
}

/// Whether Plasma's applet settings select the Papery wallpaper plugin (see
/// [`selects_papery_plugin`]); then the plugin shows the wallpaper itself
/// and Plasma must not be switched back to its image plugin.
pub fn plasma_uses_papery_plugin(appletsrc: &str) -> (r: bool)
    ensures
        r == selects_papery_plugin(appletsrc@),
{
    let ls = lines(appletsrc);
    let target = chars_of("wallpaperplugin=dev.papery.wallpaper");
    let mut i: usize = 0;
    while i < ls.len()
        invariant
            i <= ls@.len(),
            vec_views(ls@) == lines_of(appletsrc@),
            target@ == papery_plugin_line(),
            forall|j: int| 0 <= j < i ==> ascii_lower_seq(trim(#[trigger] lines_of(appletsrc@)[j])) != papery_plugin_line(),
        decreases ls@.len() - i,
    {
        let t = trim_chars(&ls[i]);
        let l = ascii_lower_chars(&t);
        assert(vec_views(ls@)[i as int] == ls@[i as int]@);
        if crate::text::chars_eq(&l, &target) {
            return true;
        }
        i = i + 1;
    }
    false
}

/// Whether the lock screen already uses the Papery plugin, from what
/// `kreadconfig6` printed for its wallpaper plugin.
pub fn lockscreen_uses_papery(plugin: &str) -> (r: bool)
    ensures
        r == (trim(plugin@) == "dev.papery.wallpaper"@),
{
    let t = trim_str(plugin);
    str_eq(t.as_str(), "dev.papery.wallpaper")
}

/// The scaling setting and Plasma's fill mode agree: stretch is fill mode 0,
/// fit is 1, and zoom (any other name) is 2; only `fit` and `stretch` name
/// something other than zoom.
pub proof fn lemma_scaling_and_fill(s: Seq<char>)
    ensures
        fill_mode_of(s) == match scaling_of(s) {
            Scaling::Stretch => 0i32,
            Scaling::Fit => 1i32,
            Scaling::Zoom => 2i32,
        },
        scaling_of(s) == Scaling::Fit <==> s == "fit"@,
        scaling_of(s) == Scaling::Stretch <==> s == "stretch"@,
{
    reveal_strlit("fit");
    reveal_strlit("stretch");
    assert("fit"@ != "stretch"@) by {
        assert("fit"@.len() != "stretch"@.len());
    }
}

} // verus!
