//! Community wallpapers from Wallhaven, sampled from random pages of the
//! whole catalogue sorted by upload date (pages far apart never overlap).

use vstd::prelude::*;

use super::{page_from, random_page, views_of, SourceKind, WallpaperInfo, WallpaperView};
use crate::text::{decimal, parse_u32, parse_unsigned, str_eq, trim, trim_str, u64_to_string};

verus! {

/// Community wallpapers from Wallhaven, filtered by category and purity
/// flags (e.g. `100`: general only; `100`: safe for work only).
pub struct WallhavenProvider {
    pub categories: String,
    pub purity: String,
}

/// One entry of a search answer (missing fields are empty).
pub struct WallhavenEntry {
    pub path: String,
    pub category: String,
    pub resolution: String,
}

/// The number of pages assumed before any answer: about the size of the
/// general, safe-for-work catalogue.
pub const INITIAL_LAST_PAGE: u32 = 15000;

/// The search request for page `page`, newest first, at least full HD.
pub open spec fn wallhaven_url(categories: Seq<char>, purity: Seq<char>, page: nat) -> Seq<char> {
    "https://wallhaven.cc/api/v1/search?categories="@ + categories + "&purity="@ + purity
        + "&sorting=date_added&order=desc&page="@ + decimal(page) + "&atleast=1920x1080"@
}

/// The label of a category.
pub open spec fn category_label(c: Seq<char>) -> Seq<char> {
    if c == "general"@ {
        "General"@
    } else if c == "anime"@ {
        "Anime"@
    } else if c == "people"@ {
        "People"@
    } else {
        ""@
    }
}

pub open spec fn wallhaven_wallpaper(e: WallhavenEntry) -> WallpaperView {
    WallpaperView {
        source: SourceKind::Wallhaven,
        url: e.path@,
        title: if e.resolution@.len() == 0 {
            "Wallhaven · "@ + category_label(e.category@)
        } else {
            "Wallhaven · "@ + category_label(e.category@) + " · "@ + e.resolution@
        },
        copyright: "Wallhaven"@,
        local_path: None,
    }
}

/// After an answer reporting `reported` as the last page: the new page
/// count (a positive report replaces `prev`), and whether it changed and so
/// is to be written to disk.
pub open spec fn wallhaven_last_page(reported: Option<u32>, prev: u32) -> (u32, bool) {
    match reported {
        Some(lp) => if lp > 0 { (lp, prev != lp) } else { (prev, false) },
        None => (prev, false),
    }
}

fn category_label_of(c: &String) -> (r: &'static str)
    ensures
        r@ == category_label(c@),
{
    if str_eq(c.as_str(), "general") {
        "General"
    } else if str_eq(c.as_str(), "anime") {
        "Anime"
    } else if str_eq(c.as_str(), "people") {
        "People"
    } else {
        ""
    }
}

impl WallhavenProvider {
    pub fn new(categories: &str, purity: &str) -> (r: WallhavenProvider)
        ensures
            r.categories@ == categories@,
            r.purity@ == purity@,
    {
        WallhavenProvider { categories: categories.to_string(), purity: purity.to_string() }
    }

    pub fn kind(&self) -> (r: SourceKind)
        ensures
            r == SourceKind::Wallhaven,
    {
        SourceKind::Wallhaven
    }

    pub fn name(&self) -> (r: &'static str)
        ensures
            r@ == "Wallhaven"@,
    {
        "Wallhaven"
    }

    /// The search request for page `page`.
    pub fn page_url(&self, page: u32) -> (r: String)
        ensures
            r@ == wallhaven_url(self.categories@, self.purity@, page as nat),
    {
        let mut r = "https://wallhaven.cc/api/v1/search?categories=".to_string();
        r.append(self.categories.as_str());
        r.append("&purity=");
        r.append(self.purity.as_str());
        r.append("&sorting=date_added&order=desc&page=");
        let p = u64_to_string(page as u64);
        r.append(p.as_str());
        r.append("&atleast=1920x1080");
        r
    }

    /// The search request for a random page among the first `last_page`.
    pub fn request_url(&self, last_page: u32) -> (r: String)
        ensures
            exists|x: u32| r@ == wallhaven_url(self.categories@, self.purity@, page_from(x, last_page) as nat),
    {
        let page = random_page(last_page);
        self.page_url(page)
    }

    /// The page count after an answer (see [`wallhaven_last_page`]).
    pub fn next_last_page(reported: Option<u32>, prev: u32) -> (r: (u32, bool))
        ensures
            r == wallhaven_last_page(reported, prev),
    {
        match reported {
            Some(lp) => {
                if lp > 0 {
                    (lp, prev != lp)
                } else {
                    (prev, false)
                }
            },
            None => (prev, false),
        }
    }

    /// The page count saved on disk: the file's text, trimmed, as a number.
    pub fn parse_saved_last_page(contents: &str) -> (r: Option<u32>)
        ensures
            match parse_unsigned(trim(contents@), u32::MAX as nat) {
                Some(v) => r == Some(v as u32),
                None => r is None,
            },
    {
        let t = trim_str(contents);
        parse_u32(t.as_str())
    }

    /// The text the page count is saved as.
    pub fn saved_last_page_text(p: u32) -> (r: String)
        ensures
            r@ == decimal(p as nat),
    {
        u64_to_string(p as u64)
    }

    /// The wallpapers of the answer's entries, in order.
    pub fn wallpapers(entries: Vec<WallhavenEntry>) -> (r: Vec<WallpaperInfo>)
        ensures
            views_of(r@) == entries@.map_values(|e: WallhavenEntry| wallhaven_wallpaper(e)),
    {
        let mut r: Vec<WallpaperInfo> = Vec::new();
        let mut i: usize = 0;
        while i < entries.len()
            invariant
                i <= entries@.len(),
                views_of(r@) =~= entries@.map_values(|e: WallhavenEntry| wallhaven_wallpaper(e)).take(i as int),
            decreases entries@.len() - i,
        {
            let e = &entries[i];
            let label = category_label_of(&e.category);
            let mut title = "Wallhaven · ".to_string();
            title.append(label);
            if e.resolution.as_str().unicode_len() > 0 {
                title.append(" · ");
                title.append(e.resolution.as_str());
            }
            let w = WallpaperInfo {
                source: SourceKind::Wallhaven,
                url: e.path.clone(),
                title,
                copyright: "Wallhaven".to_string(),
                local_path: None,
            };
            let ghost before = views_of(r@);
            r.push(w);
            assert(views_of(r@) =~= before.push(wallhaven_wallpaper(entries@[i as int])));
            i = i + 1;
        }
        r
    }
}

/// A Wallhaven wallpaper is the entry's image, titled by its category
/// (General, Anime or People) and, when known, its resolution. A reported
/// positive page count replaces the previous one (and is saved when it
/// differs); anything else keeps it.
pub proof fn lemma_wallhaven(e: WallhavenEntry, reported: Option<u32>, prev: u32)
    ensures
        wallhaven_wallpaper(e).url == e.path@,
        wallhaven_wallpaper(e).source == SourceKind::Wallhaven,
        e.resolution@.len() > 0 ==> wallhaven_wallpaper(e).title == "Wallhaven · "@ + category_label(e.category@)
            + " · "@ + e.resolution@,
        category_label("general"@) == "General"@,
        category_label("anime"@) == "Anime"@,
        category_label("people"@) == "People"@,
        reported matches Some(lp) && lp > 0 ==> wallhaven_last_page(reported, prev) == (
            reported->0,
            reported->0 != prev,
        ),
        !(reported matches Some(lp) && lp > 0) ==> wallhaven_last_page(reported, prev) == (prev, false),
{
    reveal_strlit("general");
    reveal_strlit("anime");
    reveal_strlit("people");
    assert("anime"@ != "general"@) by {
        assert("anime"@[0] != "general"@[0]);
    }
    assert("people"@ != "general"@) by {
        assert("people"@[0] != "general"@[0]);
    }
    assert("people"@ != "anime"@) by {
        assert("people"@[0] != "anime"@[0]);
    }
}

} // verus!
