//! The "Unsplash" source, backed by Lorem Picsum (https://picsum.photos),
//! which is keyless and lists ~1000 curated photos with stable ids, so each
//! photo has its own URL and deduplication works.

use vstd::prelude::*;

use super::{page_from, random_page, views_of, SourceKind, WallpaperInfo, WallpaperView};
use crate::text::{decimal, trim, trim_str, u64_to_string};

verus! {

pub struct UnsplashProvider {
    /// Kept as a label hint; Picsum does not filter by topic.
    pub topic: String,
}

/// One photo of Picsum's list.
pub struct PicsumPhoto {
    pub id: String,
    /// Empty when the list gives none.
    pub author: String,
    pub width: u32,
    pub height: u32,
}

/// The number of pages assumed before any answer (Picsum lists ~1084
/// photos).
pub const INITIAL_MAX_PAGE: u32 = 20;

/// The list request for page `page` of `limit` photos.
pub open spec fn picsum_url(page: nat, limit: nat) -> Seq<char> {
    "https://picsum.photos/v2/list?page="@ + decimal(page) + "&limit="@ + decimal(limit)
}

/// How many photos a request for `count` asks for: between 1 and 100.
pub open spec fn picsum_limit(count: usize) -> nat {
    if count < 1 { 1 } else if count > 100 { 100 } else { count as nat }
}

/// `x` brought into `lo..=hi` (as `min(hi)` then `max(lo)`).
pub open spec fn clamp_to(x: u32, lo: u32, hi: u32) -> u32 {
    let y = if x < hi { x } else { hi };
    if y > lo { y } else { lo }
}

/// The wallpaper of a photo: the photo at its own size, capped to 4K and
/// at least full HD, so that its URL is stable.
pub open spec fn picsum_wallpaper(p: PicsumPhoto) -> WallpaperView {
    WallpaperView {
        source: SourceKind::Unsplash,
        url: "https://picsum.photos/id/"@ + p.id@ + "/"@ + decimal(clamp_to(p.width, 1920, 3840) as nat)
            + "/"@ + decimal(clamp_to(p.height, 1080, 2160) as nat),
        title: if p.author@.len() == 0 { "Picsum #"@ + p.id@ } else { "Picsum · "@ + p.author@ },
        copyright: "© "@ + p.author@ + " / Lorem Picsum"@,
        local_path: None,
    }
}

/// The page count after an answer to a request for `page`, when `max_page`
/// pages were assumed: an answer from the last page that is not empty
/// shows there are more, so ten more pages are assumed.
pub open spec fn picsum_max_page(answer_empty: bool, page: u32, max_page: u32) -> u32 {
    let m = if max_page > 0 { max_page } else { 1 };
    if !answer_empty && page == m {
        if m as int + 10 <= u32::MAX { (m + 10) as u32 } else { u32::MAX }
    } else {
        max_page
    }
}

fn clamp_u32(x: u32, lo: u32, hi: u32) -> (r: u32)
    ensures
        r == clamp_to(x, lo, hi),
{
    let y = if x < hi { x } else { hi };
    if y > lo { y } else { lo }
}

impl UnsplashProvider {
    /// The topic is kept without surrounding white space.
    pub fn new(topic: &str) -> (r: UnsplashProvider)
        ensures
            r.topic@ == trim(topic@),
    {
        UnsplashProvider { topic: trim_str(topic) }
    }

    pub fn kind(&self) -> (r: SourceKind)
        ensures
            r == SourceKind::Unsplash,
    {
        SourceKind::Unsplash
    }

    pub fn name(&self) -> (r: &'static str)
        ensures
            r@ == "Picsum"@,
    {
        "Picsum"
    }

    /// The list request for page `page` of `limit` photos.
    pub fn page_url(page: u32, limit: u32) -> (r: String)
        ensures
            r@ == picsum_url(page as nat, limit as nat),
    {
        let mut r = "https://picsum.photos/v2/list?page=".to_string();
        let a = u64_to_string(page as u64);
        r.append(a.as_str());
        r.append("&limit=");
        let b = u64_to_string(limit as u64);
        r.append(b.as_str());
        r
    }

    /// The request for `count` photos from a random page among the first
    /// `max_page`, and that page.
    pub fn request(count: usize, max_page: u32) -> (r: (String, u32))
        ensures
            exists|x: u32| r.1 == page_from(x, max_page),
            r.0@ == picsum_url(r.1 as nat, picsum_limit(count)),
    {
        let limit: u32 = if count < 1 { 1 } else if count > 100 { 100 } else { count as u32 };
        let page = random_page(max_page);
        (Self::page_url(page, limit), page)
    }

    /// The page count after an answer (see [`picsum_max_page`]).
    pub fn next_max_page(answer_empty: bool, page: u32, max_page: u32) -> (r: u32)
        ensures
            r == picsum_max_page(answer_empty, page, max_page),
    {
        let m = if max_page > 0 { max_page } else { 1 };
        if !answer_empty && page == m {
            m.saturating_add(10)
        } else {
            max_page
        }
    }

    /// The wallpapers of the listed photos, in order.
    pub fn wallpapers(photos: Vec<PicsumPhoto>) -> (r: Vec<WallpaperInfo>)
        ensures
            views_of(r@) == photos@.map_values(|p: PicsumPhoto| picsum_wallpaper(p)),
    {
        let mut r: Vec<WallpaperInfo> = Vec::new();
        let mut i: usize = 0;
        while i < photos.len()
            invariant
                i <= photos@.len(),
                views_of(r@) =~= photos@.map_values(|p: PicsumPhoto| picsum_wallpaper(p)).take(i as int),
            decreases photos@.len() - i,
        {
            let p = &photos[i];
            let w_ = clamp_u32(p.width, 1920, 3840);
            let h_ = clamp_u32(p.height, 1080, 2160);
            let mut url = "https://picsum.photos/id/".to_string();
            url.append(p.id.as_str());
            url.append("/");
            let ws = u64_to_string(w_ as u64);
            url.append(ws.as_str());
            url.append("/");
            let hs = u64_to_string(h_ as u64);
            url.append(hs.as_str());
            let title = if p.author.as_str().unicode_len() == 0 {
                let mut t = "Picsum #".to_string();
                t.append(p.id.as_str());
                t
            } else {
                let mut t = "Picsum · ".to_string();
                t.append(p.author.as_str());
                t
            };
            let mut copyright = "© ".to_string();
            copyright.append(p.author.as_str());
            copyright.append(" / Lorem Picsum");
            let w = WallpaperInfo { source: SourceKind::Unsplash, url, title, copyright, local_path: None };
            let ghost before = views_of(r@);
            r.push(w);
            assert(views_of(r@) =~= before.push(picsum_wallpaper(photos@[i as int])));
            i = i + 1;
        }
        r
    }
}

/// A photo's wallpaper is the photo itself (by its id) at its own size
/// brought between full HD and 4K; a request asks for 1 to 100 photos.
pub proof fn lemma_picsum(p: PicsumPhoto, count: usize)
    ensures
        1920 <= clamp_to(p.width, 1920, 3840) <= 3840,
        1080 <= clamp_to(p.height, 1080, 2160) <= 2160,
        1920 <= p.width <= 3840 ==> clamp_to(p.width, 1920, 3840) == p.width,
        1080 <= p.height <= 2160 ==> clamp_to(p.height, 1080, 2160) == p.height,
        p.author@.len() > 0 ==> picsum_wallpaper(p).title == "Picsum · "@ + p.author@,
        1 <= picsum_limit(count) <= 100,
        1 <= count <= 100 ==> picsum_limit(count) == count,
{
}

} // verus!
