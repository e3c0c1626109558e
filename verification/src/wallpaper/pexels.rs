//! Curated photos from Pexels (needs an API key).

use vstd::prelude::*;

use super::{page_from, random_page, views_of, SourceKind, WallpaperInfo, WallpaperView};
use crate::text::{decimal, trim, trim_str, u64_to_string};

verus! {

/// Curated photos from Pexels; needs an API key.
pub struct PexelsProvider {
    pub api_key: String,
}

/// One photo of the answer (missing fields are empty).
pub struct PexelsPhoto {
    pub photographer: String,
    pub alt: String,
    /// `src.original`
    pub original: String,
    /// `src.landscape`
    pub landscape: String,
}

/// The number of the last page before the answer is known.
pub const INITIAL_LAST_PAGE: u32 = 200;

/// The curated-photos request for page `page` of `per_page` photos.
pub open spec fn pexels_url(per_page: nat, page: nat) -> Seq<char> {
    "https://api.pexels.com/v1/curated?per_page="@ + decimal(per_page) + "&page="@ + decimal(page)
}

/// How many photos a request for `count` asks for: between 1 and 80.
pub open spec fn pexels_per_page(count: usize) -> nat {
    if count < 1 { 1 } else if count > 80 { 80 } else { count as nat }
}

/// The message given when no API key is set.
pub open spec fn missing_key_message() -> Seq<char> {
    "Pexels API key not configured. Get one free at https://www.pexels.com/api/"@
}

/// The image URL of a photo: the original, else the landscape crop;
/// none when both are empty.
pub open spec fn pexels_image_url(p: PexelsPhoto) -> Option<Seq<char>> {
    if p.original@.len() > 0 {
        Some(p.original@)
    } else if p.landscape@.len() > 0 {
        Some(p.landscape@)
    } else {
        None
    }
}

pub open spec fn pexels_wallpaper(p: PexelsPhoto) -> WallpaperView {
    WallpaperView {
        source: SourceKind::Pexels,
        url: pexels_image_url(p)->0,
        title: if p.alt@.len() == 0 { "Pexels · "@ + p.photographer@ } else { p.alt@ },
        copyright: "© "@ + p.photographer@ + " / Pexels"@,
        local_path: None,
    }
}

pub open spec fn pexels_wallpapers(ps: Seq<PexelsPhoto>) -> Seq<WallpaperView>
    decreases ps.len(),
{
    if ps.len() == 0 {
        seq![]
    } else {
        let rest = pexels_wallpapers(ps.drop_last());
        if pexels_image_url(ps.last()) is Some { rest.push(pexels_wallpaper(ps.last())) } else { rest }
    }
}

/// The last page after an answer reporting `total` photos at `per_page` a
/// page: the pages needed for all photos, when both are known and
/// positive; `prev` otherwise.
pub open spec fn pexels_last_page(total: Option<u32>, per_page: Option<u32>, prev: u32) -> u32 {
    match (total, per_page) {
        (Some(t), Some(pp)) => if pp > 0 && t > 0 { ((t + pp - 1) / (pp as int)) as u32 } else { prev },
        _ => prev,
    }
}

/// Whether the page count can be worked out without overflow: `total +
/// per_page` must fit in a `u32`.
pub open spec fn pexels_refresh_fits(total: Option<u32>, per_page: Option<u32>) -> bool {
    match (total, per_page) {
        (Some(t), Some(pp)) => pp > 0 && t > 0 ==> t + pp <= u32::MAX,
        _ => true,
    }
}

impl PexelsProvider {
    /// The key is kept without surrounding white space.
    pub fn new(api_key: &str) -> (r: PexelsProvider)
        ensures
            r.api_key@ == trim(api_key@),
    {
        PexelsProvider { api_key: trim_str(api_key) }
    }

    pub fn kind(&self) -> (r: SourceKind)
        ensures
            r == SourceKind::Pexels,
    {
        SourceKind::Pexels
    }

    pub fn name(&self) -> (r: &'static str)
        ensures
            r@ == "Pexels"@,
    {
        "Pexels"
    }

    /// The request for page `page` of `per_page` photos.
    pub fn page_url(per_page: u32, page: u32) -> (r: String)
        ensures
            r@ == pexels_url(per_page as nat, page as nat),
    {
        let mut r = "https://api.pexels.com/v1/curated?per_page=".to_string();
        let a = u64_to_string(per_page as u64);
        r.append(a.as_str());
        r.append("&page=");
        let b = u64_to_string(page as u64);
        r.append(b.as_str());
        r
    }

    /// The request for `count` photos from a random page among the first
    /// `last_page`; an error when no API key is set.
    pub fn request_url(&self, count: usize, last_page: u32) -> (r: Result<String, String>)
        ensures
            self.api_key@.len() == 0 <==> r is Err,
            r matches Err(m) ==> m@ == missing_key_message(),
            r matches Ok(u) ==> exists|x: u32| u@ == pexels_url(pexels_per_page(count), page_from(x, last_page) as nat),
    {
        if self.api_key.as_str().unicode_len() == 0 {
            return Err(
                "Pexels API key not configured. Get one free at https://www.pexels.com/api/".to_string(),
            );
        }
        let per_page: u32 = if count < 1 { 1 } else if count > 80 { 80 } else { count as u32 };
        let page = random_page(last_page);
        Ok(Self::page_url(per_page, page))
    }

    /// The last page after an answer (see [`pexels_last_page`]).
    pub fn next_last_page(total: Option<u32>, per_page: Option<u32>, prev: u32) -> (r: u32)
        requires
            pexels_refresh_fits(total, per_page),
        ensures
            r == pexels_last_page(total, per_page, prev),
    {
        match (total, per_page) {
            (Some(t), Some(pp)) => {
                if pp > 0 && t > 0 {
                    (t + pp - 1) / pp
                } else {
                    prev
                }
            },
            _ => prev,
        }
    }

    /// Whether [`next_last_page`](Self::next_last_page) can take an answer.
    pub fn refresh_fits(total: Option<u32>, per_page: Option<u32>) -> (r: bool)
        ensures
            r == pexels_refresh_fits(total, per_page),
    {
        match (total, per_page) {
            (Some(t), Some(pp)) => !(pp > 0 && t > 0) || (t as u64) + (pp as u64) <= u32::MAX as u64,
            _ => true,
        }
    }

    /// The wallpapers of the answer's photos that have an image URL.
    pub fn wallpapers(photos: Vec<PexelsPhoto>) -> (r: Vec<WallpaperInfo>)
        ensures
            views_of(r@) == pexels_wallpapers(photos@),
    {
        let mut r: Vec<WallpaperInfo> = Vec::new();
        let mut i: usize = 0;
        while i < photos.len()
            invariant
                i <= photos@.len(),
                views_of(r@) =~= pexels_wallpapers(photos@.take(i as int)),
            decreases photos@.len() - i,
        {
            let p = &photos[i];
            assert(photos@.take(i as int + 1).drop_last() =~= photos@.take(i as int));
            let url = if p.original.as_str().unicode_len() > 0 {
                Some(p.original.clone())
            } else if p.landscape.as_str().unicode_len() > 0 {
                Some(p.landscape.clone())
            } else {
                None
            };
            if let Some(url) = url {
                let title = if p.alt.as_str().unicode_len() == 0 {
                    let mut t = "Pexels · ".to_string();
                    t.append(p.photographer.as_str());
                    t
                } else {
                    p.alt.clone()
                };
                let mut copyright = "© ".to_string();
                copyright.append(p.photographer.as_str());
                copyright.append(" / Pexels");
                let w = WallpaperInfo { source: SourceKind::Pexels, url, title, copyright, local_path: None };
                let ghost before = views_of(r@);
                r.push(w);
                assert(views_of(r@) =~= before.push(pexels_wallpaper(photos@[i as int])));
            }
            i = i + 1;
        }
        assert(photos@.take(photos@.len() as int) =~= photos@);
        r
    }
}

/// A photo gives a wallpaper only with an image address: the original,
/// else the landscape crop. It is titled by its description, or by the
/// photographer without one, and credited to the photographer. A request
/// asks for 1 to 80 photos.
pub proof fn lemma_pexels(ps: Seq<PexelsPhoto>, p: PexelsPhoto, count: usize)
    ensures
        pexels_wallpapers(ps).len() <= ps.len(),
        p.original@.len() == 0 && p.landscape@.len() == 0 ==> pexels_wallpapers(ps.push(p)) == pexels_wallpapers(ps),
        p.original@.len() > 0 ==> pexels_wallpapers(ps.push(p)) == pexels_wallpapers(ps).push(pexels_wallpaper(p))
            && pexels_wallpaper(p).url == p.original@,
        p.original@.len() == 0 && p.landscape@.len() > 0 ==> pexels_wallpaper(p).url == p.landscape@,
        p.alt@.len() > 0 ==> pexels_wallpaper(p).title == p.alt@,
        1 <= pexels_per_page(count) <= 80,
        1 <= count <= 80 ==> pexels_per_page(count) == count,
    decreases ps.len(),
{
    assert(ps.push(p).drop_last() =~= ps);
    if ps.len() > 0 {
        lemma_pexels(ps.drop_last(), ps.last(), count);
    }
}

/// The page count after an answer covers all its photos: `last` pages of
/// `per_page` photos hold the `total` photos, and one page fewer would not.
pub proof fn lemma_pexels_last_page(total: u32, per_page: u32, prev: u32)
    requires
        total > 0,
        per_page > 0,
        total + per_page <= u32::MAX,
    ensures
        ({
            let last = pexels_last_page(Some(total), Some(per_page), prev) as int;
            &&& last * per_page >= total
            &&& (last - 1) * per_page < total
        }),
{
    let t = total as int;
    let pp = per_page as int;
    let last = (t + pp - 1) / pp;
    assert(last * pp >= t && (last - 1) * pp < t) by (nonlinear_arith)
        requires
            last == (t + pp - 1) / pp,
            t > 0,
            pp > 0,
    ;
}

} // verus!
