//! NASA's Astronomy Picture of the Day (random past entries).

use vstd::prelude::*;

use super::{views_of, SourceKind, WallpaperInfo, WallpaperView};
use crate::text::{decimal, str_eq, u64_to_string};

verus! {

pub struct NasaApodProvider;

/// One entry of the APOD answer (missing fields are empty or `None`).
pub struct ApodEntry {
    pub title: String,
    pub hdurl: Option<String>,
    pub url: String,
    pub media_type: String,
    pub copyright: Option<String>,
}

/// The image URL of an entry: its HD URL when it has one, else its URL;
/// an empty one counts as none.
pub open spec fn apod_image_url(e: ApodEntry) -> Option<Seq<char>> {
    let u = match e.hdurl {
        Some(h) => h@,
        None => e.url@,
    };
    if u.len() > 0 { Some(u) } else { None }
}

/// Whether an entry gives a wallpaper: an image with an image URL.
pub open spec fn apod_usable(e: ApodEntry) -> bool {
    e.media_type@ == "image"@ && apod_image_url(e) is Some
}

pub open spec fn apod_wallpaper(e: ApodEntry) -> WallpaperView {
    WallpaperView {
        source: SourceKind::NasaApod,
        url: apod_image_url(e)->0,
        title: e.title@,
        copyright: match e.copyright {
            Some(c) => c@,
            None => "NASA"@,
        },
        local_path: None,
    }
}

/// The wallpapers of the usable entries, in order.
pub open spec fn apod_wallpapers(es: Seq<ApodEntry>) -> Seq<WallpaperView>
    decreases es.len(),
{
    if es.len() == 0 {
        seq![]
    } else {
        let rest = apod_wallpapers(es.drop_last());
        if apod_usable(es.last()) { rest.push(apod_wallpaper(es.last())) } else { rest }
    }
}

impl NasaApodProvider {
    pub fn kind(&self) -> (r: SourceKind)
        ensures
            r == SourceKind::NasaApod,
    {
        SourceKind::NasaApod
    }

    pub fn name(&self) -> (r: &'static str)
        ensures
            r@ == "NASA Astronomy Picture of the Day"@,
    {
        "NASA Astronomy Picture of the Day"
    }

    /// The request for `count` random entries (at most 10).
    pub fn request_url(count: usize) -> (r: String)
        ensures
            r@ == "https://api.nasa.gov/planetary/apod?api_key=DEMO_KEY&count="@
                + decimal(if count < 10 { count as nat } else { 10 }) + "&thumbs=false"@,
    {
        let n: usize = if count < 10 { count } else { 10 };
        let mut r = "https://api.nasa.gov/planetary/apod?api_key=DEMO_KEY&count=".to_string();
        let d = u64_to_string(n as u64);
        r.append(d.as_str());
        r.append("&thumbs=false");
        r
    }

    /// The wallpapers of the answer: images only, with an image URL.
    pub fn wallpapers(entries: Vec<ApodEntry>) -> (r: Vec<WallpaperInfo>)
        ensures
            views_of(r@) == apod_wallpapers(entries@),
    {
        let mut r: Vec<WallpaperInfo> = Vec::new();
        let mut i: usize = 0;
        while i < entries.len()
            invariant
                i <= entries@.len(),
                views_of(r@) =~= apod_wallpapers(entries@.take(i as int)),
            decreases entries@.len() - i,
        {
            let e = &entries[i];
            assert(entries@.take(i as int + 1).drop_last() =~= entries@.take(i as int));
            let u = match &e.hdurl {
                Some(h) => h.clone(),
                None => e.url.clone(),
            };
            if str_eq(e.media_type.as_str(), "image") && u.as_str().unicode_len() > 0 {
                let w = WallpaperInfo {
                    source: SourceKind::NasaApod,
                    url: u,
                    title: e.title.clone(),
                    copyright: match &e.copyright {
                        Some(c) => c.clone(),
                        None => "NASA".to_string(),
                    },
                    local_path: None,
                };
                let ghost before = views_of(r@);
                r.push(w);
                assert(views_of(r@) =~= before.push(apod_wallpaper(entries@[i as int])));
            }
            i = i + 1;
        }
        assert(entries@.take(entries@.len() as int) =~= entries@);
        r
    }
}

/// Only pictures with an address give wallpapers, one each, in order: the
/// HD picture when the entry has one, else its plain one; the credit is the
/// entry's, or NASA's. A wallpaper's URL is never empty.
pub proof fn lemma_apod_wallpapers(es: Seq<ApodEntry>, e: ApodEntry)
    ensures
        apod_wallpapers(es).len() <= es.len(),
        forall|i: int| 0 <= i < apod_wallpapers(es).len() ==> (#[trigger] apod_wallpapers(es)[i]).url.len() > 0,
        e.media_type@ != "image"@ ==> apod_wallpapers(es.push(e)) == apod_wallpapers(es),
        apod_usable(e) ==> apod_wallpapers(es.push(e)) == apod_wallpapers(es).push(apod_wallpaper(e)),
        (e.hdurl matches Some(h) && h@.len() > 0) ==> apod_image_url(e) == Some(e.hdurl->0@),
        e.hdurl is None && e.url@.len() > 0 ==> apod_image_url(e) == Some(e.url@),
        e.copyright is None ==> apod_wallpaper(e).copyright == "NASA"@,
    decreases es.len(),
{
    assert(es.push(e).drop_last() =~= es);
    if es.len() > 0 {
        lemma_apod_wallpapers(es.drop_last(), es.last());
        let r = apod_wallpapers(es);
        assert forall|i: int| 0 <= i < r.len() implies (#[trigger] r[i]).url.len() > 0 by {
            let rest = apod_wallpapers(es.drop_last());
            if i < rest.len() {
                assert(r[i] == rest[i]);
            }
        }
    }
}

} // verus!
