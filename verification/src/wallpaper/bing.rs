//! Bing's photo of the day archive (the last 8 days).

use vstd::prelude::*;

use super::{views_of, SourceKind, WallpaperInfo, WallpaperView};
use crate::text::{before_first, chars_before_first, chars_of, decimal, string_of, trim, trim_chars, u64_to_string};

verus! {

pub struct BingProvider;

/// One entry of the archive's answer.
pub struct BingImage {
    pub urlbase: String,
    pub copyright: String,
    /// Empty when the answer has none.
    pub title: String,
}

/// The wallpaper for one archive entry: the UHD image, titled by the entry's
/// title or, lacking one, by its copyright text up to the first `(`.
pub open spec fn bing_wallpaper(img: BingImage) -> WallpaperView {
    WallpaperView {
        source: SourceKind::Bing,
        url: "https://www.bing.com"@ + img.urlbase@ + "_UHD.jpg"@,
        title: if img.title@.len() == 0 { trim(before_first(img.copyright@, '(')) } else { img.title@ },
        copyright: img.copyright@,
        local_path: None,
    }
}

impl BingProvider {
    pub fn kind(&self) -> (r: SourceKind)
        ensures
            r == SourceKind::Bing,
    {
        SourceKind::Bing
    }

    pub fn name(&self) -> (r: &'static str)
        ensures
            r@ == "Bing Photo of the Day"@,
    {
        "Bing Photo of the Day"
    }

    /// The archive request for `count` wallpapers (Bing gives at most 8).
    pub fn request_url(count: usize) -> (r: String)
        ensures
            r@ == "https://www.bing.com/HPImageArchive.aspx?format=js&idx=0&n="@
                + decimal(if count < 8 { count as nat } else { 8 }) + "&mkt=en-US"@,
    {
        let n: usize = if count < 8 { count } else { 8 };
        let mut r = "https://www.bing.com/HPImageArchive.aspx?format=js&idx=0&n=".to_string();
        let d = u64_to_string(n as u64);
        r.append(d.as_str());
        r.append("&mkt=en-US");
        r
    }

    /// The wallpapers of the archive's answer, in its order.
    pub fn wallpapers(images: Vec<BingImage>) -> (r: Vec<WallpaperInfo>)
        ensures
            views_of(r@) == images@.map_values(|img: BingImage| bing_wallpaper(img)),
    {
        let mut r: Vec<WallpaperInfo> = Vec::new();
        let mut i: usize = 0;
        while i < images.len()
            invariant
                i <= images@.len(),
                views_of(r@) =~= images@.map_values(|img: BingImage| bing_wallpaper(img)).take(i as int),
            decreases images@.len() - i,
        {
            let img = &images[i];
            let mut url = "https://www.bing.com".to_string();
            url.append(img.urlbase.as_str());
            url.append("_UHD.jpg");
            let title = if img.title.as_str().unicode_len() == 0 {
                let cs = chars_of(img.copyright.as_str());
                let head = chars_before_first(&cs, '(');
                let t = trim_chars(&head);
                string_of(&t)
            } else {
                img.title.clone()
            };
            let w = WallpaperInfo {
                source: SourceKind::Bing,
                url,
                title,
                copyright: img.copyright.clone(),
                local_path: None,
            };
            let ghost before = views_of(r@);
            r.push(w);
            assert(views_of(r@) =~= before.push(bing_wallpaper(images@[i as int])));
            i = i + 1;
        }
        r
    }
}

/// A Bing wallpaper is the entry's image at UHD size on bing.com, so
/// different entries give different URLs (and the URL is never empty); its
/// title is the entry's own, or the copyright text before `(` without one.
pub proof fn lemma_bing_wallpaper(img: BingImage, other: BingImage)
    ensures
        bing_wallpaper(img).url.len() > 0,
        bing_wallpaper(img).url.take(20) == "https://www.bing.com"@,
        bing_wallpaper(img).url.skip(bing_wallpaper(img).url.len() - 8) == "_UHD.jpg"@,
        img.urlbase@ != other.urlbase@ ==> bing_wallpaper(img).url != bing_wallpaper(other).url,
        img.title@.len() > 0 ==> bing_wallpaper(img).title == img.title@,
        img.title@.len() == 0 ==> bing_wallpaper(img).title == trim(before_first(img.copyright@, '(')),
        bing_wallpaper(img).copyright == img.copyright@,
        bing_wallpaper(img).source == SourceKind::Bing && bing_wallpaper(img).local_path is None,
{
    reveal_strlit("https://www.bing.com");
    reveal_strlit("_UHD.jpg");
    let u = bing_wallpaper(img).url;
    assert(u.take(20) =~= "https://www.bing.com"@);
    assert(u.skip(u.len() - 8) =~= "_UHD.jpg"@);
    if img.urlbase@ != other.urlbase@ {
        let u2 = bing_wallpaper(other).url;
        if u == u2 {
            assert(img.urlbase@ =~= u.subrange(20, u.len() - 8));
            assert(other.urlbase@ =~= u2.subrange(20, u2.len() - 8));
        }
    }
}

} // verus!
