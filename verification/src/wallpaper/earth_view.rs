//! Google Earth View's catalogue of satellite images.

use vstd::prelude::*;

use super::{views_of, SourceKind, WallpaperInfo, WallpaperView};
use crate::rng;

verus! {

pub struct EarthViewProvider;

/// One catalogue entry (missing fields are empty or `None`).
pub struct EarthViewEntry {
    pub slug: String,
    pub country: String,
    pub region: String,
    pub photo_url: Option<String>,
}

/// The title of an entry: `region, country` (or just the country when
/// there is no region), or the slug when that is empty.
pub open spec fn earth_view_title(e: EarthViewEntry) -> Seq<char> {
    let t = if e.region@.len() == 0 { e.country@ } else { e.region@ + ", "@ + e.country@ };
    if t.len() == 0 { e.slug@ } else { t }
}

pub open spec fn earth_view_wallpaper(e: EarthViewEntry) -> WallpaperView {
    WallpaperView {
        source: SourceKind::EarthView,
        url: e.photo_url->0@,
        title: earth_view_title(e),
        copyright: "Google Earth"@,
        local_path: None,
    }
}

/// The wallpapers of the entries that have a photo URL, in order.
pub open spec fn earth_view_wallpapers(es: Seq<EarthViewEntry>) -> Seq<WallpaperView>
    decreases es.len(),
{
    if es.len() == 0 {
        seq![]
    } else {
        let rest = earth_view_wallpapers(es.drop_last());
        if es.last().photo_url is Some { rest.push(earth_view_wallpaper(es.last())) } else { rest }
    }
}

impl EarthViewProvider {
    pub fn kind(&self) -> (r: SourceKind)
        ensures
            r == SourceKind::EarthView,
    {
        SourceKind::EarthView
    }

    pub fn name(&self) -> (r: &'static str)
        ensures
            r@ == "Google Earth View"@,
    {
        "Google Earth View"
    }

    /// The catalogue's address.
    pub fn request_url() -> (r: &'static str)
        ensures
            r@ == "https://new-images-preview-dot-earth-viewer.appspot.com/_api/photos.json"@,
    {
        "https://new-images-preview-dot-earth-viewer.appspot.com/_api/photos.json"
    }

    /// The wallpapers of the entries, in order (entries without a photo
    /// URL give none).
    pub fn wallpapers(entries: Vec<EarthViewEntry>) -> (r: Vec<WallpaperInfo>)
        ensures
            views_of(r@) == earth_view_wallpapers(entries@),
    {
        let mut r: Vec<WallpaperInfo> = Vec::new();
        let mut i: usize = 0;
        while i < entries.len()
            invariant
                i <= entries@.len(),
                views_of(r@) =~= earth_view_wallpapers(entries@.take(i as int)),
            decreases entries@.len() - i,
        {
            let e = &entries[i];
            assert(entries@.take(i as int + 1).drop_last() =~= entries@.take(i as int));
            if let Some(u) = &e.photo_url {
                let t = if e.region.as_str().unicode_len() == 0 {
                    e.country.clone()
                } else {
                    let mut t = e.region.clone();
                    t.append(", ");
                    t.append(e.country.as_str());
                    t
                };
                let title = if t.as_str().unicode_len() == 0 { e.slug.clone() } else { t };
                let w = WallpaperInfo {
                    source: SourceKind::EarthView,
                    url: u.clone(),
                    title,
                    copyright: "Google Earth".to_string(),
                    local_path: None,
                };
                let ghost before = views_of(r@);
                r.push(w);
                assert(views_of(r@) =~= before.push(earth_view_wallpaper(entries@[i as int])));
            }
            i = i + 1;
        }
        assert(entries@.take(entries@.len() as int) =~= entries@);
        r
    }

    /// `count` entries drawn at random from the catalogue, as wallpapers:
    /// the catalogue is shuffled, cut to `count` entries, and those without
    /// a photo URL are left out.
    pub fn select(entries: Vec<EarthViewEntry>, count: usize) -> (r: Vec<WallpaperInfo>)
        ensures
            exists|perm: Seq<EarthViewEntry>|
                #![trigger perm.to_multiset()]
                perm.len() == entries@.len() && perm.to_multiset() == entries@.to_multiset()
                    && views_of(r@) == earth_view_wallpapers(
                    perm.take(if count < entries@.len() { count as int } else { entries@.len() as int }),
                ),
    {
        let mut v = entries;
        rng::shuffle(&mut v);
        let ghost perm = v@;
        v.truncate(count);
        assert(v@ =~= perm.take(if count < perm.len() { count as int } else { perm.len() as int }));
        Self::wallpapers(v)
    }
}

/// Only entries with a photo address give wallpapers, one each, in order,
/// titled `region, country`, the country alone without a region, or the
/// slug when both are empty.
pub proof fn lemma_earth_view(es: Seq<EarthViewEntry>, e: EarthViewEntry)
    ensures
        earth_view_wallpapers(es).len() <= es.len(),
        e.photo_url is None ==> earth_view_wallpapers(es.push(e)) == earth_view_wallpapers(es),
        e.photo_url is Some ==> earth_view_wallpapers(es.push(e)) == earth_view_wallpapers(es).push(
            earth_view_wallpaper(e),
        ),
        e.photo_url is Some ==> earth_view_wallpaper(e).url == e.photo_url->0@,
        e.region@.len() > 0 ==> earth_view_title(e) == e.region@ + ", "@ + e.country@,
        e.region@.len() == 0 && e.country@.len() > 0 ==> earth_view_title(e) == e.country@,
        e.region@.len() == 0 && e.country@.len() == 0 ==> earth_view_title(e) == e.slug@,
    decreases es.len(),
{
    assert(es.push(e).drop_last() =~= es);
    reveal_strlit(", ");
    if es.len() > 0 {
        lemma_earth_view(es.drop_last(), es.last());
    }
}

} // verus!
