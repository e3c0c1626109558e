use papery::config::PaperyConfig;
use papery::wallpaper::bing::{BingImage, BingProvider};
use papery::wallpaper::earth_view::{EarthViewEntry, EarthViewProvider};
use papery::wallpaper::local::{LocalFile, LocalProvider};
use papery::wallpaper::nasa_apod::{ApodEntry, NasaApodProvider};
use papery::wallpaper::pexels::{PexelsPhoto, PexelsProvider};
use papery::wallpaper::unsplash::{PicsumPhoto, UnsplashProvider};
use papery::wallpaper::wallhaven::{WallhavenEntry, WallhavenProvider};
use papery::wallpaper::{
    enabled_providers, page_for, weighted_pop_index, weighted_pop_index_with, Provider, SourceKind,
    WallpaperInfo,
};
use std::collections::VecDeque;

fn wp(source: SourceKind, url: &str) -> WallpaperInfo {
    WallpaperInfo {
        source,
        url: url.to_string(),
        title: String::new(),
        copyright: String::new(),
        local_path: None,
    }
}

#[test]
fn source_names_and_pools() {
    assert_eq!(SourceKind::Bing.display_name(), "Bing Photo of the Day");
    assert_eq!(SourceKind::NasaApod.display_name(), "NASA APOD");
    assert_eq!(SourceKind::Wallhaven.display_name(), "Wallhaven");
    assert_eq!(SourceKind::EarthView.display_name(), "Google Earth View");
    assert_eq!(SourceKind::Local.display_name(), "Local Folders");
    assert_eq!(SourceKind::Unsplash.display_name(), "Unsplash");
    assert_eq!(SourceKind::Pexels.display_name(), "Pexels");
    assert_eq!(SourceKind::Bing.pool_size(), 64);
    assert_eq!(SourceKind::NasaApod.pool_size(), 10_000);
    assert_eq!(SourceKind::Wallhaven.pool_size(), 1_000_000);
    assert_eq!(SourceKind::EarthView.pool_size(), 1_500);
    assert_eq!(SourceKind::Local.pool_size(), 100);
    assert_eq!(SourceKind::Unsplash.pool_size(), 1_000);
    assert_eq!(SourceKind::Pexels.pool_size(), 30_000);
}

#[test]
fn weighted_pick_follows_pool_sizes() {
    // Bing (64) and Wallhaven (1_000_000): Bing owns draws 0..64 of 1_000_064.
    let mut q = VecDeque::new();
    q.push_back(wp(SourceKind::Bing, "a"));
    q.push_back(wp(SourceKind::Wallhaven, "b"));
    q.push_back(wp(SourceKind::Bing, "c"));
    assert_eq!(weighted_pop_index_with(&q, 0, 1), Some(2));
    assert_eq!(weighted_pop_index_with(&q, 63, 0), Some(0));
    assert_eq!(weighted_pop_index_with(&q, 64, 7), Some(1));
    assert_eq!(weighted_pop_index_with(&q, 1_000_063, 0), Some(1));
    assert_eq!(weighted_pop_index_with(&q, 1_000_064 + 5, 3), Some(2));
}

#[test]
fn weighted_pick_on_empty_and_single_queue() {
    let q: VecDeque<WallpaperInfo> = VecDeque::new();
    assert_eq!(weighted_pop_index(&q), None);
    assert_eq!(weighted_pop_index_with(&q, 5, 5), None);
    let mut q = VecDeque::new();
    q.push_back(wp(SourceKind::NasaApod, "x"));
    assert_eq!(weighted_pop_index(&q), Some(0));
    q.push_back(wp(SourceKind::Local, "y"));
    let i = weighted_pop_index(&q).unwrap();
    assert!(i < 2);
}

#[test]
fn enabled_providers_follow_settings() {
    let mut c = PaperyConfig::default();
    let ps = enabled_providers(&c);
    assert_eq!(ps.len(), 2);
    assert!(matches!(ps[0], Provider::Bing(_)));
    assert!(matches!(ps[1], Provider::NasaApod(_)));
    c.source_bing = false;
    c.source_nasa = false;
    assert!(enabled_providers(&c).is_empty());
    c.source_wallhaven = true;
    c.source_local = true;
    c.local_folders = vec!["/pics".to_string()];
    let ps = enabled_providers(&c);
    assert_eq!(ps.len(), 2);
    match &ps[0] {
        Provider::Wallhaven(w) => {
            assert_eq!(w.categories, "100");
            assert_eq!(w.purity, "100");
        }
        _ => panic!("expected Wallhaven"),
    }
    match &ps[1] {
        Provider::Local(l) => assert_eq!(l.folders, vec!["/pics".to_string()]),
        _ => panic!("expected Local"),
    }
}

#[test]
fn random_pages_stay_in_range() {
    assert_eq!(page_for(7, 5), 3);
    assert_eq!(page_for(4, 5), 5);
    assert_eq!(page_for(123, 0), 1);
    assert_eq!(page_for(123, 1), 1);
}

#[test]
fn bing_request_and_mapping() {
    assert_eq!(
        BingProvider::request_url(15),
        "https://www.bing.com/HPImageArchive.aspx?format=js&idx=0&n=8&mkt=en-US"
    );
    assert_eq!(
        BingProvider::request_url(3),
        "https://www.bing.com/HPImageArchive.aspx?format=js&idx=0&n=3&mkt=en-US"
    );
    let ws = BingProvider::wallpapers(vec![
        BingImage {
            urlbase: "/th?id=OHR.Lighthouse".to_string(),
            copyright: " Lighthouse at dusk (© Someone/Getty)".to_string(),
            title: String::new(),
        },
        BingImage {
            urlbase: "/th?id=OHR.Fox".to_string(),
            copyright: "A fox (© X)".to_string(),
            title: "Red fox".to_string(),
        },
    ]);
    assert_eq!(ws.len(), 2);
    assert_eq!(ws[0].url, "https://www.bing.com/th?id=OHR.Lighthouse_UHD.jpg");
    assert_eq!(ws[0].title, "Lighthouse at dusk");
    assert_eq!(ws[0].copyright, " Lighthouse at dusk (© Someone/Getty)");
    assert_eq!(ws[0].source, SourceKind::Bing);
    assert_eq!(ws[0].local_path, None);
    assert_eq!(ws[1].title, "Red fox");
    assert_eq!(BingProvider.kind(), SourceKind::Bing);
    assert_eq!(BingProvider.name(), "Bing Photo of the Day");
}

#[test]
fn nasa_request_and_mapping() {
    assert_eq!(
        NasaApodProvider::request_url(15),
        "https://api.nasa.gov/planetary/apod?api_key=DEMO_KEY&count=10&thumbs=false"
    );
    assert_eq!(
        NasaApodProvider::request_url(5),
        "https://api.nasa.gov/planetary/apod?api_key=DEMO_KEY&count=5&thumbs=false"
    );
    let e = |title: &str, hd: Option<&str>, url: &str, media: &str, c: Option<&str>| ApodEntry {
        title: title.to_string(),
        hdurl: hd.map(|s| s.to_string()),
        url: url.to_string(),
        media_type: media.to_string(),
        copyright: c.map(|s| s.to_string()),
    };
    let ws = NasaApodProvider::wallpapers(vec![
        e("Galaxy", Some("https://hd/g.jpg"), "https://lo/g.jpg", "image", None),
        e("Video", None, "https://yt/v", "video", None),
        e("Nebula", None, "https://lo/n.jpg", "image", Some("Jane")),
        e("Empty hd", Some(""), "https://lo/e.jpg", "image", None),
        e("No url", None, "", "image", None),
    ]);
    assert_eq!(ws.len(), 2);
    assert_eq!(ws[0].url, "https://hd/g.jpg");
    assert_eq!(ws[0].copyright, "NASA");
    assert_eq!(ws[1].url, "https://lo/n.jpg");
    assert_eq!(ws[1].title, "Nebula");
    assert_eq!(ws[1].copyright, "Jane");
    assert_eq!(NasaApodProvider.name(), "NASA Astronomy Picture of the Day");
}

#[test]
fn earth_view_mapping_and_selection() {
    let e = |slug: &str, country: &str, region: &str, url: Option<&str>| EarthViewEntry {
        slug: slug.to_string(),
        country: country.to_string(),
        region: region.to_string(),
        photo_url: url.map(|s| s.to_string()),
    };
    let ws = EarthViewProvider::wallpapers(vec![
        e("s1", "Chile", "Atacama", Some("https://ev/1.jpg")),
        e("s2", "Peru", "", Some("https://ev/2.jpg")),
        e("s3", "", "", Some("https://ev/3.jpg")),
        e("s4", "Mali", "", None),
    ]);
    assert_eq!(ws.len(), 3);
    assert_eq!(ws[0].title, "Atacama, Chile");
    assert_eq!(ws[1].title, "Peru");
    assert_eq!(ws[2].title, "s3");
    assert_eq!(ws[0].copyright, "Google Earth");
    assert_eq!(ws[0].source, SourceKind::EarthView);
    let picked = EarthViewProvider::select(
        vec![
            e("a", "A", "", Some("https://ev/a.jpg")),
            e("b", "B", "", Some("https://ev/b.jpg")),
            e("c", "C", "", Some("https://ev/c.jpg")),
        ],
        2,
    );
    assert_eq!(picked.len(), 2);
    assert_ne!(picked[0].url, picked[1].url);
    assert_eq!(
        EarthViewProvider::request_url(),
        "https://new-images-preview-dot-earth-viewer.appspot.com/_api/photos.json"
    );
}

#[test]
fn local_files_are_filtered_by_extension() {
    let f = |path: &str, name: Option<&str>, ext: Option<&str>| LocalFile {
        path: path.to_string(),
        file_name: name.map(|s| s.to_string()),
        extension: ext.map(|s| s.to_string()),
    };
    let ws = LocalProvider::wallpapers(vec![
        f("/p/a.JPG", Some("a.JPG"), Some("JPG")),
        f("/p/notes.txt", Some("notes.txt"), Some("txt")),
        f("/p/b.webp", None, Some("webp")),
        f("/p/README", Some("README"), None),
        f("/p/c.Jpeg", Some("c.Jpeg"), Some("Jpeg")),
    ]);
    assert_eq!(ws.len(), 3);
    assert_eq!(ws[0].title, "a.JPG");
    assert_eq!(ws[0].local_path.as_deref(), Some("/p/a.JPG"));
    assert_eq!(ws[0].url, "");
    assert_eq!(ws[1].title, "Unknown");
    assert_eq!(ws[2].title, "c.Jpeg");
    assert_eq!(ws[0].source, SourceKind::Local);
    let some = LocalProvider::select(vec![f("/p/x.png", Some("x.png"), Some("png")), f("/p/y.png", Some("y.png"), Some("png"))], 1);
    assert_eq!(some.len(), 1);
    let p = LocalProvider::new(vec!["/home/me/Pictures".to_string()]);
    assert_eq!(p.folders, vec!["/home/me/Pictures".to_string()]);
    assert_eq!(p.kind(), SourceKind::Local);
}

#[test]
fn pexels_requests_and_mapping() {
    let p = PexelsProvider::new("  secret \n");
    assert_eq!(p.api_key, "secret");
    assert_eq!(p.name(), "Pexels");
    let none = PexelsProvider::new("   ");
    assert_eq!(
        none.request_url(15, 200),
        Err("Pexels API key not configured. Get one free at https://www.pexels.com/api/".to_string())
    );
    let url = p.request_url(15, 200).unwrap();
    assert!(url.starts_with("https://api.pexels.com/v1/curated?per_page=15&page="));
    let page: u32 = url.rsplit('=').next().unwrap().parse().unwrap();
    assert!((1..=200).contains(&page));
    let url = p.request_url(500, 1).unwrap();
    assert_eq!(url, "https://api.pexels.com/v1/curated?per_page=80&page=1");
    let url = p.request_url(0, 1).unwrap();
    assert_eq!(url, "https://api.pexels.com/v1/curated?per_page=1&page=1");
    assert_eq!(PexelsProvider::page_url(15, 3), "https://api.pexels.com/v1/curated?per_page=15&page=3");
    assert_eq!(PexelsProvider::next_last_page(Some(8000), Some(40), 200), 200);
    assert_eq!(PexelsProvider::next_last_page(Some(8001), Some(40), 200), 201);
    assert_eq!(PexelsProvider::next_last_page(Some(0), Some(40), 200), 200);
    assert_eq!(PexelsProvider::next_last_page(None, Some(40), 7), 7);
    assert!(PexelsProvider::refresh_fits(Some(10), Some(10)));
    assert!(!PexelsProvider::refresh_fits(Some(u32::MAX), Some(10)));
    let ph = |who: &str, alt: &str, o: &str, l: &str| PexelsPhoto {
        photographer: who.to_string(),
        alt: alt.to_string(),
        original: o.to_string(),
        landscape: l.to_string(),
    };
    let ws = PexelsProvider::wallpapers(vec![
        ph("Ann", "", "https://px/o.jpg", "https://px/l.jpg"),
        ph("Bob", "A beach", "", "https://px/l2.jpg"),
        ph("Cid", "x", "", ""),
    ]);
    assert_eq!(ws.len(), 2);
    assert_eq!(ws[0].url, "https://px/o.jpg");
    assert_eq!(ws[0].title, "Pexels · Ann");
    assert_eq!(ws[0].copyright, "© Ann / Pexels");
    assert_eq!(ws[1].url, "https://px/l2.jpg");
    assert_eq!(ws[1].title, "A beach");
}

#[test]
fn picsum_requests_and_mapping() {
    let u = UnsplashProvider::new(" nature ");
    assert_eq!(u.topic, "nature");
    assert_eq!(u.name(), "Picsum");
    assert_eq!(u.kind(), SourceKind::Unsplash);
    assert_eq!(UnsplashProvider::page_url(3, 15), "https://picsum.photos/v2/list?page=3&limit=15");
    let (url, page) = UnsplashProvider::request(500, 1);
    assert_eq!(page, 1);
    assert_eq!(url, "https://picsum.photos/v2/list?page=1&limit=100");
    let (url, page) = UnsplashProvider::request(0, 20);
    assert!((1..=20).contains(&page));
    assert_eq!(url, format!("https://picsum.photos/v2/list?page={page}&limit=1"));
    assert_eq!(UnsplashProvider::next_max_page(false, 20, 20), 30);
    assert_eq!(UnsplashProvider::next_max_page(true, 20, 20), 20);
    assert_eq!(UnsplashProvider::next_max_page(false, 5, 20), 20);
    assert_eq!(UnsplashProvider::next_max_page(false, 1, 0), 11);
    assert_eq!(UnsplashProvider::next_max_page(false, u32::MAX, u32::MAX), u32::MAX);
    let ws = UnsplashProvider::wallpapers(vec![
        PicsumPhoto { id: "10".to_string(), author: "Paul".to_string(), width: 5000, height: 500 },
        PicsumPhoto { id: "11".to_string(), author: String::new(), width: 2500, height: 1600 },
    ]);
    assert_eq!(ws[0].url, "https://picsum.photos/id/10/3840/1080");
    assert_eq!(ws[0].title, "Picsum · Paul");
    assert_eq!(ws[0].copyright, "© Paul / Lorem Picsum");
    assert_eq!(ws[1].url, "https://picsum.photos/id/11/2500/1600");
    assert_eq!(ws[1].title, "Picsum #11");
}

#[test]
fn wallhaven_requests_and_mapping() {
    let w = WallhavenProvider::new("110", "100");
    assert_eq!(w.kind(), SourceKind::Wallhaven);
    assert_eq!(w.name(), "Wallhaven");
    assert_eq!(
        w.page_url(42),
        "https://wallhaven.cc/api/v1/search?categories=110&purity=100&sorting=date_added&order=desc&page=42&atleast=1920x1080"
    );
    let url = w.request_url(1);
    assert!(url.contains("&page=1&"));
    assert_eq!(WallhavenProvider::next_last_page(Some(12345), 15000), (12345, true));
    assert_eq!(WallhavenProvider::next_last_page(Some(15000), 15000), (15000, false));
    assert_eq!(WallhavenProvider::next_last_page(Some(0), 15000), (15000, false));
    assert_eq!(WallhavenProvider::next_last_page(None, 9), (9, false));
    assert_eq!(WallhavenProvider::parse_saved_last_page(" 42\n"), Some(42));
    assert_eq!(WallhavenProvider::parse_saved_last_page("x"), None);
    assert_eq!(WallhavenProvider::parse_saved_last_page("4294967296"), None);
    assert_eq!(WallhavenProvider::saved_last_page_text(18000), "18000");
    let e = |path: &str, cat: &str, res: &str| WallhavenEntry {
        path: path.to_string(),
        category: cat.to_string(),
        resolution: res.to_string(),
    };
    let ws = WallhavenProvider::wallpapers(vec![
        e("https://w/1.jpg", "general", "1920x1080"),
        e("https://w/2.jpg", "anime", ""),
        e("https://w/3.jpg", "people", "3840x2160"),
        e("https://w/4.jpg", "other", ""),
    ]);
    assert_eq!(ws[0].title, "Wallhaven · General · 1920x1080");
    assert_eq!(ws[1].title, "Wallhaven · Anime");
    assert_eq!(ws[2].title, "Wallhaven · People · 3840x2160");
    assert_eq!(ws[3].title, "Wallhaven · ");
    assert_eq!(ws[0].copyright, "Wallhaven");
    assert_eq!(ws[0].url, "https://w/1.jpg");
}

#[test]
fn local_extension_names() {
    assert!(LocalProvider::is_supported_extension_name("jpeg"));
    assert!(LocalProvider::is_supported_extension_name("webp"));
    assert!(!LocalProvider::is_supported_extension_name("JPG"));
    assert!(!LocalProvider::is_supported_extension_name("gif"));
    assert!(!LocalProvider::is_supported_extension_name(""));
}
