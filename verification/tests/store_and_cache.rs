use papery::download::{
    age_order, cleanup_victims, digest_prefix_hex, hex_encode, url_extension, url_hash, CacheEntry,
    DownloadManager, DownloadPlan,
};
use papery::seen::{SeenStore, MAX_ENTRIES};
use papery::wallpaper::{SourceKind, WallpaperInfo};

fn urls(v: &[&str]) -> Vec<String> {
    v.iter().map(|s| s.to_string()).collect()
}

#[test]
fn seen_store_starts_empty_without_a_file() {
    let s = SeenStore::load("/home/u/.cache/papery", None);
    assert_eq!(s.len(), 0);
    assert!(!s.contains("https://a"));
    assert_eq!(s.path(), "/home/u/.cache/papery/seen.json");
    assert!(s.urls().is_empty());
}

#[test]
fn seen_store_loads_saved_urls_in_order() {
    let s = SeenStore::load("/tmp/c/", Some(urls(&["u1", "u2", "u3"])));
    assert_eq!(s.path(), "/tmp/c/seen.json");
    assert_eq!(s.len(), 3);
    assert!(s.contains("u2"));
    assert!(!s.contains("u4"));
    assert_eq!(s.urls(), urls(&["u1", "u2", "u3"]));
}

#[test]
fn seen_store_insert_remembers_and_is_idempotent() {
    let mut s = SeenStore::load("/c", None);
    s.insert("https://a".to_string());
    assert!(s.contains("https://a"));
    assert_eq!(s.len(), 1);
    s.insert("https://a".to_string());
    assert_eq!(s.len(), 1);
    assert_eq!(s.urls(), urls(&["https://a"]));
    s.insert("https://b".to_string());
    assert_eq!(s.urls(), urls(&["https://a", "https://b"]));
}

#[test]
fn seen_store_forgets_oldest_beyond_cap() {
    let saved: Vec<String> = (0..MAX_ENTRIES).map(|i| format!("u{i}")).collect();
    let mut s = SeenStore::load("/c", Some(saved));
    assert_eq!(s.len(), MAX_ENTRIES);
    s.insert("new".to_string());
    assert_eq!(s.len(), MAX_ENTRIES);
    assert!(!s.contains("u0"));
    assert!(s.contains("u1"));
    assert!(s.contains("new"));
    let all = s.urls();
    assert_eq!(all.first().map(|x| x.as_str()), Some("u1"));
    assert_eq!(all.last().map(|x| x.as_str()), Some("new"));
}

#[test]
fn cache_paths_use_hash_prefix_and_extension() {
    let m = DownloadManager::new("/cache".to_string());
    assert_eq!(m.thumbnail_dir(), "/cache/thumbnails");
    assert_eq!(
        m.cache_path_for("https://www.bing.com/th?id=OHR.Foo_UHD.jpg"),
        "/cache/06df70a4035852e6.jpg"
    );
    assert_eq!(m.cache_path_for("https://example.com/a.png?x=1"), "/cache/9957e06eaccb7b30.png");
    assert_eq!(m.cache_path_for("https://example.com/img"), "/cache/37cc4016f084aa60.jpg");
    assert_eq!(m.cache_path_for("https://x.org/pic.JPG"), "/cache/5bd4b73488c1d651.jpg");
    assert_eq!(m.cache_path_for("https://x.org/a.b/c.webp"), "/cache/19cb81054aa3d9a3.webp");
    assert_eq!(m.cache_path_for(""), "/cache/e3b0c44298fc1c14.jpg");
}

#[test]
fn thumbnail_paths() {
    let m = DownloadManager::new("/cache/".to_string());
    assert_eq!(m.thumbnail_dir(), "/cache/thumbnails");
    assert_eq!(
        m.thumbnail_path_for("https://example.com/img"),
        "/cache/thumbnails/37cc4016f084aa60_thumb.jpg"
    );
}

#[test]
fn download_plan_local_and_remote() {
    let m = DownloadManager::new("/cache".to_string());
    let local = WallpaperInfo {
        source: SourceKind::Local,
        url: "file:///pics/a.png".to_string(),
        title: "a.png".to_string(),
        copyright: String::new(),
        local_path: Some("/pics/a.png".to_string()),
    };
    match m.plan_download(&local) {
        DownloadPlan::Local(p) => assert_eq!(p, "/pics/a.png"),
        _ => panic!("a local wallpaper needs no download"),
    }
    let remote = WallpaperInfo {
        source: SourceKind::Bing,
        url: "https://example.com/img".to_string(),
        title: String::new(),
        copyright: String::new(),
        local_path: None,
    };
    match m.plan_download(&remote) {
        DownloadPlan::Remote { url, cache_path, thumbnail_path } => {
            assert_eq!(url, "https://example.com/img");
            assert_eq!(cache_path, "/cache/37cc4016f084aa60.jpg");
            assert_eq!(thumbnail_path, "/cache/thumbnails/37cc4016f084aa60_thumb.jpg");
        }
        _ => panic!("a remote wallpaper is downloaded"),
    }
}

fn entry(path: &str, modified: u64) -> CacheEntry {
    CacheEntry { path: path.to_string(), modified }
}

#[test]
fn age_order_is_stable_oldest_first() {
    let es = vec![entry("a", 30), entry("b", 10), entry("c", 20), entry("d", 10)];
    assert_eq!(age_order(&es), vec![1, 3, 2, 0]);
    let none: Vec<CacheEntry> = Vec::new();
    assert!(age_order(&none).is_empty());
}

#[test]
fn cleanup_removes_oldest_beyond_limit() {
    let es = vec![entry("/c/a", 30), entry("/c/b", 10), entry("/c/c", 20), entry("/c/d", 40)];
    assert_eq!(cleanup_victims(&es, 2, &Vec::new()), urls(&["/c/b", "/c/c"]));
    assert_eq!(cleanup_victims(&es, 4, &Vec::new()), Vec::<String>::new());
    assert_eq!(cleanup_victims(&es, 10, &Vec::new()), Vec::<String>::new());
    assert_eq!(cleanup_victims(&es, 0, &Vec::new()), urls(&["/c/b", "/c/c", "/c/a", "/c/d"]));
}

#[test]
fn cleanup_keeps_favorites_and_the_limit() {
    let es = vec![entry("/c/a", 30), entry("/c/b", 10), entry("/c/c", 20), entry("/c/d", 40)];
    // Oldest first: b, c, a, d. b is a favourite: c and a go, b and d stay.
    assert_eq!(cleanup_victims(&es, 2, &urls(&["/c/b"])), urls(&["/c/c", "/c/a"]));
    // Two files, limit one, the older a favourite: the newer one goes.
    let two = vec![entry("/c/old", 1), entry("/c/new", 2)];
    assert_eq!(cleanup_victims(&two, 1, &urls(&["/c/old"])), urls(&["/c/new"]));
    // More favourites than the limit: every other file goes, favourites stay.
    assert_eq!(cleanup_victims(&es, 1, &urls(&["/c/a", "/c/d"])), urls(&["/c/b", "/c/c"]));
    assert_eq!(cleanup_victims(&es, 0, &urls(&["/c/a", "/c/b", "/c/c", "/c/d"])), Vec::<String>::new());
}

#[test]
fn seen_store_saved_urls_load_back() {
    let mut s = SeenStore::load("/c", None);
    s.insert("x".to_string());
    s.insert("y".to_string());
    let again = SeenStore::load("/c", Some(s.urls()));
    assert_eq!(again.urls(), s.urls());
    assert!(again.contains("x") && again.contains("y"));
    assert_eq!(again.len(), 2);
}

#[test]
fn cache_key_pieces() {
    assert_eq!(hex_encode(&[0x00, 0x0f, 0xa0, 0xff]), "000fa0ff");
    assert_eq!(hex_encode(&[]), "");
    let digest: Vec<u8> = (0u8..32).collect();
    assert_eq!(digest_prefix_hex(&digest), "0001020304050607");
    assert_eq!(url_hash("https://example.com/img"), "37cc4016f084aa60");
    assert_eq!(url_extension("https://a/b.jpeg?w=1"), "jpeg");
    assert_eq!(url_extension("https://a/b.tiff"), "jpg");
    assert_eq!(url_extension("https://a/b.png?x=y.webp"), "png");
}
