//! The wallpaper cache: where each downloaded image and its thumbnail are
//! stored, whether a wallpaper needs downloading at all, and which cached
//! files a cleanup removes. The downloading, file writing and thumbnail
//! rendering are done by the application.

use vstd::prelude::*;
use vstd::string::StringSliceAdditionalSpecFns;
use vstd::utf8::encode_utf8;

use crate::hash::{sha256, sha256_of};
use crate::text::{
    after_last, before_first, chars_after_last, chars_before_first, chars_eq_str, chars_of,
    contains_string, join_path, path_join, seq_views, string_of,
};
use crate::wallpaper::WallpaperInfo;

verus! {

broadcast use vstd::seq_lib::group_seq_properties;

// ---------------------------------------------------------------------------
// Names in the cache
// ---------------------------------------------------------------------------

/// Lower-case hexadecimal digit for `n < 16`.
pub open spec fn hex_digit(n: nat) -> char {
    if n < 10 {
        ((48 + n) as u8) as char
    } else {
        ((87 + n) as u8) as char
    }
}

/// Lower-case hexadecimal rendering of bytes, two digits per byte.
pub open spec fn hex_of(b: Seq<u8>) -> Seq<char>
    decreases b.len(),
{
    if b.len() == 0 {
        seq![]
    } else {
        hex_of(b.drop_last()) + seq![hex_digit((b.last() / 16) as nat), hex_digit((b.last() % 16) as nat)]
    }
}

/// The cache key of a URL: the first 8 bytes of the SHA-256 digest of its
/// UTF-8 bytes, in hexadecimal.
pub open spec fn url_hash_of(url: Seq<char>) -> Seq<char> {
    hex_of(sha256_of(encode_utf8(url)).take(8))
}

/// Whether `e` is one of the image extensions kept in cache names.
pub open spec fn is_image_extension(e: Seq<char>) -> bool {
    e == "jpg"@ || e == "jpeg"@ || e == "png"@ || e == "webp"@ || e == "bmp"@
}

/// The extension a URL's image is cached under: what follows the last `.`
/// of the URL's part before any `?`, when that is a known image extension,
/// else `jpg`.
pub open spec fn url_extension_of(url: Seq<char>) -> Seq<char> {
    let e = after_last(before_first(url, '?'), '.');
    if is_image_extension(e) {
        e
    } else {
        "jpg"@
    }
}

proof fn lemma_hex_of(b: Seq<u8>)
    ensures
        hex_of(b).len() == 2 * b.len(),
        forall|i: int| 0 <= i < hex_of(b).len() ==> #[trigger] hex_of(b)[i] != '/',
    decreases b.len(),
{
    if b.len() > 0 {
        lemma_hex_of(b.drop_last());
        let p = hex_of(b.drop_last());
        let x = b.last();
        assert((x / 16) < 16 && (x % 16) < 16);
        assert forall|i: int| 0 <= i < hex_of(b).len() implies #[trigger] hex_of(b)[i] != '/' by {
            if i < p.len() {
                assert(hex_of(b)[i] == p[i]);
            }
        }
    }
}

fn hex_char(n: u8) -> (c: char)
    requires
        n < 16,
    ensures
        c == hex_digit(n as nat),
{
    if n < 10 {
        (48u8 + n) as char
    } else {
        (87u8 + n) as char
    }
}

/// Lower-case hexadecimal rendering of `bytes`.
pub fn hex_encode(bytes: &[u8]) -> (r: String)
    ensures
        r@ == hex_of(bytes@),
{
    let mut cs: Vec<char> = Vec::new();
    let mut i: usize = 0;
    while i < bytes.len()
        invariant
            i <= bytes@.len(),
            cs@ =~= hex_of(bytes@.take(i as int)),
        decreases bytes@.len() - i,
    {
        let b = bytes[i];
        assert(bytes@.take(i as int + 1).drop_last() =~= bytes@.take(i as int));
        cs.push(hex_char(b / 16));
        cs.push(hex_char(b % 16));
        i = i + 1;
    }
    assert(bytes@.take(bytes@.len() as int) =~= bytes@);
    string_of(&cs)
}

/// The cache key made of a digest: its first 8 bytes in hexadecimal.
pub fn digest_prefix_hex(digest: &[u8]) -> (r: String)
    requires
        digest@.len() >= 8,
    ensures
        r@ == hex_of(digest@.take(8)),
        r@.len() == 16,
        forall|i: int| 0 <= i < r@.len() ==> r@[i] != '/',
{
    let mut head: Vec<u8> = Vec::new();
    let mut i: usize = 0;
    while i < 8
        invariant
            digest@.len() >= 8,
            i <= 8,
            head@ =~= digest@.take(i as int),
        decreases 8 - i,
    {
        head.push(digest[i]);
        i = i + 1;
    }
    proof {
        lemma_hex_of(head@);
    }
    hex_encode(head.as_slice())
}

/// The cache key of a URL (see [`url_hash_of`]).
pub fn url_hash(url: &str) -> (r: String)
    ensures
        r@ == url_hash_of(url@),
        r@.len() == 16,
        forall|i: int| 0 <= i < r@.len() ==> r@[i] != '/',
{
    let digest = sha256(url.as_bytes());
    digest_prefix_hex(digest.as_slice())
}

/// The extension a URL's image is cached under (see [`url_extension_of`]).
pub fn url_extension(url: &str) -> (r: String)
    ensures
        r@ == url_extension_of(url@),
{
    let cs = chars_of(url);
    let path = chars_before_first(&cs, '?');
    let ext = chars_after_last(&path, '.');
    if chars_eq_str(&ext, "jpg") || chars_eq_str(&ext, "jpeg") || chars_eq_str(&ext, "png")
        || chars_eq_str(&ext, "webp") || chars_eq_str(&ext, "bmp") {
        string_of(&ext)
    } else {
        "jpg".to_string()
    }
}

/// Where a download ends up, and what it needs.
pub enum DownloadPlan {
    /// The wallpaper is already a file on disk: use it as it is.
    Local(String),
    /// Fetch `url` into `cache_path` (unless that file already exists) and
    /// render its thumbnail at `thumbnail_path`.
    Remote { url: String, cache_path: String, thumbnail_path: String },
}

/// Downloads wallpapers into a cache directory, with thumbnails in its
/// `thumbnails` subdirectory.
pub struct DownloadManager {
    pub cache_dir: String,
    pub thumbnail_dir: String,
}

impl DownloadManager {
    /// The cache directory (the public field `cache_dir`).
    pub open spec fn cache_dir_of(&self) -> Seq<char> {
        self.cache_dir@
    }

    /// The thumbnail directory (the field `thumbnail_dir`).
    pub open spec fn thumbnail_dir_of(&self) -> Seq<char> {
        self.thumbnail_dir@
    }

    /// The path of the cached image of `url`: `<hash>.<extension>` in the
    /// cache directory.
    pub open spec fn cache_path_of(&self, url: Seq<char>) -> Seq<char> {
        path_join(self.cache_dir_of(), url_hash_of(url) + "."@ + url_extension_of(url))
    }

    /// The path of the thumbnail of `url`: `<hash>_thumb.jpg` in the
    /// thumbnail directory.
    pub open spec fn thumbnail_path_of(&self, url: Seq<char>) -> Seq<char> {
        path_join(self.thumbnail_dir_of(), url_hash_of(url) + "_thumb.jpg"@)
    }

    pub fn new(cache_dir: String) -> (r: DownloadManager)
        ensures
            r.cache_dir@ == cache_dir@,
            r.thumbnail_dir@ == path_join(cache_dir@, "thumbnails"@),
            r.cache_dir_of() == cache_dir@,
            r.thumbnail_dir_of() == path_join(cache_dir@, "thumbnails"@),
    {
        proof {
            reveal_strlit("thumbnails");
        }
        let thumbnail_dir = join_path(cache_dir.as_str(), "thumbnails");
        DownloadManager { cache_dir, thumbnail_dir }
    }

    /// The thumbnail directory.
    pub fn thumbnail_dir(&self) -> (r: String)
        ensures
            r@ == self.thumbnail_dir_of(),
    {
        self.thumbnail_dir.clone()
    }

    /// The path of the cached image of `url`.
    pub fn cache_path_for(&self, url: &str) -> (r: String)
        ensures
            r@ == self.cache_path_of(url@),
    {
        let hash = url_hash(url);
        let ext = url_extension(url);
        let mut name = hash.clone();
        name.append(".");
        name.append(ext.as_str());
        proof {
            reveal_strlit(".");
        }
        join_path(self.cache_dir.as_str(), name.as_str())
    }

    /// The path of the thumbnail of `url`.
    pub fn thumbnail_path_for(&self, url: &str) -> (r: String)
        ensures
            r@ == self.thumbnail_path_of(url@),
    {
        let hash = url_hash(url);
        let mut name = hash.clone();
        name.append("_thumb.jpg");
        proof {
            reveal_strlit("_thumb.jpg");
        }
        join_path(self.thumbnail_dir.as_str(), name.as_str())
    }

    /// What downloading `wallpaper` takes: nothing when it already has a
    /// local file; otherwise its URL, its cache path and its thumbnail path.
    pub fn plan_download(&self, wallpaper: &WallpaperInfo) -> (r: DownloadPlan)
        ensures
            match wallpaper.local_path {
                Some(p) => r matches DownloadPlan::Local(q) && q@ == p@,
                None => r matches DownloadPlan::Remote { url, cache_path, thumbnail_path }
                    && url@ == wallpaper.url@
                    && cache_path@ == self.cache_path_of(wallpaper.url@)
                    && thumbnail_path@ == self.thumbnail_path_of(wallpaper.url@),
            },
    {
        match &wallpaper.local_path {
            Some(p) => DownloadPlan::Local(p.clone()),
            None => DownloadPlan::Remote {
                url: wallpaper.url.clone(),
                cache_path: self.cache_path_for(wallpaper.url.as_str()),
                thumbnail_path: self.thumbnail_path_for(wallpaper.url.as_str()),
            },
        }
    }
}

// ---------------------------------------------------------------------------
// Cleanup
// ---------------------------------------------------------------------------

/// A file found in the cache directory, with its modification time (as a
/// count of time units that orders the times).
pub struct CacheEntry {
    pub path: String,
    pub modified: u64,
}

pub open spec fn entry_times(e: Seq<CacheEntry>) -> Seq<u64> {
    e.map_values(|x: CacheEntry| x.modified)
}

pub open spec fn entry_paths(e: Seq<CacheEntry>) -> Seq<Seq<char>> {
    e.map_values(|x: CacheEntry| x.path@)
}

/// Entry `a` comes before entry `b` when it is older, or as old and listed
/// first (a stable ordering by age).
pub open spec fn older(times: Seq<u64>, a: int, b: int) -> bool {
    times[a] < times[b] || (times[a] == times[b] && a < b)
}

/// `ord` lists every entry position exactly once, oldest first: the order in
/// which a stable sort by modification time puts the entries.
pub open spec fn is_age_order(times: Seq<u64>, ord: Seq<usize>) -> bool {
    &&& ord.len() == times.len()
    &&& forall|i: int| 0 <= i < ord.len() ==> #[trigger] ord[i] < times.len()
    &&& forall|i: int, j: int| 0 <= i < j < ord.len() ==> older(times, ord[i] as int, ord[j] as int)
}

/// The paths at the positions `ord`, in that order, leaving out favourites.
pub open spec fn unfavoured(paths: Seq<Seq<char>>, ord: Seq<usize>, favorites: Seq<Seq<char>>) -> Seq<Seq<char>>
    decreases ord.len(),
{
    if ord.len() == 0 {
        seq![]
    } else {
        let rest = unfavoured(paths, ord.drop_last(), favorites);
        let p = paths[ord.last() as int];
        if favorites.contains(p) {
            rest
        } else {
            rest.push(p)
        }
    }
}

/// How many of the oldest entries a cleanup looks at: those beyond the limit.
pub open spec fn excess(len: nat, max_files: nat) -> nat {
    if len > max_files {
        (len - max_files) as nat
    } else {
        0
    }
}

/// The entry positions, oldest first (a stable insertion sort by age).
pub fn age_order(entries: &Vec<CacheEntry>) -> (ord: Vec<usize>)
    ensures
        is_age_order(entry_times(entries@), ord@),
{
    let ghost times = entry_times(entries@);
    let n = entries.len();
    let mut ord: Vec<usize> = Vec::new();
    let mut i: usize = 0;
    while i < n
        invariant
            n == entries@.len(),
            times == entry_times(entries@),
            i <= n,
            ord@.len() == i,
            forall|a: int| 0 <= a < ord@.len() ==> #[trigger] ord@[a] < i,
            forall|a: int, b: int| 0 <= a < b < ord@.len() ==> older(times, ord@[a] as int, ord@[b] as int),
        decreases n - i,
    {
        let t = entries[i].modified;
        // first position whose entry is strictly newer than entry i
        let mut p: usize = 0;
        while p < ord.len()
            invariant
                n == entries@.len(),
                times == entry_times(entries@),
                i < n,
                t == times[i as int],
                p <= ord@.len(),
                forall|a: int| 0 <= a < ord@.len() ==> #[trigger] ord@[a] < i,
                forall|a: int| 0 <= a < p ==> times[#[trigger] ord@[a] as int] <= t,
            ensures
                p <= ord@.len(),
                forall|a: int| 0 <= a < p ==> times[#[trigger] ord@[a] as int] <= t,
                p == ord@.len() || times[ord@[p as int] as int] > t,
            decreases ord@.len() - p,
        {
            if entries[ord[p]].modified > t {
                break;
            }
            p = p + 1;
        }
        let ghost before = ord@;
        proof {
            // entries after p are all newer than entry i
            assert forall|a: int| p <= a < before.len() implies times[#[trigger] before[a] as int] > t by {
                if a > p {
                    assert(older(times, before[p as int] as int, before[a] as int));
                }
            }
        }
        ord.insert(p, i);
        proof {
            assert(ord@ =~= before.insert(p as int, i));
            assert forall|a: int, b: int| 0 <= a < b < ord@.len() implies older(times, ord@[a] as int, ord@[b] as int) by {
                if b < p {
                    assert(ord@[a] == before[a] && ord@[b] == before[b]);
                } else if b == p {
                    assert(ord@[a] == before[a]);
                } else if a < p {
                    assert(ord@[a] == before[a] && ord@[b] == before[b - 1]);
                } else if a == p {
                    assert(ord@[b] == before[b - 1]);
                } else {
                    assert(ord@[a] == before[a - 1] && ord@[b] == before[b - 1]);
                }
            }
        }
        i = i + 1;
    }
    ord
}

/// The first `k` items of `s` (all of them when there are fewer).
pub open spec fn first_n(s: Seq<Seq<char>>, k: nat) -> Seq<Seq<char>> {
    if k < s.len() {
        s.take(k as int)
    } else {
        s
    }
}

/// How many of the entries at the positions `ord` are favourites.
pub open spec fn favoured_count(paths: Seq<Seq<char>>, ord: Seq<usize>, favorites: Seq<Seq<char>>) -> nat
    decreases ord.len(),
{
    if ord.len() == 0 {
        0
    } else {
        favoured_count(paths, ord.drop_last(), favorites) + if favorites.contains(paths[ord.last() as int]) {
            1nat
        } else {
            0nat
        }
    }
}

/// Each entry is a favourite or not.
proof fn lemma_unfavoured_len(paths: Seq<Seq<char>>, ord: Seq<usize>, favorites: Seq<Seq<char>>)
    ensures
        unfavoured(paths, ord, favorites).len() + favoured_count(paths, ord, favorites) == ord.len(),
    decreases ord.len(),
{
    if ord.len() > 0 {
        lemma_unfavoured_len(paths, ord.drop_last(), favorites);
    }
}

/// The files a cleanup removes to bring the cache down to `max_files`: the
/// oldest files that are not favourites, as many as it takes to leave at
/// most `max_files`, or all of them when the favourites alone exceed the
/// limit. Favourites are never removed.
pub fn cleanup_victims(entries: &Vec<CacheEntry>, max_files: u32, favorites: &Vec<String>) -> (r: Vec<String>)
    ensures
        exists|ord: Seq<usize>|
            #![trigger is_age_order(entry_times(entries@), ord)]
            {
                let fav = favoured_count(entry_paths(entries@), ord, seq_views(favorites@));
                &&& is_age_order(entry_times(entries@), ord)
                &&& seq_views(r@) == first_n(
                    unfavoured(entry_paths(entries@), ord, seq_views(favorites@)),
                    excess(entries@.len(), max_files as nat),
                )
                &&& entries@.len() > max_files ==> entries@.len() - r@.len() == if max_files >= fav {
                    max_files as int
                } else {
                    fav as int
                }
                &&& entries@.len() <= max_files ==> r@.len() == 0
            },
{
    let ord = age_order(entries);
    let n = entries.len();
    let count: usize = if n > max_files as usize { n - max_files as usize } else { 0 };
    let ghost paths = entry_paths(entries@);
    let ghost favs = seq_views(favorites@);
    let mut r: Vec<String> = Vec::new();
    let mut i: usize = 0;
    while i < n
        invariant
            n == entries@.len(),
            paths == entry_paths(entries@),
            favs == seq_views(favorites@),
            ord@.len() == n,
            is_age_order(entry_times(entries@), ord@),
            count <= n,
            i <= n,
            seq_views(r@) =~= first_n(unfavoured(paths, ord@.take(i as int), favs), count as nat),
        decreases n - i,
    {
        let k = ord[i];
        let path = &entries[k].path;
        let ghost u = unfavoured(paths, ord@.take(i as int), favs);
        assert(ord@.take(i as int + 1).drop_last() =~= ord@.take(i as int));
        assert(ord@.take(i as int + 1).last() == k);
        assert(paths[k as int] == path@);
        if !contains_string(favorites, path.as_str()) {
            assert(unfavoured(paths, ord@.take(i as int + 1), favs) == u.push(path@));
            if r.len() < count {
                assert(seq_views(r@) =~= u);
                let ghost before = seq_views(r@);
                r.push(path.clone());
                assert(seq_views(r@) =~= before.push(path@));
            } else {
                assert(u.push(path@).take(count as int) =~= u.take(count as int));
            }
        }
        i = i + 1;
    }
    assert(ord@.take(n as int) =~= ord@);
    proof {
        lemma_unfavoured_len(paths, ord@, favs);
    }
    assert(count == excess(entries@.len(), max_files as nat));
    assert(is_age_order(entry_times(entries@), ord@));
    r
}

proof fn lemma_age_order_covers(times: Seq<u64>, ord: Seq<usize>, x: int)
    requires
        is_age_order(times, ord),
        0 <= x < times.len(),
    ensures
        exists|i: int| 0 <= i < ord.len() && ord[i] as int == x,
{
    let n = times.len() as int;
    let s = ord.map_values(|v: usize| v as int);
    assert(s.no_duplicates()) by {
        assert forall|i: int, j: int| 0 <= i < s.len() && 0 <= j < s.len() && i != j implies s[i] != s[j] by {
            if i < j {
                assert(older(times, ord[i] as int, ord[j] as int));
            } else {
                assert(older(times, ord[j] as int, ord[i] as int));
            }
        }
    }
    s.unique_seq_to_set();
    vstd::set_lib::lemma_int_range(0, n);
    assert(s.to_set().subset_of(vstd::set_lib::set_int_range(0, n))) by {
        assert forall|y: int| s.to_set().contains(y) implies vstd::set_lib::set_int_range(0, n).contains(y) by {
            let i = choose|i: int| 0 <= i < s.len() && s[i] == y;
            assert(ord[i] < times.len());
        }
    }
    vstd::set_lib::lemma_subset_equality(s.to_set(), vstd::set_lib::set_int_range(0, n));
    assert(vstd::set_lib::set_int_range(0, n).contains(x));
    assert(s.to_set().contains(x));
    let i = choose|i: int| 0 <= i < s.len() && s[i] == x;
    assert(ord[i] as int == x);
}

proof fn lemma_age_orders_agree_upto(times: Seq<u64>, a: Seq<usize>, b: Seq<usize>, i: int)
    requires
        is_age_order(times, a),
        is_age_order(times, b),
        0 <= i < times.len(),
    ensures
        forall|j: int| 0 <= j <= i ==> a[j] == b[j],
    decreases i,
{
    if i > 0 {
        lemma_age_orders_agree_upto(times, a, b, i - 1);
    }
    let x = a[i];
    let y = b[i];
    if x != y {
        lemma_age_order_covers(times, b, x as int);
        let k = choose|k: int| 0 <= k < b.len() && b[k] as int == x as int;
        lemma_age_order_covers(times, a, y as int);
        let m = choose|m: int| 0 <= m < a.len() && a[m] as int == y as int;
        if k < i {
            assert(a[k] == b[k]);
            assert(older(times, a[k] as int, a[i] as int));
        }
        if m < i {
            assert(a[m] == b[m]);
            assert(older(times, b[m] as int, b[i] as int));
        }
        assert(k > i && m > i);
        assert(older(times, b[i] as int, b[k] as int));
        assert(older(times, a[i] as int, a[m] as int));
    }
}

/// Favourites are kept: no path a cleanup removes is a favourite, and it
/// removes no more files than it is allowed to (`k`) nor than there are.
pub proof fn lemma_cleanup_spares_favorites(
    paths: Seq<Seq<char>>,
    ord: Seq<usize>,
    favorites: Seq<Seq<char>>,
    k: nat,
)
    ensures
        first_n(unfavoured(paths, ord, favorites), k).len() <= k,
        first_n(unfavoured(paths, ord, favorites), k).len() <= ord.len(),
        forall|i: int| 0 <= i < first_n(unfavoured(paths, ord, favorites), k).len()
            ==> !favorites.contains(#[trigger] first_n(unfavoured(paths, ord, favorites), k)[i]),
    decreases ord.len(),
{
    lemma_unfavoured_spares(paths, ord, favorites);
    let u = unfavoured(paths, ord, favorites);
    assert forall|i: int| 0 <= i < first_n(u, k).len() implies !favorites.contains(#[trigger] first_n(u, k)[i]) by {
        assert(first_n(u, k)[i] == u[i]);
    }
}

proof fn lemma_unfavoured_spares(paths: Seq<Seq<char>>, ord: Seq<usize>, favorites: Seq<Seq<char>>)
    ensures
        unfavoured(paths, ord, favorites).len() <= ord.len(),
        forall|i: int| 0 <= i < unfavoured(paths, ord, favorites).len()
            ==> !favorites.contains(#[trigger] unfavoured(paths, ord, favorites)[i]),
    decreases ord.len(),
{
    if ord.len() > 0 {
        lemma_unfavoured_spares(paths, ord.drop_last(), favorites);
    }
}

/// The cleanup is determined by the entries: there is only one order of
/// them oldest first (ties kept in listing order), so which files a cleanup
/// removes depends on nothing else.
pub proof fn lemma_age_order_unique(times: Seq<u64>, a: Seq<usize>, b: Seq<usize>)
    requires
        is_age_order(times, a),
        is_age_order(times, b),
    ensures
        a == b,
{
    if times.len() > 0 {
        lemma_age_orders_agree_upto(times, a, b, times.len() - 1);
    }
    assert(a =~= b);
}

/// A cached image always gets an image extension: the URL's own when its
/// path (what comes before any `?`) ends in one, else `jpg`.
pub proof fn lemma_url_extension(url: Seq<char>)
    ensures
        is_image_extension(url_extension_of(url)),
        is_image_extension(after_last(before_first(url, '?'), '.')) ==> url_extension_of(url) == after_last(
            before_first(url, '?'),
            '.',
        ),
        !is_image_extension(after_last(before_first(url, '?'), '.')) ==> url_extension_of(url) == "jpg"@,
{
}

} // verus!
