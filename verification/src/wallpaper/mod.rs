//! Wallpaper sources, the record describing one wallpaper, and the weighted
//! choice of the next wallpaper out of a mixed queue.

pub mod bing;
pub mod earth_view;
pub mod local;
pub mod nasa_apod;
pub mod pexels;
pub mod unsplash;
pub mod wallhaven;

use std::collections::VecDeque;
use vstd::prelude::*;

use crate::config::{ConfigView, PaperyConfig};
use crate::rng;
use crate::text::{clone_strings, seq_views};
use bing::BingProvider;
use earth_view::EarthViewProvider;
use local::LocalProvider;
use nasa_apod::NasaApodProvider;
use wallhaven::WallhavenProvider;

verus! {

/// Where a wallpaper comes from.
#[derive(Debug, Clone, Copy, PartialEq, Eq, Hash, Structural)]
pub enum SourceKind {
    Bing,
    NasaApod,
    Wallhaven,
    EarthView,
    Local,
    Unsplash,
    Pexels,
}

/// The name shown to the user for a source.
pub open spec fn display_name_of(k: SourceKind) -> Seq<char> {
    match k {
        SourceKind::Bing => "Bing Photo of the Day"@,
        SourceKind::NasaApod => "NASA APOD"@,
        SourceKind::Wallhaven => "Wallhaven"@,
        SourceKind::EarthView => "Google Earth View"@,
        SourceKind::Local => "Local Folders"@,
        SourceKind::Unsplash => "Unsplash"@,
        SourceKind::Pexels => "Pexels"@,
    }
}

/// Estimated size of each source's catalogue; the weight of the source when
/// the next wallpaper is drawn.
pub open spec fn pool_size_of(k: SourceKind) -> u64 {
    match k {
        SourceKind::Bing => 64,
        SourceKind::NasaApod => 10_000,
        SourceKind::Wallhaven => 1_000_000,
        SourceKind::EarthView => 1_500,
        SourceKind::Local => 100,
        SourceKind::Unsplash => 1_000,
        SourceKind::Pexels => 30_000,
    }
}

impl SourceKind {
    pub fn display_name(&self) -> (r: &'static str)
        ensures
            r@ == display_name_of(*self),
    {
        match self {
            SourceKind::Bing => "Bing Photo of the Day",
            SourceKind::NasaApod => "NASA APOD",
            SourceKind::Wallhaven => "Wallhaven",
            SourceKind::EarthView => "Google Earth View",
            SourceKind::Local => "Local Folders",
            SourceKind::Unsplash => "Unsplash",
            SourceKind::Pexels => "Pexels",
        }
    }

    /// Estimated total catalogue size of this source.
    pub fn pool_size(&self) -> (r: u64)
        ensures
            r == pool_size_of(*self),
    {
        match self {
            SourceKind::Bing => 64,
            SourceKind::NasaApod => 10_000,
            SourceKind::Wallhaven => 1_000_000,
            SourceKind::EarthView => 1_500,
            SourceKind::Local => 100,
            SourceKind::Unsplash => 1_000,
            SourceKind::Pexels => 30_000,
        }
    }
}

/// One wallpaper: where it comes from, where to get it, and how to show it.
/// `local_path` is set once the image is on disk.
#[derive(Debug, Clone)]
pub struct WallpaperInfo {
    pub source: SourceKind,
    pub url: String,
    pub title: String,
    pub copyright: String,
    pub local_path: Option<String>,
}

/// The abstract value of a [`WallpaperInfo`].
pub struct WallpaperView {
    pub source: SourceKind,
    pub url: Seq<char>,
    pub title: Seq<char>,
    pub copyright: Seq<char>,
    pub local_path: Option<Seq<char>>,
}

pub open spec fn opt_view(o: Option<String>) -> Option<Seq<char>> {
    match o {
        Some(s) => Some(s@),
        None => None,
    }
}

impl View for WallpaperInfo {
    type V = WallpaperView;

    open spec fn view(&self) -> WallpaperView {
        WallpaperView {
            source: self.source,
            url: self.url@,
            title: self.title@,
            copyright: self.copyright@,
            local_path: opt_view(self.local_path),
        }
    }
}

pub open spec fn views_of(s: Seq<WallpaperInfo>) -> Seq<WallpaperView> {
    s.map_values(|w: WallpaperInfo| w@)
}

/// Clones a wallpaper record; the copy has the same value.
pub fn clone_wallpaper(w: &WallpaperInfo) -> (r: WallpaperInfo)
    ensures
        r@ == w@,
{
    WallpaperInfo {
        source: w.source,
        url: w.url.clone(),
        title: w.title.clone(),
        copyright: w.copyright.clone(),
        local_path: match &w.local_path {
            Some(p) => Some(p.clone()),
            None => None,
        },
    }
}

// ---------------------------------------------------------------------------
// Weighted choice of the next wallpaper
// ---------------------------------------------------------------------------

/// The sources of the queued wallpapers, in queue order.
pub open spec fn sources_of(q: Seq<WallpaperInfo>) -> Seq<SourceKind> {
    q.map_values(|w: WallpaperInfo| w.source)
}

/// The distinct sources of `s`, in the order of their first occurrence.
pub open spec fn distinct_sources(s: Seq<SourceKind>) -> Seq<SourceKind>
    decreases s.len(),
{
    if s.len() == 0 {
        seq![]
    } else {
        let p = distinct_sources(s.drop_last());
        if p.contains(s.last()) {
            p
        } else {
            p.push(s.last())
        }
    }
}

/// Sum of the catalogue sizes of the given sources.
pub open spec fn total_pool(s: Seq<SourceKind>) -> nat
    decreases s.len(),
{
    if s.len() == 0 {
        0
    } else {
        total_pool(s.drop_last()) + pool_size_of(s.last()) as nat
    }
}

/// The positions in `s` that hold source `k`, increasing.
pub open spec fn positions_of(s: Seq<SourceKind>, k: SourceKind) -> Seq<int>
    decreases s.len(),
{
    if s.len() == 0 {
        seq![]
    } else {
        let p = positions_of(s.drop_last(), k);
        if s.last() == k {
            p.push(s.len() - 1)
        } else {
            p
        }
    }
}

/// The slot of `srcs` whose weight interval holds `r`: the `k` with
/// `total_pool(srcs.take(k)) <= r < total_pool(srcs.take(k + 1))`.
pub open spec fn source_slot(srcs: Seq<SourceKind>, r: nat) -> int
    decreases srcs.len(),
{
    if srcs.len() <= 1 {
        0
    } else if r < total_pool(srcs.drop_last()) {
        source_slot(srcs.drop_last(), r)
    } else {
        srcs.len() - 1
    }
}

/// The position drawn from the queue whose sources are `q`, given the two
/// random numbers: `r_source` picks a source with probability proportional to
/// its catalogue size, `r_item` picks one of that source's queued wallpapers.
pub open spec fn weighted_choice(q: Seq<SourceKind>, r_source: u64, r_item: u32) -> Option<usize> {
    if q.len() == 0 {
        None
    } else {
        let srcs = distinct_sources(q);
        let r = (r_source as nat) % total_pool(srcs);
        let k = source_slot(srcs, r);
        let ps = positions_of(q, srcs[k]);
        Some(ps[((r_item as nat) % ps.len()) as int] as usize)
    }
}

proof fn lemma_distinct_sources(s: Seq<SourceKind>)
    ensures
        distinct_sources(s).no_duplicates(),
        forall|x: SourceKind| #[trigger] distinct_sources(s).contains(x) <==> s.contains(x),
        s.len() > 0 ==> distinct_sources(s).len() > 0,
    decreases s.len(),
{
    if s.len() > 0 {
        lemma_distinct_sources(s.drop_last());
        let p = distinct_sources(s.drop_last());
        assert forall|x: SourceKind| s.contains(x) <==> (s.drop_last().contains(x) || x == s.last()) by {
            if s.contains(x) {
                let i = choose|i: int| 0 <= i < s.len() && s[i] == x;
                if i < s.len() - 1 {
                    assert(s.drop_last()[i] == x);
                }
            }
            if s.drop_last().contains(x) {
                let i = choose|i: int| 0 <= i < s.drop_last().len() && s.drop_last()[i] == x;
                assert(s[i] == x);
            }
            if x == s.last() {
                assert(s[s.len() - 1] == x);
            }
        }
        if !p.contains(s.last()) {
            assert forall|x: SourceKind| p.push(s.last()).contains(x) <==> (p.contains(x) || x == s.last()) by {
                if p.push(s.last()).contains(x) {
                    let i = choose|i: int| 0 <= i < p.push(s.last()).len() && p.push(s.last())[i] == x;
                    if i < p.len() {
                        assert(p[i] == x);
                    }
                }
                if p.contains(x) {
                    let i = choose|i: int| 0 <= i < p.len() && p[i] == x;
                    assert(p.push(s.last())[i] == x);
                }
                if x == s.last() {
                    assert(p.push(s.last())[p.len() as int] == x);
                }
            }
        }
        assert forall|x: SourceKind| #[trigger] distinct_sources(s).contains(x) <==> s.contains(x) by {
            assert(p.contains(x) <==> s.drop_last().contains(x));
        }
    }
}

/// Every source kind.
pub open spec fn all_sources() -> Set<SourceKind> {
    set![
        SourceKind::Bing,
        SourceKind::NasaApod,
        SourceKind::Wallhaven,
        SourceKind::EarthView,
        SourceKind::Local,
        SourceKind::Unsplash,
        SourceKind::Pexels,
    ]
}

proof fn lemma_distinct_len(s: Seq<SourceKind>)
    requires
        s.no_duplicates(),
    ensures
        s.len() <= 7,
{
    s.unique_seq_to_set();
    assert(s.to_set().subset_of(all_sources())) by {
        assert forall|x: SourceKind| s.to_set().contains(x) implies all_sources().contains(x) by {
            match x {
                SourceKind::Bing => {},
                SourceKind::NasaApod => {},
                SourceKind::Wallhaven => {},
                SourceKind::EarthView => {},
                SourceKind::Local => {},
                SourceKind::Unsplash => {},
                SourceKind::Pexels => {},
            }
        }
    }
    assert(all_sources().len() <= 7) by {
        let e = Set::<SourceKind>::empty();
        assert(e.len() == 0);
        assert(e.insert(SourceKind::Bing).len() <= 1);
        assert(e.insert(SourceKind::Bing).insert(SourceKind::NasaApod).len() <= 2);
        assert(e.insert(SourceKind::Bing).insert(SourceKind::NasaApod).insert(SourceKind::Wallhaven).len() <= 3);
        assert(e.insert(SourceKind::Bing).insert(SourceKind::NasaApod).insert(SourceKind::Wallhaven).insert(SourceKind::EarthView).len() <= 4);
        assert(e.insert(SourceKind::Bing).insert(SourceKind::NasaApod).insert(SourceKind::Wallhaven).insert(SourceKind::EarthView).insert(SourceKind::Local).len() <= 5);
        assert(e.insert(SourceKind::Bing).insert(SourceKind::NasaApod).insert(SourceKind::Wallhaven).insert(SourceKind::EarthView).insert(SourceKind::Local).insert(SourceKind::Unsplash).len() <= 6);
    }
    vstd::set_lib::lemma_len_subset(s.to_set(), all_sources());
}

proof fn lemma_total_pool_bounds(s: Seq<SourceKind>)
    ensures
        total_pool(s) <= 1_000_000 * s.len(),
        s.len() > 0 ==> total_pool(s) >= 64,
    decreases s.len(),
{
    if s.len() > 0 {
        lemma_total_pool_bounds(s.drop_last());
    }
}

proof fn lemma_total_pool_take_step(s: Seq<SourceKind>, j: int)
    requires
        0 <= j < s.len(),
    ensures
        total_pool(s.take(j + 1)) == total_pool(s.take(j)) + pool_size_of(s[j]),
{
    assert(s.take(j + 1).drop_last() =~= s.take(j));
}

proof fn lemma_source_slot(srcs: Seq<SourceKind>, r: nat, j: int)
    requires
        0 <= j < srcs.len(),
        total_pool(srcs.take(j)) <= r < total_pool(srcs.take(j + 1)),
    ensures
        source_slot(srcs, r) == j,
    decreases srcs.len(),
{
    if srcs.len() == 1 {
    } else if j == srcs.len() - 1 {
        assert(srcs.take(j) =~= srcs.drop_last());
    } else {
        assert(srcs.drop_last().take(j) =~= srcs.take(j));
        assert(srcs.drop_last().take(j + 1) =~= srcs.take(j + 1));
        lemma_total_pool_prefix(srcs.drop_last(), j + 1);
        assert(srcs.drop_last().take(srcs.len() - 1) =~= srcs.drop_last());
        lemma_source_slot(srcs.drop_last(), r, j);
    }
}

proof fn lemma_total_pool_prefix(s: Seq<SourceKind>, j: int)
    requires
        0 <= j <= s.len(),
    ensures
        total_pool(s.take(j)) <= total_pool(s),
    decreases s.len() - j,
{
    if j < s.len() {
        lemma_total_pool_take_step(s, j);
        lemma_total_pool_prefix(s, j + 1);
    } else {
        assert(s.take(j) =~= s);
    }
}

proof fn lemma_positions_of(s: Seq<SourceKind>, k: SourceKind)
    ensures
        forall|i: int| 0 <= i < positions_of(s, k).len() ==>
            0 <= #[trigger] positions_of(s, k)[i] < s.len() && s[positions_of(s, k)[i]] == k,
        s.contains(k) ==> positions_of(s, k).len() > 0,
    decreases s.len(),
{
    if s.len() > 0 {
        lemma_positions_of(s.drop_last(), k);
        if s.contains(k) && s.last() != k {
            let i = choose|i: int| 0 <= i < s.len() && s[i] == k;
            assert(s.drop_last()[i] == k);
        }
    }
}

/// The weighting law: in a non-empty queue (of a length that fits in memory), the drawn source is the one
/// whose interval `[total_pool(srcs.take(k)), total_pool(srcs.take(k + 1)))`
/// holds `r_source % total_pool(srcs)`, and the drawn position is a
/// position of the queue that holds that source.
pub proof fn lemma_weighted_choice(q: Seq<SourceKind>, r_source: u64, r_item: u32)
    requires
        0 < q.len() <= usize::MAX,
    ensures
        ({
            let srcs = distinct_sources(q);
            let r = (r_source as nat) % total_pool(srcs);
            let k = source_slot(srcs, r);
            &&& total_pool(srcs) > 0
            &&& 0 <= k < srcs.len()
            &&& total_pool(srcs.take(k)) <= r < total_pool(srcs.take(k + 1))
            &&& weighted_choice(q, r_source, r_item) matches Some(i)
                && i < q.len() && q[i as int] == srcs[k]
        }),
{
    let srcs = distinct_sources(q);
    lemma_distinct_sources(q);
    lemma_total_pool_bounds(srcs);
    let total = total_pool(srcs);
    let r = (r_source as nat) % total;
    assert(srcs.take(0) =~= Seq::<SourceKind>::empty());
    // find the slot by walking the prefixes
    let k = slot_witness(srcs, r, 0);
    lemma_source_slot(srcs, r, k);
    assert(q.contains(srcs[k])) by {
        assert(srcs.contains(srcs[k]));
    }
    lemma_positions_of(q, srcs[k]);
    let ps = positions_of(q, srcs[k]);
    let idx = ((r_item as nat) % ps.len()) as int;
    assert(0 <= ps[idx] < q.len());
}

proof fn slot_witness(srcs: Seq<SourceKind>, r: nat, j: int) -> (k: int)
    requires
        0 <= j < srcs.len(),
        total_pool(srcs.take(j)) <= r < total_pool(srcs),
    ensures
        j <= k < srcs.len(),
        total_pool(srcs.take(k)) <= r < total_pool(srcs.take(k + 1)),
    decreases srcs.len() - j,
{
    lemma_total_pool_take_step(srcs, j);
    if r < total_pool(srcs.take(j + 1)) {
        j
    } else {
        if j + 1 == srcs.len() {
            assert(srcs.take(j + 1) =~= srcs);
        }
        slot_witness(srcs, r, j + 1)
    }
}

fn contains_source(v: &Vec<SourceKind>, k: SourceKind) -> (r: bool)
    ensures
        r == v@.contains(k),
{
    let mut i: usize = 0;
    while i < v.len()
        invariant
            i <= v.len(),
            forall|j: int| 0 <= j < i ==> v@[j] != k,
        decreases v.len() - i,
    {
        if v[i] == k {
            assert(v@[i as int] == k);
            return true;
        }
        i = i + 1;
    }
    false
}

/// Picks the position of the next wallpaper in `queue`, given the two random
/// draws: first a source, with probability proportional to its catalogue
/// size, then one of that source's queued wallpapers.
pub fn weighted_pop_index_with(queue: &VecDeque<WallpaperInfo>, r_source: u64, r_item: u32) -> (res: Option<usize>)
    ensures
        res == weighted_choice(sources_of(queue@), r_source, r_item),
{
    let ghost q = sources_of(queue@);
    let n = queue.len();
    if n == 0 {
        return None;
    }
    // The distinct sources, in order of first appearance.
    let mut sources: Vec<SourceKind> = Vec::new();
    let mut i: usize = 0;
    while i < n
        invariant
            n == queue@.len(),
            q == sources_of(queue@),
            i <= n,
            sources@ == distinct_sources(q.take(i as int)),
        decreases n - i,
    {
        let s = queue[i].source;
        assert(q.take(i as int + 1).drop_last() =~= q.take(i as int));
        if !contains_source(&sources, s) {
            sources.push(s);
        }
        i = i + 1;
    }
    assert(q.take(n as int) =~= q);
    proof {
        lemma_distinct_sources(q);
        lemma_distinct_len(sources@);
        lemma_total_pool_bounds(sources@);
    }
    // Total weight.
    let m = sources.len();
    let mut total: u64 = 0;
    let mut j: usize = 0;
    while j < m
        invariant
            m == sources@.len(),
            m <= 7,
            j <= m,
            total == total_pool(sources@.take(j as int)),
            total <= 1_000_000 * j,
        decreases m - j,
    {
        proof {
            lemma_total_pool_take_step(sources@, j as int);
        }
        total = total + sources[j].pool_size();
        j = j + 1;
    }
    assert(sources@.take(m as int) =~= sources@);
    let r = r_source % total;
    // The source whose weight interval holds r.
    let mut acc: u64 = 0;
    let mut k: usize = 0;
    loop
        invariant
            m == sources@.len(),
            0 < m <= 7,
            total == total_pool(sources@),
            r < total,
            k < m,
            acc == total_pool(sources@.take(k as int)),
            acc <= r,
        ensures
            k < m,
            total_pool(sources@.take(k as int)) <= r < total_pool(sources@.take(k as int + 1)),
        decreases m - k,
    {
        proof {
            lemma_total_pool_take_step(sources@, k as int);
            lemma_total_pool_prefix(sources@, k as int + 1);
        }
        let next = acc + sources[k].pool_size();
        if r < next {
            break;
        }
        acc = next;
        if k + 1 == m {
            assert(sources@.take(m as int) =~= sources@);
            assert(false);
        }
        k = k + 1;
    }
    proof {
        lemma_source_slot(sources@, r as nat, k as int);
    }
    let chosen = sources[k];
    // Positions holding the chosen source.
    let mut positions: Vec<usize> = Vec::new();
    let mut p: usize = 0;
    while p < n
        invariant
            n == queue@.len(),
            q == sources_of(queue@),
            p <= n,
            positions@.len() == positions_of(q.take(p as int), chosen).len(),
            forall|t: int| 0 <= t < positions@.len() ==>
                positions@[t] as int == #[trigger] positions_of(q.take(p as int), chosen)[t],
        decreases n - p,
    {
        assert(q.take(p as int + 1).drop_last() =~= q.take(p as int));
        if queue[p].source == chosen {
            positions.push(p);
        }
        p = p + 1;
    }
    assert(q.take(n as int) =~= q);
    proof {
        lemma_distinct_sources(q);
        assert(sources@.contains(chosen));
        lemma_positions_of(q, chosen);
    }
    let pick = (r_item as usize) % positions.len();
    Some(positions[pick])
}

/// Picks the position of the next wallpaper in `queue` by a weighted random
/// draw (see [`weighted_pop_index_with`]). `None` exactly when the queue is
/// empty.
pub fn weighted_pop_index(queue: &VecDeque<WallpaperInfo>) -> (res: Option<usize>)
    ensures
        queue@.len() == 0 ==> res is None,
        queue@.len() > 0 ==> exists|r_source: u64, r_item: u32|
            res == weighted_choice(sources_of(queue@), r_source, r_item),
        res matches Some(i) ==> i < queue@.len(),
{
    if queue.len() == 0 {
        return None;
    }
    let r_source = rng::random_u64();
    let r_item = rng::random_u32();
    let res = weighted_pop_index_with(queue, r_source, r_item);
    proof {
        lemma_weighted_choice(sources_of(queue@), r_source, r_item);
    }
    res
}

// ---------------------------------------------------------------------------
// The sources the settings enable
// ---------------------------------------------------------------------------

/// A configured wallpaper source.
pub enum Provider {
    Bing(BingProvider),
    NasaApod(NasaApodProvider),
    Wallhaven(WallhavenProvider),
    EarthView(EarthViewProvider),
    Local(LocalProvider),
}

/// The abstract value of a [`Provider`].
pub enum ProviderView {
    Bing,
    NasaApod,
    Wallhaven { categories: Seq<char>, purity: Seq<char> },
    EarthView,
    Local { folders: Seq<Seq<char>> },
}

pub open spec fn provider_view(p: Provider) -> ProviderView {
    match p {
        Provider::Bing(_) => ProviderView::Bing,
        Provider::NasaApod(_) => ProviderView::NasaApod,
        Provider::Wallhaven(w) => ProviderView::Wallhaven { categories: w.categories@, purity: w.purity@ },
        Provider::EarthView(_) => ProviderView::EarthView,
        Provider::Local(l) => ProviderView::Local { folders: seq_views(l.folders@) },
    }
}

/// The sources the settings enable, in this order: Bing, NASA, Wallhaven
/// (with the configured categories and purity), Earth View, local folders.
pub open spec fn enabled_providers_of(c: ConfigView) -> Seq<ProviderView> {
    (if c.source_bing { seq![ProviderView::Bing] } else { seq![] })
    + (if c.source_nasa { seq![ProviderView::NasaApod] } else { seq![] })
    + (if c.source_wallhaven {
        seq![ProviderView::Wallhaven { categories: c.wallhaven_categories, purity: c.wallhaven_purity }]
    } else {
        seq![]
    })
    + (if c.source_earthview { seq![ProviderView::EarthView] } else { seq![] })
    + (if c.source_local {
        seq![ProviderView::Local { folders: c.local_folders }]
    } else {
        seq![]
    })
}

/// Every enabled source gives a provider and no other source does: one
/// provider for each enabled flag, Wallhaven with the configured categories
/// and purity, the local folders with the configured folders.
pub proof fn lemma_enabled_providers(c: ConfigView)
    ensures
        enabled_providers_of(c).contains(ProviderView::Bing) <==> c.source_bing,
        enabled_providers_of(c).contains(ProviderView::NasaApod) <==> c.source_nasa,
        enabled_providers_of(c).contains(ProviderView::EarthView) <==> c.source_earthview,
        enabled_providers_of(c).contains(
            ProviderView::Wallhaven { categories: c.wallhaven_categories, purity: c.wallhaven_purity },
        ) <==> c.source_wallhaven,
        enabled_providers_of(c).contains(ProviderView::Local { folders: c.local_folders }) <==> c.source_local,
        enabled_providers_of(c).len() == (if c.source_bing { 1int } else { 0int }) + (if c.source_nasa {
            1int
        } else {
            0int
        }) + (if c.source_wallhaven { 1int } else { 0int }) + (if c.source_earthview { 1int } else { 0int })
            + (if c.source_local { 1int } else { 0int }),
{
    let a: Seq<ProviderView> = if c.source_bing { seq![ProviderView::Bing] } else { seq![] };
    let b: Seq<ProviderView> = if c.source_nasa { seq![ProviderView::NasaApod] } else { seq![] };
    let wv = ProviderView::Wallhaven { categories: c.wallhaven_categories, purity: c.wallhaven_purity };
    let w: Seq<ProviderView> = if c.source_wallhaven { seq![wv] } else { seq![] };
    let e: Seq<ProviderView> = if c.source_earthview { seq![ProviderView::EarthView] } else { seq![] };
    let lv = ProviderView::Local { folders: c.local_folders };
    let l: Seq<ProviderView> = if c.source_local { seq![lv] } else { seq![] };
    assert(a + b + w + e + l == enabled_providers_of(c));
    assert forall|x: ProviderView| #[trigger] (a + b + w + e + l).contains(x) <==> (
        (c.source_bing && x == ProviderView::Bing)
        || (c.source_nasa && x == ProviderView::NasaApod)
        || (c.source_wallhaven && x == wv)
        || (c.source_earthview && x == ProviderView::EarthView)
        || (c.source_local && x == lv)) by {
        lemma_opt_contains(c.source_bing, ProviderView::Bing, x);
        lemma_opt_contains(c.source_nasa, ProviderView::NasaApod, x);
        lemma_opt_contains(c.source_wallhaven, wv, x);
        lemma_opt_contains(c.source_earthview, ProviderView::EarthView, x);
        lemma_opt_contains(c.source_local, lv, x);
        lemma_concat_contains(a, b, x);
        lemma_concat_contains(a + b, w, x);
        lemma_concat_contains(a + b + w, e, x);
        lemma_concat_contains(a + b + w + e, l, x);
    }
    assert((a + b + w + e + l).contains(ProviderView::Bing) <==> c.source_bing);
    assert((a + b + w + e + l).contains(ProviderView::NasaApod) <==> c.source_nasa);
    assert((a + b + w + e + l).contains(ProviderView::EarthView) <==> c.source_earthview);
    assert((a + b + w + e + l).contains(wv) <==> c.source_wallhaven);
    assert((a + b + w + e + l).contains(lv) <==> c.source_local);
}

proof fn lemma_opt_contains(on: bool, y: ProviderView, x: ProviderView)
    ensures
        (if on { seq![y] } else { Seq::<ProviderView>::empty() }).contains(x) <==> (on && x == y),
{
    if on {
        assert(seq![y][0] == y);
    }
}

proof fn lemma_concat_contains(s: Seq<ProviderView>, t: Seq<ProviderView>, x: ProviderView)
    ensures
        (s + t).contains(x) <==> (s.contains(x) || t.contains(x)),
{
    if (s + t).contains(x) {
        let i = choose|i: int| 0 <= i < (s + t).len() && (s + t)[i] == x;
        if i < s.len() {
            assert(s[i] == x);
        } else {
            assert(t[i - s.len()] == x);
        }
    }
    if s.contains(x) {
        let i = choose|i: int| 0 <= i < s.len() && s[i] == x;
        assert((s + t)[i] == x);
    }
    if t.contains(x) {
        let i = choose|i: int| 0 <= i < t.len() && t[i] == x;
        assert((s + t)[s.len() + i] == x);
    }
}

/// The sources the settings enable (see [`enabled_providers_of`]).
pub fn enabled_providers(config: &PaperyConfig) -> (r: Vec<Provider>)
    ensures
        r@.map_values(|p: Provider| provider_view(p)) == enabled_providers_of(config@),
{
    let mut r: Vec<Provider> = Vec::new();
    let ghost mut expect: Seq<ProviderView> = seq![];
    if config.source_bing {
        r.push(Provider::Bing(BingProvider));
        proof { expect = expect.push(ProviderView::Bing); }
    }
    assert(r@.map_values(|p: Provider| provider_view(p)) =~= expect);
    if config.source_nasa {
        r.push(Provider::NasaApod(NasaApodProvider));
        proof { expect = expect.push(ProviderView::NasaApod); }
    }
    assert(r@.map_values(|p: Provider| provider_view(p)) =~= expect);
    if config.source_wallhaven {
        let w = WallhavenProvider::new(config.wallhaven_categories.as_str(), config.wallhaven_purity.as_str());
        r.push(Provider::Wallhaven(w));
        proof {
            expect = expect.push(ProviderView::Wallhaven { categories: config.wallhaven_categories@, purity: config.wallhaven_purity@ });
        }
    }
    assert(r@.map_values(|p: Provider| provider_view(p)) =~= expect);
    if config.source_earthview {
        r.push(Provider::EarthView(EarthViewProvider));
        proof { expect = expect.push(ProviderView::EarthView); }
    }
    assert(r@.map_values(|p: Provider| provider_view(p)) =~= expect);
    if config.source_local {
        let folders = clone_strings(&config.local_folders);
        r.push(Provider::Local(LocalProvider::new(folders)));
        proof { expect = expect.push(ProviderView::Local { folders: seq_views(config.local_folders@) }); }
    }
    assert(r@.map_values(|p: Provider| provider_view(p)) =~= expect);
    assert(expect =~= enabled_providers_of(config@));
    r
}

// ---------------------------------------------------------------------------
// Random pages
// ---------------------------------------------------------------------------

/// The page drawn by the random number `r` among pages `1..=last` (at
/// least one page).
pub open spec fn page_from(r: u32, last: u32) -> u32 {
    ((r as nat % (if last > 0 { last as nat } else { 1nat })) + 1) as u32
}

/// The page drawn by the random number `r` (see [`page_from`]).
pub fn page_for(r: u32, last: u32) -> (p: u32)
    ensures
        p == page_from(r, last),
        1 <= p,
        p <= last || p == 1,
{
    let last = if last > 0 { last } else { 1 };
    (r % last) + 1
}

/// A page drawn at random among pages `1..=last`.
pub fn random_page(last: u32) -> (p: u32)
    ensures
        exists|r: u32| p == page_from(r, last),
        1 <= p,
        p <= last || p == 1,
{
    page_for(rng::random_u32(), last)
}

} // verus!
