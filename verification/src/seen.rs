//! The persistent "seen URLs" store shared between the daemon and the GUI.
//!
//! The store remembers the URLs of the wallpapers already shown, oldest
//! first, and forgets the oldest ones (first in, first out) once the cap is
//! reached, so the most recently shown wallpapers are never forgotten. The
//! file itself (`seen.json` in the cache directory) is read and written by
//! the application; this module holds the rules.

use std::collections::VecDeque;
use vstd::prelude::*;

use crate::text::{contains_string, join_path, path_join, position_of_string, seq_views};

verus! {

broadcast use vstd::seq_lib::group_seq_properties;

/// Hard cap on stored URLs. With ~5000 unique wallpapers there is fresh
/// content for months before any wraparound on a 30-minute interval.
pub const MAX_ENTRIES: usize = 5000;

pub struct SeenStore {
    path: String,
    set: Vec<String>,
    order: VecDeque<String>,
}

/// The abstract value of a [`SeenStore`]: the file it is saved to, the URLs
/// it answers `contains` for, and the remembered URLs, oldest first.
pub struct SeenView {
    pub path: Seq<char>,
    pub set: Set<Seq<char>>,
    pub order: Seq<Seq<char>>,
}

pub open spec fn deque_views(v: Seq<String>) -> Seq<Seq<char>> {
    v.map_values(|s: String| s@)
}

impl View for SeenStore {
    type V = SeenView;

    closed spec fn view(&self) -> SeenView {
        SeenView {
            path: self.path@,
            set: seq_views(self.set@).to_set(),
            order: deque_views(self.order@),
        }
    }
}

/// How many of the oldest entries an insertion of a new URL forgets, when
/// `len` URLs are stored.
pub open spec fn evicted_count(len: nat) -> nat {
    if len >= MAX_ENTRIES {
        (len - MAX_ENTRIES + 1) as nat
    } else {
        0
    }
}

/// The store after `insert(url)`: unchanged when the URL is already known;
/// otherwise the oldest entries are forgotten until fewer than
/// `MAX_ENTRIES` remain, and the URL is added as the newest.
pub open spec fn seen_after_insert(v: SeenView, url: Seq<char>) -> SeenView {
    if v.set.contains(url) {
        v
    } else {
        let k = evicted_count(v.order.len());
        SeenView {
            path: v.path,
            set: v.set.difference(v.order.take(k as int).to_set()).insert(url),
            order: v.order.skip(k as int).push(url),
        }
    }
}

proof fn lemma_remove_no_dup<A>(s: Seq<A>, i: int)
    requires
        s.no_duplicates(),
        0 <= i < s.len(),
    ensures
        s.remove(i).no_duplicates(),
        s.remove(i).to_set() =~= s.to_set().remove(s[i]),
{
    let r = s.remove(i);
    assert forall|a: int, b: int| 0 <= a < b < r.len() implies r[a] != r[b] by {
        let a2 = if a < i { a } else { a + 1 };
        let b2 = if b < i { b } else { b + 1 };
        assert(r[a] == s[a2] && r[b] == s[b2]);
    }
    assert forall|x: A| r.contains(x) <==> (s.contains(x) && x != s[i]) by {
        if r.contains(x) {
            let j = choose|j: int| 0 <= j < r.len() && r[j] == x;
            let j2 = if j < i { j } else { j + 1 };
            assert(s[j2] == x);
        }
        if s.contains(x) && x != s[i] {
            let j = choose|j: int| 0 <= j < s.len() && s[j] == x;
            if j < i {
                assert(r[j] == x);
            } else {
                assert(j != i);
                assert(r[j - 1] == x);
            }
        }
    }
}

proof fn lemma_push_no_dup<A>(s: Seq<A>, x: A)
    requires
        s.no_duplicates(),
        !s.contains(x),
    ensures
        s.push(x).no_duplicates(),
        s.push(x).to_set() =~= s.to_set().insert(x),
{
    let r = s.push(x);
    assert forall|a: int, b: int| 0 <= a < b < r.len() implies r[a] != r[b] by {
        if b == s.len() {
            assert(s.contains(r[a]));
        }
    }
    assert forall|y: A| r.contains(y) <==> (s.contains(y) || y == x) by {
        if r.contains(y) {
            let j = choose|j: int| 0 <= j < r.len() && r[j] == y;
            if j < s.len() {
                assert(s[j] == y);
            }
        }
        if s.contains(y) {
            let j = choose|j: int| 0 <= j < s.len() && s[j] == y;
            assert(r[j] == y);
        }
        if y == x {
            assert(r[s.len() as int] == y);
        }
    }
}

fn remove_string(v: &mut Vec<String>, s: &String)
    requires
        seq_views(old(v)@).no_duplicates(),
    ensures
        seq_views(final(v)@).no_duplicates(),
        seq_views(final(v)@).to_set() =~= seq_views(old(v)@).to_set().remove(s@),
{
    match position_of_string(v, s.as_str()) {
        Some(i) => {
            let ghost before = seq_views(v@);
            v.remove(i);
            proof {
                assert(seq_views(v@) =~= before.remove(i as int));
                lemma_remove_no_dup(before, i as int);
            }
        },
        None => {
            assert(seq_views(v@).to_set() =~= seq_views(v@).to_set().remove(s@));
        },
    }
}

/// The store loaded from `cache_dir`, given the URLs its file held (oldest
/// first), or `None` for a missing or unreadable file.
pub open spec fn loaded_view(cache_dir: Seq<char>, saved: Option<Seq<Seq<char>>>) -> SeenView {
    let order = match saved {
        Some(urls) => urls,
        None => Seq::<Seq<char>>::empty(),
    };
    SeenView { path: path_join(cache_dir, "seen.json"@), set: order.to_set(), order }
}

/// The known URLs are exactly the remembered ones, each remembered once. A
/// store loaded from a file without repeated URLs is so, and insertions keep
/// it so (see [`lemma_insert_keeps_exact`]).
pub open spec fn is_exact(v: SeenView) -> bool {
    v.order.no_duplicates() && v.set == v.order.to_set()
}

impl SeenStore {
    /// Validity: no URL appears twice among the known ones.
    pub closed spec fn wf(&self) -> bool {
        seq_views(self.set@).no_duplicates()
    }

    /// The store as loaded from its file in `cache_dir`: `saved` holds the
    /// URLs read from `seen.json`, oldest first, or `None` when the file is
    /// missing or unreadable, which gives an empty store.
    pub fn load(cache_dir: &str, saved: Option<Vec<String>>) -> (r: SeenStore)
        ensures
            r.wf(),
            r@ == loaded_view(
                cache_dir@,
                match saved {
                    Some(urls) => Some(seq_views(urls@)),
                    None => None,
                },
            ),
    {
        proof {
            reveal_strlit("seen.json");
        }
        let path = join_path(cache_dir, "seen.json");
        let urls = match saved {
            Some(urls) => urls,
            None => Vec::new(),
        };
        let mut set: Vec<String> = Vec::new();
        let mut order: VecDeque<String> = VecDeque::new();
        let mut i: usize = 0;
        while i < urls.len()
            invariant
                i <= urls.len(),
                seq_views(set@).no_duplicates(),
                seq_views(set@).to_set() =~= seq_views(urls@).take(i as int).to_set(),
                deque_views(order@) =~= seq_views(urls@).take(i as int),
            decreases urls.len() - i,
        {
            let u = urls[i].clone();
            let ghost tk = seq_views(urls@).take(i as int);
            assert(seq_views(urls@).take(i as int + 1) =~= tk.push(u@));
            assert(tk.push(u@).to_set() =~= tk.to_set().insert(u@)) by {
                assert forall|y: Seq<char>| tk.push(u@).contains(y) <==> (tk.contains(y) || y == u@) by {
                    if tk.push(u@).contains(y) {
                        let j = choose|j: int| 0 <= j < tk.push(u@).len() && tk.push(u@)[j] == y;
                        if j < tk.len() {
                            assert(tk[j] == y);
                        }
                    }
                    if tk.contains(y) {
                        let j = choose|j: int| 0 <= j < tk.len() && tk[j] == y;
                        assert(tk.push(u@)[j] == y);
                    }
                    if y == u@ {
                        assert(tk.push(u@)[tk.len() as int] == y);
                    }
                }
            }
            if !contains_string(&set, u.as_str()) {
                let ghost before = seq_views(set@);
                proof {
                    lemma_push_no_dup(before, u@);
                }
                set.push(u.clone());
                assert(seq_views(set@) =~= before.push(u@));
            } else {
                assert(seq_views(set@).to_set().contains(u@));
            }
            order.push_back(u);
            i = i + 1;
        }
        assert(seq_views(urls@).take(urls@.len() as int) =~= seq_views(urls@));
        SeenStore { path, set, order }
    }

    /// Whether `url` has been seen.
    pub fn contains(&self, url: &str) -> (r: bool)
        ensures
            r == self@.set.contains(url@),
    {
        contains_string(&self.set, url)
    }

    /// Records `url` as seen (see [`seen_after_insert`]).
    pub fn insert(&mut self, url: String)
        requires
            old(self).wf(),
        ensures
            final(self).wf(),
            final(self)@ == seen_after_insert(old(self)@, url@),
            is_exact(old(self)@) ==> is_exact(final(self)@),
    {
        proof {
            if is_exact(self@) {
                lemma_insert_keeps_exact(self@, url@);
            }
        }
        if contains_string(&self.set, url.as_str()) {
            assert(self@.set.contains(url@));
            return;
        }
        let ghost o0 = deque_views(self.order@);
        let ghost s0 = seq_views(self.set@).to_set();
        let ghost k = evicted_count(o0.len());
        let ghost mut j: int = 0;
        // FIFO eviction once the cap is reached.
        while self.order.len() >= MAX_ENTRIES
            invariant
                self.path == old(self).path,
                seq_views(self.set@).no_duplicates(),
                0 <= j <= o0.len(),
                deque_views(self.order@) =~= o0.skip(j),
                seq_views(self.set@).to_set() =~= s0.difference(o0.take(j).to_set()),
                o0.len() >= MAX_ENTRIES ==> j <= k,
                o0.len() < MAX_ENTRIES ==> j == 0,
                k == evicted_count(o0.len()),
            decreases self.order@.len(),
        {
            let ghost prev = self.order@;
            if let Some(oldest) = self.order.pop_front() {
                proof {
                    assert(oldest@ == o0[j]);
                    assert(o0.take(j + 1).to_set() =~= o0.take(j).to_set().insert(o0[j])) by {
                        assert(o0.take(j + 1) =~= o0.take(j).push(o0[j]));
                        assert forall|y: Seq<char>| o0.take(j).push(o0[j]).contains(y) <==> (o0.take(j).contains(y) || y == o0[j]) by {
                            let t = o0.take(j);
                            if t.push(o0[j]).contains(y) {
                                let a = choose|a: int| 0 <= a < t.push(o0[j]).len() && t.push(o0[j])[a] == y;
                                if a < t.len() {
                                    assert(t[a] == y);
                                }
                            }
                            if t.contains(y) {
                                let a = choose|a: int| 0 <= a < t.len() && t[a] == y;
                                assert(t.push(o0[j])[a] == y);
                            }
                            if y == o0[j] {
                                assert(t.push(o0[j])[t.len() as int] == y);
                            }
                        }
                    }
                }
                remove_string(&mut self.set, &oldest);
                proof {
                    assert(deque_views(self.order@) =~= deque_views(prev).subrange(1, prev.len() as int));
                    j = j + 1;
                    assert(deque_views(self.order@) =~= o0.skip(j));
                }
            }
        }
        assert(j == k);
        let ghost before = seq_views(self.set@);
        assert(!before.to_set().contains(url@));
        proof {
            lemma_push_no_dup(before, url@);
        }
        self.set.push(url.clone());
        assert(seq_views(self.set@) =~= before.push(url@));
        self.order.push_back(url);
        assert(deque_views(self.order@) =~= o0.skip(k as int).push(url@));
        assert(self@.set =~= s0.difference(o0.take(k as int).to_set()).insert(url@));
        assert(self@.order =~= o0.skip(k as int).push(url@));
    }

    /// Number of remembered URLs.
    pub fn len(&self) -> (r: usize)
        ensures
            r == self@.order.len(),
    {
        self.order.len()
    }

    /// The remembered URLs, oldest first, as saved to the file.
    pub fn urls(&self) -> (r: Vec<String>)
        ensures
            seq_views(r@) == self@.order,
    {
        let mut r: Vec<String> = Vec::new();
        let mut i: usize = 0;
        while i < self.order.len()
            invariant
                i <= self.order@.len(),
                seq_views(r@) =~= deque_views(self.order@).take(i as int),
            decreases self.order@.len() - i,
        {
            let ghost before = seq_views(r@);
            r.push(self.order[i].clone());
            assert(seq_views(r@) =~= before.push(self.order@[i as int]@));
            assert(deque_views(self.order@).take(i as int + 1) =~= deque_views(self.order@).take(i as int).push(self.order@[i as int]@));
            i = i + 1;
        }
        r
    }

    /// The file the store is saved to.
    pub fn path(&self) -> (r: String)
        ensures
            r@ == self@.path,
    {
        self.path.clone()
    }
}

/// A URL is known right after it has been inserted.
pub proof fn lemma_insert_remembers(v: SeenView, url: Seq<char>)
    ensures
        seen_after_insert(v, url).set.contains(url),
{
}

/// Inserting a URL twice is the same as inserting it once.
pub proof fn lemma_insert_idempotent(v: SeenView, url: Seq<char>)
    ensures
        seen_after_insert(seen_after_insert(v, url), url) == seen_after_insert(v, url),
{
}

/// The cap: a store of at most `MAX_ENTRIES` URLs stays within it, and an
/// insertion forgets only the oldest entries, keeping the newest ones in
/// their order (first in, first out).
pub proof fn lemma_insert_fifo(v: SeenView, url: Seq<char>)
    requires
        v.order.len() <= MAX_ENTRIES,
    ensures
        seen_after_insert(v, url).order.len() <= MAX_ENTRIES,
        v.set.contains(url) || v.order.len() < MAX_ENTRIES ==> seen_after_insert(v, url).order
            == if v.set.contains(url) { v.order } else { v.order.push(url) },
        !v.set.contains(url) && v.order.len() == MAX_ENTRIES ==> seen_after_insert(v, url).order
            == v.order.drop_first().push(url),
{
    if !v.set.contains(url) && v.order.len() == MAX_ENTRIES {
        assert(v.order.skip(1) =~= v.order.drop_first());
    }
    if !v.set.contains(url) && v.order.len() < MAX_ENTRIES {
        assert(v.order.skip(0) =~= v.order);
    }
}

/// Forgetting the `k` oldest of distinct URLs leaves exactly the others.
proof fn lemma_skip_to_set(o: Seq<Seq<char>>, k: int)
    requires
        o.no_duplicates(),
        0 <= k <= o.len(),
    ensures
        o.skip(k).no_duplicates(),
        o.skip(k).to_set() =~= o.to_set().difference(o.take(k).to_set()),
{
    let t = o.take(k);
    let r = o.skip(k);
    assert forall|a: int, b: int| 0 <= a < b < r.len() implies r[a] != r[b] by {
        assert(r[a] == o[a + k] && r[b] == o[b + k]);
    }
    assert forall|y: Seq<char>| r.contains(y) <==> (o.contains(y) && !t.contains(y)) by {
        if r.contains(y) {
            let a = choose|a: int| 0 <= a < r.len() && r[a] == y;
            assert(o[a + k] == y);
            if t.contains(y) {
                let b = choose|b: int| 0 <= b < t.len() && t[b] == y;
                assert(o[b] == y);
            }
        }
        if o.contains(y) && !t.contains(y) {
            let i = choose|i: int| 0 <= i < o.len() && o[i] == y;
            if i < k {
                assert(t[i] == y);
            } else {
                assert(r[i - k] == y);
            }
        }
    }
}

/// Insertions keep a store exact, and then it holds as many known URLs as
/// remembered ones; with the cap, never more than `MAX_ENTRIES`.
pub proof fn lemma_insert_keeps_exact(v: SeenView, url: Seq<char>)
    requires
        is_exact(v),
    ensures
        is_exact(seen_after_insert(v, url)),
        seen_after_insert(v, url).set.len() == seen_after_insert(v, url).order.len(),
        v.order.len() <= MAX_ENTRIES ==> seen_after_insert(v, url).set.len() <= MAX_ENTRIES,
{
    let w = seen_after_insert(v, url);
    if !v.set.contains(url) {
        let k = evicted_count(v.order.len());
        lemma_skip_to_set(v.order, k as int);
        let r = v.order.skip(k as int);
        assert(!r.contains(url));
        lemma_push_no_dup(r, url);
        assert(w.set =~= w.order.to_set());
    }
    w.order.unique_seq_to_set();
    if v.order.len() <= MAX_ENTRIES {
        lemma_insert_fifo(v, url);
    }
}

/// An exact store holds as many known URLs as remembered ones.
pub proof fn lemma_exact_len(v: SeenView)
    requires
        is_exact(v),
    ensures
        v.set.len() == v.order.len(),
{
    v.order.unique_seq_to_set();
}

/// Saving and loading again gives the store back: loading the URLs an exact
/// store saves (its remembered URLs, oldest first) from the directory it was
/// saved in yields the same store. A missing or unreadable file gives an
/// empty store.
pub proof fn lemma_save_load_round_trip(v: SeenView, cache_dir: Seq<char>)
    requires
        is_exact(v),
        v.path == path_join(cache_dir, "seen.json"@),
    ensures
        loaded_view(cache_dir, Some(v.order)) == v,
        loaded_view(cache_dir, None).order.len() == 0,
        loaded_view(cache_dir, None).set.len() == 0,
{
    assert(loaded_view(cache_dir, None).set =~= Set::<Seq<char>>::empty());
}

/// A store loaded from a file without repeated URLs is exact.
pub proof fn lemma_load_exact(cache_dir: Seq<char>, saved: Option<Seq<Seq<char>>>)
    requires
        saved matches Some(urls) ==> urls.no_duplicates(),
    ensures
        is_exact(loaded_view(cache_dir, saved)),
{
}

} // verus!
