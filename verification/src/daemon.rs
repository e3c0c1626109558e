//! The background rotation loop's rules: the countdown, pausing, which
//! queued wallpaper comes next, and the memory of what was already shown.
//! The application runs the loop itself: it waits for ticks and tray
//! actions, downloads and inspects images, and sets the wallpaper.

use std::collections::VecDeque;
use vstd::prelude::*;

use crate::rng;
use crate::text::{contains_string, seq_views};
use crate::tray::TrayAction;
use crate::wallpaper::{WallpaperInfo, WallpaperView};

verus! {

broadcast use vstd::seq_lib::group_seq_properties;

/// Cap on remembered keys; the memory is reset when it is full so sources
/// are never exhausted for good.
pub const SEEN_URLS_CAP: usize = 1000;

/// The key a wallpaper is remembered by: its URL, else its local path, else
/// its title.
pub open spec fn key_of(w: WallpaperView) -> Seq<char> {
    if w.url.len() > 0 {
        w.url
    } else if w.local_path is Some {
        w.local_path->0
    } else {
        w.title
    }
}

/// The key a wallpaper is remembered by (see [`key_of`]).
pub fn wallpaper_key(wp: &WallpaperInfo) -> (r: String)
    ensures
        r@ == key_of(wp@),
{
    if wp.url.as_str().unicode_len() > 0 {
        wp.url.clone()
    } else if let Some(p) = &wp.local_path {
        p.clone()
    } else {
        wp.title.clone()
    }
}

/// A wallpaper is remembered by its URL whenever it has one, so
/// downloading it (which sets its local path) does not change its key.
/// Without a URL, a local file is remembered by its path, else by its title.
pub proof fn lemma_key_prefers_url(w: WallpaperView, p: Option<Seq<char>>)
    ensures
        w.url.len() > 0 ==> key_of(w) == w.url,
        w.url.len() > 0 ==> key_of(WallpaperView { local_path: p, ..w }) == key_of(w),
        w.url.len() == 0 && w.local_path is Some ==> key_of(w) == w.local_path->0,
        w.url.len() == 0 && w.local_path is None ==> key_of(w) == w.title,
{
}

/// A wallpaper with a URL that was marked as shown after its download is
/// recognised when it is queued again without a local file.
pub proof fn lemma_downloaded_is_recognised(s: Set<Seq<char>>, w: WallpaperView, path: Seq<char>)
    requires
        w.url.len() > 0,
    ensures
        marked(s, key_of(WallpaperView { local_path: Some(path), ..w })).contains(
            key_of(WallpaperView { local_path: None, ..w }),
        ),
        marked(s, key_of(WallpaperView { local_path: Some(path), ..w })).contains(w.url),
{
}

/// The set of keys of the wallpapers already shown this session.
pub struct SeenKeys {
    keys: Vec<String>,
}

impl View for SeenKeys {
    type V = Set<Seq<char>>;

    closed spec fn view(&self) -> Set<Seq<char>> {
        seq_views(self.keys@).to_set()
    }
}

/// The memory after marking `key` as shown: emptied first when it holds
/// `SEEN_URLS_CAP` keys or more.
pub open spec fn marked(s: Set<Seq<char>>, key: Seq<char>) -> Set<Seq<char>> {
    (if s.len() >= SEEN_URLS_CAP { Set::empty() } else { s }).insert(key)
}

proof fn lemma_push_no_dup(s: Seq<Seq<char>>, x: Seq<char>)
    requires
        s.no_duplicates(),
        !s.contains(x),
    ensures
        s.push(x).no_duplicates(),
        s.push(x).to_set() =~= s.to_set().insert(x),
{
    let r = s.push(x);
    assert forall|a: int, b: int| 0 <= a < b < r.len() implies r[a] != r[b] by {
        if b == s.len() {
            assert(s.contains(r[a]));
        }
    }
    assert forall|y: Seq<char>| r.contains(y) <==> (s.contains(y) || y == x) by {
        if r.contains(y) {
            let j = choose|j: int| 0 <= j < r.len() && r[j] == y;
            if j < s.len() {
                assert(s[j] == y);
            }
        }
        if s.contains(y) {
            let j = choose|j: int| 0 <= j < s.len() && s[j] == y;
            assert(r[j] == y);
        }
        if y == x {
            assert(r[s.len() as int] == y);
        }
    }
}

impl SeenKeys {
    /// Validity: no key is stored twice.
    pub closed spec fn wf(&self) -> bool {
        seq_views(self.keys@).no_duplicates()
    }

    /// The remembered keys are finitely many.
    pub proof fn lemma_finite(&self)
        ensures
            self@.finite(),
    {
    }

    pub fn new() -> (r: SeenKeys)
        ensures
            r.wf(),
            r@ == Set::<Seq<char>>::empty(),
            r@.finite(),
    {
        let r = SeenKeys { keys: Vec::new() };
        assert(r@ =~= Set::<Seq<char>>::empty());
        r
    }

    /// Whether `key` was shown.
    pub fn contains(&self, key: &str) -> (r: bool)
        ensures
            r == self@.contains(key@),
    {
        contains_string(&self.keys, key)
    }

    /// How many keys are remembered.
    pub fn len(&self) -> (r: usize)
        requires
            self.wf(),
        ensures
            r == self@.len(),
    {
        proof {
            seq_views(self.keys@).unique_seq_to_set();
        }
        self.keys.len()
    }

    /// Marks `key` as shown (see [`marked`]).
    pub fn mark(&mut self, key: String)
        requires
            old(self).wf(),
        ensures
            final(self).wf(),
            final(self)@ == marked(old(self)@, key@),
            final(self)@.finite(),
    {
        proof {
            seq_views(self.keys@).unique_seq_to_set();
        }
        if self.keys.len() >= SEEN_URLS_CAP {
            self.keys.clear();
            assert(self@ =~= Set::<Seq<char>>::empty());
        }
        if !contains_string(&self.keys, key.as_str()) {
            let ghost before = seq_views(self.keys@);
            proof {
                lemma_push_no_dup(before, key@);
            }
            self.keys.push(key);
            assert(seq_views(self.keys@) =~= before.push(key@));
        } else {
            assert(self@ =~= self@.insert(key@));
        }
    }
}

/// Marks a wallpaper as shown.
pub fn mark_seen(seen: &mut SeenKeys, wp: &WallpaperInfo)
    requires
        old(seen).wf(),
    ensures
        final(seen).wf(),
        final(seen)@ == marked(old(seen)@, key_of(wp@)),
        final(seen)@.finite(),
{
    seen.mark(wallpaper_key(wp));
}

/// A wallpaper is remembered right after it is marked, and the memory never
/// grows past `SEEN_URLS_CAP` keys.
pub proof fn lemma_marked(s: Set<Seq<char>>, key: Seq<char>)
    requires
        s.finite(),
        s.len() <= SEEN_URLS_CAP,
    ensures
        marked(s, key).contains(key),
        marked(s, key).finite(),
        marked(s, key).len() <= SEEN_URLS_CAP,
        s.len() < SEEN_URLS_CAP ==> marked(s, key) == s.insert(key),
{
    if s.len() >= SEEN_URLS_CAP {
        assert(Set::<Seq<char>>::empty().insert(key).len() == 1);
    }
}

// ---------------------------------------------------------------------------
// The next wallpaper out of the queue
// ---------------------------------------------------------------------------

pub open spec fn keys_of(q: Seq<WallpaperInfo>) -> Seq<Seq<char>> {
    q.map_values(|w: WallpaperInfo| key_of(w@))
}

/// Position of the first key not in `seen` (or `keys.len()` when all are).
pub open spec fn first_unseen(keys: Seq<Seq<char>>, seen: Set<Seq<char>>) -> int
    decreases keys.len(),
{
    if keys.len() == 0 {
        0
    } else if !seen.contains(keys[0]) {
        0
    } else {
        1 + first_unseen(keys.drop_first(), seen)
    }
}

proof fn lemma_first_unseen(keys: Seq<Seq<char>>, seen: Set<Seq<char>>, i: int)
    requires
        0 <= i <= keys.len(),
        forall|j: int| 0 <= j < i ==> seen.contains(#[trigger] keys[j]),
        i == keys.len() || !seen.contains(keys[i]),
    ensures
        first_unseen(keys, seen) == i,
    decreases i,
{
    if i > 0 {
        lemma_first_unseen(keys.drop_first(), seen, i - 1);
    }
}

/// The wallpaper the search stops at was not shown yet, and every one it
/// drops before it was.
pub proof fn lemma_first_unseen_is_unseen(keys: Seq<Seq<char>>, seen: Set<Seq<char>>)
    ensures
        0 <= first_unseen(keys, seen) <= keys.len(),
        first_unseen(keys, seen) < keys.len() ==> !seen.contains(keys[first_unseen(keys, seen)]),
        forall|j: int| 0 <= j < first_unseen(keys, seen) ==> seen.contains(#[trigger] keys[j]),
    decreases keys.len(),
{
    if keys.len() > 0 && seen.contains(keys[0]) {
        let rest = keys.drop_first();
        lemma_first_unseen_is_unseen(rest, seen);
        assert forall|j: int| 0 <= j < first_unseen(keys, seen) implies seen.contains(#[trigger] keys[j]) by {
            if j > 0 {
                assert(keys[j] == rest[j - 1]);
            }
        }
    }
}

/// Takes wallpapers off the front of the queue until one that was not shown
/// yet: that one is returned, the ones before it are dropped. When every
/// queued wallpaper was shown, the queue ends up empty and `None` is
/// returned.
pub fn pop_unseen(queue: &mut VecDeque<WallpaperInfo>, seen: &SeenKeys) -> (r: Option<WallpaperInfo>)
    ensures
        ({
            let i = first_unseen(keys_of(old(queue)@), seen@);
            if i < old(queue)@.len() {
                r matches Some(w) && w == old(queue)@[i] && final(queue)@ == old(queue)@.skip(i + 1)
            } else {
                r is None && final(queue)@.len() == 0
            }
        }),
{
    let ghost q0 = queue@;
    let ghost keys = keys_of(q0);
    let ghost mut j: int = 0;
    loop
        invariant
            q0 == old(queue)@,
            keys == keys_of(q0),
            0 <= j <= q0.len(),
            queue@ == q0.skip(j),
            forall|t: int| 0 <= t < j ==> seen@.contains(#[trigger] keys[t]),
        decreases queue@.len(),
    {
        match queue.pop_front() {
            Some(wp) => {
                assert(wp == q0[j]);
                let key = wallpaper_key(&wp);
                assert(keys[j] == key@);
                if !seen.contains(key.as_str()) {
                    proof {
                        lemma_first_unseen(keys, seen@, j);
                        assert(queue@ =~= q0.skip(j + 1));
                    }
                    return Some(wp);
                }
                proof {
                    j = j + 1;
                    assert(queue@ =~= q0.skip(j));
                }
            },
            None => {
                proof {
                    assert(j == q0.len());
                    assert(keys.len() == q0.len());
                    lemma_first_unseen(keys, seen@, j);
                }
                return None;
            },
        }
    }
}

/// How many times the queue is refilled in search of an unseen wallpaper.
pub const MAX_REFETCHES: u32 = 3;

/// The next move in the search for a wallpaper to show.
pub enum NextStep {
    /// Show this one.
    Show(WallpaperInfo),
    /// Refill the queue from the sources, then ask again.
    Fetch,
    /// Nothing left to show.
    Exhausted,
}

/// One move of the search for the next wallpaper, after `fetches_done`
/// refills: within the refill budget, the first unseen queued wallpaper is
/// shown (the seen ones before it are dropped), or else the queue is
/// refilled; once the budget is spent, whatever comes first is shown, seen
/// or not. (A refill that leaves the queue empty ends the search.)
pub fn take_next(queue: &mut VecDeque<WallpaperInfo>, seen: &SeenKeys, fetches_done: u32) -> (r: NextStep)
    ensures
        fetches_done < MAX_REFETCHES ==> ({
            let i = first_unseen(keys_of(old(queue)@), seen@);
            if i < old(queue)@.len() {
                r matches NextStep::Show(w) && w == old(queue)@[i] && final(queue)@ == old(queue)@.skip(i + 1)
            } else {
                r is Fetch && final(queue)@.len() == 0
            }
        }),
        fetches_done >= MAX_REFETCHES ==> if old(queue)@.len() > 0 {
            r matches NextStep::Show(w) && w == old(queue)@[0] && final(queue)@ == old(queue)@.drop_first()
        } else {
            r is Exhausted && final(queue)@ == old(queue)@
        },
{
    if fetches_done < MAX_REFETCHES {
        match pop_unseen(queue, seen) {
            Some(w) => NextStep::Show(w),
            None => NextStep::Fetch,
        }
    } else {
        let ghost before = queue@;
        match queue.pop_front() {
            Some(w) => {
                assert(queue@ =~= before.drop_first());
                NextStep::Show(w)
            },
            None => NextStep::Exhausted,
        }
    }
}

/// Shuffles the whole queue (after a fetch has appended new wallpapers).
pub fn shuffle_queue(queue: &mut VecDeque<WallpaperInfo>)
    ensures
        final(queue)@.len() == old(queue)@.len(),
        final(queue)@.to_multiset() == old(queue)@.to_multiset(),
{
    let ghost q0 = queue@;
    let mut v: Vec<WallpaperInfo> = Vec::new();
    while queue.len() > 0
        invariant
            v@ + queue@ == q0,
        decreases queue@.len(),
    {
        let ghost before = queue@;
        if let Some(w) = queue.pop_front() {
            assert(v@.push(w) + queue@ =~= v@ + before);
            v.push(w);
        }
    }
    assert(v@ =~= q0);
    rng::shuffle(&mut v);
    let ghost shuffled = v@;
    let mut rest = v;
    // move the shuffled items back, in order
    let mut back: Vec<WallpaperInfo> = Vec::new();
    while rest.len() > 0
        invariant
            back@ + rest@.reverse() == shuffled.reverse(),
        decreases rest@.len(),
    {
        let ghost before = rest@;
        if let Some(w) = rest.pop() {
            assert(before =~= rest@.push(w));
            assert(before.reverse() =~= seq![w] + rest@.reverse());
            assert(back@.push(w) + rest@.reverse() =~= back@ + before.reverse());
            back.push(w);
        }
    }
    assert(back@ =~= shuffled.reverse());
    while back.len() > 0
        invariant
            queue@ + back@.reverse() == shuffled,
        decreases back@.len(),
    {
        let ghost before = back@;
        if let Some(w) = back.pop() {
            assert(before =~= back@.push(w));
            assert(before.reverse() =~= seq![w] + back@.reverse());
            assert(queue@.push(w) + back@.reverse() =~= queue@ + before.reverse());
            queue.push_back(w);
        }
    }
    assert(queue@ =~= shuffled);
}

// ---------------------------------------------------------------------------
// The rotation loop
// ---------------------------------------------------------------------------

/// What the background loop knows between events: the seconds left before
/// the next rotation, whether rotation is paused (shared with the tray), the
/// configured interval, how many wallpapers were shown, and which.
pub struct DaemonState {
    pub seconds_left: u64,
    pub paused: bool,
    pub interval: u64,
    pub total_shown: u64,
    pub seen: SeenKeys,
}

/// The timer part of a [`DaemonState`].
pub struct Countdown {
    pub seconds_left: u64,
    pub paused: bool,
    pub interval: u64,
}

/// The verdict of the application on a downloaded wallpaper at a timed
/// rotation.
#[derive(Debug, Clone, Copy, PartialEq, Eq, Structural)]
pub enum Inspection {
    /// A blank or placeholder image.
    Broken,
    /// Its brightness does not match the theme filter.
    OffTheme,
    /// Fit to be shown.
    Fine,
}

/// What the loop does after a tray action.
#[derive(Debug, Clone, Copy, PartialEq, Eq, Structural)]
pub enum TrayResponse {
    /// Launch the settings window.
    LaunchGui,
    /// Show the next wallpaper now.
    RotateNow,
    /// Nothing beyond the state change.
    Nothing,
    /// Leave the program.
    Exit,
}

/// One timer tick: nothing while paused; otherwise count down, and when
/// the count is already zero, start over from the interval and rotate.
pub open spec fn tick(c: Countdown) -> (Countdown, bool) {
    if c.paused {
        (c, false)
    } else if c.seconds_left > 0 {
        (Countdown { seconds_left: (c.seconds_left - 1) as u64, ..c }, false)
    } else {
        (Countdown { seconds_left: c.interval, ..c }, true)
    }
}

/// `n` ticks in a row: the countdown after them, and how many rotations
/// they started.
pub open spec fn ticks(c: Countdown, n: nat) -> (Countdown, nat)
    decreases n,
{
    if n == 0 {
        (c, 0)
    } else {
        let (c1, rot) = tick(c);
        let (c2, k) = ticks(c1, (n - 1) as nat);
        (c2, k + if rot { 1nat } else { 0nat })
    }
}

/// A tray action's effect on the countdown: pausing stops it, resuming
/// restarts it from the full interval, "next" restarts it too.
pub open spec fn on_tray_action(c: Countdown, a: TrayAction) -> (Countdown, TrayResponse) {
    match a {
        TrayAction::ShowWindow => (c, TrayResponse::LaunchGui),
        TrayAction::NextWallpaper => (Countdown { seconds_left: c.interval, ..c }, TrayResponse::RotateNow),
        TrayAction::TogglePause => (
            Countdown {
                paused: !c.paused,
                seconds_left: if c.paused { c.interval } else { c.seconds_left },
                ..c
            },
            TrayResponse::Nothing,
        ),
        TrayAction::Quit => (c, TrayResponse::Exit),
    }
}

/// Taking in reloaded settings: a changed interval restarts the countdown
/// from the new interval; the pause flag follows the settings.
pub open spec fn on_reload(c: Countdown, interval: u64, paused: bool) -> Countdown {
    Countdown {
        seconds_left: if interval != c.interval { interval } else { c.seconds_left },
        interval,
        paused,
    }
}

/// After an inspection with `verdict` of the wallpaper with key `key`: the
/// memory, the shown counter, and whether it is shown. A broken image is
/// remembered but not shown; an off-theme one is neither; a fine one is
/// remembered, counted and shown.
pub open spec fn inspected(seen: Set<Seq<char>>, total: int, key: Seq<char>, verdict: Inspection) -> (
    Set<Seq<char>>,
    int,
    bool,
) {
    match verdict {
        Inspection::Broken => (marked(seen, key), total, false),
        Inspection::OffTheme => (seen, total, false),
        Inspection::Fine => (marked(seen, key), total + 1, true),
    }
}

/// What an inspection does: only a fine image is shown and counted (by
/// one); broken and fine images are remembered, so they are not offered
/// again; an off-theme one leaves the memory and the counter as they were.
pub proof fn lemma_inspection(seen: Set<Seq<char>>, total: int, key: Seq<char>, verdict: Inspection)
    ensures
        ({
            let (s1, t1, show) = inspected(seen, total, key, verdict);
            &&& show <==> verdict == Inspection::Fine
            &&& t1 == total + if show { 1int } else { 0int }
            &&& verdict != Inspection::OffTheme ==> s1.contains(key)
            &&& verdict == Inspection::OffTheme ==> s1 == seen
            &&& seen.len() < SEEN_URLS_CAP && verdict != Inspection::OffTheme ==> s1 == seen.insert(key)
        }),
{
}

/// Tray actions on the countdown: "next" restarts it from the interval and
/// rotates now; "pause" stops it and "resume" restarts it from the interval;
/// showing the window and quitting leave it as it is.
pub proof fn lemma_tray_actions(c: Countdown)
    ensures
        on_tray_action(c, TrayAction::NextWallpaper) == ((Countdown { seconds_left: c.interval, ..c }), TrayResponse::RotateNow),
        on_tray_action(c, TrayAction::ShowWindow) == (c, TrayResponse::LaunchGui),
        on_tray_action(c, TrayAction::Quit) == (c, TrayResponse::Exit),
        on_tray_action(c, TrayAction::TogglePause).0.paused == !c.paused,
        on_tray_action(c, TrayAction::TogglePause).0.interval == c.interval,
        c.paused ==> on_tray_action(c, TrayAction::TogglePause).0.seconds_left == c.interval,
        !c.paused ==> on_tray_action(c, TrayAction::TogglePause).0.seconds_left == c.seconds_left,
        on_tray_action(c, TrayAction::TogglePause).1 == TrayResponse::Nothing,
{
}

/// Reloaded settings: the interval and the pause flag follow them; the
/// countdown restarts from a changed interval and otherwise goes on.
pub proof fn lemma_reload(c: Countdown, interval: u64, paused: bool)
    ensures
        on_reload(c, interval, paused).interval == interval,
        on_reload(c, interval, paused).paused == paused,
        interval != c.interval ==> on_reload(c, interval, paused).seconds_left == interval,
        interval == c.interval ==> on_reload(c, interval, paused).seconds_left == c.seconds_left,
{
}

impl DaemonState {
    pub open spec fn countdown(&self) -> Countdown {
        Countdown { seconds_left: self.seconds_left, paused: self.paused, interval: self.interval }
    }

    pub open spec fn wf(&self) -> bool {
        self.seen.wf()
    }

    /// The state at start-up, from the settings.
    pub fn new(interval: u64, paused: bool) -> (r: DaemonState)
        ensures
            r.wf(),
            r.countdown() == (Countdown { seconds_left: interval, paused, interval }),
            r.total_shown == 0,
            r.seen@ == Set::<Seq<char>>::empty(),
    {
        DaemonState { seconds_left: interval, paused, interval, total_shown: 0, seen: SeenKeys::new() }
    }

    /// One timer tick (see [`tick`]); `true` when a rotation is due now.
    pub fn on_tick(&mut self) -> (rotate: bool)
        ensures
            (final(self).countdown(), rotate) == tick(old(self).countdown()),
            final(self).total_shown == old(self).total_shown,
            final(self).seen == old(self).seen,
    {
        if self.paused {
            return false;
        }
        if self.seconds_left > 0 {
            self.seconds_left = self.seconds_left - 1;
            return false;
        }
        self.seconds_left = self.interval;
        true
    }

    /// After a rotation (timed, or asked for from the tray) downloaded `wp`
    /// and the application inspected it: a broken image is remembered (so it
    /// is not offered again) but not shown; an off-theme one is skipped and
    /// not remembered; a fine one is remembered, counted and shown. `true` when it is to be shown; after a
    /// skip the loop goes straight back to waiting.
    pub fn on_inspected(&mut self, wp: &WallpaperInfo, verdict: Inspection) -> (show: bool)
        requires
            old(self).wf(),
            verdict == Inspection::Fine ==> old(self).total_shown < u64::MAX,
        ensures
            final(self).wf(),
            final(self).countdown() == old(self).countdown(),
            (final(self).seen@, final(self).total_shown as int, show) == inspected(
                old(self).seen@,
                old(self).total_shown as int,
                key_of(wp@),
                verdict,
            ),
    {
        match verdict {
            Inspection::Broken => {
                mark_seen(&mut self.seen, wp);
                false
            },
            Inspection::OffTheme => false,
            Inspection::Fine => {
                mark_seen(&mut self.seen, wp);
                self.total_shown = self.total_shown + 1;
                true
            },
        }
    }

    /// A tray action (see [`on_tray_action`]).
    pub fn on_tray(&mut self, action: TrayAction) -> (r: TrayResponse)
        ensures
            (final(self).countdown(), r) == on_tray_action(old(self).countdown(), action),
            final(self).total_shown == old(self).total_shown,
            final(self).seen == old(self).seen,
    {
        match action {
            TrayAction::ShowWindow => TrayResponse::LaunchGui,
            TrayAction::NextWallpaper => {
                self.seconds_left = self.interval;
                TrayResponse::RotateNow
            },
            TrayAction::TogglePause => {
                let was_paused = self.paused;
                self.paused = !was_paused;
                if was_paused {
                    self.seconds_left = self.interval;
                }
                TrayResponse::Nothing
            },
            TrayAction::Quit => TrayResponse::Exit,
        }
    }

    /// Takes in reloaded settings (see [`on_reload`]).
    pub fn reload(&mut self, interval: u64, paused: bool)
        ensures
            final(self).countdown() == on_reload(old(self).countdown(), interval, paused),
            final(self).total_shown == old(self).total_shown,
            final(self).seen == old(self).seen,
    {
        if interval != self.interval {
            self.seconds_left = interval;
        }
        self.interval = interval;
        self.paused = paused;
    }
}

/// While paused, ticks change nothing and start no rotation.
pub proof fn lemma_paused_ticks(c: Countdown, n: nat)
    requires
        c.paused,
    ensures
        ticks(c, n) == (c, 0nat),
    decreases n,
{
    if n > 0 {
        lemma_paused_ticks(c, (n - 1) as nat);
    }
}

/// The countdown: running with `s` seconds left, the next `s` ticks only
/// count down, and the tick after them starts a rotation and restarts the
/// countdown from the interval.
pub proof fn lemma_countdown(c: Countdown)
    requires
        !c.paused,
    ensures
        ticks(c, c.seconds_left as nat) == (Countdown { seconds_left: 0, ..c }, 0nat),
        ticks(c, c.seconds_left as nat + 1) == (Countdown { seconds_left: c.interval, ..c }, 1nat),
    decreases c.seconds_left,
{
    if c.seconds_left > 0 {
        let c1 = Countdown { seconds_left: (c.seconds_left - 1) as u64, ..c };
        lemma_countdown(c1);
    } else {
        reveal_with_fuel(ticks, 2);
    }
}

/// Pausing and resuming from the tray leaves rotation running again with a
/// full interval to go.
pub proof fn lemma_pause_resume(c: Countdown)
    requires
        !c.paused,
    ensures
        on_tray_action(on_tray_action(c, TrayAction::TogglePause).0, TrayAction::TogglePause).0
            == (Countdown { seconds_left: c.interval, ..c }),
{
}

} // verus!
