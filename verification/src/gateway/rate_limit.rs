//! Per-client rate limiting over fixed windows, in two tiers: a stricter one
//! for chat completions and a looser one for the rest of the API.
use vstd::prelude::*;
use crate::text::{chars_of, trim_string, find_exec, find, trim, push_str, push_decimal, decimal};

verus! {

broadcast use vstd::seq_lib::group_seq_properties;

pub const NANOS_PER_SEC: u64 = 1_000_000_000;

/// Whole seconds from `started` to `now` (none when `now` is earlier), both in
/// nanoseconds of one monotonic clock.
pub open spec fn elapsed_secs(now: u64, started: u64) -> int {
    if now >= started { (now - started) as int / 1_000_000_000 } else { 0 }
}

/// One client's window: (key, requests counted, window start).
pub type EntryView = (Seq<char>, u32, u64);

pub open spec fn live_pred(now: u64, stale: int) -> spec_fn(EntryView) -> bool {
    |e: EntryView| elapsed_secs(now, e.2) < stale
}

/// The position of `key` among the entries, if it is there.
pub open spec fn key_index(v: Seq<EntryView>, key: Seq<char>) -> Option<int>
    decreases v.len(),
{
    if v.len() == 0 {
        None
    } else if v.last().0 == key {
        Some(v.len() - 1)
    } else {
        key_index(v.drop_last(), key)
    }
}

pub open spec fn keys_distinct(v: Seq<EntryView>) -> bool {
    forall|i: int, j: int| 0 <= i < j < v.len() ==> v[i].0 != v[j].0
}

/// The window in force for `key` at `now`, out of the live entries: a fresh
/// one when the key has none or its window has run out.
pub open spec fn window_for(live: Seq<EntryView>, key: Seq<char>, now: u64, window: int) -> (u32, u64) {
    match key_index(live, key) {
        Some(i) => if elapsed_secs(now, live[i].2) >= window { (0u32, now) } else { (live[i].1, live[i].2) },
        None => (0u32, now),
    }
}

/// The live entries with `key`'s window set to `w`.
pub open spec fn with_window(live: Seq<EntryView>, key: Seq<char>, w: (u32, u64)) -> Seq<EntryView> {
    match key_index(live, key) {
        Some(i) => live.update(i, (key, w.0, w.1)),
        None => live.push((key, w.0, w.1)),
    }
}

/// The outcome of one check: the remaining requests, or the seconds to wait.
pub open spec fn check_outcome(entries: Seq<EntryView>, max: u32, window: u64, key: Seq<char>, now: u64)
    -> (Result<u32, u64>, Seq<EntryView>)
{
    let live = entries.filter(live_pred(now, 2 * window));
    let w = window_for(live, key, now, window as int);
    if w.0 >= max {
        let wait = window as int - elapsed_secs(now, w.1);
        (Err(if wait < 1 { 1u64 } else { wait as u64 }), with_window(live, key, w))
    } else {
        (Ok((max - (w.0 + 1)) as u32), with_window(live, key, ((w.0 + 1) as u32, w.1)))
    }
}

struct RateEntry {
    key: String,
    count: u32,
    started: u64,
}

/// Per-client request counting: each key gets `max_requests` per window of
/// `window_secs` seconds.
pub struct RateLimiter {
    max_requests: u32,
    window_secs: u64,
    entries: Vec<RateEntry>,
}

spec fn entry_views(v: Seq<RateEntry>) -> Seq<EntryView> {
    v.map_values(|e: RateEntry| (e.key@, e.count, e.started))
}

pub struct LimiterView {
    pub max_requests: u32,
    pub window_secs: u64,
    pub entries: Seq<EntryView>,
}

impl View for RateLimiter {
    type V = LimiterView;

    closed spec fn view(&self) -> LimiterView {
        LimiterView { max_requests: self.max_requests, window_secs: self.window_secs, entries: entry_views(self.entries@) }
    }
}

proof fn lemma_key_index(v: Seq<EntryView>, key: Seq<char>)
    requires
        keys_distinct(v),
    ensures
        key_index(v, key) matches Some(i) ==> 0 <= i < v.len() && v[i].0 == key,
        key_index(v, key) is None ==> forall|j: int| 0 <= j < v.len() ==> v[j].0 != key,
        forall|j: int| 0 <= j < v.len() && v[j].0 == key ==> key_index(v, key) == Some(j),
    decreases v.len(),
{
    if v.len() > 0 {
        let d = v.drop_last();
        assert(keys_distinct(d)) by {
            assert forall|i: int, j: int| 0 <= i < j < d.len() implies d[i].0 != d[j].0 by {
                assert(d[i] == v[i] && d[j] == v[j]);
            }
        }
        lemma_key_index(d, key);
        assert forall|j: int| 0 <= j < v.len() && v[j].0 == key implies key_index(v, key) == Some(j) by {
            if j < v.len() - 1 {
                assert(d[j] == v[j]);
                assert(v[j].0 != v[v.len() - 1].0);
            }
        }
        if key_index(v, key) is None {
            assert forall|j: int| 0 <= j < v.len() implies v[j].0 != key by {
                if j < v.len() - 1 {
                    assert(d[j] == v[j]);
                }
            }
        }
    }
}

proof fn lemma_filter_keys_distinct(v: Seq<EntryView>, p: spec_fn(EntryView) -> bool)
    requires
        keys_distinct(v),
    ensures
        keys_distinct(v.filter(p)),
        forall|j: int| 0 <= j < v.filter(p).len() ==> v.contains(#[trigger] v.filter(p)[j]),
    decreases v.len(),
{
    reveal(Seq::filter);
    if v.len() > 0 {
        assert(keys_distinct(v.drop_last()));
        lemma_filter_keys_distinct(v.drop_last(), p);
        let f = v.drop_last().filter(p);
        assert forall|j: int| 0 <= j < f.len() implies v.contains(#[trigger] f[j]) by {
            let k = choose|k: int| 0 <= k < v.drop_last().len() && v.drop_last()[k] == f[j];
            assert(v[k] == f[j]);
        }
        if p(v.last()) {
            assert forall|a: int, b: int| 0 <= a < b < f.push(v.last()).len() implies f.push(v.last())[a].0 != f.push(v.last())[b].0 by {
                if b == f.len() {
                    let k = choose|k: int| 0 <= k < v.drop_last().len() && v.drop_last()[k] == f[a];
                    assert(v[k] == f[a]);
                }
            }
            assert forall|j: int| 0 <= j < f.push(v.last()).len() implies v.contains(#[trigger] f.push(v.last())[j]) by {
                if j == f.len() {
                    assert(v[v.len() - 1] == v.last());
                }
            }
        }
    }
}

impl RateLimiter {
    /// Keys are distinct and no count passes the limit.
    pub closed spec fn wf(&self) -> bool {
        &&& keys_distinct(entry_views(self.entries@))
        &&& forall|i: int| 0 <= i < self.entries@.len() ==> (#[trigger] self.entries@[i]).count <= self.max_requests
        &&& self.window_secs <= u64::MAX / 2
    }

    pub fn new(max_requests: u32, window_secs: u64) -> (r: Self)
        requires
            window_secs <= u64::MAX / 2,
        ensures
            r.wf(),
            r@.max_requests == max_requests,
            r@.window_secs == window_secs,
            r@.entries == Seq::<EntryView>::empty(),
    {
        let r = RateLimiter { max_requests, window_secs, entries: Vec::new() };
        assert(entry_views(r.entries@) =~= Seq::<EntryView>::empty());
        r
    }

    /// Counts a request from `key` at `now` (nanoseconds of a monotonic
    /// clock). Windows idle for two window lengths are dropped first. Gives
    /// the requests left in the window, or the seconds until it ends (at least
    /// one) when the limit is reached.
    pub fn check(&mut self, key: &str, now: u64) -> (r: Result<u32, u64>)
        requires
            old(self).wf(),
        ensures
            final(self).wf(),
            final(self)@.max_requests == old(self)@.max_requests,
            final(self)@.window_secs == old(self)@.window_secs,
            (r, final(self)@.entries) == check_outcome(old(self)@.entries, old(self)@.max_requests, old(self)@.window_secs, key@, now),
    {
        let ghost old_v = entry_views(self.entries@);
        let stale = self.window_secs * 2;
        let ghost pred = live_pred(now, stale as int);
        // Drop windows idle for twice the window length.
        let mut kept: Vec<RateEntry> = Vec::new();
        let mut old_entries: Vec<RateEntry> = Vec::new();
        std::mem::swap(&mut old_entries, &mut self.entries);
        let mut i: usize = 0;
        while i < old_entries.len()
            invariant
                i <= old_entries.len(),
                entry_views(old_entries@) == old_v,
                pred == live_pred(now, stale as int),
                entry_views(kept@) == old_v.take(i as int).filter(pred),
                forall|k: int| 0 <= k < kept@.len() ==> (#[trigger] kept@[k]).count <= self.max_requests,
                forall|k: int| 0 <= k < old_entries@.len() ==> (#[trigger] old_entries@[k]).count <= self.max_requests,
            decreases old_entries.len() - i,
        {
            let e = &old_entries[i];
            let elapsed = if now >= e.started { (now - e.started) / NANOS_PER_SEC } else { 0 };
            assert(old_v.take(i + 1) =~= old_v.take(i as int).push(old_v[i as int]));
            proof {
                old_v.take(i as int).lemma_filter_push(old_v[i as int], pred);
            }
            assert(old_v[i as int] == (e.key@, e.count, e.started));
            assert(elapsed as int == elapsed_secs(now, e.started));
            assert(pred == live_pred(now, stale as int));
            assert(live_pred(now, stale as int)(old_v[i as int]) == (elapsed_secs(now, old_v[i as int].2) < stale));
            assert(pred(old_v[i as int]) == (elapsed < stale));
            if elapsed < stale {
                kept.push(RateEntry { key: e.key.clone(), count: e.count, started: e.started });
                assert(entry_views(kept@) =~= old_v.take(i as int).filter(pred).push(old_v[i as int]));
            } else {
                assert(old_v.take(i + 1).filter(pred) == old_v.take(i as int).filter(pred));
            }
            i = i + 1;
        }
        assert(old_v.take(i as int) =~= old_v);
        let ghost live = entry_views(kept@);
        proof {
            lemma_filter_keys_distinct(old_v, pred);
            lemma_key_index(live, key@);
        }
        // Find or open the key's window.
        let key_s = String::from_str(key);
        let mut idx: Option<usize> = None;
        let mut j: usize = 0;
        while j < kept.len()
            invariant
                j <= kept.len(),
                key_s@ == key@,
                live == entry_views(kept@),
                idx matches Some(x) ==> x < j && kept@[x as int].key@ == key@,
                idx is None ==> forall|k: int| 0 <= k < j ==> kept@[k].key@ != key@,
            decreases kept.len() - j,
        {
            if kept[j].key == key_s {
                idx = Some(j);
            }
            j = j + 1;
        }
        let (mut count, mut started) = match idx {
            Some(x) => (kept[x].count, kept[x].started),
            None => (0u32, now),
        };
        let elapsed = if now >= started { (now - started) / NANOS_PER_SEC } else { 0 };
        if elapsed >= self.window_secs {
            count = 0;
            started = now;
        }
        proof {
            match idx {
                Some(x) => { assert(live[x as int].0 == key@); },
                None => {},
            }
        }
        assert((count, started) == window_for(live, key@, now, self.window_secs as int));
        let result = if count >= self.max_requests {
            let elapsed_now = if now >= started { (now - started) / NANOS_PER_SEC } else { 0 };
            let wait = if elapsed_now >= self.window_secs { 0 } else { self.window_secs - elapsed_now };
            Err(if wait < 1 { 1 } else { wait })
        } else {
            count = count + 1;
            Ok(self.max_requests - count)
        };
        let new_entry = RateEntry { key: key_s, count, started };
        match idx {
            Some(x) => {
                kept.set(x, new_entry);
            },
            None => {
                kept.push(new_entry);
            },
        }
        self.entries = kept;
        proof {
            let nv = entry_views(self.entries@);
            assert(nv =~= with_window(live, key@, (count, started)));
            assert forall|a: int, b: int| 0 <= a < b < nv.len() implies nv[a].0 != nv[b].0 by {
                match idx {
                    Some(x) => {},
                    None => {},
                }
            }
        }
        result
    }
}

/// A window that has not run out is live: a check never drops it.
proof fn lemma_young_entry_is_live(entries: Seq<EntryView>, window: u64, now: u64, j: int)
    requires
        keys_distinct(entries),
        0 <= j < entries.len(),
        elapsed_secs(now, entries[j].2) < window,
    ensures
        ({
            let live = entries.filter(live_pred(now, 2 * window));
            &&& keys_distinct(live)
            &&& live.contains(entries[j])
        }),
{
    let pred = live_pred(now, 2 * window);
    assert(pred(entries[j]));
    entries.lemma_filter_contains(pred, j);
    lemma_filter_keys_distinct(entries, pred);
}

/// Within one window a key is granted at most `max` requests: once its count
/// has reached the limit and its window has not run out, a check refuses,
/// asking to wait for the rest of the window, and keeps the window as it was.
pub proof fn law_full_window_refuses(entries: Seq<EntryView>, max: u32, window: u64, key: Seq<char>, now: u64, i: int)
    requires
        keys_distinct(entries),
        0 <= i < entries.len(),
        entries[i].0 == key,
        entries[i].1 >= max,
        elapsed_secs(now, entries[i].2) < window,
    ensures
        check_outcome(entries, max, window, key, now).0 == Err::<u32, u64>((window - elapsed_secs(now, entries[i].2)) as u64),
        check_outcome(entries, max, window, key, now).1.contains(entries[i]),
{
    lemma_young_entry_is_live(entries, window, now, i);
    let live = entries.filter(live_pred(now, 2 * window));
    lemma_key_index(live, key);
    let k = choose|k: int| 0 <= k < live.len() && live[k] == entries[i];
    assert(key_index(live, key) == Some(k));
    let next = check_outcome(entries, max, window, key, now).1;
    assert(next == live.update(k, (key, live[k].1, live[k].2)));
    assert(next[k] == entries[i]);
}

/// Within one window a key below the limit is granted one more request: the
/// count goes up by one in the same window, and the answer is what is left.
pub proof fn law_open_window_counts(entries: Seq<EntryView>, max: u32, window: u64, key: Seq<char>, now: u64, i: int)
    requires
        keys_distinct(entries),
        0 <= i < entries.len(),
        entries[i].0 == key,
        entries[i].1 < max,
        elapsed_secs(now, entries[i].2) < window,
    ensures
        check_outcome(entries, max, window, key, now).0 == Ok::<u32, u64>((max - entries[i].1 - 1) as u32),
        check_outcome(entries, max, window, key, now).1.contains((key, (entries[i].1 + 1) as u32, entries[i].2)),
{
    lemma_young_entry_is_live(entries, window, now, i);
    let live = entries.filter(live_pred(now, 2 * window));
    lemma_key_index(live, key);
    let k = choose|k: int| 0 <= k < live.len() && live[k] == entries[i];
    assert(key_index(live, key) == Some(k));
    let next = check_outcome(entries, max, window, key, now).1;
    assert(next[k] == (key, (entries[i].1 + 1) as u32, entries[i].2));
}

/// Other clients' windows that have not run out are kept as they are by a
/// check for `key`.
pub proof fn law_other_young_windows_are_kept(entries: Seq<EntryView>, max: u32, window: u64, key: Seq<char>, now: u64, j: int)
    requires
        keys_distinct(entries),
        0 <= j < entries.len(),
        entries[j].0 != key,
        elapsed_secs(now, entries[j].2) < window,
    ensures
        check_outcome(entries, max, window, key, now).1.contains(entries[j]),
{
    lemma_young_entry_is_live(entries, window, now, j);
    let live = entries.filter(live_pred(now, 2 * window));
    lemma_key_index(live, key);
    let k = choose|k: int| 0 <= k < live.len() && live[k] == entries[j];
    let next = check_outcome(entries, max, window, key, now).1;
    match key_index(live, key) {
        Some(x) => {
            assert(x != k);
            assert(next[k] == entries[j]);
        },
        None => {
            assert(next[k] == entries[j]);
        },
    }
}

/// Every window's count stays within the limit, whatever sequence of checks
/// is made: a check that grants a request leaves the key's count at most
/// `max_requests`, and one that refuses leaves it where it was.
pub proof fn law_counts_stay_within_limit(entries: Seq<EntryView>, max: u32, window: u64, key: Seq<char>, now: u64)
    requires
        forall|i: int| 0 <= i < entries.len() ==> (#[trigger] entries[i]).1 <= max,
        keys_distinct(entries),
    ensures
        ({
            let (r, next) = check_outcome(entries, max, window, key, now);
            &&& forall|i: int| 0 <= i < next.len() ==> (#[trigger] next[i]).1 <= max
            &&& keys_distinct(next)
            &&& (r is Ok ==> (key_index(next, key) matches Some(k) && next[k].1 >= 1))
        }),
{
    let pred = live_pred(now, 2 * window);
    let live = entries.filter(pred);
    lemma_filter_keys_distinct(entries, pred);
    lemma_key_index(live, key);
    assert forall|i: int| 0 <= i < live.len() implies (#[trigger] live[i]).1 <= max by {
        assert(entries.contains(live[i]));
        let k = choose|k: int| 0 <= k < entries.len() && entries[k] == live[i];
        assert(entries[k].1 <= max);
    }
    let w = window_for(live, key, now, window as int);
    assert(w.0 <= max);
    let nw: (u32, u64) = if w.0 >= max { w } else { ((w.0 + 1) as u32, w.1) };
    let next = with_window(live, key, nw);
    match key_index(live, key) {
        Some(i) => {
            assert(next == live.update(i, (key, nw.0, nw.1)));
            assert(keys_distinct(next)) by {
                assert forall|a: int, b: int| 0 <= a < b < next.len() implies next[a].0 != next[b].0 by {
                    if a != i && b != i {
                        assert(next[a] == live[a] && next[b] == live[b]);
                    } else if a == i {
                        assert(next[b] == live[b]);
                    } else {
                        assert(next[a] == live[a]);
                    }
                }
            }
            lemma_key_index(next, key);
            assert(next[i].0 == key);
        },
        None => {
            assert(next == live.push((key, nw.0, nw.1)));
            assert(keys_distinct(next)) by {
                assert forall|a: int, b: int| 0 <= a < b < next.len() implies next[a].0 != next[b].0 by {
                    assert(next[a] == live[a]);
                    if b < live.len() {
                        assert(next[b] == live[b]);
                    }
                }
            }
            lemma_key_index(next, key);
            assert(next[live.len() as int].0 == key);
        },
    }
    assert forall|i: int| 0 <= i < next.len() implies (#[trigger] next[i]).1 <= max by {
        match key_index(live, key) {
            Some(k) => { if i != k { assert(next[i] == live[i]); } },
            None => { if i < live.len() { assert(next[i] == live[i]); } },
        }
    }
}

/// Two-tier rate limiter: stricter for chat, looser for general API.
pub struct TwoTierRateLimiter {
    chat: RateLimiter,
    api: RateLimiter,
}

/// The path whose requests count against the chat tier.
pub open spec fn chat_path() -> Seq<char> {
    "/v1/chat/completions"@
}

impl TwoTierRateLimiter {
    pub closed spec fn chat_view(&self) -> LimiterView {
        self.chat@
    }

    pub closed spec fn api_view(&self) -> LimiterView {
        self.api@
    }

    pub closed spec fn wf(&self) -> bool {
        self.chat.wf() && self.api.wf()
    }

    /// Per-minute limits for chat completions and for everything else.
    pub fn new(chat_per_min: u32, api_per_min: u32) -> (r: Self)
        ensures
            r.wf(),
            r.chat_view() == (LimiterView { max_requests: chat_per_min, window_secs: 60, entries: Seq::empty() }),
            r.api_view() == (LimiterView { max_requests: api_per_min, window_secs: 60, entries: Seq::empty() }),
    {
        TwoTierRateLimiter { chat: RateLimiter::new(chat_per_min, 60), api: RateLimiter::new(api_per_min, 60) }
    }

    /// Counts a request to `path` from `key` at `now` against its tier.
    pub fn check(&mut self, path: &str, key: &str, now: u64) -> (r: Result<u32, u64>)
        requires
            old(self).wf(),
        ensures
            final(self).wf(),
            path@ == chat_path() ==> {
                let o = check_outcome(old(self).chat_view().entries, old(self).chat_view().max_requests,
                    old(self).chat_view().window_secs, key@, now);
                &&& r == o.0
                &&& final(self).chat_view().entries == o.1
                &&& final(self).chat_view().max_requests == old(self).chat_view().max_requests
                &&& final(self).chat_view().window_secs == old(self).chat_view().window_secs
                &&& final(self).api_view() == old(self).api_view()
            },
            path@ != chat_path() ==> {
                let o = check_outcome(old(self).api_view().entries, old(self).api_view().max_requests,
                    old(self).api_view().window_secs, key@, now);
                &&& r == o.0
                &&& final(self).api_view().entries == o.1
                &&& final(self).api_view().max_requests == old(self).api_view().max_requests
                &&& final(self).api_view().window_secs == old(self).api_view().window_secs
                &&& final(self).chat_view() == old(self).chat_view()
            },
    {
        proof {
            reveal_strlit("/v1/chat/completions");
        }
        if String::from_str(path) == String::from_str("/v1/chat/completions") {
            self.chat.check(key, now)
        } else {
            self.api.check(key, now)
        }
    }
}

/// The key a client is counted under: the first address of its
/// `X-Forwarded-For` header, trimmed; else its `X-Real-IP` header; else one
/// shared key.
pub open spec fn client_key(forwarded_for: Option<Seq<char>>, real_ip: Option<Seq<char>>) -> Seq<char> {
    match forwarded_for {
        Some(f) => trim(match find(f, seq![',']) { Some(i) => f.take(i), None => f }),
        None => match real_ip {
            Some(r) => r,
            None => "global"@,
        },
    }
}

/// The client's key, from its headers (a header that is not visible ASCII
/// counts as absent).
pub fn client_ip(forwarded_for: Option<&str>, real_ip: Option<&str>) -> (r: String)
    ensures
        r@ == client_key(match forwarded_for { Some(f) => Some(f@), None => None },
            match real_ip { Some(x) => Some(x@), None => None }),
{
    match forwarded_for {
        Some(f) => {
            let cs = chars_of(f);
            let comma = vec![','];
            assert(comma@ =~= seq![',']);
            let end = match find_exec(&cs, &comma, 0) {
                Some(i) => {
                    proof {
                        crate::text::lemma_find_from_bounds(cs@, comma@, 0);
                    }
                    i
                },
                None => cs.len(),
            };
            assert(cs@.subrange(0, end as int) =~= match find(f@, seq![',']) { Some(i) => f@.take(i), None => f@ });
            trim_string(&cs, 0, end)
        },
        None => match real_ip {
            Some(x) => String::from_str(x),
            None => String::from_str("global"),
        },
    }
}

/// The body of a refused request.
pub open spec fn rejection_body(retry_after: u64) -> Seq<char> {
    "{\"error\":\"rate_limit_exceeded\",\"retry_after\":"@ + decimal(retry_after as nat) + "}"@
}

/// What a refused request is answered with: its `Retry-After` header and
/// its JSON body (the status is 429).
pub fn rejection(retry_after: u64) -> (r: (String, String))
    ensures
        r.0@ == decimal(retry_after as nat),
        r.1@ == rejection_body(retry_after),
{
    let mut header = String::new();
    push_decimal(&mut header, retry_after);
    let mut body = String::from_str("{\"error\":\"rate_limit_exceeded\",\"retry_after\":");
    push_decimal(&mut body, retry_after);
    push_str(&mut body, "}");
    (header, body)
}

} // verus!
