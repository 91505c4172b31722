//! Per-client fixed-window admission control.
//!
//! Each client (keyed by the string form of its transport-layer address)
//! gets a window `{count, window_start}`.  A check within the window
//! admits while `count < max_requests`; once the window duration has
//! passed, the window resets to `count = 1`.  A configured whitelist
//! bypasses the window entirely, and a disabled limiter admits
//! everything.
//!
//! Time is passed in explicitly (`now_ms`, a millisecond timestamp from
//! a monotonic clock), so the admission decision is a pure function of
//! state and arguments; the caller reads the clock.

use vstd::prelude::*;
use vstd::math::min;

verus! {

/// One client's window: how many checks were admitted since
/// `window_start`, in milliseconds of the caller's monotonic clock.
#[derive(Debug)]
pub struct ClientWindow {
    pub ip: String,
    pub count: u32,
    pub window_start: u64,
}

/// Per-client fixed-window rate limiter.
#[derive(Debug)]
pub struct RateLimiter {
    /// One entry per client seen so far; keys are unique (see `wf`).
    pub store: Vec<ClientWindow>,
    pub max_requests: u32,
    pub window_ms: u64,
    pub whitelist: Vec<String>,
    pub enabled: bool,
}

/// No two entries of a store describe the same client.
pub open spec fn store_keys_unique(s: Seq<ClientWindow>) -> bool {
    forall|i: int, j: int| 0 <= i < j < s.len() ==> s[i].ip@ != s[j].ip@
}

/// The store as a map from client address to (count, window_start).
pub open spec fn as_map(s: Seq<ClientWindow>) -> Map<Seq<char>, (u32, u64)>
    decreases s.len(),
{
    if s.len() == 0 {
        Map::empty()
    } else {
        as_map(s.drop_last()).insert(s.last().ip@, (s.last().count, s.last().window_start))
    }
}

/// Milliseconds since `start`, saturating at zero for a clock that
/// reads earlier than the recorded start.
pub open spec fn spec_elapsed(start: u64, now: u64) -> int {
    if now >= start {
        now - start
    } else {
        0
    }
}

/// One non-whitelisted check against the window map: the admission
/// result and the map afterwards.  An unknown client starts a fresh
/// window `(0, now)`; a window older than `window_ms` resets to
/// `(1, now)` and admits; within the window, the check admits and
/// increments while `count < max`, and rejects without mutating once
/// `count >= max`.
pub open spec fn spec_step(
    m: Map<Seq<char>, (u32, u64)>,
    max: u32,
    window_ms: u64,
    ip: Seq<char>,
    now: u64,
) -> (bool, Map<Seq<char>, (u32, u64)>) {
    let w = if m.contains_key(ip) {
        m[ip]
    } else {
        (0u32, now)
    };
    if spec_elapsed(w.1, now) > window_ms {
        (true, m.insert(ip, (1u32, now)))
    } else if w.0 >= max {
        (false, m.insert(ip, w))
    } else {
        (true, m.insert(ip, ((w.0 + 1) as u32, w.1)))
    }
}

impl RateLimiter {
    /// Structural invariant: one window per client.
    pub open spec fn wf(&self) -> bool {
        store_keys_unique(self.store@)
    }

    /// The per-client windows as a map.
    pub open spec fn windows(&self) -> Map<Seq<char>, (u32, u64)> {
        as_map(self.store@)
    }

    /// Whether the client's address is on the whitelist.
    pub open spec fn spec_whitelisted(&self, ip: Seq<char>) -> bool {
        exists|j: int| 0 <= j < self.whitelist@.len() && self.whitelist@[j]@ == ip
    }

    /// What `check` returns: a disabled limiter and a whitelisted
    /// client always admit; otherwise the window decides.
    pub open spec fn spec_check_result(&self, ip: Seq<char>, now: u64) -> bool {
        if !self.enabled {
            true
        } else if self.spec_whitelisted(ip) {
            true
        } else {
            spec_step(self.windows(), self.max_requests, self.window_ms, ip, now).0
        }
    }

    /// The window map after `check`: untouched unless the window
    /// algorithm ran.
    pub open spec fn spec_check_windows(&self, ip: Seq<char>, now: u64) -> Map<
        Seq<char>,
        (u32, u64),
    > {
        if !self.enabled || self.spec_whitelisted(ip) {
            self.windows()
        } else {
            spec_step(self.windows(), self.max_requests, self.window_ms, ip, now).1
        }
    }

    /// A fresh limiter with the given settings and no client state.
    /// The window length is given in seconds and kept in milliseconds,
    /// saturating on overflow.
    pub fn new(enabled: bool, max_req: u32, window_sec: u64, whitelist: Vec<String>) -> (r:
        RateLimiter)
        ensures
            r.wf(),
            r.windows() == Map::<Seq<char>, (u32, u64)>::empty(),
            r.enabled == enabled,
            r.max_requests == max_req,
            r.window_ms == spec_window_ms(window_sec),
            r.whitelist == whitelist,
    {
        let window_ms = if window_sec > u64::MAX / 1000 {
            u64::MAX
        } else {
            window_sec * 1000
        };
        RateLimiter { store: Vec::new(), max_requests: max_req, window_ms, whitelist, enabled }
    }

    /// Whether to admit a request from `ip` at time `now_ms`: the
    /// result and the new window map follow `spec_check_result` and
    /// `spec_check_windows` exactly.
    pub fn check(&mut self, ip: &str, now_ms: u64) -> (allowed: bool)
        requires
            old(self).wf(),
        ensures
            final(self).wf(),
            final(self).max_requests == old(self).max_requests,
            final(self).window_ms == old(self).window_ms,
            final(self).whitelist == old(self).whitelist,
            final(self).enabled == old(self).enabled,
            allowed == old(self).spec_check_result(ip@, now_ms),
            final(self).windows() == old(self).spec_check_windows(ip@, now_ms),
    {
        if !self.enabled {
            return true;
        }
        if self.is_whitelisted(ip) {
            return true;
        }
        let ghost m0 = self.windows();
        match self.find_entry(ip) {
            None => {
                proof {
                    lemma_as_map_contains(self.store@, ip@);
                }
                // First sighting: a fresh window starting now.  The
                // fresh window is inside its own duration, so the
                // count alone decides.
                if self.max_requests == 0 {
                    let entry = ClientWindow { ip: ip.to_owned(), count: 0, window_start: now_ms };
                    self.store.push(entry);
                    proof {
                        lemma_as_map_push(old(self).store@, entry);
                        assert(self.windows() =~= m0.insert(ip@, (0u32, now_ms)));
                    }
                    false
                } else {
                    let entry = ClientWindow { ip: ip.to_owned(), count: 1, window_start: now_ms };
                    self.store.push(entry);
                    proof {
                        lemma_as_map_push(old(self).store@, entry);
                        assert(self.windows() =~= m0.insert(ip@, (1u32, now_ms)));
                    }
                    true
                }
            },
            Some(i) => {
                let count = self.store[i].count;
                let start = self.store[i].window_start;
                proof {
                    lemma_as_map_index(self.store@, i as int);
                }
                let elapsed = if now_ms >= start {
                    now_ms - start
                } else {
                    0
                };
                if elapsed > self.window_ms {
                    // Window expired: reset and admit.
                    let e = &mut self.store[i];
                    e.count = 1;
                    e.window_start = now_ms;
                    proof {
                        lemma_as_map_update(
                            old(self).store@,
                            i as int,
                            self.store@[i as int],
                        );
                        assert(self.windows() == m0.insert(ip@, (1u32, now_ms)));
                    }
                    true
                } else if count >= self.max_requests {
                    // Limit exceeded: reject without mutating.
                    proof {
                        assert(m0.insert(ip@, (count, start)) =~= m0);
                    }
                    false
                } else {
                    let e = &mut self.store[i];
                    e.count = count + 1;
                    proof {
                        lemma_as_map_update(
                            old(self).store@,
                            i as int,
                            self.store@[i as int],
                        );
                        assert(self.windows() == m0.insert(ip@, ((count + 1) as u32, start)));
                    }
                    true
                }
            },
        }
    }

    /// Eviction sweep: drops every client whose window had already
    /// lain longer than the window duration at time `now_ms`, so the
    /// store does not grow without bound.  Live windows are kept
    /// unchanged.
    pub fn evict_expired(&mut self, now_ms: u64)
        requires
            old(self).wf(),
        ensures
            final(self).wf(),
            final(self).max_requests == old(self).max_requests,
            final(self).window_ms == old(self).window_ms,
            final(self).whitelist == old(self).whitelist,
            final(self).enabled == old(self).enabled,
            forall|ip: Seq<char>|
                final(self).windows().contains_key(ip) <==> (#[trigger] old(
                    self,
                ).windows().contains_key(ip) && spec_elapsed(old(self).windows()[ip].1, now_ms)
                    <= old(self).window_ms),
            forall|ip: Seq<char>|
                #[trigger] final(self).windows().contains_key(ip) ==> final(self).windows()[ip]
                    == old(self).windows()[ip],
    {
        let mut kept: Vec<ClientWindow> = Vec::new();
        let n = self.store.len();
        let mut j: usize = 0;
        proof {
            assert(self.store@.subrange(0, 0) =~= Seq::<ClientWindow>::empty());
        }
        while j < n
            invariant
                n == self.store@.len(),
                j <= n,
                kept@ == spec_swept(self.store@.subrange(0, j as int), self.window_ms, now_ms),
            decreases n - j,
        {
            let e = &self.store[j];
            let elapsed = if now_ms >= e.window_start {
                now_ms - e.window_start
            } else {
                0
            };
            if elapsed <= self.window_ms {
                kept.push(
                    ClientWindow { ip: e.ip.clone(), count: e.count, window_start: e.window_start },
                );
            }
            proof {
                assert(self.store@.subrange(0, j + 1).drop_last() =~= self.store@.subrange(
                    0,
                    j as int,
                ));
                assert(self.store@.subrange(0, j + 1).last() == self.store@[j as int]);
            }
            j = j + 1;
        }
        proof {
            assert(self.store@.subrange(0, n as int) =~= self.store@);
            lemma_swept_map(self.store@, self.window_ms, now_ms);
        }
        self.store = kept;
    }

    /// Linear scan for the client's window entry.
    fn find_entry(&self, ip: &str) -> (r: Option<usize>)
        ensures
            match r {
                Some(i) => i < self.store@.len() && self.store@[i as int].ip@ == ip@,
                None => forall|j: int| 0 <= j < self.store@.len() ==> self.store@[j].ip@ != ip@,
            },
    {
        let ip_string = ip.to_owned();
        let n = self.store.len();
        let mut j: usize = 0;
        while j < n
            invariant
                n == self.store@.len(),
                ip_string@ == ip@,
                forall|k: int| 0 <= k < j ==> self.store@[k].ip@ != ip@,
            decreases n - j,
        {
            if self.store[j].ip == ip_string {
                return Some(j);
            }
            j = j + 1;
        }
        None
    }

    /// Linear scan of the whitelist for the client's address.
    fn is_whitelisted(&self, ip: &str) -> (r: bool)
        ensures
            r == self.spec_whitelisted(ip@),
    {
        let ip_string = ip.to_owned();
        let n = self.whitelist.len();
        let mut j: usize = 0;
        while j < n
            invariant
                n == self.whitelist@.len(),
                ip_string@ == ip@,
                forall|k: int| 0 <= k < j ==> self.whitelist@[k]@ != ip@,
            decreases n - j,
        {
            if self.whitelist[j] == ip_string {
                return true;
            }
            j = j + 1;
        }
        false
    }
}

/// The stored window length for a configured number of seconds:
/// milliseconds, saturating at the top of `u64`.
pub open spec fn spec_window_ms(window_sec: u64) -> u64 {
    if window_sec > u64::MAX / 1000 {
        u64::MAX
    } else {
        (window_sec * 1000) as u64
    }
}

/// A client is in the map exactly when some entry carries its address.
proof fn lemma_as_map_contains(s: Seq<ClientWindow>, ip: Seq<char>)
    ensures
        as_map(s).contains_key(ip) <==> exists|i: int| 0 <= i < s.len() && s[i].ip@ == ip,
    decreases s.len(),
{
    if s.len() > 0 {
        lemma_as_map_contains(s.drop_last(), ip);
        if s.last().ip@ == ip {
            assert(s[s.len() - 1].ip@ == ip);
        } else if as_map(s).contains_key(ip) {
            let i = choose|i: int| 0 <= i < s.drop_last().len() && s.drop_last()[i].ip@ == ip;
            assert(s[i].ip@ == ip);
        } else if exists|i: int| 0 <= i < s.len() && s[i].ip@ == ip {
            let i = choose|i: int| 0 <= i < s.len() && s[i].ip@ == ip;
            assert(s.drop_last()[i].ip@ == ip);
        }
    }
}

/// With unique keys, the map agrees with every entry of the store.
proof fn lemma_as_map_index(s: Seq<ClientWindow>, i: int)
    requires
        store_keys_unique(s),
        0 <= i < s.len(),
    ensures
        as_map(s).contains_key(s[i].ip@),
        as_map(s)[s[i].ip@] == (s[i].count, s[i].window_start),
    decreases s.len(),
{
    if i < s.len() - 1 {
        lemma_as_map_index(s.drop_last(), i);
    }
}

/// Appending an entry with a fresh key inserts it into the map.
proof fn lemma_as_map_push(s: Seq<ClientWindow>, e: ClientWindow)
    ensures
        as_map(s.push(e)) == as_map(s).insert(e.ip@, (e.count, e.window_start)),
{
    assert(s.push(e).drop_last() =~= s);
    assert(s.push(e).last() == e);
}

/// The store after an eviction sweep at time `now`: entries whose
/// window had expired are dropped, the order of the rest is kept.
pub open spec fn spec_swept(s: Seq<ClientWindow>, window_ms: u64, now: u64) -> Seq<ClientWindow>
    decreases s.len(),
{
    if s.len() == 0 {
        Seq::empty()
    } else {
        let rest = spec_swept(s.drop_last(), window_ms, now);
        if spec_elapsed(s.last().window_start, now) > window_ms {
            rest
        } else {
            rest.push(s.last())
        }
    }
}

/// The sweep keeps exactly the live windows, with their values.
proof fn lemma_swept_map(s: Seq<ClientWindow>, window_ms: u64, now: u64)
    requires
        store_keys_unique(s),
    ensures
        store_keys_unique(spec_swept(s, window_ms, now)),
        forall|ip: Seq<char>|
            as_map(spec_swept(s, window_ms, now)).contains_key(ip) <==> (#[trigger] as_map(
                s,
            ).contains_key(ip) && spec_elapsed(as_map(s)[ip].1, now) <= window_ms),
        forall|ip: Seq<char>|
            #[trigger] as_map(spec_swept(s, window_ms, now)).contains_key(ip) ==> as_map(
                spec_swept(s, window_ms, now),
            )[ip] == as_map(s)[ip],
    decreases s.len(),
{
    if s.len() > 0 {
        let rest = s.drop_last();
        let last = s.last();
        lemma_swept_map(rest, window_ms, now);
        let sw_rest = spec_swept(rest, window_ms, now);
        // The last entry's key is fresh in the rest of the store, and
        // therefore also in the swept rest.
        assert(!as_map(rest).contains_key(last.ip@)) by {
            lemma_as_map_contains(rest, last.ip@);
        }
        assert(!as_map(sw_rest).contains_key(last.ip@));
        lemma_as_map_contains(sw_rest, last.ip@);
        if spec_elapsed(last.window_start, now) > window_ms {
            assert(spec_swept(s, window_ms, now) == sw_rest);
            assert(as_map(s) == as_map(rest).insert(last.ip@, (last.count, last.window_start)));
            assert(as_map(s)[last.ip@].1 == last.window_start);
        } else {
            assert(forall|i: int|
                0 <= i < sw_rest.len() ==> #[trigger] sw_rest[i].ip@ != last.ip@);
            assert(store_keys_unique(sw_rest.push(last)));
            lemma_as_map_push(sw_rest, last);
        }
    }
}

/// A run of checks from one client against the window map: how many
/// were admitted, and the map afterwards.
pub open spec fn spec_run_checks(
    m: Map<Seq<char>, (u32, u64)>,
    max: u32,
    window_ms: u64,
    ip: Seq<char>,
    times: Seq<u64>,
) -> (nat, Map<Seq<char>, (u32, u64)>)
    decreases times.len(),
{
    if times.len() == 0 {
        (0nat, m)
    } else {
        let first = spec_step(m, max, window_ms, ip, times[0]);
        let rest = spec_run_checks(first.1, max, window_ms, ip, times.drop_first());
        (
            (if first.0 {
                rest.0 + 1
            } else {
                rest.0
            }),
            rest.1,
        )
    }
}

/// Helper for the admission bound: once a client holds a window
/// `(c, t0)`, checks at times within that window admit until the count
/// reaches `max`, and the count tracks the admissions exactly.
proof fn lemma_window_admissions_from(
    m: Map<Seq<char>, (u32, u64)>,
    max: u32,
    window_ms: u64,
    ip: Seq<char>,
    times: Seq<u64>,
    t0: u64,
    c: u32,
)
    requires
        m.contains_key(ip),
        m[ip] == (c, t0),
        c <= max,
        forall|k: int| 0 <= k < times.len() ==> t0 <= #[trigger] times[k] <= t0 + window_ms,
    ensures
        ({
            let run = spec_run_checks(m, max, window_ms, ip, times);
            &&& run.0 == min(times.len() as int, max - c)
            &&& run.1.contains_key(ip)
            &&& run.1[ip] == ((c + run.0) as u32, t0)
        }),
    decreases times.len(),
{
    if times.len() > 0 {
        let first = spec_step(m, max, window_ms, ip, times[0]);
        assert(spec_elapsed(t0, times[0]) <= window_ms);
        let rest = times.drop_first();
        assert(forall|k: int|
            0 <= k < rest.len() ==> t0 <= #[trigger] rest[k] <= t0 + window_ms);
        if c >= max {
            assert(first == (false, m.insert(ip, (c, t0))));
            lemma_window_admissions_from(first.1, max, window_ms, ip, rest, t0, c);
        } else {
            assert(first == (true, m.insert(ip, ((c + 1) as u32, t0))));
            lemma_window_admissions_from(first.1, max, window_ms, ip, rest, t0, (c + 1) as u32);
        }
    }
}

/// No over-admission in a window: a client first seen at `t0` that
/// checks `n` times at moments within one window duration of `t0` is
/// admitted exactly `min(n, max)` times.  The limiter updates each
/// client's window in one exclusive step, so this holds however many
/// checks race on the same client: none is ever admitted more than
/// `max_requests` times in a single window.
pub proof fn lemma_fixed_window_no_overadmission(
    m: Map<Seq<char>, (u32, u64)>,
    max: u32,
    window_ms: u64,
    ip: Seq<char>,
    times: Seq<u64>,
    t0: u64,
)
    requires
        !m.contains_key(ip),
        times.len() > 0,
        times[0] == t0,
        forall|k: int| 0 <= k < times.len() ==> t0 <= #[trigger] times[k] <= t0 + window_ms,
    ensures
        spec_run_checks(m, max, window_ms, ip, times).0 == min(times.len() as int, max as int),
{
    let first = spec_step(m, max, window_ms, ip, times[0]);
    let rest = times.drop_first();
    assert(forall|k: int| 0 <= k < rest.len() ==> t0 <= #[trigger] rest[k] <= t0 + window_ms);
    if max == 0 {
        assert(first == (false, m.insert(ip, (0u32, t0))));
        lemma_window_admissions_from(first.1, max, window_ms, ip, rest, t0, 0u32);
    } else {
        assert(first == (true, m.insert(ip, (1u32, t0))));
        lemma_window_admissions_from(first.1, max, window_ms, ip, rest, t0, 1u32);
    }
}

/// Whitelist bypass: a whitelisted client is admitted at any time, with
/// any settings, and leaves every window untouched — so it admits
/// unboundedly even with `max_requests == 1`.
pub proof fn lemma_whitelist_bypass(l: RateLimiter, ip: Seq<char>, now: u64)
    requires
        l.spec_whitelisted(ip),
    ensures
        l.spec_check_result(ip, now) == true,
        l.spec_check_windows(ip, now) == l.windows(),
{
}

/// Overwriting the entry that holds a key updates that key in the map.
proof fn lemma_as_map_update(s: Seq<ClientWindow>, i: int, e: ClientWindow)
    requires
        store_keys_unique(s),
        0 <= i < s.len(),
        e.ip@ == s[i].ip@,
    ensures
        as_map(s.update(i, e)) == as_map(s).insert(e.ip@, (e.count, e.window_start)),
    decreases s.len(),
{
    let t = s.update(i, e);
    if i == s.len() - 1 {
        assert(t.drop_last() =~= s.drop_last());
        assert(t.last() == e);
        assert(as_map(t) =~= as_map(s).insert(e.ip@, (e.count, e.window_start)));
    } else {
        assert(t.drop_last() =~= s.drop_last().update(i, e));
        assert(t.last() == s.last());
        lemma_as_map_update(s.drop_last(), i, e);
        assert(s.last().ip@ != e.ip@);
        assert(as_map(t) =~= as_map(s).insert(e.ip@, (e.count, e.window_start)));
    }
}

} // verus!
