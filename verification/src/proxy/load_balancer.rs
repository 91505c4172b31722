//! Round-robin backend selection.
//!
//! A [`BackendSet`] is a named, ordered pool of upstream base URLs with
//! a shared cursor.  Each selection returns `urls[cursor % len]` and
//! advances the cursor; no health checking, weighting or retry is done.

use vstd::prelude::*;
use vstd::assert_by_contradiction;
use vstd::arithmetic::div_mod::{
    lemma_mod_add_multiples_vanish,
    lemma_mod_equivalence,
    lemma_small_mod,
};

verus! {

/// A named pool of upstream base URLs with a round-robin cursor.
#[derive(Debug, Clone)]
pub struct BackendSet {
    pub name: String,
    pub urls: Vec<String>,
    pub counter: usize,
}

/// The cursor value after one selection: one more, wrapping at the top.
pub open spec fn spec_next_cursor(c: usize) -> usize {
    if c == usize::MAX {
        0usize
    } else {
        (c + 1) as usize
    }
}

/// The URL a pool with cursor `c` hands out, if any.
pub open spec fn spec_choice(urls: Seq<String>, c: usize) -> Option<Seq<char>> {
    if urls.len() == 0 {
        None
    } else {
        Some(urls[c as int % urls.len() as int]@)
    }
}

impl BackendSet {
    /// A fresh pool starts selecting at the front of its URL list.
    pub fn new(name: String, urls: Vec<String>) -> (r: BackendSet)
        ensures
            r.name == name,
            r.urls == urls,
            r.counter == 0,
    {
        BackendSet { name, urls, counter: 0 }
    }

    /// Selects the next upstream: `None` on an empty pool, else the URL
    /// at the cursor, advancing the cursor by one.
    pub fn next_url(&mut self) -> (r: Option<String>)
        ensures
            final(self).name == old(self).name,
            final(self).urls == old(self).urls,
            old(self).urls@.len() == 0 ==> r is None && final(self).counter == old(self).counter,
            old(self).urls@.len() > 0 ==> {
                &&& r matches Some(u) && u == old(self).urls@[old(self).counter as int % old(self).urls@.len() as int]
                &&& final(self).counter == spec_next_cursor(old(self).counter)
            },
    {
        if self.urls.len() == 0 {
            return None;
        }
        let idx = self.counter % self.urls.len();
        let url = self.urls[idx].clone();
        self.counter = if self.counter == usize::MAX {
            0
        } else {
            self.counter + 1
        };
        Some(url)
    }
}

/// Round-robin fairness, first half: selection is periodic.  As long as
/// the cursor does not wrap, the choice made `urls.len()` selections
/// later is the same one.  Together with [`BackendSet::next_url`]'s
/// contract (each call advances the cursor by one), the `k`-th call on a
/// fresh pool returns `urls[k % len]`.
pub proof fn lemma_round_robin_cycle(urls: Seq<String>, c: usize, k: nat)
    requires
        urls.len() > 0,
        c + k + urls.len() <= usize::MAX,
    ensures
        spec_choice(urls, (c + k + urls.len()) as usize) == spec_choice(urls, (c + k) as usize),
{
    let len = urls.len() as int;
    lemma_mod_add_multiples_vanish(c + k, len);
}

/// Round-robin fairness, second half: within one full cycle no pool slot
/// is selected twice — the `len` consecutive selections starting anywhere
/// pick `len` distinct indices, so every URL is handed out exactly once
/// per cycle.
pub proof fn lemma_round_robin_distinct(urls: Seq<String>, c: usize, i: nat, j: nat)
    requires
        urls.len() > 0,
        i < j,
        j < urls.len(),
        c + j <= usize::MAX,
    ensures
        (c + i) as int % urls.len() as int != (c + j) as int % urls.len() as int,
{
    let len = urls.len() as int;
    assert_by_contradiction!((c + i) as int % len != (c + j) as int % len, {
        lemma_mod_equivalence(c + j, c + i, len);
        lemma_small_mod((j - i) as nat, len as nat);
    });
}

} // verus!
