use vstd::prelude::*;

verus! {

/// One time-windowed usage counter: how many artifacts `user_id` has issued
/// in the calendar month `year`-`month` (UTC).
pub struct QuotaEntry {
    pub user_id: i64,
    pub year: i32,
    pub month: u32,
    pub count: i32,
}

/// The monthly quota counter: a per-(account, calendar month) count of issued
/// artifacts. A window with no entry counts as zero; a window that has rolled
/// over is simply a new key, so a fresh month always starts at zero. The
/// storage backend is expected to expire old entries roughly 32 days after a
/// window's first write; expiry is never observable here because an expired
/// window is never read again.
pub struct QuotaCounter {
    entries: Vec<QuotaEntry>,
}

impl QuotaCounter {
    /// There is at most one entry per (account, year, month), and counts are
    /// never negative.
    pub closed spec fn wf(&self) -> bool {
        &&& forall|i: int, j: int|
            0 <= i < j < self.entries@.len() ==> !(#[trigger] self.entries@[i].user_id
                == #[trigger] self.entries@[j].user_id && self.entries@[i].year
                == self.entries@[j].year && self.entries@[i].month == self.entries@[j].month)
        &&& forall|i: int| 0 <= i < self.entries@.len() ==> #[trigger] self.entries@[i].count >= 0
    }

    /// Whether a counter entry exists for this account and window.
    pub closed spec fn has_entry(&self, user_id: i64, year: i32, month: u32) -> bool {
        exists|i: int|
            0 <= i < self.entries@.len() && #[trigger] self.entries@[i].user_id == user_id
                && self.entries@[i].year == year && self.entries@[i].month == month
    }

    /// The usage this account has consumed in this window; zero when no entry
    /// exists.
    pub closed spec fn spec_usage(&self, user_id: i64, year: i32, month: u32) -> int {
        if self.has_entry(user_id, year, month) {
            self.entries@[choose|i: int|
                0 <= i < self.entries@.len() && #[trigger] self.entries@[i].user_id == user_id
                    && self.entries@[i].year == year && self.entries@[i].month
                    == month].count as int
        } else {
            0
        }
    }

    /// A new counter has no entries: every window of every account reads zero.
    pub fn new() -> (q: QuotaCounter)
        ensures
            q.wf(),
            forall|u: i64, y: i32, m: u32| q.spec_usage(u, y, m) == 0,
            forall|u: i64, y: i32, m: u32| !q.has_entry(u, y, m),
    {
        QuotaCounter { entries: Vec::new() }
    }

    /// Finds the position of this window's entry, if it has one.
    fn find_entry(&self, user_id: i64, year: i32, month: u32) -> (r: Option<usize>)
        requires
            self.wf(),
        ensures
            match r {
                Some(i) => {
                    &&& i < self.entries@.len()
                    &&& self.entries@[i as int].user_id == user_id
                    &&& self.entries@[i as int].year == year
                    &&& self.entries@[i as int].month == month
                    &&& self.has_entry(user_id, year, month)
                    &&& self.spec_usage(user_id, year, month) == self.entries@[i as int].count
                },
                None => !self.has_entry(user_id, year, month),
            },
    {
        let mut i: usize = 0;
        while i < self.entries.len()
            invariant
                self.wf(),
                0 <= i <= self.entries@.len(),
                forall|j: int|
                    0 <= j < i ==> !(#[trigger] self.entries@[j].user_id == user_id
                        && self.entries@[j].year == year && self.entries@[j].month == month),
            decreases self.entries@.len() - i,
        {
            let e = &self.entries[i];
            if e.user_id == user_id && e.year == year && e.month == month {
                proof {
                    assert(self.has_entry(user_id, year, month));
                    let w = choose|w: int|
                        0 <= w < self.entries@.len() && #[trigger] self.entries@[w].user_id
                            == user_id && self.entries@[w].year == year && self.entries@[w].month
                            == month;
                    if w < i as int {
                        assert(self.entries@[w].user_id == self.entries@[i as int].user_id);
                        assert(false);
                    }
                    if w > i as int {
                        assert(self.entries@[i as int].user_id == self.entries@[w].user_id);
                        assert(false);
                    }
                }
                return Some(i);
            }
            i = i + 1;
        }
        None
    }

    /// Reads the current usage of `user_id` in the window `year`-`month`;
    /// a window with no entry reads zero. Reading never changes the counter,
    /// so within one window the reported usage never decreases: it only moves
    /// when `increment_usage` raises it.
    pub fn get_monthly_usage(&self, user_id: i64, year: i32, month: u32) -> (usage: i32)
        requires
            self.wf(),
        ensures
            usage == self.spec_usage(user_id, year, month),
            usage >= 0,
    {
        match self.find_entry(user_id, year, month) {
            Some(i) => self.entries[i].count,
            None => 0,
        }
    }

    /// Atomically consumes one unit: increments the window's count, creating
    /// the entry at one if absent, and returns the new value. Usage in a
    /// window only ever grows, and no other window of any account is touched;
    /// in particular a later calendar month still reads zero until its own
    /// first increment.
    pub fn increment_usage(&mut self, user_id: i64, year: i32, month: u32) -> (new_count: i32)
        requires
            old(self).wf(),
            old(self).spec_usage(user_id, year, month) < i32::MAX,
        ensures
            final(self).wf(),
            new_count == old(self).spec_usage(user_id, year, month) + 1,
            final(self).spec_usage(user_id, year, month) == new_count,
            final(self).has_entry(user_id, year, month),
            forall|u: i64, y: i32, m: u32|
                !(u == user_id && y == year && m == month) ==> final(self).spec_usage(u, y, m)
                    == old(self).spec_usage(u, y, m) && final(self).has_entry(u, y, m) == old(
                    self,
                ).has_entry(u, y, m),
    {
        let ghost pre = *self;
        match self.find_entry(user_id, year, month) {
            Some(i) => {
                let c = self.entries[i].count + 1;
                let upd = QuotaEntry { user_id, year, month, count: c };
                self.entries.set(i, upd);
                proof {
                    Self::lemma_key_agreement(pre, *self, i as int, user_id, year, month);
                }
                c
            },
            None => {
                let fresh = QuotaEntry { user_id, year, month, count: 1 };
                self.entries.push(fresh);
                proof {
                    Self::lemma_key_agreement(pre, *self, pre.entries@.len() as int, user_id, year, month);
                }
                1
            },
        }
    }

    /// After writing the window's entry at position `k` (all other positions
    /// kept), every window reads as expected: the written one reads the new
    /// count, every other one is untouched.
    proof fn lemma_key_agreement(
        pre: QuotaCounter,
        post: QuotaCounter,
        k: int,
        user_id: i64,
        year: i32,
        month: u32,
    )
        requires
            pre.wf(),
            0 <= k < post.entries@.len(),
            post.entries@.len() == pre.entries@.len() || post.entries@.len() == pre.entries@.len()
                + 1,
            post.entries@.len() == pre.entries@.len() + 1 ==> k == pre.entries@.len(),
            post.entries@.len() == pre.entries@.len() + 1 ==> !pre.has_entry(
                user_id,
                year,
                month,
            ),
            forall|j: int| 0 <= j < pre.entries@.len() && j != k ==> post.entries@[j]
                == pre.entries@[j],
            post.entries@[k].user_id == user_id,
            post.entries@[k].year == year,
            post.entries@[k].month == month,
            post.entries@[k].count >= 0,
            k < pre.entries@.len() ==> pre.entries@[k].user_id == user_id
                && pre.entries@[k].year == year && pre.entries@[k].month == month,
        ensures
            post.wf(),
            post.has_entry(user_id, year, month),
            post.spec_usage(user_id, year, month) == post.entries@[k].count,
            forall|u: i64, y: i32, m: u32|
                !(u == user_id && y == year && m == month) ==> post.spec_usage(u, y, m)
                    == pre.spec_usage(u, y, m) && post.has_entry(u, y, m) == pre.has_entry(u, y, m),
    {
        assert forall|i: int, j: int|
            0 <= i < j < post.entries@.len() implies !(#[trigger] post.entries@[i].user_id
            == #[trigger] post.entries@[j].user_id && post.entries@[i].year
            == post.entries@[j].year && post.entries@[i].month == post.entries@[j].month) by {
            if i != k && j != k {
                assert(post.entries@[i] == pre.entries@[i]);
                assert(post.entries@[j] == pre.entries@[j]);
            } else {
                let o = if i == k {
                    j
                } else {
                    i
                };
                if o < pre.entries@.len() {
                    assert(post.entries@[o] == pre.entries@[o]);
                    if k < pre.entries@.len() {
                        assert(pre.entries@[k].user_id == user_id);
                    } else {
                        if pre.entries@[o].user_id == user_id && pre.entries@[o].year == year
                            && pre.entries@[o].month == month {
                            assert(pre.has_entry(user_id, year, month));
                            assert(false);
                        }
                    }
                }
            }
        }
        assert forall|i: int| 0 <= i < post.entries@.len() implies #[trigger] post.entries@[i].count
            >= 0 by {
            if i != k {
                assert(post.entries@[i] == pre.entries@[i]);
            }
        }
        assert(post.has_entry(user_id, year, month));
        let w = choose|w: int|
            0 <= w < post.entries@.len() && #[trigger] post.entries@[w].user_id == user_id
                && post.entries@[w].year == year && post.entries@[w].month == month;
        if w != k {
            assert(post.entries@[w].user_id == post.entries@[k].user_id);
            assert(false);
        }
        assert forall|u: i64, y: i32, m: u32|
            !(u == user_id && y == year && m == month) implies post.spec_usage(u, y, m)
            == pre.spec_usage(u, y, m) && post.has_entry(u, y, m) == pre.has_entry(u, y, m) by {
            if pre.has_entry(u, y, m) {
                let a = choose|a: int|
                    0 <= a < pre.entries@.len() && #[trigger] pre.entries@[a].user_id == u
                        && pre.entries@[a].year == y && pre.entries@[a].month == m;
                assert(a != k);
                assert(post.entries@[a] == pre.entries@[a]);
                assert(post.has_entry(u, y, m));
            }
            if post.has_entry(u, y, m) {
                let b = choose|b: int|
                    0 <= b < post.entries@.len() && #[trigger] post.entries@[b].user_id == u
                        && post.entries@[b].year == y && post.entries@[b].month == m;
                assert(b != k);
                assert(pre.entries@[b] == post.entries@[b]);
                assert(pre.has_entry(u, y, m));
                let a2 = choose|a: int|
                    0 <= a < pre.entries@.len() && #[trigger] pre.entries@[a].user_id == u
                        && pre.entries@[a].year == y && pre.entries@[a].month == m;
                if a2 != b {
                    assert(pre.entries@[a2].user_id == pre.entries@[b].user_id);
                    assert(false);
                }
                let b2 = choose|b2: int|
                    0 <= b2 < post.entries@.len() && #[trigger] post.entries@[b2].user_id == u
                        && post.entries@[b2].year == y && post.entries@[b2].month == m;
                if b2 != b {
                    assert(post.entries@[b2].user_id == post.entries@[b].user_id);
                    assert(false);
                }
            }
        }
    }
}

} // verus!
