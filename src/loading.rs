//! Loading progress: the assets being waited for, how many of them have
//! loaded, the width of the progress bar, and when loading is over.
use vstd::prelude::*;

verus! {

/// Where an asset stands in loading.
#[derive(Clone, Copy, Debug, PartialEq, Eq, Structural)]
pub enum LoadStatus {
    NotLoaded,
    Loading,
    Loaded,
    Failed,
}

/// The assets that loading waits for, each with its id and last known status.
#[derive(Debug)]
pub struct LoadingAssets(pub Vec<(u64, LoadStatus)>);

/// How many entries of `s` are loaded.
pub open spec fn count_loaded(s: Seq<(u64, LoadStatus)>) -> nat
    decreases s.len(),
{
    if s.len() == 0 {
        0
    } else {
        count_loaded(s.drop_last()) + if s.last().1 == LoadStatus::Loaded { 1nat } else { 0nat }
    }
}

proof fn lemma_count_loaded_le(s: Seq<(u64, LoadStatus)>)
    ensures
        count_loaded(s) <= s.len(),
    decreases s.len(),
{
    if s.len() > 0 {
        lemma_count_loaded_le(s.drop_last());
    }
}

/// Loading progress: `loaded` of `total` items are done.
#[derive(Clone, Copy, Debug, PartialEq, Eq, Structural)]
pub struct Progress {
    pub loaded: usize,
    pub total: usize,
}

/// Progress over `s` and one more item, a minimum loading time, that is done
/// when `timer_done` holds.
pub open spec fn progress_of(s: Seq<(u64, LoadStatus)>, timer_done: bool) -> Progress {
    Progress {
        loaded: (count_loaded(s) + if timer_done { 1nat } else { 0nat }) as usize,
        total: (s.len() + 1) as usize,
    }
}

impl LoadingAssets {
    /// No assets tracked.
    pub fn new() -> (r: LoadingAssets)
        ensures
            r.0@ == Seq::<(u64, LoadStatus)>::empty(),
    {
        LoadingAssets(Vec::new())
    }

    /// Starts tracking asset `id`, not loaded yet.
    pub fn track(&mut self, id: u64)
        ensures
            final(self).0@ == old(self).0@.push((id, LoadStatus::NotLoaded)),
    {
        self.0.push((id, LoadStatus::NotLoaded));
    }

    /// Records `status` for entry `i`; returns whether it differs from the
    /// status recorded before.
    pub fn record(&mut self, i: usize, status: LoadStatus) -> (changed: bool)
        requires
            i < old(self).0@.len(),
        ensures
            final(self).0@ == old(self).0@.update(i as int, (old(self).0@[i as int].0, status)),
            changed == (old(self).0@[i as int].1 != status),
    {
        let (id, before) = self.0[i];
        self.0.set(i, (id, status));
        before != status
    }

    /// Stops tracking every asset.
    pub fn clear(&mut self)
        ensures
            final(self).0@ == Seq::<(u64, LoadStatus)>::empty(),
    {
        self.0.clear();
    }

    /// How many tracked assets are loaded.
    pub fn loaded_count(&self) -> (r: usize)
        ensures
            r == count_loaded(self.0@),
    {
        let mut n: usize = 0;
        let mut i: usize = 0;
        while i < self.0.len()
            invariant
                i <= self.0@.len(),
                n == count_loaded(self.0@.subrange(0, i as int)),
            decreases self.0@.len() - i,
        {
            proof {
                let s = self.0@.subrange(0, i as int + 1);
                assert(s.drop_last() =~= self.0@.subrange(0, i as int));
                lemma_count_loaded_le(self.0@.subrange(0, i as int));
            }
            if self.0[i].1 == LoadStatus::Loaded {
                n = n + 1;
            }
            i = i + 1;
        }
        assert(self.0@.subrange(0, i as int) =~= self.0@);
        n
    }

    /// Progress over the tracked assets and the minimum loading time, which
    /// counts as one more item that is done when `timer_done` holds.
    pub fn progress(&self, timer_done: bool) -> (r: Progress)
        requires
            self.0@.len() < usize::MAX,
        ensures
            r == progress_of(self.0@, timer_done),
            r.loaded <= r.total,
    {
        let n = self.loaded_count();
        proof {
            lemma_count_loaded_le(self.0@);
        }
        Progress { loaded: n + if timer_done { 1 } else { 0 }, total: self.0.len() + 1 }
    }
}

/// Width of a progress bar of full width `full` that shows `p`, rounded down.
pub open spec fn bar_width_of(p: Progress, full: int) -> int {
    full * p.loaded / p.total as int
}

impl Progress {
    /// Whether everything has loaded.
    pub fn is_complete(&self) -> (r: bool)
        ensures
            r == (self.loaded == self.total),
    {
        self.loaded == self.total
    }

    /// Width of a progress bar of full width `full` that shows this progress.
    pub fn bar_width(&self, full: u32) -> (r: u64)
        requires
            0 < self.total,
            self.loaded <= self.total,
        ensures
            r == bar_width_of(*self, full as int),
            r <= full,
    {
        proof {
            assert(full * self.loaded <= 0x1_0000_0000 * 0x1_0000_0000_0000_0000) by (nonlinear_arith)
                requires full <= 0x1_0000_0000, self.loaded <= 0x1_0000_0000_0000_0000, 0 <= full, 0 <= self.loaded;
            assert(full * self.loaded <= full * self.total) by (nonlinear_arith)
                requires self.loaded <= self.total, 0 <= full;
            assert((full * self.loaded) / (self.total as int) <= full) by (nonlinear_arith)
                requires full * self.loaded <= full * self.total, 0 < self.total;
        }
        let prod: u128 = (full as u128) * (self.loaded as u128);
        (prod / (self.total as u128)) as u64
    }
}

} // verus!
