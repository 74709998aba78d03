//! Per-container memory of the last-seen cumulative CPU counters, used by
//! the poller to derive an instantaneous utilization from two readings of a
//! monotonically increasing counter pair.

use vstd::prelude::*;

verus! {

/// Cumulative CPU counters from a container's previous poll cycle.
#[derive(Clone, Copy, Debug, PartialEq, Eq, Structural)]
pub struct CpuSnapshot {
    pub total_usage: u64,
    pub system_usage: u64,
}

/// The mapping an entry list stands for, later entries winning.
pub open spec fn entries_map(s: Seq<(String, CpuSnapshot)>) -> Map<Seq<char>, CpuSnapshot>
    decreases s.len(),
{
    if s.len() == 0 {
        Map::empty()
    } else {
        entries_map(s.drop_last()).insert(s.last().0@, s.last().1)
    }
}

/// No two entries share a key.
pub open spec fn keys_unique(s: Seq<(String, CpuSnapshot)>) -> bool {
    forall|i: int, j: int| 0 <= i < j < s.len() ==> (#[trigger] s[i]).0@ != (#[trigger] s[j]).0@
}

proof fn lemma_entries_map_index(s: Seq<(String, CpuSnapshot)>, i: int)
    requires
        keys_unique(s),
        0 <= i < s.len(),
    ensures
        entries_map(s).dom().contains(s[i].0@),
        entries_map(s)[s[i].0@] == s[i].1,
    decreases s.len(),
{
    if i < s.len() - 1 {
        assert(keys_unique(s.drop_last())) by {
            assert(forall|a: int, b: int|
                0 <= a < b < s.len() - 1 ==> (#[trigger] s.drop_last()[a]) == s[a]
                    && (#[trigger] s.drop_last()[b]) == s[b]);
        }
        lemma_entries_map_index(s.drop_last(), i);
        assert(s.drop_last()[i] == s[i]);
        assert(s[i].0@ != s.last().0@);
    }
}

proof fn lemma_entries_map_absent(s: Seq<(String, CpuSnapshot)>, k: Seq<char>)
    requires
        forall|j: int| 0 <= j < s.len() ==> (#[trigger] s[j]).0@ != k,
    ensures
        !entries_map(s).dom().contains(k),
    decreases s.len(),
{
    if s.len() > 0 {
        assert(forall|j: int|
            0 <= j < s.len() - 1 ==> (#[trigger] s.drop_last()[j]) == s[j]);
        lemma_entries_map_absent(s.drop_last(), k);
    }
}

proof fn lemma_entries_map_update(s: Seq<(String, CpuSnapshot)>, i: int, e: (String, CpuSnapshot))
    requires
        keys_unique(s),
        0 <= i < s.len(),
        s[i].0@ == e.0@,
    ensures
        entries_map(s.update(i, e)) =~= entries_map(s).insert(e.0@, e.1),
    decreases s.len(),
{
    if i == s.len() - 1 {
        assert(s.update(i, e).drop_last() =~= s.drop_last());
        assert(s.update(i, e).last() == e);
    } else {
        assert(keys_unique(s.drop_last())) by {
            assert(forall|a: int, b: int|
                0 <= a < b < s.len() - 1 ==> (#[trigger] s.drop_last()[a]) == s[a]
                    && (#[trigger] s.drop_last()[b]) == s[b]);
        }
        assert(s.drop_last()[i] == s[i]);
        lemma_entries_map_update(s.drop_last(), i, e);
        assert(s.update(i, e).drop_last() =~= s.drop_last().update(i, e));
        assert(s.update(i, e).last() == s.last());
        assert(s[i].0@ != s.last().0@);
    }
}

/// Last-seen cumulative CPU counters per container id. Owned exclusively by
/// the poller; overwritten on every poll cycle.
pub struct SnapshotTracker {
    entries: Vec<(String, CpuSnapshot)>,
}

impl SnapshotTracker {
    /// The mapping from container id to its last-seen counters.
    pub closed spec fn view(self) -> Map<Seq<char>, CpuSnapshot> {
        entries_map(self.entries@)
    }

    /// Each container id is stored at most once.
    pub closed spec fn wf(self) -> bool {
        keys_unique(self.entries@)
    }

    /// An empty tracker: no container has been observed yet.
    pub fn new() -> (r: SnapshotTracker)
        ensures
            r.wf(),
            r.view().dom() == Set::<Seq<char>>::empty(),
    {
        let r = SnapshotTracker { entries: Vec::new() };
        proof {
            assert(r.view().dom() =~= Set::<Seq<char>>::empty());
        }
        r
    }

    /// The counters remembered for `id` from the previous cycle, or `None`
    /// on the container's first-ever observation.
    pub fn lookup(&self, id: &str) -> (r: Option<CpuSnapshot>)
        requires
            self.wf(),
        ensures
            r == if self.view().dom().contains(id@) {
                Some(self.view()[id@])
            } else {
                None::<CpuSnapshot>
            },
    {
        let key: String = id.to_owned();
        let n = self.entries.len();
        let mut i: usize = 0;
        while i < n
            invariant
                n == self.entries@.len(),
                i <= n,
                self.wf(),
                key@ == id@,
                forall|j: int| 0 <= j < i ==> (#[trigger] self.entries@[j]).0@ != id@,
            decreases n - i,
        {
            if self.entries[i].0 == key {
                proof {
                    lemma_entries_map_index(self.entries@, i as int);
                }
                return Some(self.entries[i].1);
            }
            i = i + 1;
        }
        proof {
            lemma_entries_map_absent(self.entries@, id@);
        }
        None
    }

    /// Remembers `snap` as the counters last seen for `id`, replacing
    /// whatever was stored before.
    pub fn store(&mut self, id: &str, snap: CpuSnapshot)
        requires
            old(self).wf(),
        ensures
            final(self).wf(),
            final(self).view() == old(self).view().insert(id@, snap),
    {
        let key: String = id.to_owned();
        let n = self.entries.len();
        let mut i: usize = 0;
        while i < n
            invariant
                n == self.entries@.len(),
                i <= n,
                self.wf(),
                self == old(self),
                key@ == id@,
                forall|j: int| 0 <= j < i ==> (#[trigger] self.entries@[j]).0@ != id@,
            decreases n - i,
        {
            if self.entries[i].0 == key {
                proof {
                    lemma_entries_map_update(self.entries@, i as int, (key, snap));
                }
                self.entries.set(i, (key, snap));
                proof {
                    assert forall|a: int, b: int|
                        0 <= a < b < self.entries@.len() implies (#[trigger] self.entries@[a]).0@
                        != (#[trigger] self.entries@[b]).0@ by {
                        assert(old(self).entries@[a].0@ != old(self).entries@[b].0@);
                    }
                }
                return ;
            }
            i = i + 1;
        }
        proof {
            lemma_entries_map_absent(self.entries@, id@);
        }
        self.entries.push((key, snap));
        proof {
            assert(self.entries@.drop_last() =~= old(self).entries@);
            assert forall|a: int, b: int|
                0 <= a < b < self.entries@.len() implies (#[trigger] self.entries@[a]).0@
                != (#[trigger] self.entries@[b]).0@ by {
                if b < self.entries@.len() - 1 {
                    assert(old(self).entries@[a].0@ != old(self).entries@[b].0@);
                } else {
                    assert(old(self).entries@[a].0@ != id@);
                }
            }
        }
    }
}

} // verus!
