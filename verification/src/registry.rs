//! Metric registry: one rolling sample window per container id, for CPU
//! utilization (in thousandths of a core) and for memory (in bytes).
//!
//! The poller is the only writer; the metrics endpoint reads concurrently.
//! Every update replaces one key's window in a single map operation, so a
//! reader never observes a half-done mutation.

use vstd::prelude::*;

verus! {

use std::collections::VecDeque;
use crate::shared_map::{
    shared_map_get,
    shared_map_keys,
    shared_map_new,
    shared_map_put,
    shared_map_remove,
    shared_map_view,
    SampleMap,
};
use crate::window::{
    considered,
    fresh_count,
    in_window,
    recorded,
    time_ordered,
    win_max,
    win_sum,
    window_average,
    window_maximum,
    window_record,
    RETENTION_MS,
};

/// The window stored under key `k`, the empty window when `k` is unknown.
pub open spec fn window_of(view: Map<Seq<char>, Seq<(u64, u64)>>, k: Seq<char>) -> Seq<(u64, u64)> {
    if view.dom().contains(k) {
        view[k]
    } else {
        Seq::empty()
    }
}

/// Every sample of `win` was taken no later than `now_ms`.
pub open spec fn taken_by(win: Seq<(u64, u64)>, now_ms: u64) -> bool {
    forall|i: int| 0 <= i < win.len() ==> win[i].0 <= now_ms
}

/// What a windowed average query answers on `view` for key `k`: the mean
/// (rounded down) of the considered samples, or nothing when none are
/// considered.
pub open spec fn average_of(
    view: Map<Seq<char>, Seq<(u64, u64)>>,
    k: Seq<char>,
    now_ms: u64,
    w_ms: u64,
) -> Option<u64> {
    let win = window_of(view, k);
    let n = fresh_count(win, now_ms, w_ms);
    if n == 0 {
        None
    } else {
        Some((win_sum(considered(win, now_ms, w_ms)) / n as int) as u64)
    }
}

/// What a windowed maximum query answers on `view` for key `k`.
pub open spec fn maximum_of(
    view: Map<Seq<char>, Seq<(u64, u64)>>,
    k: Seq<char>,
    now_ms: u64,
    w_ms: u64,
) -> Option<u64> {
    let win = window_of(view, k);
    let n = fresh_count(win, now_ms, w_ms);
    if n == 0 {
        None
    } else {
        Some(win_max(considered(win, now_ms, w_ms)) as u64)
    }
}

/// The keys whose windows still hold at least one sample inside the
/// retention horizon as of `now_ms`.
pub open spec fn live_keys(view: Map<Seq<char>, Seq<(u64, u64)>>, now_ms: u64) -> Set<Seq<char>> {
    Set::new(
        |k: Seq<char>|
            view.dom().contains(k) && fresh_count(window_of(view, k), now_ms, RETENTION_MS) > 0,
    )
}

/// Removes every key of `m` whose window holds no sample inside the
/// retention horizon as of `now_ms`.
fn sweep_map(m: &mut SampleMap, now_ms: u64)
    ensures
        shared_map_view(*final(m)) == shared_map_view(*old(m)).restrict(
            live_keys(shared_map_view(*old(m)), now_ms),
        ),
{
    let ghost orig = shared_map_view(*old(m));
    let ids = shared_map_keys(m);
    let ghost key_seq = ids@.map_values(|s: String| s@);
    let n = ids.len();
    let mut i: usize = 0;
    while i < n
        invariant
            i <= n == ids@.len(),
            key_seq == ids@.map_values(|s: String| s@),
            key_seq.to_set() == orig.dom(),
            key_seq.no_duplicates(),
            forall|k: Seq<char>|
                #[trigger] shared_map_view(*m).dom().contains(k) ==> orig.dom().contains(k)
                    && shared_map_view(*m)[k] == orig[k],
            forall|j: int|
                0 <= j < i ==> (shared_map_view(*m).dom().contains(#[trigger] key_seq[j])
                    <==> fresh_count(orig[key_seq[j]], now_ms, RETENTION_MS) > 0),
            forall|j: int|
                i <= j < n ==> shared_map_view(*m).dom().contains(#[trigger] key_seq[j]),
        decreases n - i,
    {
        let id = &ids[i];
        proof {
            assert(key_seq[i as int] == id@);
        }
        match shared_map_get(m, id.as_str()) {
            Some(w) => {
                if window_average(&w, now_ms, RETENTION_MS).is_none() {
                    let ghost before = shared_map_view(*m);
                    shared_map_remove(m, id.as_str());
                    proof {
                        assert forall|k: Seq<char>| #[trigger] shared_map_view(
                            *m,
                        ).dom().contains(k) implies orig.dom().contains(k) && shared_map_view(
                            *m,
                        )[k] == orig[k] by {
                            assert(before.dom().contains(k));
                            assert(shared_map_view(*m)[k] == before[k]);
                        }
                        assert forall|j: int|
                            0 <= j < i + 1 implies (shared_map_view(*m).dom().contains(
                            #[trigger] key_seq[j],
                        ) <==> fresh_count(orig[key_seq[j]], now_ms, RETENTION_MS) > 0) by {
                            if j < i {
                                assert(key_seq[j] != key_seq[i as int]);
                            }
                        }
                        assert forall|j: int| i + 1 <= j < n implies shared_map_view(
                            *m,
                        ).dom().contains(#[trigger] key_seq[j]) by {
                            assert(key_seq[j] != key_seq[i as int]);
                        }
                    }
                }
            },
            None => {},
        }
        i = i + 1;
    }
    proof {
        let cur = shared_map_view(*m);
        let live = live_keys(orig, now_ms);
        assert forall|k: Seq<char>| #[trigger] cur.dom().contains(k) implies orig.restrict(
            live,
        ).dom().contains(k) && cur[k] == orig.restrict(live)[k] by {
            assert(key_seq.to_set().contains(k));
            let j = choose|j: int| 0 <= j < key_seq.len() && key_seq[j] == k;
            assert(fresh_count(orig[k], now_ms, RETENTION_MS) > 0);
            assert(window_of(orig, k) == orig[k]);
            assert(live.contains(k));
        }
        assert forall|k: Seq<char>| orig.restrict(live).dom().contains(k) implies cur.dom().contains(
            k,
        ) by {
            assert(orig.dom().contains(k));
            assert(key_seq.to_set().contains(k));
            let j = choose|j: int| 0 <= j < key_seq.len() && key_seq[j] == k;
            assert(window_of(orig, k) == orig[k]);
        }
        assert(cur =~= orig.restrict(live));
    }
}

/// Rolling-window metric registry.
pub struct MetricRegistry {
    cpu: SampleMap,
    mem: SampleMap,
}

impl MetricRegistry {
    /// The CPU windows, keyed by container id.
    pub closed spec fn cpu_view(self) -> Map<Seq<char>, Seq<(u64, u64)>> {
        shared_map_view(self.cpu)
    }

    /// The memory windows, keyed by container id.
    pub closed spec fn mem_view(self) -> Map<Seq<char>, Seq<(u64, u64)>> {
        shared_map_view(self.mem)
    }

    /// Every stored window is ordered by timestamp.
    pub open spec fn wf(self) -> bool {
        &&& forall|k: Seq<char>|
            self.cpu_view().dom().contains(k) ==> time_ordered(#[trigger] self.cpu_view()[k])
        &&& forall|k: Seq<char>|
            self.mem_view().dom().contains(k) ==> time_ordered(#[trigger] self.mem_view()[k])
    }

    /// An empty registry.
    pub fn new() -> (r: MetricRegistry)
        ensures
            r.wf(),
            r.cpu_view() == Map::<Seq<char>, Seq<(u64, u64)>>::empty(),
            r.mem_view() == Map::<Seq<char>, Seq<(u64, u64)>>::empty(),
    {
        MetricRegistry { cpu: shared_map_new(), mem: shared_map_new() }
    }

    /// Appends one CPU utilization sample (in thousandths of a core) taken at
    /// `now_ms` to the container's window, evicting samples older than the
    /// retention horizon. Never fails.
    pub fn record_cpu(&mut self, id: &str, now_ms: u64, cpu_milli: u64)
        requires
            old(self).wf(),
            taken_by(window_of(old(self).cpu_view(), id@), now_ms),
        ensures
            final(self).wf(),
            final(self).cpu_view() == old(self).cpu_view().insert(
                id@,
                recorded(window_of(old(self).cpu_view(), id@), now_ms, cpu_milli),
            ),
            final(self).mem_view() == old(self).mem_view(),
            forall|i: int|
                0 <= i < final(self).cpu_view()[id@].len() ==> in_window(
                    #[trigger] final(self).cpu_view()[id@][i],
                    now_ms,
                    RETENTION_MS,
                ),
            taken_by(final(self).cpu_view()[id@], now_ms),
    {
        let mut w = match shared_map_get(&self.cpu, id) {
            Some(w) => w,
            None => VecDeque::new(),
        };
        window_record(&mut w, now_ms, cpu_milli);
        shared_map_put(&mut self.cpu, id, w);
        proof {
            assert forall|k: Seq<char>| self.cpu_view().dom().contains(k) implies time_ordered(
                #[trigger] self.cpu_view()[k],
            ) by {
                if k != id@ {
                    assert(self.cpu_view()[k] == old(self).cpu_view()[k]);
                }
            }
            assert forall|k: Seq<char>| self.mem_view().dom().contains(k) implies time_ordered(
                #[trigger] self.mem_view()[k],
            ) by {
                assert(self.mem_view()[k] == old(self).mem_view()[k]);
            }
        }
    }

    /// Appends one memory sample (in bytes) taken at `now_ms` to the
    /// container's window, evicting samples older than the retention
    /// horizon. Never fails.
    pub fn record_mem(&mut self, id: &str, now_ms: u64, bytes: u64)
        requires
            old(self).wf(),
            taken_by(window_of(old(self).mem_view(), id@), now_ms),
        ensures
            final(self).wf(),
            final(self).mem_view() == old(self).mem_view().insert(
                id@,
                recorded(window_of(old(self).mem_view(), id@), now_ms, bytes),
            ),
            final(self).cpu_view() == old(self).cpu_view(),
            forall|i: int|
                0 <= i < final(self).mem_view()[id@].len() ==> in_window(
                    #[trigger] final(self).mem_view()[id@][i],
                    now_ms,
                    RETENTION_MS,
                ),
            taken_by(final(self).mem_view()[id@], now_ms),
    {
        let mut w = match shared_map_get(&self.mem, id) {
            Some(w) => w,
            None => VecDeque::new(),
        };
        window_record(&mut w, now_ms, bytes);
        shared_map_put(&mut self.mem, id, w);
        proof {
            assert forall|k: Seq<char>| self.mem_view().dom().contains(k) implies time_ordered(
                #[trigger] self.mem_view()[k],
            ) by {
                if k != id@ {
                    assert(self.mem_view()[k] == old(self).mem_view()[k]);
                }
            }
            assert forall|k: Seq<char>| self.cpu_view().dom().contains(k) implies time_ordered(
                #[trigger] self.cpu_view()[k],
            ) by {
                assert(self.cpu_view()[k] == old(self).cpu_view()[k]);
            }
        }
    }

    /// Mean CPU utilization (thousandths of a core, rounded down) over the
    /// samples of the trailing `window_ms` milliseconds, or `None` when the
    /// container is unknown or no sample falls inside the window.
    pub fn cpu_avg(&self, id: &str, now_ms: u64, window_ms: u64) -> (r: Option<u64>)
        ensures
            r == average_of(self.cpu_view(), id@, now_ms, window_ms),
            r is None <==> fresh_count(window_of(self.cpu_view(), id@), now_ms, window_ms) == 0,
    {
        match shared_map_get(&self.cpu, id) {
            None => None,
            Some(w) => window_average(&w, now_ms, window_ms),
        }
    }

    /// Largest memory sample (bytes) over the trailing `window_ms`
    /// milliseconds, or `None` when the container is unknown or no sample
    /// falls inside the window.
    pub fn mem_max(&self, id: &str, now_ms: u64, window_ms: u64) -> (r: Option<u64>)
        ensures
            r == maximum_of(self.mem_view(), id@, now_ms, window_ms),
            r is None <==> fresh_count(window_of(self.mem_view(), id@), now_ms, window_ms) == 0,
    {
        match shared_map_get(&self.mem, id) {
            None => None,
            Some(w) => window_maximum(&w, now_ms, window_ms),
        }
    }

    /// The ids of every container that ever received a CPU sample, each
    /// exactly once, in no particular order.
    pub fn container_ids(&self) -> (r: Vec<String>)
        ensures
            r@.map_values(|s: String| s@).to_set() == self.cpu_view().dom(),
            r@.map_values(|s: String| s@).no_duplicates(),
    {
        shared_map_keys(&self.cpu)
    }

    /// Drops every container whose windows hold no sample inside the
    /// retention horizon as of `now_ms`, so ids of long-gone containers do
    /// not accumulate in the registry forever.
    pub fn sweep_stale(&mut self, now_ms: u64)
        requires
            old(self).wf(),
        ensures
            final(self).wf(),
            final(self).cpu_view() == old(self).cpu_view().restrict(
                live_keys(old(self).cpu_view(), now_ms),
            ),
            final(self).mem_view() == old(self).mem_view().restrict(
                live_keys(old(self).mem_view(), now_ms),
            ),
    {
        sweep_map(&mut self.cpu, now_ms);
        sweep_map(&mut self.mem, now_ms);
        proof {
            assert forall|k: Seq<char>| self.cpu_view().dom().contains(k) implies time_ordered(
                #[trigger] self.cpu_view()[k],
            ) by {
                assert(self.cpu_view()[k] == old(self).cpu_view()[k]);
            }
            assert forall|k: Seq<char>| self.mem_view().dom().contains(k) implies time_ordered(
                #[trigger] self.mem_view()[k],
            ) by {
                assert(self.mem_view()[k] == old(self).mem_view()[k]);
            }
        }
    }

    /// One row per known container: id, windowed CPU average and windowed
    /// memory maximum, as the metrics exposition reports them.
    pub fn stats_rows(&self, now_ms: u64, window_ms: u64) -> (r: Vec<(String, Option<u64>, Option<
        u64,
    >)>)
        ensures
            r@.map_values(|t: (String, Option<u64>, Option<u64>)| t.0@).to_set()
                == self.cpu_view().dom(),
            forall|i: int|
                0 <= i < r@.len() ==> ((#[trigger] r@[i]).1 == average_of(
                    self.cpu_view(),
                    r@[i].0@,
                    now_ms,
                    window_ms,
                ) && r@[i].2 == maximum_of(self.mem_view(), r@[i].0@, now_ms, window_ms)),
    {
        let ids = self.container_ids();
        let mut rows: Vec<(String, Option<u64>, Option<u64>)> = Vec::new();
        let mut j: usize = 0;
        while j < ids.len()
            invariant
                j <= ids@.len(),
                rows@.len() == j,
                forall|i: int| 0 <= i < j ==> (#[trigger] rows@[i]).0 == ids@[i],
                forall|i: int|
                    0 <= i < j ==> ((#[trigger] rows@[i]).1 == average_of(
                        self.cpu_view(),
                        rows@[i].0@,
                        now_ms,
                        window_ms,
                    ) && rows@[i].2 == maximum_of(self.mem_view(), rows@[i].0@, now_ms, window_ms)),
                ids@.map_values(|s: String| s@).to_set() == self.cpu_view().dom(),
            decreases ids@.len() - j,
        {
            let id = ids[j].clone();
            let avg = self.cpu_avg(id.as_str(), now_ms, window_ms);
            let max = self.mem_max(id.as_str(), now_ms, window_ms);
            rows.push((id, avg, max));
            j = j + 1;
        }
        proof {
            assert(rows@.map_values(|t: (String, Option<u64>, Option<u64>)| t.0@)
                =~= ids@.map_values(|s: String| s@));
        }
        rows
    }
}

} // verus!
