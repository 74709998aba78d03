//! Per-cycle metric derivation: turn one container's raw cumulative counter
//! snapshot into a time-normalized CPU utilization sample and a memory
//! sample, and fold a whole cycle's observations into the registry.
//!
//! CPU utilization is reported in thousandths of a core ("milli-cores"):
//! `(cpu_delta / sys_delta) * cores * 1000`, rounded down.

use vstd::prelude::*;

verus! {

use crate::registry::{taken_by, window_of, MetricRegistry};
use crate::snapshots::{CpuSnapshot, SnapshotTracker};
use crate::window::recorded;

/// One container's raw resource counters as the daemon reported them; any
/// field may be absent from the daemon's response.
pub struct StatsObservation {
    /// Cumulative CPU usage counter of the container.
    pub cpu_total: Option<u64>,
    /// Cumulative CPU usage counter of the whole system.
    pub system_cpu: Option<u64>,
    /// Number of online cores; absent or zero falls back to 1.
    pub online_cores: Option<u32>,
    /// Current memory usage in bytes; absent falls back to 0.
    pub memory_bytes: Option<u64>,
}

/// The core count a derivation uses: the reported count, or 1 when it is
/// absent or zero.
pub open spec fn cores_of(obs: StatsObservation) -> u32 {
    match obs.online_cores {
        Some(c) => if c >= 1 {
            c
        } else {
            1
        },
        None => 1,
    }
}

/// The memory value a cycle records: the reported bytes, or 0 when absent.
pub open spec fn memory_of(obs: StatsObservation) -> u64 {
    match obs.memory_bytes {
        Some(b) => b,
        None => 0,
    }
}

/// CPU utilization in milli-cores derived from the previous and current
/// counter pair: `(cpu_delta / sys_delta) * cores * 1000` rounded down and
/// clamped to `u64`, with both deltas clamped at 0; exactly 0 on the first
/// observation and whenever either delta is not positive.
pub open spec fn fraction_milli(prev: Option<CpuSnapshot>, total: u64, sys: u64, cores: u32) -> u64 {
    match prev {
        None => 0,
        Some(p) => {
            let cpu_delta = if total >= p.total_usage {
                total - p.total_usage
            } else {
                0
            };
            let sys_delta = if sys >= p.system_usage {
                sys - p.system_usage
            } else {
                0
            };
            if sys_delta > 0 && cpu_delta > 0 {
                let f = cpu_delta * (cores as int) * 1000 / sys_delta;
                if f > u64::MAX {
                    u64::MAX
                } else {
                    f as u64
                }
            } else {
                0
            }
        },
    }
}

/// Computes `fraction_milli` on machine integers.
pub fn cpu_fraction_milli(prev: Option<CpuSnapshot>, total: u64, sys: u64, cores: u32) -> (r: u64)
    ensures
        r == fraction_milli(prev, total, sys, cores),
        prev is None ==> r == 0,
        prev matches Some(p) && (total <= p.total_usage || sys <= p.system_usage) ==> r == 0,
{
    match prev {
        None => 0,
        Some(p) => {
            let cpu_delta = total.saturating_sub(p.total_usage);
            let sys_delta = sys.saturating_sub(p.system_usage);
            if sys_delta > 0 && cpu_delta > 0 {
                proof {
                    assert(cpu_delta as int * (cores as int) * 1000 <= 0xffff_ffff_ffff_ffff
                        * 0xffff_ffff * 1000) by (nonlinear_arith)
                        requires
                            0 <= cpu_delta as int <= 0xffff_ffff_ffff_ffff,
                            0 <= cores as int <= 0xffff_ffff,
                    ;
                }
                let num: u128 = cpu_delta as u128 * (cores as u128) * 1000;
                let f: u128 = num / (sys_delta as u128);
                if f > u64::MAX as u128 {
                    u64::MAX
                } else {
                    f as u64
                }
            } else {
                0
            }
        },
    }
}

/// The registry's CPU map, memory map and the snapshot map after one
/// container's observation is folded in. A response missing either CPU
/// counter skips the container entirely; otherwise a CPU sample and a
/// memory sample are recorded at `now_ms` and the stored counter pair is
/// overwritten unconditionally, so the next cycle has a fresh baseline.
pub open spec fn poll_step(
    cpu: Map<Seq<char>, Seq<(u64, u64)>>,
    mem: Map<Seq<char>, Seq<(u64, u64)>>,
    snaps: Map<Seq<char>, CpuSnapshot>,
    id: Seq<char>,
    obs: StatsObservation,
    now_ms: u64,
) -> (Map<Seq<char>, Seq<(u64, u64)>>, Map<Seq<char>, Seq<(u64, u64)>>, Map<
    Seq<char>,
    CpuSnapshot,
>) {
    if obs.cpu_total is None || obs.system_cpu is None {
        (cpu, mem, snaps)
    } else {
        let total = obs.cpu_total->0;
        let sys = obs.system_cpu->0;
        let prev = if snaps.dom().contains(id) {
            Some(snaps[id])
        } else {
            None
        };
        let frac = fraction_milli(prev, total, sys, cores_of(obs));
        (
            cpu.insert(id, recorded(window_of(cpu, id), now_ms, frac)),
            mem.insert(id, recorded(window_of(mem, id), now_ms, memory_of(obs))),
            snaps.insert(id, CpuSnapshot { total_usage: total, system_usage: sys }),
        )
    }
}

/// Every stored sample was taken no later than `now_ms`.
pub open spec fn quiesced(view: Map<Seq<char>, Seq<(u64, u64)>>, now_ms: u64) -> bool {
    forall|k: Seq<char>| view.dom().contains(k) ==> taken_by(#[trigger] view[k], now_ms)
}

/// Folds one container's observation into the registry and the snapshot
/// tracker, exactly as `poll_step` describes.
pub fn process_container_stats(
    registry: &mut MetricRegistry,
    tracker: &mut SnapshotTracker,
    id: &str,
    obs: &StatsObservation,
    now_ms: u64,
)
    requires
        old(registry).wf(),
        old(tracker).wf(),
        taken_by(window_of(old(registry).cpu_view(), id@), now_ms),
        taken_by(window_of(old(registry).mem_view(), id@), now_ms),
    ensures
        final(registry).wf(),
        final(tracker).wf(),
        taken_by(window_of(final(registry).cpu_view(), id@), now_ms),
        taken_by(window_of(final(registry).mem_view(), id@), now_ms),
        (final(registry).cpu_view(), final(registry).mem_view(), final(tracker).view())
            == poll_step(
            old(registry).cpu_view(),
            old(registry).mem_view(),
            old(tracker).view(),
            id@,
            *obs,
            now_ms,
        ),
{
    let (total, sys) = match (obs.cpu_total, obs.system_cpu) {
        (Some(t), Some(s)) => (t, s),
        _ => {
            return ;
        },
    };
    let cores: u32 = match obs.online_cores {
        Some(c) => if c >= 1 {
            c
        } else {
            1
        },
        None => 1,
    };
    let prev = tracker.lookup(id);
    let frac = cpu_fraction_milli(prev, total, sys, cores);
    registry.record_cpu(id, now_ms, frac);
    tracker.store(id, CpuSnapshot { total_usage: total, system_usage: sys });
    let mem_bytes: u64 = match obs.memory_bytes {
        Some(b) => b,
        None => 0,
    };
    registry.record_mem(id, now_ms, mem_bytes);
}

/// The registry and snapshot state after a whole cycle's observations are
/// folded in, container by container, in order.
pub open spec fn poll_cycle(
    cpu: Map<Seq<char>, Seq<(u64, u64)>>,
    mem: Map<Seq<char>, Seq<(u64, u64)>>,
    snaps: Map<Seq<char>, CpuSnapshot>,
    observations: Seq<(String, StatsObservation)>,
    now_ms: u64,
) -> (Map<Seq<char>, Seq<(u64, u64)>>, Map<Seq<char>, Seq<(u64, u64)>>, Map<
    Seq<char>,
    CpuSnapshot,
>)
    decreases observations.len(),
{
    if observations.len() == 0 {
        (cpu, mem, snaps)
    } else {
        let t = poll_step(
            cpu,
            mem,
            snaps,
            observations[0].0@,
            observations[0].1,
            now_ms,
        );
        poll_cycle(t.0, t.1, t.2, observations.skip(1), now_ms)
    }
}

/// Runs one poll cycle: every container's observation is folded into the
/// registry and the snapshot tracker in order, per-container, so a reader
/// never sees a half-done cycle for any single container.
pub fn run_poll_cycle(
    registry: &mut MetricRegistry,
    tracker: &mut SnapshotTracker,
    observations: &Vec<(String, StatsObservation)>,
    now_ms: u64,
)
    requires
        old(registry).wf(),
        old(tracker).wf(),
        quiesced(old(registry).cpu_view(), now_ms),
        quiesced(old(registry).mem_view(), now_ms),
    ensures
        final(registry).wf(),
        final(tracker).wf(),
        quiesced(final(registry).cpu_view(), now_ms),
        quiesced(final(registry).mem_view(), now_ms),
        (final(registry).cpu_view(), final(registry).mem_view(), final(tracker).view())
            == poll_cycle(
            old(registry).cpu_view(),
            old(registry).mem_view(),
            old(tracker).view(),
            observations@,
            now_ms,
        ),
{
    let ghost orig_cpu = registry.cpu_view();
    let ghost orig_mem = registry.mem_view();
    let ghost orig_snaps = tracker.view();
    let n = observations.len();
    let mut i: usize = 0;
    proof {
        assert(observations@.skip(0) =~= observations@);
    }
    while i < n
        invariant
            i <= n == observations@.len(),
            registry.wf(),
            tracker.wf(),
            quiesced(registry.cpu_view(), now_ms),
            quiesced(registry.mem_view(), now_ms),
            poll_cycle(
                registry.cpu_view(),
                registry.mem_view(),
                tracker.view(),
                observations@.skip(i as int),
                now_ms,
            ) == poll_cycle(orig_cpu, orig_mem, orig_snaps, observations@, now_ms),
        decreases n - i,
    {
        let ghost pre_cpu = registry.cpu_view();
        let ghost pre_mem = registry.mem_view();
        let ghost pre_snaps = tracker.view();
        let entry = &observations[i];
        process_container_stats(registry, tracker, entry.0.as_str(), &entry.1, now_ms);
        proof {
            assert(observations@.skip(i as int)[0] == observations@[i as int]);
            assert(observations@.skip(i as int).skip(1) =~= observations@.skip(i + 1));
            assert forall|k: Seq<char>| registry.cpu_view().dom().contains(k) implies taken_by(
                #[trigger] registry.cpu_view()[k],
                now_ms,
            ) by {
                if k != entry.0@ {
                    assert(registry.cpu_view()[k] == pre_cpu[k]);
                }
            }
            assert forall|k: Seq<char>| registry.mem_view().dom().contains(k) implies taken_by(
                #[trigger] registry.mem_view()[k],
                now_ms,
            ) by {
                if k != entry.0@ {
                    assert(registry.mem_view()[k] == pre_mem[k]);
                }
            }
        }
        i = i + 1;
    }
}

} // verus!
