//! Rolling window of timestamped samples for one key.
//!
//! A window is a time-ordered sequence of `(timestamp_ms, value)` pairs.
//! Appending a sample evicts every sample that has fallen out of the fixed
//! retention horizon, and queries scan backward from the most recent sample,
//! considering only samples that are still inside the caller's window.

use vstd::prelude::*;

verus! {

use vstd::arithmetic::div_mod::{lemma_div_is_ordered, lemma_div_multiples_vanish};
use std::collections::VecDeque;

/// How long a sample survives in a window, in milliseconds.
pub const RETENTION_MS: u64 = 60000;

/// A sample `s` taken at `s.0` still falls inside a window of `w_ms`
/// milliseconds ending at `now_ms`.
pub open spec fn in_window(s: (u64, u64), now_ms: u64, w_ms: u64) -> bool {
    s.0 + w_ms >= now_ms
}

/// Timestamps never decrease along the window.
pub open spec fn time_ordered(win: Seq<(u64, u64)>) -> bool {
    forall|i: int, j: int| 0 <= i <= j < win.len() ==> win[i].0 <= win[j].0
}

/// Length of the longest prefix of samples that have expired out of the
/// retention horizon as of `now_ms`.
pub open spec fn expired_prefix(win: Seq<(u64, u64)>, now_ms: u64) -> nat
    decreases win.len(),
{
    if win.len() == 0 {
        0
    } else if !in_window(win[0], now_ms, RETENTION_MS) {
        1 + expired_prefix(win.skip(1), now_ms)
    } else {
        0
    }
}

/// The window after recording `value` at `now_ms`: expired head samples are
/// evicted and the new sample is appended.
pub open spec fn recorded(win: Seq<(u64, u64)>, now_ms: u64, value: u64) -> Seq<(u64, u64)> {
    win.skip(expired_prefix(win, now_ms) as int).push((now_ms, value))
}

/// How many of the most recent samples a backward scan bounded by `w_ms`
/// considers: the longest suffix of samples still inside the window.
pub open spec fn fresh_count(win: Seq<(u64, u64)>, now_ms: u64, w_ms: u64) -> nat
    decreases win.len(),
{
    if win.len() == 0 {
        0
    } else if in_window(win.last(), now_ms, w_ms) {
        1 + fresh_count(win.drop_last(), now_ms, w_ms)
    } else {
        0
    }
}

/// Sum of the values of a window.
pub open spec fn win_sum(win: Seq<(u64, u64)>) -> int
    decreases win.len(),
{
    if win.len() == 0 {
        0
    } else {
        win[0].1 + win_sum(win.skip(1))
    }
}

/// Largest value of a window; 0 for an empty window.
pub open spec fn win_max(win: Seq<(u64, u64)>) -> int
    decreases win.len(),
{
    if win.len() == 0 {
        0
    } else if win[0].1 >= win_max(win.skip(1)) {
        win[0].1 as int
    } else {
        win_max(win.skip(1))
    }
}

/// The samples a query bounded by `w_ms` considers at `now_ms`: the longest
/// still-in-window suffix.
pub open spec fn considered(win: Seq<(u64, u64)>, now_ms: u64, w_ms: u64) -> Seq<(u64, u64)> {
    win.skip(win.len() - fresh_count(win, now_ms, w_ms))
}

/// Basic bounds of `fresh_count`: it never exceeds the window's length, and
/// every sample it counts is inside the query window.
pub proof fn lemma_fresh_count_bounds(win: Seq<(u64, u64)>, now_ms: u64, w_ms: u64)
    ensures
        fresh_count(win, now_ms, w_ms) <= win.len(),
        forall|j: int|
            win.len() - fresh_count(win, now_ms, w_ms) <= j < win.len() ==> in_window(
                win[j],
                now_ms,
                w_ms,
            ),
    decreases win.len(),
{
    if win.len() > 0 && in_window(win.last(), now_ms, w_ms) {
        lemma_fresh_count_bounds(win.drop_last(), now_ms, w_ms);
        assert forall|j: int|
            win.len() - fresh_count(win, now_ms, w_ms) <= j < win.len() implies in_window(
            win[j],
            now_ms,
            w_ms,
        ) by {
            if j < win.len() - 1 {
                assert(win.drop_last()[j] == win[j]);
            }
        }
    }
}

/// Widening the query window never decreases the number of samples a query
/// considers.
pub proof fn lemma_wider_window_considers_no_fewer(
    win: Seq<(u64, u64)>,
    now_ms: u64,
    w1_ms: u64,
    w2_ms: u64,
)
    requires
        w1_ms <= w2_ms,
    ensures
        fresh_count(win, now_ms, w1_ms) <= fresh_count(win, now_ms, w2_ms),
    decreases win.len(),
{
    if win.len() > 0 {
        lemma_wider_window_considers_no_fewer(win.drop_last(), now_ms, w1_ms, w2_ms);
    }
}

/// The sum of a window is bounded by its length times the largest
/// representable value.
proof fn lemma_win_sum_bound(win: Seq<(u64, u64)>)
    ensures
        0 <= win_sum(win) <= win.len() * (u64::MAX as int),
    decreases win.len(),
{
    if win.len() > 0 {
        lemma_win_sum_bound(win.skip(1));
        assert(win.len() * (u64::MAX as int) == (win.len() - 1) * (u64::MAX as int) + (
        u64::MAX as int)) by (nonlinear_arith);
    }
}

/// Appends a sample taken at `now_ms` and evicts every sample that is older
/// than the retention horizon from the head of the window.
pub fn window_record(win: &mut VecDeque<(u64, u64)>, now_ms: u64, value: u64)
    requires
        time_ordered(old(win)@),
        forall|i: int| 0 <= i < old(win)@.len() ==> old(win)@[i].0 <= now_ms,
    ensures
        final(win)@ == recorded(old(win)@, now_ms, value),
        time_ordered(final(win)@),
        forall|i: int|
            0 <= i < final(win)@.len() ==> in_window(final(win)@[i], now_ms, RETENTION_MS),
        forall|i: int| 0 <= i < final(win)@.len() ==> final(win)@[i].0 <= now_ms,
{
    let ghost orig = win@;
    let orig_len = win.len();
    let cutoff: u64 = if now_ms >= RETENTION_MS {
        now_ms - RETENTION_MS
    } else {
        0
    };
    let mut popped: usize = 0;
    proof {
        assert(orig.skip(0) =~= orig);
    }
    while win.len() > 0 && win[0].0 < cutoff
        invariant
            popped <= orig.len() == orig_len,
            win@ == orig.skip(popped as int),
            expired_prefix(orig, now_ms) == popped + expired_prefix(win@, now_ms),
            cutoff == if now_ms >= RETENTION_MS {
                now_ms - RETENTION_MS
            } else {
                0
            },
        decreases win@.len(),
    {
        proof {
            assert(win@[0].0 < cutoff ==> !in_window(win@[0], now_ms, RETENTION_MS));
            assert(orig.skip(popped as int).skip(1) =~= orig.skip(popped + 1));
        }
        let _ = win.pop_front();
        popped = popped + 1;
    }
    proof {
        if win@.len() > 0 {
            assert(win@[0].0 >= cutoff);
            assert(in_window(win@[0], now_ms, RETENTION_MS));
        }
        assert(expired_prefix(win@, now_ms) == 0);
    }
    win.push_back((now_ms, value));
    proof {
        assert(win@ =~= recorded(orig, now_ms, value));
        assert(forall|i: int, j: int|
            0 <= i <= j < win@.len() - 1 ==> win@[i].0 <= win@[j].0);
        assert forall|i: int| 0 <= i < win@.len() implies in_window(
            win@[i],
            now_ms,
            RETENTION_MS,
        ) by {
            if i < win@.len() - 1 {
                assert(win@[i].0 >= win@[0].0);
            }
        }
    }
}

/// Arithmetic mean (rounded down) of the values of every sample that a
/// backward scan bounded by `window_ms` considers, or `None` when it
/// considers none.
pub fn window_average(win: &VecDeque<(u64, u64)>, now_ms: u64, window_ms: u64) -> (r: Option<u64>)
    ensures
        ({
            let n = fresh_count(win@, now_ms, window_ms) as int;
            &&& (r is None <==> n == 0)
            &&& (r matches Some(a) ==> a == win_sum(considered(win@, now_ms, window_ms)) / n)
            &&& forall|j: int|
                win@.len() - n <= j < win@.len() ==> in_window(win@[j], now_ms, window_ms)
        }),
{
    proof {
        lemma_fresh_count_bounds(win@, now_ms, window_ms);
    }
    let cutoff: u64 = if now_ms >= window_ms {
        now_ms - window_ms
    } else {
        0
    };
    let len = win.len();
    let mut i: usize = len;
    let mut sum: u128 = 0;
    proof {
        assert(win@.take(len as int) =~= win@);
        assert(win@.skip(len as int).len() == 0);
    }
    while i > 0 && win[i - 1].0 >= cutoff
        invariant
            i <= len,
            len == win@.len(),
            sum == win_sum(win@.skip(i as int)),
            fresh_count(win@, now_ms, window_ms) == len - i + fresh_count(
                win@.take(i as int),
                now_ms,
                window_ms,
            ),
            cutoff == if now_ms >= window_ms {
                now_ms - window_ms
            } else {
                0
            },
        decreases i,
    {
        proof {
            lemma_win_sum_bound(win@.skip(i - 1));
            assert(win@.skip(i - 1)[0] == win@[i - 1]);
            assert(win@.skip(i - 1).skip(1) =~= win@.skip(i as int));
            assert(win@.take(i as int).last() == win@[i - 1]);
            assert(in_window(win@[i - 1], now_ms, window_ms));
            assert(win@.take(i as int).drop_last() =~= win@.take(i - 1));
            assert((len - i + 1) * (u64::MAX as int) <= (u64::MAX as int + 1) * (
            u64::MAX as int)) by (nonlinear_arith)
                requires
                    len - i + 1 <= u64::MAX as int + 1;
        }
        sum = sum + win[i - 1].1 as u128;
        i = i - 1;
    }
    proof {
        if i > 0 {
            assert(!in_window(win@[i - 1], now_ms, window_ms));
            assert(win@.take(i as int).last() == win@[i - 1]);
            assert(fresh_count(win@.take(i as int), now_ms, window_ms) == 0);
        } else {
            assert(win@.take(0).len() == 0);
        }
    }
    let count = len - i;
    if count == 0 {
        None
    } else {
        proof {
            assert(considered(win@, now_ms, window_ms) == win@.skip(i as int));
            lemma_win_sum_bound(win@.skip(i as int));
            lemma_div_is_ordered(
                sum as int,
                count as int * (u64::MAX as int),
                count as int,
            );
            lemma_div_multiples_vanish(u64::MAX as int, count as int);
        }
        Some((sum / count as u128) as u64)
    }
}

/// Largest value among the samples that a backward scan bounded by
/// `window_ms` considers, or `None` when it considers none.
pub fn window_maximum(win: &VecDeque<(u64, u64)>, now_ms: u64, window_ms: u64) -> (r: Option<u64>)
    ensures
        ({
            let n = fresh_count(win@, now_ms, window_ms) as int;
            &&& (r is None <==> n == 0)
            &&& (r matches Some(m) ==> m == win_max(considered(win@, now_ms, window_ms)))
            &&& forall|j: int|
                win@.len() - n <= j < win@.len() ==> in_window(win@[j], now_ms, window_ms)
        }),
{
    proof {
        lemma_fresh_count_bounds(win@, now_ms, window_ms);
    }
    let cutoff: u64 = if now_ms >= window_ms {
        now_ms - window_ms
    } else {
        0
    };
    let len = win.len();
    let mut i: usize = len;
    let mut best: u64 = 0;
    proof {
        assert(win@.take(len as int) =~= win@);
        assert(win@.skip(len as int).len() == 0);
    }
    while i > 0 && win[i - 1].0 >= cutoff
        invariant
            i <= len,
            len == win@.len(),
            i < len ==> best == win_max(win@.skip(i as int)),
            i == len ==> best == 0,
            fresh_count(win@, now_ms, window_ms) == len - i + fresh_count(
                win@.take(i as int),
                now_ms,
                window_ms,
            ),
            cutoff == if now_ms >= window_ms {
                now_ms - window_ms
            } else {
                0
            },
        decreases i,
    {
        proof {
            assert(win@.skip(i - 1)[0] == win@[i - 1]);
            assert(win@.skip(i - 1).skip(1) =~= win@.skip(i as int));
            assert(win@.take(i as int).last() == win@[i - 1]);
            assert(in_window(win@[i - 1], now_ms, window_ms));
            assert(win@.take(i as int).drop_last() =~= win@.take(i - 1));
            if i == len {
                assert(win@.skip(i as int).len() == 0);
                assert(win_max(win@.skip(i as int)) == 0);
            }
        }
        let v = win[i - 1].1;
        if i == len || v >= best {
            best = v;
        }
        i = i - 1;
    }
    proof {
        if i > 0 {
            assert(!in_window(win@[i - 1], now_ms, window_ms));
            assert(win@.take(i as int).last() == win@[i - 1]);
            assert(fresh_count(win@.take(i as int), now_ms, window_ms) == 0);
        } else {
            assert(win@.take(0).len() == 0);
        }
    }
    let count = len - i;
    if count == 0 {
        None
    } else {
        proof {
            assert(considered(win@, now_ms, window_ms) == win@.skip(i as int));
        }
        Some(best)
    }
}

} // verus!
