//! Judging a resolver's cache by its answers over successive polls.
use std::collections::VecDeque;

use vstd::prelude::*;

use crate::clock::{Instant, NANOS_PER_SEC};
use crate::rows::{Observation, TtlVerdict};
use crate::text;

verus! {

/// How often the watch polls, in seconds. Propagation mostly moves when a TTL
/// runs out, so that more often than once a minute is plenty.
pub const POLL_INTERVAL: u64 = 30;

/// Slack on top of a reported TTL before a cache is called stale, in seconds:
/// an answer can be one poll old, and then there is the way it took.
pub const TTL_GRACE: u64 = 35;

/// How many answers are kept of one resolver; the oldest are dropped first.
pub const HISTORY_CAP: usize = 32;

/// How many of the observations right before `i` hold the same values as the
/// last one of all.
pub open spec fn same_before(h: Seq<Observation>, i: int) -> int
    decreases i,
{
    if 0 < i <= h.len() && text::texts(h[i - 1].values@) == text::texts(h.last().values@) {
        1 + same_before(h, i - 1)
    } else {
        0
    }
}

/// How many observations at the end hold the same values.
pub open spec fn streak(h: Seq<Observation>) -> int {
    same_before(h, h.len() as int)
}

/// Where the streak at the end begins.
pub open spec fn streak_start(h: Seq<Observation>) -> int {
    h.len() - streak(h)
}

/// Did the TTL rise within the streak? Then the resolver fetched the answer
/// anew, and got the old data.
pub open spec fn refetched(h: Seq<Observation>) -> bool {
    exists|i: int|
        streak_start(h) < i < h.len() && (#[trigger] h[i]).min_ttl > h[i - 1].min_ttl
}

/// Is the answer older than the TTL that it was first seen with allows?
pub open spec fn outlived(first: Observation, now: Instant) -> bool {
    now.nanos > first.at.nanos + (first.min_ttl + TTL_GRACE) * NANOS_PER_SEC
}

/// What the observations say of a cache. One observation proves nothing.
pub open spec fn verdict(h: Seq<Observation>, now: Instant) -> Option<TtlVerdict> {
    if streak(h) < 2 {
        None
    } else if refetched(h) {
        Some(TtlVerdict::Upstream)
    } else if outlived(h[streak_start(h)], now) {
        Some(TtlVerdict::PastTtl)
    } else {
        None
    }
}

/// The streak counts observations, and all of them hold the same values.
pub proof fn same_before_bounds(h: Seq<Observation>, i: int)
    requires
        0 <= i <= h.len(),
    ensures
        0 <= same_before(h, i) <= i,
        i == h.len() && i > 0 ==> same_before(h, i) >= 1,
    decreases i,
{
    if i > 0 {
        same_before_bounds(h, i - 1);
    }
}

/// What the observations say of a cache.
pub fn judge(h: &VecDeque<Observation>, now: Instant) -> (out: Option<TtlVerdict>)
    ensures
        out == verdict(h@, now),
{
    let len = h.len();
    if len == 0 {
        return None;
    }
    let mut start: usize = len;
    while start > 0 && text::same_list(&h[start - 1].values, &h[len - 1].values)
        invariant
            start <= len,
            len == h@.len(),
            len > 0,
            streak(h@) == (len - start) + same_before(h@, start as int),
        decreases start,
    {
        start -= 1;
    }
    proof {
        same_before_bounds(h@, start as int);
        same_before_bounds(h@, len as int);
    }
    if len - start < 2 {
        return None;
    }
    let mut i: usize = start + 1;
    while i < len
        invariant
            start < i <= len,
            len == h@.len(),
            start == streak_start(h@),
            streak(h@) >= 2,
            forall|k: int| start < k < i ==> (#[trigger] h@[k]).min_ttl <= h@[k - 1].min_ttl,
        decreases len - i,
    {
        if h[i].min_ttl > h[i - 1].min_ttl {
            assert(h@[i as int].min_ttl > h@[i - 1].min_ttl);
            return Some(TtlVerdict::Upstream);
        }
        i += 1;
    }
    let first = &h[start];
    let age = now.saturating_duration_since(first.at).nanos;
    if age > (first.min_ttl as u64 + TTL_GRACE) * NANOS_PER_SEC {
        Some(TtlVerdict::PastTtl)
    } else {
        None
    }
}

/// `h` with `o` at the end, and without the oldest when there is no room.
pub open spec fn remembered(h: Seq<Observation>, o: Observation) -> Seq<Observation> {
    if h.len() == HISTORY_CAP {
        h.drop_first().push(o)
    } else {
        h.push(o)
    }
}

/// Keeps one more observation.
pub fn remember(h: &mut VecDeque<Observation>, o: Observation)
    ensures
        final(h)@ == remembered(old(h)@, o),
        old(h)@.len() <= HISTORY_CAP ==> final(h)@.len() <= HISTORY_CAP,
{
    if h.len() == HISTORY_CAP {
        let _ = h.pop_front();
        assert(h@ =~= old(h)@.drop_first());
    }
    h.push_back(o);
}

// ---------------------------------------------------------------- laws

/// No cache is judged on one observation of its current answer.
pub proof fn one_observation_proves_nothing(h: Seq<Observation>, now: Instant)
    requires
        h.len() <= 1 || text::texts(h[h.len() - 2].values@) != text::texts(h.last().values@),
    ensures
        verdict(h, now) is None,
{
    reveal_with_fuel(same_before, 3);
}

/// A changed answer is fresh, so that nothing is said of the cache any more.
pub proof fn changed_answer_clears_the_verdict(h: Seq<Observation>, o: Observation, now: Instant)
    requires
        h.len() > 0 ==> text::texts(h.last().values@) != text::texts(o.values@),
    ensures
        verdict(remembered(h, o), now) is None,
{
    let after = remembered(h, o);
    if after.len() > 1 {
        assert(after[after.len() - 2] == h.last());
    }
    one_observation_proves_nothing(after, now);
}

/// A cache stays judged: a verdict of staleness, once reached, holds at every
/// later time, as long as nothing new is observed.
pub proof fn staleness_lasts(h: Seq<Observation>, earlier: Instant, later: Instant)
    requires
        earlier.nanos <= later.nanos,
        verdict(h, earlier) is Some,
    ensures
        verdict(h, later) == verdict(h, earlier),
{
}

/// Do exactly the last `k` observations hold the same values?
pub open spec fn same_tail(h: Seq<Observation>, k: int) -> bool {
    &&& 1 <= k <= h.len()
    &&& forall|i: int|
        h.len() - k <= i < h.len() ==> text::texts((#[trigger] h[i]).values@) == text::texts(
            h[h.len() - 1].values@,
        )
    &&& k < h.len() ==> text::texts(h[h.len() - k - 1].values@) != text::texts(
        h[h.len() - 1].values@,
    )
}

/// The streak is the tail of equal answers.
proof fn streak_of_tail(h: Seq<Observation>, k: int, i: int)
    requires
        same_tail(h, k),
        h.len() - k <= i <= h.len(),
    ensures
        same_before(h, i) == i - (h.len() - k),
    decreases i,
{
    if i > h.len() - k {
        assert(text::texts(h[i - 1].values@) == text::texts(h[h.len() - 1].values@));
        streak_of_tail(h, k, i - 1);
    }
}

/// Every tail of two or more equal answers is judged: if some TTL in it is
/// above the one before, the lag is upstream; else the cache is stale once its
/// first answer's TTL and 35 seconds have passed. A shorter tail is not judged,
/// nor is a resolver that was never seen.
pub proof fn every_tail_is_judged(h: Seq<Observation>, k: int, now: Instant)
    requires
        same_tail(h, k),
    ensures
        k == 1 ==> verdict(h, now) is None,
        k >= 2 && (exists|i: int|
            h.len() - k < i < h.len() && (#[trigger] h[i]).min_ttl > h[i - 1].min_ttl) ==> verdict(
            h,
            now,
        ) == Some(TtlVerdict::Upstream),
        k >= 2 && (forall|i: int|
            h.len() - k < i < h.len() ==> (#[trigger] h[i]).min_ttl <= h[i - 1].min_ttl) ==> verdict(
            h,
            now,
        ) == if now.nanos > h[h.len() - k].at.nanos + (h[h.len() - k].min_ttl + 35)
            * 1_000_000_000 {
            Some(TtlVerdict::PastTtl)
        } else {
            None
        },
{
    streak_of_tail(h, k, h.len() as int);
}

/// Nothing is said of a resolver that was never seen.
pub proof fn nothing_seen_nothing_said(now: Instant)
    ensures
        verdict(Seq::empty(), now) is None,
{
}

/// Whatever was seen, some tail of it holds the same values.
pub proof fn every_history_has_a_tail(h: Seq<Observation>) -> (k: int)
    requires
        h.len() > 0,
    ensures
        same_tail(h, k),
        k == streak(h),
{
    let k = streak(h);
    same_before_bounds(h, h.len() as int);
    streak_holds_same(h, h.len() as int);
    k
}

/// What the streak counts are equal answers, and the answer before it differs.
proof fn streak_holds_same(h: Seq<Observation>, i: int)
    requires
        0 <= i <= h.len(),
    ensures
        0 <= same_before(h, i) <= i,
        forall|j: int|
            i - same_before(h, i) <= j < i ==> text::texts((#[trigger] h[j]).values@)
                == text::texts(h.last().values@),
        same_before(h, i) < i ==> text::texts(h[i - same_before(h, i) - 1].values@)
            != text::texts(h.last().values@),
    decreases i,
{
    if i > 0 && text::texts(h[i - 1].values@) == text::texts(h.last().values@) {
        streak_holds_same(h, i - 1);
    }
}

/// Seeing the same answer once more, with a TTL that is not higher and at no
/// earlier time, never takes a verdict away or changes it. With a higher TTL it
/// shows that the lag is upstream.
pub proof fn seeing_the_same_again_keeps_the_verdict(
    h: Seq<Observation>,
    o: Observation,
    now: Instant,
    later: Instant,
)
    requires
        0 < h.len() < 32,
        text::texts(o.values@) == text::texts(h[h.len() - 1].values@),
        now.nanos <= later.nanos,
    ensures
        remembered(h, o) == h.push(o),
        verdict(h, now) is Some && o.min_ttl <= h[h.len() - 1].min_ttl ==> verdict(
            remembered(h, o),
            later,
        ) == verdict(h, now),
        o.min_ttl > h[h.len() - 1].min_ttl ==> verdict(remembered(h, o), later) == Some(
            TtlVerdict::Upstream,
        ),
        verdict(h, now) == Some(TtlVerdict::Upstream) ==> verdict(remembered(h, o), later) == Some(
            TtlVerdict::Upstream,
        ),
{
    let k = every_history_has_a_tail(h);
    let g = h.push(o);
    assert forall|i: int| g.len() - (k + 1) <= i < g.len() implies text::texts(
        (#[trigger] g[i]).values@,
    ) == text::texts(g[g.len() - 1].values@) by {
        if i < h.len() {
            assert(g[i] == h[i]);
        }
    }
    assert(same_tail(g, k + 1));
    streak_of_tail(g, k + 1, g.len() as int);
    if refetched(h) {
        let i = choose|i: int|
            streak_start(h) < i < h.len() && (#[trigger] h[i]).min_ttl > h[i - 1].min_ttl;
        assert(g[i].min_ttl > g[i - 1].min_ttl);
    }
    if o.min_ttl > h[h.len() - 1].min_ttl {
        assert(g[h.len() as int].min_ttl > g[h.len() - 1].min_ttl);
    }
    if !refetched(h) && o.min_ttl <= h[h.len() - 1].min_ttl {
        assert forall|i: int| streak_start(g) < i < g.len() implies (#[trigger] g[i]).min_ttl
            <= g[i - 1].min_ttl by {
            if i < h.len() {
                assert(g[i] == h[i] && g[i - 1] == h[i - 1]);
            }
        }
    }
}

/// The last 32 answers are kept, in the order in which they came.
pub proof fn the_last_answers_are_kept(h: Seq<Observation>, o: Observation)
    requires
        h.len() <= 32,
    ensures
        remembered(h, o).len() == if h.len() < 32 {
            h.len() + 1
        } else {
            32
        },
        remembered(h, o).last() == o,
        forall|back: int|
            1 <= back < remembered(h, o).len() ==> remembered(h, o)[remembered(h, o).len() - 1
                - back] == #[trigger] h[h.len() - back],
{
}

/// A poll comes every 30 seconds, an answer may outlive its TTL by 35, which is
/// more than that, and 32 answers are remembered.
pub proof fn patience_outlasts_a_poll()
    ensures
        POLL_INTERVAL == 30,
        TTL_GRACE == 35,
        TTL_GRACE > POLL_INTERVAL,
        HISTORY_CAP == 32,
{
}

} // verus!
