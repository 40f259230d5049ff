use vstd::prelude::*;

verus! {

/// A closed time range `[start, end]` during which a device was continuously
/// observed, within the gap tolerance. Times are elapsed seconds since scan
/// start.
#[derive(Clone, Copy, Debug, PartialEq, Eq, Structural)]
pub struct PresenceInterval {
    pub start: u64,
    pub end: u64,
}

/// The silent gap (seconds) that still counts as the same presence episode.
pub const DEFAULT_GAP_TOLERANCE: u64 = 5;

/// Well-formed interval history: every interval runs forward, and each
/// interval starts more than the gap tolerance after the previous one ended,
/// so the sequence is strictly increasing and non-overlapping.
pub open spec fn intervals_wf(s: Seq<PresenceInterval>, gap: u64) -> bool {
    &&& forall|i: int| 0 <= i < s.len() ==> (#[trigger] s[i]).start <= s[i].end
    &&& forall|i: int| 0 < i < s.len() ==> (#[trigger] s[i]).start > s[i - 1].end + gap
}

/// One aggregation step: a sighting at time `now` either extends the last
/// interval (the silent gap stayed within tolerance) or opens a new
/// zero-width interval at `now`.
pub open spec fn merge_step(s: Seq<PresenceInterval>, now: u64, gap: u64) -> Seq<
    PresenceInterval,
> {
    if s.len() == 0 {
        seq![PresenceInterval { start: now, end: now }]
    } else if now - s.last().end <= gap {
        s.update(s.len() - 1, PresenceInterval { start: s.last().start, end: now })
    } else {
        s.push(PresenceInterval { start: now, end: now })
    }
}

/// The interval history that a whole run of sighting timestamps for one
/// device folds to, one `merge_step` per sighting.
pub open spec fn merge_all(ts: Seq<u64>, gap: u64) -> Seq<PresenceInterval>
    decreases ts.len(),
{
    if ts.len() == 0 {
        Seq::empty()
    } else {
        merge_step(merge_all(ts.drop_last(), gap), ts.last(), gap)
    }
}

/// Timestamps arrive in non-decreasing order across a run.
pub open spec fn sorted(ts: Seq<u64>) -> bool {
    forall|i: int, j: int| 0 <= i <= j < ts.len() ==> ts[i] <= ts[j]
}

/// Applies one aggregation step to a device's interval history.
pub fn record_sighting(intervals: &mut Vec<PresenceInterval>, now: u64, gap: u64)
    requires
        old(intervals)@.len() > 0 ==> old(intervals)@.last().end <= now,
    ensures
        final(intervals)@ == merge_step(old(intervals)@, now, gap),
{
    let n = intervals.len();
    if n == 0 {
        intervals.push(PresenceInterval { start: now, end: now });
        assert(intervals@ =~= merge_step(old(intervals)@, now, gap));
    } else {
        let last = intervals[n - 1];
        if now - last.end <= gap {
            intervals.set(n - 1, PresenceInterval { start: last.start, end: now });
        } else {
            intervals.push(PresenceInterval { start: now, end: now });
        }
    }
}

/// One aggregation step preserves well-formedness, leaves the history
/// non-empty, and leaves its last interval ending at the new sighting time.
pub proof fn lemma_merge_step_wf(s: Seq<PresenceInterval>, now: u64, gap: u64)
    requires
        intervals_wf(s, gap),
        s.len() > 0 ==> s.last().end <= now,
    ensures
        intervals_wf(merge_step(s, now, gap), gap),
        merge_step(s, now, gap).len() > 0,
        merge_step(s, now, gap).last().end == now,
{
    let r = merge_step(s, now, gap);
    if s.len() == 0 {
    } else if now - s.last().end <= gap {
        assert(forall|i: int| 0 <= i < s.len() - 1 ==> r[i] == s[i]);
        assert(r.last().start == s.last().start <= s.last().end <= now);
    } else {
        assert(forall|i: int| 0 <= i < s.len() ==> r[i] == s[i]);
    }
}

/// A device sighted exactly once has the single zero-width interval `(t, t)`.
pub proof fn lemma_single_sighting(t: u64, gap: u64)
    ensures
        merge_all(seq![t], gap) == seq![PresenceInterval { start: t, end: t }],
{
    assert(seq![t].drop_last() =~= Seq::<u64>::empty());
    assert(merge_all(Seq::<u64>::empty(), gap) =~= Seq::<PresenceInterval>::empty());
    assert(seq![t].last() == t);
    assert(merge_all(seq![t], gap) == merge_step(Seq::<PresenceInterval>::empty(), t, gap));
    assert(merge_step(Seq::<PresenceInterval>::empty(), t, gap) =~= seq![
        PresenceInterval { start: t, end: t },
    ]);
}

/// Every aggregated interval history is well formed: starts never exceed
/// ends, and per device the interval sequence is strictly increasing and
/// non-overlapping. After at least one sighting the history is non-empty and
/// ends at the last sighting time.
pub proof fn lemma_merge_all_wf(ts: Seq<u64>, gap: u64)
    requires
        sorted(ts),
    ensures
        intervals_wf(merge_all(ts, gap), gap),
        ts.len() > 0 ==> merge_all(ts, gap).len() > 0 && merge_all(ts, gap).last().end
            == ts.last(),
    decreases ts.len(),
{
    if ts.len() > 0 {
        let prefix = ts.drop_last();
        assert(sorted(prefix));
        lemma_merge_all_wf(prefix, gap);
        if prefix.len() > 0 {
            assert(merge_all(prefix, gap).last().end == prefix.last());
            assert(prefix.last() <= ts.last());
        }
        lemma_merge_step_wf(merge_all(prefix, gap), ts.last(), gap);
    }
}

/// Folds a whole run of sighting timestamps for one device into its merged
/// interval history.
pub fn merge_timestamps(ts: &Vec<u64>, gap: u64) -> (r: Vec<PresenceInterval>)
    requires
        sorted(ts@),
    ensures
        r@ == merge_all(ts@, gap),
        intervals_wf(r@, gap),
{
    let mut r: Vec<PresenceInterval> = Vec::new();
    let mut i: usize = 0;
    assert(r@ =~= merge_all(ts@.take(0), gap));
    while i < ts.len()
        invariant
            i <= ts@.len(),
            sorted(ts@),
            r@ == merge_all(ts@.take(i as int), gap),
            intervals_wf(r@, gap),
            r@.len() > 0 ==> i > 0 && r@.last().end == ts@[i - 1],
        decreases ts@.len() - i,
    {
        let now = ts[i];
        proof {
            lemma_merge_step_wf(r@, now, gap);
        }
        record_sighting(&mut r, now, gap);
        proof {
            assert(ts@.take(i + 1).drop_last() =~= ts@.take(i as int));
            assert(r@ == merge_all(ts@.take(i + 1), gap));
        }
        i += 1;
    }
    proof {
        assert(ts@.take(ts@.len() as int) =~= ts@);
        lemma_merge_all_wf(ts@, gap);
    }
    r
}

} // verus!
