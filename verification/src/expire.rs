//! The expiration engine: decides, for every record, whether it must be
//! purged, and removes the matching records from the in-memory collection
//! in one order-preserving pass.
//!
//! A record is a removal candidate only if all three policies permit it:
//! time-to-live, burn-after-reads and the garbage-collection horizon. A
//! disabled burn or horizon policy is neutral (it always permits); a
//! disabled time-to-live (`expiration == 0`) never permits, so such a
//! record is never removed by the engine.

use vstd::prelude::*;

use crate::pasta::{has_id, ids_unique, views_of, Pasta, PastaView, spec_days_since_last_read};

verus! {

/// The time-to-live policy permits removal: an expiry time is set and lies
/// at or before `now`.
pub open spec fn ttl_permits(p: PastaView, now: i64) -> bool {
    p.expiration != 0 && p.expiration <= now
}

/// The burn-after-reads policy permits removal: unlimited (`0`) is neutral,
/// otherwise the read count must have reached the threshold.
pub open spec fn burn_permits(p: PastaView) -> bool {
    p.burn_after_reads == 0 || p.read_count >= p.burn_after_reads
}

/// The garbage-collection horizon permits removal: disabled (`0`) is
/// neutral, otherwise the record must have gone unread for at least
/// `gc_days` whole days.
pub open spec fn gc_permits(p: PastaView, now: i64, gc_days: u64) -> bool {
    gc_days == 0 || spec_days_since_last_read(p.last_read, now) >= gc_days
}

/// The composite expiry predicate: every policy must permit removal.
pub open spec fn removal_candidate(p: PastaView, now: i64, gc_days: u64) -> bool {
    ttl_permits(p, now) && burn_permits(p) && gc_permits(p, now, gc_days)
}

/// The records an expiration pass keeps, in their original order.
pub open spec fn survivors_of(ps: Seq<PastaView>, now: i64, gc_days: u64) -> Seq<PastaView> {
    ps.filter(|p: PastaView| !removal_candidate(p, now, gc_days))
}

/// The records an expiration pass removes, in their original order.
pub open spec fn removed_of(ps: Seq<PastaView>, now: i64, gc_days: u64) -> Seq<PastaView> {
    ps.filter(|p: PastaView| removal_candidate(p, now, gc_days))
}

impl Pasta {
    /// Evaluates the composite expiry predicate on this record.
    pub fn is_removal_candidate(&self, now: i64, gc_days: u64) -> (b: bool)
        ensures
            b == removal_candidate(self@, now, gc_days),
    {
        let ttl = self.expiration != 0 && self.expiration <= now;
        let burn = self.burn_after_reads == 0 || self.read_count >= self.burn_after_reads;
        let gc = if gc_days == 0 {
            true
        } else {
            let days = self.last_read_days_ago(now);
            proof {
                lemma_days_since_nonneg(self.last_read, now);
            }
            (days as u64) >= gc_days
        };
        ttl && burn && gc
    }
}

/// Days-since-last-read is never negative.
proof fn lemma_days_since_nonneg(last_read: i64, now: i64)
    ensures
        0 <= spec_days_since_last_read(last_read, now),
        spec_days_since_last_read(last_read, now) <= i64::MAX,
{
    if now > last_read {
        let diff = now - last_read;
        assert(0 <= diff / 86400 <= diff) by (nonlinear_arith)
            requires diff > 0;
    }
}

proof fn lemma_survivors_push(ps: Seq<PastaView>, now: i64, gc_days: u64, x: PastaView)
    ensures
        survivors_of(ps.push(x), now, gc_days) == (if !removal_candidate(x, now, gc_days) {
            survivors_of(ps, now, gc_days).push(x)
        } else {
            survivors_of(ps, now, gc_days)
        }),
{
    reveal(Seq::filter);
    assert(ps.push(x).drop_last() =~= ps);
}

proof fn lemma_removed_push(ps: Seq<PastaView>, now: i64, gc_days: u64, x: PastaView)
    ensures
        removed_of(ps.push(x), now, gc_days) == (if removal_candidate(x, now, gc_days) {
            removed_of(ps, now, gc_days).push(x)
        } else {
            removed_of(ps, now, gc_days)
        }),
{
    reveal(Seq::filter);
    assert(ps.push(x).drop_last() =~= ps);
}

/// Removes every removal candidate from the collection in one
/// order-preserving pass and hands the removed records back, so that the
/// caller can persist the removal and reclaim any attachments.
pub fn remove_expired(pastas: &mut Vec<Pasta>, now: i64, gc_days: u64) -> (removed: Vec<Pasta>)
    ensures
        views_of(final(pastas)@) == survivors_of(views_of(old(pastas)@), now, gc_days),
        views_of(removed@) == removed_of(views_of(old(pastas)@), now, gc_days),
{
    let mut work: Vec<Pasta> = Vec::new();
    core::mem::swap(pastas, &mut work);
    let ghost all: Seq<Pasta> = work@;
    let mut survivors: Vec<Pasta> = Vec::new();
    let mut removed: Vec<Pasta> = Vec::new();
    let ghost done: Seq<Pasta> = Seq::empty();
    proof {
        assert(views_of(done) =~= Seq::<PastaView>::empty());
        assert(survivors_of(views_of(done), now, gc_days) =~= Seq::<PastaView>::empty());
        assert(removed_of(views_of(done), now, gc_days) =~= Seq::<PastaView>::empty());
        reveal(Seq::filter);
    }
    while work.len() > 0
        invariant
            all =~= done + work@,
            views_of(survivors@) == survivors_of(views_of(done), now, gc_days),
            views_of(removed@) == removed_of(views_of(done), now, gc_days),
        decreases work.len(),
    {
        let p = work.remove(0);
        let ghost prev_done = done;
        proof {
            done = done.push(p);
            assert(all =~= done + work@);
            assert(views_of(done) =~= views_of(prev_done).push(p@));
            lemma_survivors_push(views_of(prev_done), now, gc_days, p@);
            lemma_removed_push(views_of(prev_done), now, gc_days, p@);
        }
        if p.is_removal_candidate(now, gc_days) {
            removed.push(p);
            assert(views_of(removed@) =~= views_of(prev_done).push(p@).filter(
                |q: PastaView| removal_candidate(q, now, gc_days),
            ));
        } else {
            survivors.push(p);
            assert(views_of(survivors@) =~= views_of(prev_done).push(p@).filter(
                |q: PastaView| !removal_candidate(q, now, gc_days),
            ));
        }
    }
    proof {
        assert(done =~= all);
    }
    core::mem::swap(pastas, &mut survivors);
    removed
}

/// One attachment to reclaim after a record's removal: delete the stored
/// file named `file_name` inside the record's attachment directory, then
/// the directory itself.
#[derive(Debug, Clone, PartialEq)]
pub struct CleanupTask {
    pub id: u64,
    pub file_name: String,
}

/// The mathematical value of a cleanup task.
#[verifier::ext_equal]
pub ghost struct CleanupTaskView {
    pub id: u64,
    pub file_name: Seq<char>,
}

impl View for CleanupTask {
    type V = CleanupTaskView;

    open spec fn view(&self) -> CleanupTaskView {
        CleanupTaskView { id: self.id, file_name: self.file_name@ }
    }
}

/// The views of a run of cleanup tasks, in order.
pub open spec fn task_views_of(ts: Seq<CleanupTask>) -> Seq<CleanupTaskView> {
    ts.map_values(|t: CleanupTask| t@)
}

/// The cleanup owed for a run of removed records: exactly one task for
/// each record that has an attachment, none for the others.
pub open spec fn spec_cleanup_tasks(removed: Seq<PastaView>) -> Seq<CleanupTaskView> {
    removed.filter(|p: PastaView| p.file is Some).map_values(
        |p: PastaView| CleanupTaskView { id: p.id, file_name: p.file->Some_0 },
    )
}

proof fn lemma_cleanup_push(ps: Seq<PastaView>, x: PastaView)
    ensures
        spec_cleanup_tasks(ps.push(x)) == (if x.file is Some {
            spec_cleanup_tasks(ps).push(CleanupTaskView { id: x.id, file_name: x.file->Some_0 })
        } else {
            spec_cleanup_tasks(ps)
        }),
{
    reveal(Seq::filter);
    assert(ps.push(x).drop_last() =~= ps);
    let pred = |p: PastaView| p.file is Some;
    let f = |p: PastaView| CleanupTaskView { id: p.id, file_name: p.file->Some_0 };
    if pred(x) {
        assert(ps.push(x).filter(pred) == ps.filter(pred).push(x));
        assert(ps.filter(pred).push(x).map_values(f) =~= ps.filter(pred).map_values(f).push(f(x)));
    }
}

/// Computes the attachment-cleanup tasks owed for a run of removed
/// records: the caller deletes each task's file and then its directory
/// (best-effort; a failure there is logged and does not undo the
/// removal). A removed record without an attachment yields no task.
pub fn cleanup_tasks(removed: &Vec<Pasta>) -> (tasks: Vec<CleanupTask>)
    ensures
        task_views_of(tasks@) == spec_cleanup_tasks(views_of(removed@)),
{
    let mut tasks: Vec<CleanupTask> = Vec::new();
    let mut i: usize = 0;
    proof {
        assert(views_of(removed@.subrange(0, 0)) =~= Seq::<PastaView>::empty());
        reveal(Seq::filter);
        assert(task_views_of(tasks@) =~= spec_cleanup_tasks(views_of(removed@.subrange(0, 0))));
    }
    while i < removed.len()
        invariant
            i <= removed@.len(),
            task_views_of(tasks@) == spec_cleanup_tasks(views_of(removed@.subrange(0, i as int))),
        decreases removed@.len() - i,
    {
        let p = &removed[i];
        let ghost prev = removed@.subrange(0, i as int);
        proof {
            assert(removed@.subrange(0, i + 1) =~= removed@.subrange(0, i as int).push(
                removed@[i as int],
            ));
            assert(views_of(prev.push(removed@[i as int])) =~= views_of(prev).push(
                removed@[i as int]@,
            ));
            lemma_cleanup_push(views_of(prev), removed@[i as int]@);
        }
        match &p.file {
            Some(f) => {
                tasks.push(CleanupTask { id: p.id, file_name: f.name.clone() });
                proof {
                    assert(task_views_of(tasks@) =~= spec_cleanup_tasks(
                        views_of(removed@.subrange(0, i + 1)),
                    ));
                }
            },
            None => {
                proof {
                    assert(task_views_of(tasks@) =~= spec_cleanup_tasks(
                        views_of(removed@.subrange(0, i + 1)),
                    ));
                }
            },
        }
        i = i + 1;
    }
    proof {
        assert(removed@.subrange(0, removed@.len() as int) =~= removed@);
    }
    tasks
}

// --- Laws of the composite predicate ---

/// A record with a disabled time-to-live (`expiration == 0`) is never a
/// removal candidate, whatever its age or read count and whatever the
/// other policies say: in particular, a record with all three policies
/// disabled is never removed.
pub proof fn lemma_all_policies_disabled_never_removed(p: PastaView, now: i64, gc_days: u64)
    requires
        p.expiration == 0,
    ensures
        !removal_candidate(p, now, gc_days),
{
}

/// A record whose expiry time has passed, with the other two policies
/// disabled (and so neutral), is a removal candidate.
pub proof fn lemma_ttl_alone_removes(p: PastaView, now: i64)
    requires
        p.expiration != 0,
        p.expiration <= now,
        p.burn_after_reads == 0,
    ensures
        removal_candidate(p, now, 0),
{
}

/// With the time-to-live permitting and the horizon disabled, the burn
/// policy alone decides: the record is a removal candidate exactly when its
/// read count has reached the threshold. (The time-to-live must permit:
/// with `expiration == 0` no record is ever removed.)
pub proof fn lemma_burn_threshold_decides(p: PastaView, now: i64)
    requires
        ttl_permits(p, now),
        p.burn_after_reads != 0,
    ensures
        p.read_count >= p.burn_after_reads ==> removal_candidate(p, now, 0),
        p.read_count < p.burn_after_reads ==> !removal_candidate(p, now, 0),
{
}

/// With the time-to-live permitting and the burn policy disabled, the
/// garbage-collection horizon alone decides: the record is a removal
/// candidate exactly when it has gone unread for at least `gc_days` days.
pub proof fn lemma_gc_horizon_decides(p: PastaView, now: i64, gc_days: u64)
    requires
        ttl_permits(p, now),
        p.burn_after_reads == 0,
        gc_days != 0,
    ensures
        spec_days_since_last_read(p.last_read, now) >= gc_days ==> removal_candidate(
            p,
            now,
            gc_days,
        ),
        spec_days_since_last_read(p.last_read, now) < gc_days ==> !removal_candidate(
            p,
            now,
            gc_days,
        ),
{
}

/// Every policy can veto: a record past its time-to-live but still under
/// its burn threshold is not removed, whatever the horizon setting; one
/// that every policy permits is removed.
pub proof fn lemma_composite_and_semantics(p: PastaView, now: i64, gc_days: u64)
    ensures
        ttl_permits(p, now) && p.burn_after_reads != 0 && p.read_count < p.burn_after_reads
            ==> !removal_candidate(p, now, gc_days),
        ttl_permits(p, now) && burn_permits(p) && gc_permits(p, now, gc_days)
            ==> removal_candidate(p, now, gc_days),
{
}

/// The survivors of a pass all fail the composite predicate.
pub proof fn lemma_survivors_not_candidates(ps: Seq<PastaView>, now: i64, gc_days: u64)
    ensures
        forall|i: int|
            0 <= i < survivors_of(ps, now, gc_days).len() ==> !removal_candidate(
                #[trigger] survivors_of(ps, now, gc_days)[i],
                now,
                gc_days,
            ),
{
    broadcast use vstd::seq_lib::group_filter_ensures;

}

proof fn lemma_survivors_fixpoint(ps: Seq<PastaView>, now: i64, gc_days: u64)
    requires
        forall|i: int| 0 <= i < ps.len() ==> !removal_candidate(#[trigger] ps[i], now, gc_days),
    ensures
        survivors_of(ps, now, gc_days) == ps,
    decreases ps.len(),
{
    reveal(Seq::filter);
    if ps.len() > 0 {
        lemma_survivors_fixpoint(ps.drop_last(), now, gc_days);
        assert(ps.drop_last().push(ps.last()) =~= ps);
    } else {
        assert(survivors_of(ps, now, gc_days) =~= ps);
    }
}

/// Running the expiration pass twice in succession with no intervening
/// mutation removes nothing further: the survivors of one pass all survive
/// the next.
pub proof fn lemma_expiration_pass_idempotent(ps: Seq<PastaView>, now: i64, gc_days: u64)
    ensures
        survivors_of(survivors_of(ps, now, gc_days), now, gc_days) == survivors_of(
            ps,
            now,
            gc_days,
        ),
        removed_of(survivors_of(ps, now, gc_days), now, gc_days) == Seq::<PastaView>::empty(),
{
    lemma_survivors_not_candidates(ps, now, gc_days);
    lemma_survivors_fixpoint(survivors_of(ps, now, gc_days), now, gc_days);
    lemma_removed_empty(survivors_of(ps, now, gc_days), now, gc_days);
}

proof fn lemma_survivors_unique_rec(ps: Seq<PastaView>, now: i64, gc_days: u64)
    requires
        ids_unique(ps),
    ensures
        ids_unique(survivors_of(ps, now, gc_days)),
        forall|id: u64|
            has_id(survivors_of(ps, now, gc_days), id) ==> #[trigger] has_id(ps, id),
    decreases ps.len(),
{
    reveal(Seq::filter);
    let sv = survivors_of(ps, now, gc_days);
    if ps.len() == 0 {
        assert(sv =~= Seq::<PastaView>::empty());
    } else {
        let d = ps.drop_last();
        let x = ps.last();
        assert forall|i: int, j: int| 0 <= i < j < d.len() implies d[i].id != d[j].id by {
            assert(d[i] == ps[i]);
            assert(d[j] == ps[j]);
        }
        lemma_survivors_unique_rec(d, now, gc_days);
        let svd = survivors_of(d, now, gc_days);
        if !removal_candidate(x, now, gc_days) {
            assert(sv == svd.push(x));
            assert(!has_id(svd, x.id)) by {
                if has_id(svd, x.id) {
                    assert(has_id(d, x.id));
                    let k = choose|k: int| 0 <= k < d.len() && d[k].id == x.id;
                    assert(ps[k].id == ps[ps.len() - 1].id);
                    assert(false);
                }
            }
            assert forall|i: int, j: int| 0 <= i < j < sv.len() implies sv[i].id != sv[j].id by {
                if j == sv.len() - 1 {
                    assert(sv[i] == svd[i]);
                    if sv[i].id == x.id {
                        assert(has_id(svd, x.id));
                    }
                } else {
                    assert(sv[i] == svd[i]);
                    assert(sv[j] == svd[j]);
                }
            }
            assert forall|id: u64| has_id(sv, id) implies #[trigger] has_id(ps, id) by {
                let k = choose|k: int| 0 <= k < sv.len() && sv[k].id == id;
                if k == sv.len() - 1 {
                    assert(ps[ps.len() - 1].id == id);
                } else {
                    assert(svd[k].id == id);
                    assert(has_id(svd, id));
                    assert(has_id(d, id));
                    let m = choose|m: int| 0 <= m < d.len() && d[m].id == id;
                    assert(ps[m].id == id);
                }
            }
        } else {
            assert(sv == svd);
            assert forall|id: u64| has_id(sv, id) implies #[trigger] has_id(ps, id) by {
                assert(has_id(d, id));
                let m = choose|m: int| 0 <= m < d.len() && d[m].id == id;
                assert(ps[m].id == id);
            }
        }
    }
}

/// The collection invariant survives an expiration pass: when no two
/// records share an id, neither do two survivors — the engine removes
/// whole records and edits none.
pub proof fn lemma_expiration_preserves_unique_ids(ps: Seq<PastaView>, now: i64, gc_days: u64)
    requires
        ids_unique(ps),
    ensures
        ids_unique(survivors_of(ps, now, gc_days)),
{
    lemma_survivors_unique_rec(ps, now, gc_days);
}

proof fn lemma_removed_empty(ps: Seq<PastaView>, now: i64, gc_days: u64)
    requires
        forall|i: int| 0 <= i < ps.len() ==> !removal_candidate(#[trigger] ps[i], now, gc_days),
    ensures
        removed_of(ps, now, gc_days) == Seq::<PastaView>::empty(),
    decreases ps.len(),
{
    reveal(Seq::filter);
    if ps.len() > 0 {
        lemma_removed_empty(ps.drop_last(), now, gc_days);
        assert(ps.drop_last().push(ps.last()) =~= ps);
    } else {
        assert(removed_of(ps, now, gc_days) =~= Seq::<PastaView>::empty());
    }
}

} // verus!
