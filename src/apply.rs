use vstd::prelude::*;

use crate::item::StartupItem;
use crate::pending::PendingChange;
use crate::state::{all_of, AppState};
use crate::status::ItemStatus;

verus! {

/// Where an apply stands.
#[derive(Debug, Clone, Copy, PartialEq, Eq, Structural)]
pub enum ApplyPhase {
    /// The snapshot of the held entries is to be written.
    Backup,
    /// The staged changes are being made, one at a time.
    Modify,
    /// Everything was tried; the sources are to be scanned again.
    Rescan,
    /// The snapshot failed, so nothing was changed.
    Aborted,
}

/// What the caller is to do next for an apply.
#[derive(Debug, Clone, Copy, PartialEq, Eq, Structural)]
pub enum ApplyStep {
    /// Write a snapshot of `backup_items`.
    CreateBackup,
    /// Make the change at this position of `changes`.
    Modify(usize),
    /// Scan all sources and hand the result to `finish_apply`.
    Rescan,
    /// Nothing more: the apply was aborted.
    Stop,
}

/// One apply of the staged changes: a snapshot first, then each change, each
/// success or failure counted, then a fresh scan.
pub struct ApplySession {
    /// The entries held when the apply began, for the snapshot.
    pub backup_items: Vec<StartupItem>,
    /// Each staged change with the live entry it applies to.
    pub changes: Vec<(StartupItem, ItemStatus)>,
    /// How many changes were tried.
    pub next: usize,
    pub succeeded: usize,
    pub failed: usize,
    pub phase: ApplyPhase,
}

/// The number of `true` outcomes.
pub open spec fn count_true(s: Seq<bool>) -> nat
    decreases s.len(),
{
    if s.len() == 0 {
        0
    } else {
        count_true(s.drop_last()) + if s.last() {
            1nat
        } else {
            0nat
        }
    }
}

pub proof fn lemma_count_true_bound(s: Seq<bool>)
    ensures
        count_true(s) <= s.len(),
    decreases s.len(),
{
    if s.len() > 0 {
        lemma_count_true_bound(s.drop_last());
    }
}

/// The position of the first entry of `items` with id `id`, or -1.
pub open spec fn first_with_id(items: Seq<StartupItem>, id: Seq<char>) -> int
    decreases items.len(),
{
    if items.len() == 0 {
        -1
    } else if items[0].id@ == id {
        0
    } else if first_with_id(items.drop_first(), id) < 0 {
        -1
    } else {
        first_with_id(items.drop_first(), id) + 1
    }
}

/// `first_with_id` is the first position holding the id, -1 where none does.
pub proof fn lemma_first_with_id(items: Seq<StartupItem>, id: Seq<char>, k: int)
    requires
        0 <= k <= items.len(),
        forall|j: int| 0 <= j < k ==> items[j].id@ != id,
        k < items.len() ==> items[k].id@ == id,
    ensures
        first_with_id(items, id) == (if k < items.len() { k } else { -1 }),
    decreases items.len(),
{
    if items.len() > 0 && k > 0 {
        let t = items.drop_first();
        assert forall|j: int| 0 <= j < k - 1 implies (#[trigger] t[j]).id@ != id by {
            assert(t[j] == items[j + 1]);
        }
        if k < items.len() {
            assert(t[k - 1] == items[k]);
        }
        lemma_first_with_id(t, id, k - 1);
    }
}

/// The changes an apply makes: for each staged change, in staged order, the
/// first held entry with its id and the status asked for; a staged change
/// whose entry is no longer held is skipped.
pub open spec fn resolved_changes(items: Seq<StartupItem>, pending: Seq<PendingChange>) -> Seq<(StartupItem, ItemStatus)>
    decreases pending.len(),
{
    if pending.len() == 0 {
        Seq::empty()
    } else {
        let prev = resolved_changes(items, pending.drop_last());
        let c = pending.last();
        let k = first_with_id(items, c.item_id@);
        if k >= 0 {
            prev.push((items[k], c.new_status))
        } else {
            prev
        }
    }
}

/// When every staged change's entry is held, each staged change gives exactly
/// one change of the apply.
pub proof fn lemma_every_held_change_is_made(items: Seq<StartupItem>, pending: Seq<PendingChange>)
    requires
        forall|c: int| 0 <= c < pending.len() ==> first_with_id(items, (#[trigger] pending[c]).item_id@) >= 0,
    ensures
        resolved_changes(items, pending).len() == pending.len(),
        forall|c: int| 0 <= c < pending.len() ==> {
            let k = first_with_id(items, pending[c].item_id@);
            #[trigger] resolved_changes(items, pending)[c] == (items[k], pending[c].new_status)
        },
    decreases pending.len(),
{
    if pending.len() > 0 {
        let q = pending.drop_last();
        assert forall|c: int| 0 <= c < q.len() implies first_with_id(items, (#[trigger] q[c]).item_id@) >= 0 by {
            assert(q[c] == pending[c]);
        }
        lemma_every_held_change_is_made(items, q);
        assert(first_with_id(items, pending.last().item_id@) >= 0);
        assert forall|c: int| 0 <= c < pending.len() implies {
            let k = first_with_id(items, pending[c].item_id@);
            #[trigger] resolved_changes(items, pending)[c] == (items[k], pending[c].new_status)
        } by {
            if c < q.len() {
                assert(q[c] == pending[c]);
            }
        }
    }
}

/// The session after the snapshot succeeded or failed.
pub open spec fn after_backup(s: ApplySession, ok: bool) -> ApplySession {
    if !ok {
        ApplySession { phase: ApplyPhase::Aborted, ..s }
    } else if s.changes@.len() == 0 {
        ApplySession { phase: ApplyPhase::Rescan, ..s }
    } else {
        ApplySession { phase: ApplyPhase::Modify, ..s }
    }
}

/// The session after one change succeeded or failed.
pub open spec fn after_change(s: ApplySession, ok: bool) -> ApplySession {
    let n = ApplySession {
        next: (s.next + 1) as usize,
        succeeded: (if ok { s.succeeded + 1 } else { s.succeeded as int }) as usize,
        failed: (if ok { s.failed as int } else { s.failed + 1 }) as usize,
        ..s
    };
    if n.next == s.changes@.len() {
        ApplySession { phase: ApplyPhase::Rescan, ..n }
    } else {
        n
    }
}

/// The next step of a session in `phase` that has tried `next` changes.
pub open spec fn step_of(phase: ApplyPhase, next: usize) -> ApplyStep {
    match phase {
        ApplyPhase::Backup => ApplyStep::CreateBackup,
        ApplyPhase::Modify => ApplyStep::Modify(next),
        ApplyPhase::Rescan => ApplyStep::Rescan,
        ApplyPhase::Aborted => ApplyStep::Stop,
    }
}

/// The session after the changes gave `outcomes`, in order.
pub open spec fn after_changes(s: ApplySession, outcomes: Seq<bool>) -> ApplySession
    decreases outcomes.len(),
{
    if outcomes.len() == 0 {
        s
    } else {
        after_change(after_changes(s, outcomes.drop_last()), outcomes.last())
    }
}

impl ApplySession {
    /// The counts agree with the changes tried.
    pub open spec fn wf(&self) -> bool {
        &&& self.next <= self.changes@.len()
        &&& self.succeeded + self.failed == self.next
        &&& self.phase == ApplyPhase::Modify ==> self.next < self.changes@.len()
        &&& self.phase == ApplyPhase::Backup ==> self.next == 0
    }

    /// What the caller is to do next.
    pub fn step(&self) -> (r: ApplyStep)
        ensures
            r == step_of(self.phase, self.next),
    {
        match self.phase {
            ApplyPhase::Backup => ApplyStep::CreateBackup,
            ApplyPhase::Modify => ApplyStep::Modify(self.next),
            ApplyPhase::Rescan => ApplyStep::Rescan,
            ApplyPhase::Aborted => ApplyStep::Stop,
        }
    }

    /// Takes in whether the snapshot was written: without it the apply stops
    /// before any change.
    pub fn backup_done(&mut self, ok: bool)
        requires
            old(self).phase == ApplyPhase::Backup,
            old(self).wf(),
        ensures
            *final(self) == after_backup(*old(self), ok),
            final(self).wf(),
    {
        if !ok {
            self.phase = ApplyPhase::Aborted;
        } else if self.changes.len() == 0 {
            self.phase = ApplyPhase::Rescan;
        } else {
            self.phase = ApplyPhase::Modify;
        }
    }

    /// Takes in whether the current change succeeded, counts it, and moves on;
    /// a failure does not stop the others.
    pub fn change_done(&mut self, ok: bool)
        requires
            old(self).phase == ApplyPhase::Modify,
            old(self).wf(),
        ensures
            *final(self) == after_change(*old(self), ok),
            final(self).wf(),
    {
        let n = self.changes.len();
        if ok {
            self.succeeded = self.succeeded + 1;
        } else {
            self.failed = self.failed + 1;
        }
        self.next = self.next + 1;
        if self.next == n {
            self.phase = ApplyPhase::Rescan;
        }
    }
}

impl AppState {
    /// The first held entry with this id.
    pub fn find_item(&self, id: &String) -> (r: Option<StartupItem>)
        ensures
            ({
                let all = all_of(self.items_by_source@);
                let k = first_with_id(all, id@);
                &&& k < 0 <==> r is None
                &&& k >= 0 ==> r == Some(all[k])
            }),
    {
        let all = self.all_items();
        let mut k: usize = 0;
        while k < all.len()
            invariant
                k <= all@.len(),
                all@ == all_of(self.items_by_source@),
                forall|j: int| 0 <= j < k ==> all@[j].id@ != id@,
            decreases all@.len() - k,
        {
            if all[k].id == *id {
                proof {
                    lemma_first_with_id(all@, id@, k as int);
                }
                return Some(all[k].duplicate());
            }
            k += 1;
        }
        proof {
            lemma_first_with_id(all@, id@, all@.len() as int);
        }
        None
    }

    /// Starts applying the staged changes, or `None` when none is staged.
    /// Nothing held changes: the session carries a snapshot of the held
    /// entries and, in staged order, each staged change with its live entry.
    pub fn begin_apply(&self) -> (r: Option<ApplySession>)
        ensures
            self.pending_changes@.len() == 0 <==> r is None,
            r matches Some(s) ==> s.phase == ApplyPhase::Backup && s.next == 0 && s.succeeded == 0
                && s.failed == 0 && s.wf(),
            r matches Some(s) ==> s.backup_items@ == all_of(self.items_by_source@),
            r matches Some(s) ==> s.changes@ == resolved_changes(all_of(self.items_by_source@), self.pending_changes@),
    {
        if self.pending_changes.len() == 0 {
            return None;
        }
        let backup_items = self.all_items();
        let ghost all = all_of(self.items_by_source@);
        let mut changes: Vec<(StartupItem, ItemStatus)> = Vec::new();
        let mut c: usize = 0;
        while c < self.pending_changes.len()
            invariant
                c <= self.pending_changes@.len(),
                all == all_of(self.items_by_source@),
                backup_items@ == all,
                changes@ == resolved_changes(all, self.pending_changes@.subrange(0, c as int)),
            decreases self.pending_changes@.len() - c,
        {
            let change = &self.pending_changes[c];
            proof {
                let p = self.pending_changes@.subrange(0, c + 1);
                assert(p.drop_last() == self.pending_changes@.subrange(0, c as int));
                assert(p.last() == self.pending_changes@[c as int]);
            }
            match self.find_item(&change.item_id) {
                Some(item) => {
                    changes.push((item, change.new_status));
                },
                None => {},
            }
            c += 1;
        }
        assert(self.pending_changes@.subrange(0, self.pending_changes@.len() as int) == self.pending_changes@);
        let session = ApplySession {
            backup_items,
            changes,
            next: 0,
            succeeded: 0,
            failed: 0,
            phase: ApplyPhase::Backup,
        };
        Some(session)
    }

    /// Ends an apply whose changes were all tried: the fresh scan replaces the
    /// held entries, and every staged change is dropped, however many failed.
    pub fn finish_apply(&mut self, session: &ApplySession, rescanned: Vec<StartupItem>)
        requires
            session.phase == ApplyPhase::Rescan,
        ensures
            final(self).wf(),
            final(self).pending_changes@.len() == 0,
            crate::groups::grouped(rescanned@, final(self).items_by_source@),
    {
        self.refresh(rescanned);
    }
}

/// A failed snapshot stops the apply before any change: the session asks for
/// nothing more, and since `begin_apply` reads the state without changing
/// it, every staged change is still staged.
pub proof fn lemma_backup_failure_changes_nothing(s: ApplySession)
    requires
        s.phase == ApplyPhase::Backup,
    ensures
        after_backup(s, false).phase == ApplyPhase::Aborted,
        step_of(after_backup(s, false).phase, after_backup(s, false).next) == ApplyStep::Stop,
        after_backup(s, false).next == s.next,
        after_backup(s, false).succeeded == s.succeeded,
        after_backup(s, false).failed == s.failed,
{
}

/// With N changes whose outcomes are given, M of them failures, the session
/// counts N - M successes and M failures and goes on to the rescan, whatever
/// failed; `finish_apply` then drops every staged change.
pub proof fn lemma_counts_after_changes(s: ApplySession, outcomes: Seq<bool>)
    requires
        s.phase == ApplyPhase::Modify,
        s.next == 0,
        s.succeeded == 0,
        s.failed == 0,
        outcomes.len() == s.changes@.len(),
        outcomes.len() > 0,
        outcomes.len() <= usize::MAX,
    ensures
        after_changes(s, outcomes).succeeded == count_true(outcomes),
        after_changes(s, outcomes).failed == outcomes.len() - count_true(outcomes),
        after_changes(s, outcomes).next == outcomes.len(),
        after_changes(s, outcomes).phase == ApplyPhase::Rescan,
{
    lemma_prefix_counts(s, outcomes, outcomes.len() as int);
    assert(outcomes.subrange(0, outcomes.len() as int) == outcomes);
}

proof fn lemma_prefix_counts(s: ApplySession, outcomes: Seq<bool>, n: int)
    requires
        s.phase == ApplyPhase::Modify,
        s.next == 0,
        s.succeeded == 0,
        s.failed == 0,
        outcomes.len() == s.changes@.len(),
        outcomes.len() <= usize::MAX,
        0 <= n <= outcomes.len(),
    ensures
        after_changes(s, outcomes.subrange(0, n)).succeeded == count_true(outcomes.subrange(0, n)),
        after_changes(s, outcomes.subrange(0, n)).failed == n - count_true(outcomes.subrange(0, n)),
        after_changes(s, outcomes.subrange(0, n)).next == n,
        after_changes(s, outcomes.subrange(0, n)).changes == s.changes,
        n < outcomes.len() ==> after_changes(s, outcomes.subrange(0, n)).phase == ApplyPhase::Modify,
        n == outcomes.len() && n > 0 ==> after_changes(s, outcomes.subrange(0, n)).phase == ApplyPhase::Rescan,
    decreases n,
{
    if n > 0 {
        lemma_prefix_counts(s, outcomes, n - 1);
        let p = outcomes.subrange(0, n);
        assert(p.drop_last() == outcomes.subrange(0, n - 1));
        lemma_count_true_bound(outcomes.subrange(0, n - 1));
    } else {
        assert(outcomes.subrange(0, 0).len() == 0);
    }
}

/// An apply of N staged changes whose entries are all held, begun by
/// `begin_apply` and with the snapshot written, tries every change once: if
/// the changes give `outcomes`, M of them failures, it counts N - M successes
/// and M failures and goes on to the rescan.
pub proof fn lemma_apply_tries_every_staged_change(
    items: Seq<StartupItem>,
    pending: Seq<PendingChange>,
    s: ApplySession,
    outcomes: Seq<bool>,
)
    requires
        s.phase == ApplyPhase::Backup,
        s.next == 0,
        s.succeeded == 0,
        s.failed == 0,
        s.changes@ == resolved_changes(items, pending),
        forall|c: int| 0 <= c < pending.len() ==> first_with_id(items, (#[trigger] pending[c]).item_id@) >= 0,
        pending.len() > 0,
        outcomes.len() == pending.len(),
        outcomes.len() <= usize::MAX,
    ensures
        after_backup(s, true).changes@.len() == pending.len(),
        after_changes(after_backup(s, true), outcomes).succeeded == count_true(outcomes),
        after_changes(after_backup(s, true), outcomes).failed == pending.len() - count_true(outcomes),
        after_changes(after_backup(s, true), outcomes).phase == ApplyPhase::Rescan,
{
    lemma_every_held_change_is_made(items, pending);
    lemma_counts_after_changes(after_backup(s, true), outcomes);
}

} // verus!
