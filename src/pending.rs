use vstd::prelude::*;

use crate::item::StartupItem;
use crate::status::ItemStatus;

verus! {

/// A staged, not yet applied, status change of one entry.
#[derive(Debug, Clone)]
pub struct PendingChange {
    pub item_id: String,
    /// The entry's status on disk when the change was staged.
    pub old_status: ItemStatus,
    /// The status the change asks for.
    pub new_status: ItemStatus,
}

impl PendingChange {
    /// A copy with every field the same.
    pub fn duplicate(&self) -> (r: PendingChange)
        ensures
            r == *self,
    {
        PendingChange { item_id: self.item_id.clone(), old_status: self.old_status, new_status: self.new_status }
    }
}

/// The position of the change for entry `id` in `p`, or -1.
pub open spec fn find_id(p: Seq<PendingChange>, id: Seq<char>) -> int
    decreases p.len(),
{
    if p.len() == 0 {
        -1
    } else if p.last().item_id@ == id {
        p.len() - 1
    } else {
        find_id(p.drop_last(), id)
    }
}

/// At most one change per entry.
pub open spec fn ids_unique(p: Seq<PendingChange>) -> bool {
    forall|a: int, b: int| 0 <= a < b < p.len() ==> p[a].item_id@ != p[b].item_id@
}

/// The number of changes for entry `id`.
pub open spec fn count_id(p: Seq<PendingChange>, id: Seq<char>) -> nat
    decreases p.len(),
{
    if p.len() == 0 {
        0
    } else {
        count_id(p.drop_last(), id) + if p.last().item_id@ == id {
            1nat
        } else {
            0nat
        }
    }
}

pub proof fn lemma_find_id(p: Seq<PendingChange>, id: Seq<char>)
    ensures
        -1 <= find_id(p, id) < p.len(),
        find_id(p, id) >= 0 ==> p[find_id(p, id)].item_id@ == id,
        find_id(p, id) < 0 ==> forall|i: int| 0 <= i < p.len() ==> p[i].item_id@ != id,
    decreases p.len(),
{
    if p.len() > 0 {
        lemma_find_id(p.drop_last(), id);
        if p.last().item_id@ != id {
            assert forall|i: int| 0 <= i < p.len() - 1 implies p[i] == p.drop_last()[i] by {}
        }
    }
}

/// In a list with one change per entry, the change for `id` is the one at
/// any position holding it.
pub proof fn lemma_find_id_unique(p: Seq<PendingChange>, id: Seq<char>, i: int)
    requires
        ids_unique(p),
        0 <= i < p.len(),
        p[i].item_id@ == id,
    ensures
        find_id(p, id) == i,
{
    lemma_find_id(p, id);
}

/// In a list with one change per entry, an entry has at most one change.
pub proof fn lemma_count_at_most_one(p: Seq<PendingChange>, id: Seq<char>)
    requires
        ids_unique(p),
    ensures
        count_id(p, id) <= 1,
        count_id(p, id) == 1 <==> find_id(p, id) >= 0,
    decreases p.len(),
{
    lemma_find_id(p, id);
    if p.len() > 0 {
        let q = p.drop_last();
        assert(ids_unique(q));
        lemma_count_at_most_one(q, id);
        lemma_find_id(q, id);
        if p.last().item_id@ == id && find_id(q, id) >= 0 {
            assert(q[find_id(q, id)] == p[find_id(q, id)]);
        }
    }
}

/// An entry's effective status: the staged change's, else its status on disk.
pub open spec fn effective(p: Seq<PendingChange>, item: StartupItem) -> ItemStatus {
    if find_id(p, item.id@) >= 0 {
        p[find_id(p, item.id@)].new_status
    } else {
        item.status
    }
}

/// The changes after staging a toggle of `item`: its effective status flips;
/// a flip back to the status on disk leaves no change for it, any other
/// replaces its change in place or adds one.
pub open spec fn staged(p: Seq<PendingChange>, item: StartupItem) -> Seq<PendingChange> {
    let i = find_id(p, item.id@);
    let new = effective(p, item).toggled();
    let change = PendingChange { item_id: item.id, old_status: item.status, new_status: new };
    if new == item.status {
        if i >= 0 {
            p.remove(i)
        } else {
            p
        }
    } else if i >= 0 {
        p.update(i, change)
    } else {
        p.push(change)
    }
}

/// Stages a toggle of `item` in `p` (see `staged`).
pub fn stage_change(p: &mut Vec<PendingChange>, item: &StartupItem)
    requires
        ids_unique(old(p)@),
    ensures
        final(p)@ == staged(old(p)@, *item),
        ids_unique(final(p)@),
{
    let ghost p0 = p@;
    proof {
        lemma_find_id(p0, item.id@);
    }
    let mut i: usize = 0;
    let mut found: Option<usize> = None;
    while i < p.len()
        invariant
            p@ == p0,
            ids_unique(p0),
            i <= p0.len(),
            found is None ==> forall|k: int| 0 <= k < i ==> p0[k].item_id@ != item.id@,
            found matches Some(k) ==> k < p0.len() && p0[k as int].item_id@ == item.id@,
        decreases p0.len() - i,
    {
        if found.is_none() && p[i].item_id == item.id {
            found = Some(i);
        }
        i += 1;
    }
    let current = match found {
        Some(k) => {
            proof {
                lemma_find_id_unique(p0, item.id@, k as int);
            }
            p[k].new_status
        },
        None => {
            assert(find_id(p0, item.id@) < 0);
            item.status
        },
    };
    let new_status = current.toggle();
    if new_status == item.status {
        if let Some(k) = found {
            p.remove(k);
            assert(ids_unique(p@)) by {
                assert forall|a: int, b: int| 0 <= a < b < p@.len() implies p@[a].item_id@ != p@[b].item_id@ by {
                    let a0 = if a < k { a } else { a + 1 };
                    let b0 = if b < k { b } else { b + 1 };
                    assert(p@[a] == p0[a0] && p@[b] == p0[b0]);
                }
            }
        }
    } else {
        let change = PendingChange { item_id: item.id.clone(), old_status: item.status, new_status };
        match found {
            Some(k) => {
                p.set(k, change);
                assert(ids_unique(p@)) by {
                    assert forall|a: int, b: int| 0 <= a < b < p@.len() implies p@[a].item_id@ != p@[b].item_id@ by {
                        if a != k && b != k {
                            assert(p@[a] == p0[a] && p@[b] == p0[b]);
                        } else if a == k {
                            assert(p@[b] == p0[b]);
                        } else {
                            assert(p@[a] == p0[a]);
                        }
                    }
                }
            },
            None => {
                p.push(change);
                assert(ids_unique(p@)) by {
                    assert forall|a: int, b: int| 0 <= a < b < p@.len() implies p@[a].item_id@ != p@[b].item_id@ by {
                        assert(p@[a] == p0[a]);
                    }
                }
            },
        }
    }
}

/// Staging keeps at most one change per entry; the entry's change, if any,
/// records its status on disk and the flipped effective status, and there is
/// one exactly when that flip differs from the status on disk.
pub proof fn lemma_staging_keeps_one_change(p: Seq<PendingChange>, item: StartupItem)
    requires
        ids_unique(p),
    ensures
        ids_unique(staged(p, item)),
        count_id(staged(p, item), item.id@) <= 1,
        count_id(staged(p, item), item.id@) == 1 <==> effective(p, item).toggled() != item.status,
        find_id(staged(p, item), item.id@) >= 0 ==> {
            let c = staged(p, item)[find_id(staged(p, item), item.id@)];
            c.old_status == item.status && c.new_status == effective(p, item).toggled()
        },
{
    let s = staged(p, item);
    let i = find_id(p, item.id@);
    lemma_find_id(p, item.id@);
    assert(ids_unique(s)) by {
        assert forall|a: int, b: int| 0 <= a < b < s.len() implies s[a].item_id@ != s[b].item_id@ by {
            if effective(p, item).toggled() == item.status {
                if i >= 0 {
                    let a0 = if a < i { a } else { a + 1 };
                    let b0 = if b < i { b } else { b + 1 };
                    assert(s[a] == p[a0] && s[b] == p[b0]);
                }
            } else if i >= 0 {
                if a != i {
                    assert(s[a] == p[a]);
                }
                if b != i {
                    assert(s[b] == p[b]);
                }
            } else if b < p.len() {
                assert(s[a] == p[a] && s[b] == p[b]);
            } else {
                assert(s[a] == p[a]);
            }
        }
    }
    lemma_count_at_most_one(s, item.id@);
    lemma_find_id(s, item.id@);
    if effective(p, item).toggled() == item.status {
        if i >= 0 {
            assert forall|k: int| 0 <= k < s.len() implies s[k].item_id@ != item.id@ by {
                let k0 = if k < i { k } else { k + 1 };
                assert(s[k] == p[k0]);
            }
        }
    } else if i >= 0 {
        assert(s[i].item_id@ == item.id@);
        lemma_find_id_unique(s, item.id@, i);
    } else {
        assert(s[p.len() as int].item_id@ == item.id@);
        lemma_find_id_unique(s, item.id@, p.len() as int);
    }
}

/// Staging a toggle twice in a row, from no staged change, ends where it
/// started: no staged change and the status on disk as effective status. This
/// holds for an entry whose status on disk is known; from `Unknown` the first
/// toggle asks for `Enabled` and the second for `Disabled`.
pub proof fn lemma_toggle_twice_restores(p: Seq<PendingChange>, item: StartupItem)
    requires
        ids_unique(p),
        find_id(p, item.id@) < 0,
        item.status != ItemStatus::Unknown,
    ensures
        staged(staged(p, item), item) == p,
        find_id(staged(staged(p, item), item), item.id@) < 0,
        effective(staged(staged(p, item), item), item) == item.status,
{
    let s1 = staged(p, item);
    let c = PendingChange { item_id: item.id, old_status: item.status, new_status: item.status.toggled() };
    assert(s1 == p.push(c));
    assert(s1[p.len() as int].item_id@ == item.id@);
    lemma_find_id(p, item.id@);
    assert(ids_unique(s1)) by {
        assert forall|a: int, b: int| 0 <= a < b < s1.len() implies s1[a].item_id@ != s1[b].item_id@ by {
            assert(s1[a] == p[a]);
        }
    }
    lemma_find_id_unique(s1, item.id@, p.len() as int);
    assert(s1.remove(p.len() as int) =~= p);
}

} // verus!
