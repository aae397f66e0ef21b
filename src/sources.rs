use vstd::prelude::*;

use crate::error::Error;
use crate::item::StartupItem;
use crate::source_type::AdapterKind;
use crate::status::ItemStatus;

verus! {

/// What a status change asks of the adapters.
#[derive(Debug, Clone, Copy, PartialEq, Eq, Structural)]
pub enum Modification {
    /// Nothing: `Unknown` is never a target.
    Nothing,
    Enable(AdapterKind),
    Disable(AdapterKind),
}

/// The change that setting `item` to `new_status` asks of the adapter that
/// owns its source type.
pub fn modification(item: &StartupItem, new_status: ItemStatus) -> (r: Modification)
    ensures
        new_status == ItemStatus::Enabled ==> r == Modification::Enable(item.source.owner()),
        new_status == ItemStatus::Disabled ==> r == Modification::Disable(item.source.owner()),
        new_status == ItemStatus::Unknown ==> r == Modification::Nothing,
{
    let owner = item.source.adapter();
    match new_status {
        ItemStatus::Enabled => Modification::Enable(owner),
        ItemStatus::Disabled => Modification::Disable(owner),
        ItemStatus::Unknown => Modification::Nothing,
    }
}

/// The entries of the scans that succeeded, in order; a failed scan adds
/// nothing.
pub open spec fn merged(results: Seq<Result<Vec<StartupItem>, Error>>) -> Seq<StartupItem>
    decreases results.len(),
{
    if results.len() == 0 {
        Seq::empty()
    } else {
        let prev = merged(results.drop_last());
        match results.last() {
            Ok(v) => prev + v@,
            Err(_) => prev,
        }
    }
}

proof fn lemma_reverse_push<T>(s: Seq<T>, x: T)
    ensures
        s.push(x).reverse() == seq![x] + s.reverse(),
{
    assert(s.push(x).reverse() =~= seq![x] + s.reverse());
}

/// Joins the results of scanning each adapter, dropping the failures.
pub fn merge_scans(results: Vec<Result<Vec<StartupItem>, Error>>) -> (r: Vec<StartupItem>)
    ensures
        r@ == merged(results@),
{
    let mut out: Vec<StartupItem> = Vec::new();
    let mut results = results;
    let ghost all = results@;
    let mut rest: Vec<Result<Vec<StartupItem>, Error>> = Vec::new();
    // Move the results over in reverse, so that popping yields them in order.
    while results.len() > 0
        invariant
            all == results@ + rest@.reverse(),
        decreases results@.len(),
    {
        let ghost r0 = results@;
        let x = results.pop().unwrap();
        let ghost before = rest@;
        rest.push(x);
        proof {
            lemma_reverse_push(before, x);
            assert(r0 == results@.push(x));
            assert(all == results@ + (seq![x] + before.reverse()));
        }
    }
    assert(all == rest@.reverse());
    let n = rest.len();
    let mut k: usize = 0;
    assert(all.subrange(0, n as int) == all);
    while rest.len() > 0
        invariant
            k + rest@.len() == n,
            n == all.len(),
            rest@.reverse() == all.subrange(k as int, n as int),
            out@ == merged(all.subrange(0, k as int)),
        decreases rest@.len(),
    {
        let ghost before = rest@;
        let x = rest.pop().unwrap();
        proof {
            lemma_reverse_push(rest@, x);
            assert(before == rest@.push(x));
            assert(all.subrange(k as int, n as int)[0] == x);
            assert(all[k as int] == x);
            assert(seq![x] + rest@.reverse() == all.subrange(k as int, n as int));
            assert(rest@.reverse() =~= all.subrange(k as int, n as int).drop_first());
            assert(all.subrange(k as int, n as int).drop_first() =~= all.subrange(k + 1, n as int));
            assert(all.subrange(0, k + 1).drop_last() == all.subrange(0, k as int));
        }
        match x {
            Ok(mut v) => {
                out.append(&mut v);
            },
            Err(_) => {},
        }
        k += 1;
    }
    out
}

/// The warning shown when the process runs without elevation.
pub fn admin_warning(is_elevated: bool) -> (r: Option<String>)
    ensures
        is_elevated ==> r is None,
        !is_elevated ==> (r matches Some(w) && w@
            == "Not running as Administrator. Some items cannot be modified."@),
{
    if !is_elevated {
        Some(String::from_str("Not running as Administrator. Some items cannot be modified."))
    } else {
        None
    }
}

} // verus!
