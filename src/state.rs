use vstd::prelude::*;

use crate::groups::{group_items, grouped};
use crate::item::StartupItem;
use crate::pending::{effective, find_id, ids_unique, lemma_find_id, stage_change, staged, PendingChange};
use crate::source_type::SourceType;
use crate::status::ItemStatus;

verus! {

/// Which pane has the keyboard.
#[derive(Debug, Clone, Copy, PartialEq, Eq, Structural)]
pub enum ViewMode {
    List,
    Help,
    Confirm,
}

/// One row of the entry list: a group header or an entry.
#[derive(Debug, Clone)]
pub enum DisplayItem {
    GroupHeader { source: SourceType, count: usize, collapsed: bool },
    Item(StartupItem),
}

/// The kind of a status-bar message.
#[derive(Debug, Clone, Copy, PartialEq, Eq, Structural)]
pub enum MessageType {
    Info,
    Success,
    Warning,
    Error,
}

/// An action waiting for confirmation.
#[derive(Debug, Clone, Copy, PartialEq, Eq, Structural)]
pub enum ConfirmAction {
    ApplyChanges,
    DiscardChanges,
    Quit,
}

/// The rows of one group: its header, then its entries unless collapsed.
pub open spec fn group_rows(t: SourceType, items: Seq<StartupItem>, collapsed: bool) -> Seq<DisplayItem> {
    seq![DisplayItem::GroupHeader { source: t, count: items.len() as usize, collapsed }] + if collapsed {
        Seq::empty()
    } else {
        items.map_values(|i: StartupItem| DisplayItem::Item(i))
    }
}

/// The rows of all groups, in order.
pub open spec fn display_of(g: Seq<(SourceType, Vec<StartupItem>)>, collapsed: Seq<SourceType>) -> Seq<DisplayItem>
    decreases g.len(),
{
    if g.len() == 0 {
        Seq::empty()
    } else {
        display_of(g.drop_last(), collapsed) + group_rows(
            g.last().0,
            g.last().1@,
            collapsed.contains(g.last().0),
        )
    }
}

/// All entries, group after group.
pub open spec fn all_of(g: Seq<(SourceType, Vec<StartupItem>)>) -> Seq<StartupItem>
    decreases g.len(),
{
    if g.len() == 0 {
        Seq::empty()
    } else {
        all_of(g.drop_last()) + g.last().1@
    }
}

/// The selection after moving up: wraps from the top to the last row.
pub open spec fn moved_up(sel: Option<usize>, len: nat) -> Option<usize> {
    match sel {
        Some(i) => if i == 0 {
            Some((if len > 0 { len - 1 } else { 0 }) as usize)
        } else {
            Some((i - 1) as usize)
        },
        None => Some(0),
    }
}

/// The selection after moving down: wraps from the last row to the top.
pub open spec fn moved_down(sel: Option<usize>, len: nat) -> Option<usize> {
    match sel {
        Some(i) => if i >= (if len > 0 { len - 1 } else { 0 }) {
            Some(0)
        } else {
            Some((i + 1) as usize)
        },
        None => Some(0),
    }
}

/// `d` is the header of group `t`.
pub open spec fn heads(d: DisplayItem, t: SourceType) -> bool {
    d matches DisplayItem::GroupHeader { source, .. } && source == t
}

/// The text shown when a toggle needs elevation that the process lacks.
pub const ADMIN_REQUIRED: &'static str = "Cannot modify: Administrator privileges required";

/// The held entries, the staged changes and the list's view state.
pub struct AppState {
    /// The entries of the last scan, grouped by source type.
    pub items_by_source: Vec<(SourceType, Vec<StartupItem>)>,
    /// The rows of the list, group headers included.
    pub display_list: Vec<DisplayItem>,
    /// The selected row.
    pub selected: Option<usize>,
    /// At most one staged change per entry.
    pub pending_changes: Vec<PendingChange>,
    pub view_mode: ViewMode,
    /// Whether the process runs elevated.
    pub is_admin: bool,
    pub status_message: Option<(String, MessageType)>,
    /// The groups shown without their entries.
    pub collapsed_groups: Vec<SourceType>,
    pub confirm_action: Option<ConfirmAction>,
}

/// Whether `t` is in `v`.
fn holds_source(v: &Vec<SourceType>, t: SourceType) -> (r: bool)
    ensures
        r == v@.contains(t),
{
    let mut i: usize = 0;
    while i < v.len()
        invariant
            i <= v@.len(),
            forall|k: int| 0 <= k < i ==> v@[k] != t,
        decreases v@.len() - i,
    {
        if v[i] == t {
            return true;
        }
        i += 1;
    }
    false
}

/// `v` without `t`.
fn without_source(v: &Vec<SourceType>, t: SourceType) -> (r: Vec<SourceType>)
    ensures
        forall|u: SourceType| r@.contains(u) <==> (u != t && v@.contains(u)),
{
    let mut kept: Vec<SourceType> = Vec::new();
    let mut k: usize = 0;
    while k < v.len()
        invariant
            k <= v@.len(),
            forall|u: SourceType| kept@.contains(u) ==> u != t && v@.contains(u),
            forall|w: int| 0 <= w < k && v@[w] != t ==> kept@.contains(#[trigger] v@[w]),
        decreases v@.len() - k,
    {
        let x = v[k];
        let ghost before = kept@;
        if x != t {
            kept.push(x);
            assert(kept@[before.len() as int] == x);
        }
        assert forall|u: SourceType| kept@.contains(u) implies u != t && v@.contains(u) by {
            let w = choose|w: int| 0 <= w < kept@.len() && kept@[w] == u;
            if w < before.len() {
                assert(before[w] == u);
                assert(before.contains(u));
            } else {
                assert(v@[k as int] == u);
            }
        }
        assert forall|w: int| 0 <= w < k + 1 && v@[w] != t implies kept@.contains(#[trigger] v@[w]) by {
            if w < k {
                let z = choose|z: int| 0 <= z < before.len() && before[z] == v@[w];
                assert(kept@[z] == v@[w]);
            }
        }
        k += 1;
    }
    assert forall|u: SourceType| (u != t && v@.contains(u)) implies kept@.contains(u) by {
        let w = choose|w: int| 0 <= w < v@.len() && v@[w] == u;
    }
    kept
}

impl AppState {
    /// The staged changes hold at most one change per entry.
    pub open spec fn wf(&self) -> bool {
        ids_unique(self.pending_changes@)
    }

    /// The state for a fresh scan: entries grouped and sorted, nothing
    /// staged, the first row selected.
    pub fn new(items: Vec<StartupItem>, is_admin: bool) -> (r: AppState)
        ensures
            r.wf(),
            grouped(items@, r.items_by_source@),
            r.pending_changes@.len() == 0,
            r.collapsed_groups@.len() == 0,
            r.display_list@ == display_of(r.items_by_source@, r.collapsed_groups@),
            r.selected == (if r.display_list@.len() > 0 { Some(0usize) } else { None }),
            r.view_mode == ViewMode::List,
            r.is_admin == is_admin,
            r.status_message is None,
            r.confirm_action is None,
    {
        let groups = group_items(&items);
        let mut state = AppState {
            items_by_source: groups,
            display_list: Vec::new(),
            selected: None,
            pending_changes: Vec::new(),
            view_mode: ViewMode::List,
            is_admin,
            status_message: None,
            collapsed_groups: Vec::new(),
            confirm_action: None,
        };
        state.rebuild_display_list();
        if state.display_list.len() > 0 {
            state.selected = Some(0);
        }
        state
    }

    /// Rebuilds the rows from the groups and the collapsed set.
    pub fn rebuild_display_list(&mut self)
        ensures
            final(self).display_list@ == display_of(old(self).items_by_source@, old(self).collapsed_groups@),
            final(self).items_by_source == old(self).items_by_source,
            final(self).collapsed_groups == old(self).collapsed_groups,
            final(self).pending_changes == old(self).pending_changes,
            final(self).selected == old(self).selected,
            final(self).is_admin == old(self).is_admin,
            final(self).view_mode == old(self).view_mode,
            final(self).status_message == old(self).status_message,
            final(self).confirm_action == old(self).confirm_action,
    {
        let mut rows: Vec<DisplayItem> = Vec::new();
        let mut k: usize = 0;
        let ghost g = self.items_by_source@;
        let ghost c = self.collapsed_groups@;
        while k < self.items_by_source.len()
            invariant
                g == self.items_by_source@,
                c == self.collapsed_groups@,
                k <= g.len(),
                rows@ == display_of(g.subrange(0, k as int), c),
            decreases g.len() - k,
        {
            let source = self.items_by_source[k].0;
            let collapsed = holds_source(&self.collapsed_groups, source);
            let members = &self.items_by_source[k].1;
            let ghost before = rows@;
            rows.push(DisplayItem::GroupHeader { source, count: members.len(), collapsed });
            if !collapsed {
                let mut i: usize = 0;
                while i < members.len()
                    invariant
                        i <= members@.len(),
                        rows@ == before + seq![DisplayItem::GroupHeader { source, count: members@.len() as usize, collapsed }]
                            + members@.subrange(0, i as int).map_values(|x: StartupItem| DisplayItem::Item(x)),
                    decreases members@.len() - i,
                {
                    rows.push(DisplayItem::Item(members[i].duplicate()));
                    assert(members@.subrange(0, i + 1).map_values(|x: StartupItem| DisplayItem::Item(x))
                        == members@.subrange(0, i as int).map_values(|x: StartupItem| DisplayItem::Item(x)).push(
                        DisplayItem::Item(members@[i as int]),
                    ));
                    i += 1;
                }
                assert(members@.subrange(0, members@.len() as int) == members@);
            }
            assert(g.subrange(0, k + 1).drop_last() == g.subrange(0, k as int));
            assert(g.subrange(0, k + 1).last() == g[k as int]);
            k += 1;
        }
        assert(g.subrange(0, g.len() as int) == g);
        self.display_list = rows;
    }

    pub fn selected_index(&self) -> (r: Option<usize>)
        ensures
            r == self.selected,
    {
        self.selected
    }

    /// The selected row, if the selection is on one.
    pub fn selected_item(&self) -> (r: Option<&DisplayItem>)
        ensures
            match self.selected {
                Some(i) => if i < self.display_list@.len() {
                    r == Some(&self.display_list@[i as int])
                } else {
                    r is None
                },
                None => r is None,
            },
    {
        match self.selected {
            Some(i) => {
                if i < self.display_list.len() {
                    Some(&self.display_list[i])
                } else {
                    None
                }
            },
            None => None,
        }
    }

    /// The selected entry, if the selection is on an entry row.
    pub fn selected_startup_item(&self) -> (r: Option<&StartupItem>)
        ensures
            match self.selected {
                Some(i) => if i < self.display_list@.len() {
                    match self.display_list@[i as int] {
                        DisplayItem::Item(it) => r == Some(&it),
                        _ => r is None,
                    }
                } else {
                    r is None
                },
                None => r is None,
            },
    {
        match self.selected_item() {
            Some(DisplayItem::Item(item)) => Some(item),
            _ => None,
        }
    }

    pub fn move_up(&mut self)
        ensures
            final(self).selected == moved_up(old(self).selected, old(self).display_list@.len()),
            final(self).display_list == old(self).display_list,
            final(self).pending_changes == old(self).pending_changes,
            final(self).items_by_source == old(self).items_by_source,
    {
        let len = self.display_list.len();
        let i = match self.selected {
            Some(i) => if i == 0 {
                if len > 0 { len - 1 } else { 0 }
            } else {
                i - 1
            },
            None => 0,
        };
        self.selected = Some(i);
    }

    pub fn move_down(&mut self)
        ensures
            final(self).selected == moved_down(old(self).selected, old(self).display_list@.len()),
            final(self).display_list == old(self).display_list,
            final(self).pending_changes == old(self).pending_changes,
            final(self).items_by_source == old(self).items_by_source,
    {
        let len = self.display_list.len();
        let last = if len > 0 { len - 1 } else { 0 };
        let i = match self.selected {
            Some(i) => if i >= last {
                0
            } else {
                i + 1
            },
            None => 0,
        };
        self.selected = Some(i);
    }

    /// Stages a toggle of `item`, unless it needs elevation that the process
    /// lacks; then it says so and stages nothing.
    pub fn stage_toggle(&mut self, item: &StartupItem) -> (r: bool)
        requires
            old(self).wf(),
        ensures
            final(self).wf(),
            r == !(item.requires_admin && !old(self).is_admin),
            r ==> final(self).pending_changes@ == staged(old(self).pending_changes@, *item),
            r ==> final(self).status_message == old(self).status_message,
            !r ==> final(self).pending_changes == old(self).pending_changes,
            !r ==> (final(self).status_message matches Some((m, t)) && m@ == ADMIN_REQUIRED@ && t
                == MessageType::Warning),
            final(self).items_by_source == old(self).items_by_source,
            final(self).display_list == old(self).display_list,
            final(self).selected == old(self).selected,
            final(self).is_admin == old(self).is_admin,
            final(self).collapsed_groups == old(self).collapsed_groups,
    {
        if item.requires_admin && !self.is_admin {
            self.set_message(String::from_str(ADMIN_REQUIRED), MessageType::Warning);
            return false;
        }
        stage_change(&mut self.pending_changes, item);
        true
    }

    /// Acts on the selected row: a group header collapses or expands its
    /// group, keeping the selection on it; an entry has a toggle staged.
    pub fn toggle_selected(&mut self)
        requires
            old(self).wf(),
        ensures
            final(self).wf(),
            final(self).items_by_source == old(self).items_by_source,
            final(self).is_admin == old(self).is_admin,
            match old(self).selected {
                Some(i) if i < old(self).display_list@.len() => match old(self).display_list@[i as int] {
                    DisplayItem::Item(it) => {
                        &&& (it.requires_admin && !old(self).is_admin) ==> final(self).pending_changes == old(self).pending_changes
                        &&& !(it.requires_admin && !old(self).is_admin) ==> final(self).pending_changes@ == staged(old(self).pending_changes@, it)
                        &&& final(self).display_list == old(self).display_list
                        &&& final(self).collapsed_groups == old(self).collapsed_groups
                        &&& final(self).selected == old(self).selected
                        &&& (it.requires_admin && !old(self).is_admin) ==> (final(self).status_message matches Some((m, t))
                            && m@ == ADMIN_REQUIRED@ && t == MessageType::Warning)
                        &&& !(it.requires_admin && !old(self).is_admin) ==> final(self).status_message
                            == old(self).status_message
                    },
                    DisplayItem::GroupHeader { source, .. } => {
                        &&& final(self).pending_changes == old(self).pending_changes
                        &&& final(self).collapsed_groups@.contains(source) == !old(self).collapsed_groups@.contains(source)
                        &&& forall|t: SourceType| t != source ==> final(self).collapsed_groups@.contains(t) == old(self).collapsed_groups@.contains(t)
                        &&& final(self).display_list@ == display_of(final(self).items_by_source@, final(self).collapsed_groups@)
                        &&& forall|j: int|
                            0 <= j < final(self).display_list@.len() && heads(#[trigger] final(self).display_list@[j], source)
                                ==> (final(self).selected matches Some(k) && k <= j && heads(
                                final(self).display_list@[k as int],
                                source,
                            ))
                    },
                },
                _ => {
                    &&& final(self).pending_changes == old(self).pending_changes
                    &&& final(self).display_list == old(self).display_list
                    &&& final(self).selected == old(self).selected
                    &&& final(self).status_message == old(self).status_message
                },
            },
    {
        let index = match self.selected {
            Some(i) => i,
            None => return,
        };
        if index >= self.display_list.len() {
            return;
        }
        let header = match &self.display_list[index] {
            DisplayItem::GroupHeader { source, .. } => Some(*source),
            DisplayItem::Item(_) => None,
        };
        match header {
            Some(source) => {
                let ghost c0 = self.collapsed_groups@;
                if holds_source(&self.collapsed_groups, source) {
                    self.collapsed_groups = without_source(&self.collapsed_groups, source);
                } else {
                    self.collapsed_groups.push(source);
                    assert forall|t: SourceType| t != source implies self.collapsed_groups@.contains(t) == c0.contains(t) by {
                        if self.collapsed_groups@.contains(t) {
                            let w = choose|w: int| 0 <= w < self.collapsed_groups@.len() && self.collapsed_groups@[w] == t;
                            assert(c0[w] == t);
                        }
                        if c0.contains(t) {
                            let w = choose|w: int| 0 <= w < c0.len() && c0[w] == t;
                            assert(self.collapsed_groups@[w] == t);
                        }
                    }
                    assert(self.collapsed_groups@[c0.len() as int] == source);
                }
                self.rebuild_display_list();
                let ghost s1 = *self;
                let mut i: usize = 0;
                while i < self.display_list.len()
                    invariant
                        i <= self.display_list@.len(),
                        self.wf(),
                        self.items_by_source == s1.items_by_source,
                        self.is_admin == s1.is_admin,
                        self.pending_changes == s1.pending_changes,
                        self.collapsed_groups == s1.collapsed_groups,
                        self.display_list == s1.display_list,
                        forall|j: int| 0 <= j < i ==> !heads(#[trigger] self.display_list@[j], source),
                    ensures
                        self.wf(),
                        self.items_by_source == s1.items_by_source,
                        self.is_admin == s1.is_admin,
                        self.pending_changes == s1.pending_changes,
                        self.collapsed_groups == s1.collapsed_groups,
                        self.display_list == s1.display_list,
                        (self.selected matches Some(k) && k < self.display_list@.len() && heads(
                            self.display_list@[k as int],
                            source,
                        ) && forall|j: int| 0 <= j < k ==> !heads(#[trigger] self.display_list@[j], source))
                            || forall|j: int|
                            0 <= j < self.display_list@.len() ==> !heads(#[trigger] self.display_list@[j], source),
                    decreases self.display_list@.len() - i,
                {
                    let hit = match &self.display_list[i] {
                        DisplayItem::GroupHeader { source: s, .. } => *s == source,
                        DisplayItem::Item(_) => false,
                    };
                    if hit {
                        self.selected = Some(i);
                        break;
                    }
                    i += 1;
                }
            },
            None => {
                let item = match &self.display_list[index] {
                    DisplayItem::Item(it) => it.duplicate(),
                    DisplayItem::GroupHeader { .. } => {
                        return;
                    },
                };
                self.stage_toggle(&item);
            },
        }
    }

    /// The status an entry shows: its staged change's, else its own.
    pub fn get_effective_status(&self, item: &StartupItem) -> (r: ItemStatus)
        requires
            self.wf(),
        ensures
            r == effective(self.pending_changes@, *item),
    {
        proof {
            lemma_find_id(self.pending_changes@, item.id@);
        }
        let mut i: usize = 0;
        while i < self.pending_changes.len()
            invariant
                i <= self.pending_changes@.len(),
                ids_unique(self.pending_changes@),
                forall|k: int| 0 <= k < i ==> self.pending_changes@[k].item_id@ != item.id@,
            decreases self.pending_changes@.len() - i,
        {
            if self.pending_changes[i].item_id == item.id {
                proof {
                    crate::pending::lemma_find_id_unique(self.pending_changes@, item.id@, i as int);
                }
                return self.pending_changes[i].new_status;
            }
            i += 1;
        }
        item.status
    }

    /// Whether the entry has a staged change.
    pub fn has_pending_change_for(&self, item: &StartupItem) -> (r: bool)
        ensures
            r == (find_id(self.pending_changes@, item.id@) >= 0),
    {
        proof {
            lemma_find_id(self.pending_changes@, item.id@);
        }
        let mut i: usize = 0;
        while i < self.pending_changes.len()
            invariant
                i <= self.pending_changes@.len(),
                forall|k: int| 0 <= k < i ==> self.pending_changes@[k].item_id@ != item.id@,
            decreases self.pending_changes@.len() - i,
        {
            if self.pending_changes[i].item_id == item.id {
                proof {
                    lemma_find_id(self.pending_changes@, item.id@);
                }
                return true;
            }
            i += 1;
        }
        false
    }

    pub fn has_pending_changes(&self) -> (r: bool)
        ensures
            r == (self.pending_changes@.len() > 0),
    {
        self.pending_changes.len() > 0
    }

    pub fn pending_change_count(&self) -> (r: usize)
        ensures
            r == self.pending_changes@.len(),
    {
        self.pending_changes.len()
    }

    /// Drops every staged change, touching nothing on disk.
    pub fn clear_pending_changes(&mut self)
        ensures
            final(self).pending_changes@.len() == 0,
            final(self).items_by_source == old(self).items_by_source,
            final(self).display_list == old(self).display_list,
            final(self).selected == old(self).selected,
    {
        self.pending_changes = Vec::new();
    }

    pub fn set_message(&mut self, message: String, msg_type: MessageType)
        ensures
            final(self).status_message == Some((message, msg_type)),
            final(self).items_by_source == old(self).items_by_source,
            final(self).display_list == old(self).display_list,
            final(self).pending_changes == old(self).pending_changes,
            final(self).selected == old(self).selected,
            final(self).is_admin == old(self).is_admin,
            final(self).collapsed_groups == old(self).collapsed_groups,
    {
        self.status_message = Some((message, msg_type));
    }

    pub fn clear_message(&mut self)
        ensures
            final(self).status_message is None,
            final(self).items_by_source == old(self).items_by_source,
            final(self).pending_changes == old(self).pending_changes,
    {
        self.status_message = None;
    }

    /// The number of held entries (at most `usize::MAX`).
    pub fn total_items(&self) -> (r: usize)
        ensures
            r == (if all_of(self.items_by_source@).len() <= usize::MAX {
                all_of(self.items_by_source@).len()
            } else {
                usize::MAX as nat
            }),
    {
        let ghost g = self.items_by_source@;
        let mut total: usize = 0;
        let mut k: usize = 0;
        while k < self.items_by_source.len()
            invariant
                g == self.items_by_source@,
                k <= g.len(),
                total == (if all_of(g.subrange(0, k as int)).len() <= usize::MAX {
                    all_of(g.subrange(0, k as int)).len()
                } else {
                    usize::MAX as nat
                }),
            decreases g.len() - k,
        {
            assert(g.subrange(0, k + 1).drop_last() == g.subrange(0, k as int));
            let n = self.items_by_source[k].1.len();
            total = if total > usize::MAX - n { usize::MAX } else { total + n };
            k += 1;
        }
        assert(g.subrange(0, g.len() as int) == g);
        total
    }

    /// Every held entry, group after group.
    pub fn all_items(&self) -> (r: Vec<StartupItem>)
        ensures
            r@ == all_of(self.items_by_source@),
    {
        let ghost g = self.items_by_source@;
        let mut out: Vec<StartupItem> = Vec::new();
        let mut k: usize = 0;
        while k < self.items_by_source.len()
            invariant
                g == self.items_by_source@,
                k <= g.len(),
                out@ == all_of(g.subrange(0, k as int)),
            decreases g.len() - k,
        {
            assert(g.subrange(0, k + 1).drop_last() == g.subrange(0, k as int));
            let members = &self.items_by_source[k].1;
            let ghost base = out@;
            let mut i: usize = 0;
            while i < members.len()
                invariant
                    i <= members@.len(),
                    out@ == base + members@.subrange(0, i as int),
                decreases members@.len() - i,
            {
                out.push(members[i].duplicate());
                assert(members@.subrange(0, i + 1) == members@.subrange(0, i as int).push(members@[i as int]));
                i += 1;
            }
            assert(members@.subrange(0, members@.len() as int) == members@);
            k += 1;
        }
        assert(g.subrange(0, g.len() as int) == g);
        out
    }

    /// Replaces the held entries with a fresh scan and drops every staged
    /// change; the selection stays, moved onto the last row if it fell off.
    pub fn refresh(&mut self, items: Vec<StartupItem>)
        ensures
            final(self).wf(),
            final(self).pending_changes@.len() == 0,
            grouped(items@, final(self).items_by_source@),
            final(self).display_list@ == display_of(final(self).items_by_source@, old(self).collapsed_groups@),
            final(self).collapsed_groups == old(self).collapsed_groups,
            final(self).is_admin == old(self).is_admin,
            final(self).selected == match old(self).selected {
                Some(i) => Some(
                    (if i <= (if final(self).display_list@.len() > 0 { final(self).display_list@.len() - 1 } else { 0 }) {
                        i as int
                    } else {
                        (if final(self).display_list@.len() > 0 { final(self).display_list@.len() - 1 } else { 0 })
                    }) as usize,
                ),
                None => None,
            },
    {
        self.pending_changes = Vec::new();
        self.items_by_source = group_items(&items);
        let selected = self.selected;
        self.rebuild_display_list();
        if let Some(index) = selected {
            let len = self.display_list.len();
            let last = if len > 0 { len - 1 } else { 0 };
            let new_index = if index <= last { index } else { last };
            self.selected = Some(new_index);
        }
    }
}

} // verus!
