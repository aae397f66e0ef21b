use vstd::prelude::*;

verus! {

/// Whether an autostart entry launches; `Unknown` when its source cannot tell.
#[derive(Debug, Clone, Copy, PartialEq, Eq, Structural)]
pub enum ItemStatus {
    Enabled,
    Disabled,
    Unknown,
}

impl ItemStatus {
    /// The status that a toggle asks for: an enabled entry is disabled, anything
    /// else is enabled.
    pub open spec fn toggled(self) -> ItemStatus {
        match self {
            ItemStatus::Enabled => ItemStatus::Disabled,
            _ => ItemStatus::Enabled,
        }
    }

    pub open spec fn display_spec(self) -> Seq<char> {
        match self {
            ItemStatus::Enabled => "Enabled"@,
            ItemStatus::Disabled => "Disabled"@,
            ItemStatus::Unknown => "Unknown"@,
        }
    }

    pub open spec fn symbol_spec(self) -> Seq<char> {
        match self {
            ItemStatus::Enabled => "[x]"@,
            ItemStatus::Disabled => "[ ]"@,
            ItemStatus::Unknown => "[?]"@,
        }
    }

    pub fn is_enabled(&self) -> (r: bool)
        ensures
            r == (*self == ItemStatus::Enabled),
    {
        matches!(self, ItemStatus::Enabled)
    }

    pub fn toggle(&self) -> (r: ItemStatus)
        ensures
            r == self.toggled(),
    {
        match self {
            ItemStatus::Enabled => ItemStatus::Disabled,
            ItemStatus::Disabled | ItemStatus::Unknown => ItemStatus::Enabled,
        }
    }

    pub fn display(&self) -> (r: &'static str)
        ensures
            r@ == self.display_spec(),
    {
        match self {
            ItemStatus::Enabled => "Enabled",
            ItemStatus::Disabled => "Disabled",
            ItemStatus::Unknown => "Unknown",
        }
    }

    pub fn symbol(&self) -> (r: &'static str)
        ensures
            r@ == self.symbol_spec(),
    {
        match self {
            ItemStatus::Enabled => "[x]",
            ItemStatus::Disabled => "[ ]",
            ItemStatus::Unknown => "[?]",
        }
    }
}

impl Default for ItemStatus {
    fn default() -> (r: ItemStatus)
        ensures
            r == ItemStatus::Unknown,
    {
        ItemStatus::Unknown
    }
}

} // verus!
