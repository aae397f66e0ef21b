use vstd::prelude::*;

use crate::source_type::SourceType;

verus! {

/// The symbols of the interface.
pub struct Icons;

impl Icons {
    pub const CHECKBOX_ON: &'static str = "◉";
    pub const CHECKBOX_OFF: &'static str = "○";
    pub const CHECKBOX_UNKNOWN: &'static str = "◌";
    pub const ARROW_RIGHT: &'static str = "▸";
    pub const ARROW_DOWN: &'static str = "▾";
    pub const ENABLED: &'static str = "●";
    pub const DISABLED: &'static str = "○";
    pub const PENDING: &'static str = "◐";
    pub const MODIFIED: &'static str = "✱";
    pub const ADMIN: &'static str = "⚡";
    pub const MISSING: &'static str = "⚠";
    pub const SERVICE: &'static str = "⚙";
    pub const TASK: &'static str = "⏱";
    pub const FOLDER: &'static str = "📁";
    pub const REGISTRY: &'static str = "📝";
    pub const CHECK: &'static str = "✓";
    pub const CROSS: &'static str = "✗";
    pub const INFO: &'static str = "ℹ";
    pub const DOT: &'static str = "·";
    pub const BULLET: &'static str = "•";
    pub const SEPARATOR: &'static str = "│";
    pub const LOGO: &'static str = "◆";
}

/// Rounded border characters.
pub struct Borders;

impl Borders {
    pub const TOP_LEFT: &'static str = "╭";
    pub const TOP_RIGHT: &'static str = "╮";
    pub const BOTTOM_LEFT: &'static str = "╰";
    pub const BOTTOM_RIGHT: &'static str = "╯";
    pub const HORIZONTAL: &'static str = "─";
    pub const VERTICAL: &'static str = "│";
    pub const CROSS: &'static str = "┼";
    pub const T_LEFT: &'static str = "├";
    pub const T_RIGHT: &'static str = "┤";
    pub const T_TOP: &'static str = "┬";
    pub const T_BOTTOM: &'static str = "┴";
}

/// The icon of a source type's group.
pub open spec fn source_icon(source: SourceType) -> Seq<char> {
    match source {
        SourceType::StartupFolderUser | SourceType::StartupFolderAllUsers => "📁"@,
        SourceType::ScheduledTask => "⏱"@,
        SourceType::WindowsService => "⚙"@,
        _ => "📝"@,
    }
}

pub fn get_source_icon(source: &SourceType) -> (r: &'static str)
    ensures
        r@ == source_icon(*source),
{
    match source {
        SourceType::RegistryCurrentUserRun
        | SourceType::RegistryCurrentUserRunOnce
        | SourceType::RegistryLocalMachineRun
        | SourceType::RegistryLocalMachineRunOnce
        | SourceType::RegistryLocalMachineWow6432 => "📝",
        SourceType::StartupFolderUser | SourceType::StartupFolderAllUsers => "📁",
        SourceType::ScheduledTask => "⏱",
        SourceType::WindowsService => "⚙",
    }
}

} // verus!
