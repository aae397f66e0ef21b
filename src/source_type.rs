use vstd::prelude::*;

verus! {

/// The closed set of autostart mechanisms.
#[derive(Debug, Clone, Copy, PartialEq, Eq, Hash, PartialOrd, Ord, Structural)]
pub enum SourceType {
    RegistryCurrentUserRun,
    RegistryCurrentUserRunOnce,
    RegistryLocalMachineRun,
    RegistryLocalMachineRunOnce,
    RegistryLocalMachineWow6432,
    StartupFolderUser,
    StartupFolderAllUsers,
    ScheduledTask,
    WindowsService,
}

/// The adapter that owns a source type: the one that scans it and changes it.
#[derive(Debug, Clone, Copy, PartialEq, Eq, Structural)]
pub enum AdapterKind {
    Registry,
    StartupFolder,
    ScheduledTask,
    Service,
}

/// The key path of each registry run-key, relative to its root hive.
pub const HKCU_RUN: &'static str = "Software\\Microsoft\\Windows\\CurrentVersion\\Run";
pub const HKCU_RUN_ONCE: &'static str = "Software\\Microsoft\\Windows\\CurrentVersion\\RunOnce";
pub const HKLM_RUN: &'static str = "SOFTWARE\\Microsoft\\Windows\\CurrentVersion\\Run";
pub const HKLM_RUN_ONCE: &'static str = "SOFTWARE\\Microsoft\\Windows\\CurrentVersion\\RunOnce";
pub const HKLM_WOW6432_RUN: &'static str = "SOFTWARE\\WOW6432Node\\Microsoft\\Windows\\CurrentVersion\\Run";

impl SourceType {
    /// Position in the declared order, which is also the display order of groups.
    pub open spec fn rank(self) -> nat {
        match self {
            SourceType::RegistryCurrentUserRun => 0,
            SourceType::RegistryCurrentUserRunOnce => 1,
            SourceType::RegistryLocalMachineRun => 2,
            SourceType::RegistryLocalMachineRunOnce => 3,
            SourceType::RegistryLocalMachineWow6432 => 4,
            SourceType::StartupFolderUser => 5,
            SourceType::StartupFolderAllUsers => 6,
            SourceType::ScheduledTask => 7,
            SourceType::WindowsService => 8,
        }
    }

    /// The variant's name as written in the source, which enters the entry id.
    pub open spec fn variant_name(self) -> Seq<char> {
        match self {
            SourceType::RegistryCurrentUserRun => "RegistryCurrentUserRun"@,
            SourceType::RegistryCurrentUserRunOnce => "RegistryCurrentUserRunOnce"@,
            SourceType::RegistryLocalMachineRun => "RegistryLocalMachineRun"@,
            SourceType::RegistryLocalMachineRunOnce => "RegistryLocalMachineRunOnce"@,
            SourceType::RegistryLocalMachineWow6432 => "RegistryLocalMachineWow6432"@,
            SourceType::StartupFolderUser => "StartupFolderUser"@,
            SourceType::StartupFolderAllUsers => "StartupFolderAllUsers"@,
            SourceType::ScheduledTask => "ScheduledTask"@,
            SourceType::WindowsService => "WindowsService"@,
        }
    }

    pub open spec fn display_name_spec(self) -> Seq<char> {
        match self {
            SourceType::RegistryCurrentUserRun => "Registry (HKCU\\Run)"@,
            SourceType::RegistryCurrentUserRunOnce => "Registry (HKCU\\RunOnce)"@,
            SourceType::RegistryLocalMachineRun => "Registry (HKLM\\Run)"@,
            SourceType::RegistryLocalMachineRunOnce => "Registry (HKLM\\RunOnce)"@,
            SourceType::RegistryLocalMachineWow6432 => "Registry (HKLM\\Wow6432)"@,
            SourceType::StartupFolderUser => "Startup Folder (User)"@,
            SourceType::StartupFolderAllUsers => "Startup Folder (All Users)"@,
            SourceType::ScheduledTask => "Scheduled Tasks"@,
            SourceType::WindowsService => "Windows Services"@,
        }
    }

    pub open spec fn short_name_spec(self) -> Seq<char> {
        match self {
            SourceType::RegistryCurrentUserRun => "HKCU\\Run"@,
            SourceType::RegistryCurrentUserRunOnce => "HKCU\\RunOnce"@,
            SourceType::RegistryLocalMachineRun => "HKLM\\Run"@,
            SourceType::RegistryLocalMachineRunOnce => "HKLM\\RunOnce"@,
            SourceType::RegistryLocalMachineWow6432 => "HKLM\\Wow6432"@,
            SourceType::StartupFolderUser => "User Startup"@,
            SourceType::StartupFolderAllUsers => "All Users Startup"@,
            SourceType::ScheduledTask => "Tasks"@,
            SourceType::WindowsService => "Services"@,
        }
    }

    /// Machine-wide sources need elevation to be changed.
    pub open spec fn needs_admin(self) -> bool {
        match self {
            SourceType::RegistryLocalMachineRun
            | SourceType::RegistryLocalMachineRunOnce
            | SourceType::RegistryLocalMachineWow6432
            | SourceType::StartupFolderAllUsers
            | SourceType::WindowsService => true,
            _ => false,
        }
    }

    pub open spec fn owner(self) -> AdapterKind {
        match self {
            SourceType::StartupFolderUser | SourceType::StartupFolderAllUsers => AdapterKind::StartupFolder,
            SourceType::ScheduledTask => AdapterKind::ScheduledTask,
            SourceType::WindowsService => AdapterKind::Service,
            _ => AdapterKind::Registry,
        }
    }

    pub open spec fn is_registry_spec(self) -> bool {
        self.owner() == AdapterKind::Registry
    }

    /// The run-key path of a registry-backed source.
    pub open spec fn key_path(self) -> Option<Seq<char>> {
        match self {
            SourceType::RegistryCurrentUserRun => Some(HKCU_RUN@),
            SourceType::RegistryCurrentUserRunOnce => Some(HKCU_RUN_ONCE@),
            SourceType::RegistryLocalMachineRun => Some(HKLM_RUN@),
            SourceType::RegistryLocalMachineRunOnce => Some(HKLM_RUN_ONCE@),
            SourceType::RegistryLocalMachineWow6432 => Some(HKLM_WOW6432_RUN@),
            _ => None,
        }
    }

    /// Whether the run-key lives under the current user's hive.
    pub open spec fn in_user_hive(self) -> bool {
        self == SourceType::RegistryCurrentUserRun || self == SourceType::RegistryCurrentUserRunOnce
    }

    /// Every source type, in declared order.
    pub open spec fn all_spec() -> Seq<SourceType> {
        seq![
            SourceType::RegistryCurrentUserRun,
            SourceType::RegistryCurrentUserRunOnce,
            SourceType::RegistryLocalMachineRun,
            SourceType::RegistryLocalMachineRunOnce,
            SourceType::RegistryLocalMachineWow6432,
            SourceType::StartupFolderUser,
            SourceType::StartupFolderAllUsers,
            SourceType::ScheduledTask,
            SourceType::WindowsService,
        ]
    }

    pub fn display_name(&self) -> (r: &'static str)
        ensures
            r@ == self.display_name_spec(),
    {
        match self {
            SourceType::RegistryCurrentUserRun => "Registry (HKCU\\Run)",
            SourceType::RegistryCurrentUserRunOnce => "Registry (HKCU\\RunOnce)",
            SourceType::RegistryLocalMachineRun => "Registry (HKLM\\Run)",
            SourceType::RegistryLocalMachineRunOnce => "Registry (HKLM\\RunOnce)",
            SourceType::RegistryLocalMachineWow6432 => "Registry (HKLM\\Wow6432)",
            SourceType::StartupFolderUser => "Startup Folder (User)",
            SourceType::StartupFolderAllUsers => "Startup Folder (All Users)",
            SourceType::ScheduledTask => "Scheduled Tasks",
            SourceType::WindowsService => "Windows Services",
        }
    }

    pub fn short_name(&self) -> (r: &'static str)
        ensures
            r@ == self.short_name_spec(),
    {
        match self {
            SourceType::RegistryCurrentUserRun => "HKCU\\Run",
            SourceType::RegistryCurrentUserRunOnce => "HKCU\\RunOnce",
            SourceType::RegistryLocalMachineRun => "HKLM\\Run",
            SourceType::RegistryLocalMachineRunOnce => "HKLM\\RunOnce",
            SourceType::RegistryLocalMachineWow6432 => "HKLM\\Wow6432",
            SourceType::StartupFolderUser => "User Startup",
            SourceType::StartupFolderAllUsers => "All Users Startup",
            SourceType::ScheduledTask => "Tasks",
            SourceType::WindowsService => "Services",
        }
    }

    /// The variant's name, as `{:?}` prints it.
    pub fn variant_str(&self) -> (r: &'static str)
        ensures
            r@ == self.variant_name(),
    {
        match self {
            SourceType::RegistryCurrentUserRun => "RegistryCurrentUserRun",
            SourceType::RegistryCurrentUserRunOnce => "RegistryCurrentUserRunOnce",
            SourceType::RegistryLocalMachineRun => "RegistryLocalMachineRun",
            SourceType::RegistryLocalMachineRunOnce => "RegistryLocalMachineRunOnce",
            SourceType::RegistryLocalMachineWow6432 => "RegistryLocalMachineWow6432",
            SourceType::StartupFolderUser => "StartupFolderUser",
            SourceType::StartupFolderAllUsers => "StartupFolderAllUsers",
            SourceType::ScheduledTask => "ScheduledTask",
            SourceType::WindowsService => "WindowsService",
        }
    }

    pub fn requires_admin(&self) -> (r: bool)
        ensures
            r == self.needs_admin(),
    {
        matches!(
            self,
            SourceType::RegistryLocalMachineRun
                | SourceType::RegistryLocalMachineRunOnce
                | SourceType::RegistryLocalMachineWow6432
                | SourceType::StartupFolderAllUsers
                | SourceType::WindowsService
        )
    }

    pub fn is_registry(&self) -> (r: bool)
        ensures
            r == self.is_registry_spec(),
    {
        matches!(
            self,
            SourceType::RegistryCurrentUserRun
                | SourceType::RegistryCurrentUserRunOnce
                | SourceType::RegistryLocalMachineRun
                | SourceType::RegistryLocalMachineRunOnce
                | SourceType::RegistryLocalMachineWow6432
        )
    }

    pub fn is_startup_folder(&self) -> (r: bool)
        ensures
            r == (self.owner() == AdapterKind::StartupFolder),
    {
        matches!(self, SourceType::StartupFolderUser | SourceType::StartupFolderAllUsers)
    }

    pub fn registry_path(&self) -> (r: Option<&'static str>)
        ensures
            r matches Some(p) ==> self.key_path() == Some(p@),
            r is None <==> self.key_path() is None,
    {
        match self {
            SourceType::RegistryCurrentUserRun => Some(HKCU_RUN),
            SourceType::RegistryCurrentUserRunOnce => Some(HKCU_RUN_ONCE),
            SourceType::RegistryLocalMachineRun => Some(HKLM_RUN),
            SourceType::RegistryLocalMachineRunOnce => Some(HKLM_RUN_ONCE),
            SourceType::RegistryLocalMachineWow6432 => Some(HKLM_WOW6432_RUN),
            _ => None,
        }
    }

    /// The adapter that this source type is dispatched to.
    pub fn adapter(&self) -> (r: AdapterKind)
        ensures
            r == self.owner(),
    {
        match self {
            SourceType::StartupFolderUser | SourceType::StartupFolderAllUsers => AdapterKind::StartupFolder,
            SourceType::ScheduledTask => AdapterKind::ScheduledTask,
            SourceType::WindowsService => AdapterKind::Service,
            _ => AdapterKind::Registry,
        }
    }

    /// Its position in the declared order.
    pub fn index(&self) -> (r: usize)
        ensures
            r == self.rank(),
    {
        match self {
            SourceType::RegistryCurrentUserRun => 0,
            SourceType::RegistryCurrentUserRunOnce => 1,
            SourceType::RegistryLocalMachineRun => 2,
            SourceType::RegistryLocalMachineRunOnce => 3,
            SourceType::RegistryLocalMachineWow6432 => 4,
            SourceType::StartupFolderUser => 5,
            SourceType::StartupFolderAllUsers => 6,
            SourceType::ScheduledTask => 7,
            SourceType::WindowsService => 8,
        }
    }

    pub fn all() -> (r: Vec<SourceType>)
        ensures
            r@ == Self::all_spec(),
    {
        vec![
            SourceType::RegistryCurrentUserRun,
            SourceType::RegistryCurrentUserRunOnce,
            SourceType::RegistryLocalMachineRun,
            SourceType::RegistryLocalMachineRunOnce,
            SourceType::RegistryLocalMachineWow6432,
            SourceType::StartupFolderUser,
            SourceType::StartupFolderAllUsers,
            SourceType::ScheduledTask,
            SourceType::WindowsService,
        ]
    }
}

/// Every source type appears in `all`, once, at its rank.
pub proof fn lemma_all_lists_each_type_at_rank(t: SourceType)
    ensures
        SourceType::all_spec().len() == 9,
        SourceType::all_spec()[t.rank() as int] == t,
{
}

} // verus!
