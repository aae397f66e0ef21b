use startup_checker::{
    get_source_icon, truncate_str, AdapterKind, EnvVars, Error, ItemStatus, SourceType, StartupItem,
};

fn no_env() -> EnvVars {
    EnvVars {
        system_root: None,
        program_files: None,
        program_files_x86: None,
        user_profile: None,
        app_data: None,
        local_app_data: None,
    }
}

fn item(name: &str, source: SourceType, command: &str) -> StartupItem {
    StartupItem::new(name.to_string(), source, "loc".to_string(), command.to_string(), &no_env())
}

#[test]
fn status_toggle_display_symbol() {
    assert_eq!(ItemStatus::Enabled.toggle(), ItemStatus::Disabled);
    assert_eq!(ItemStatus::Disabled.toggle(), ItemStatus::Enabled);
    assert_eq!(ItemStatus::Unknown.toggle(), ItemStatus::Enabled);
    assert!(ItemStatus::Enabled.is_enabled());
    assert!(!ItemStatus::Unknown.is_enabled());
    assert_eq!(ItemStatus::Disabled.display(), "Disabled");
    assert_eq!(ItemStatus::Unknown.symbol(), "[?]");
    assert_eq!(ItemStatus::Enabled.symbol(), "[x]");
    assert_eq!(ItemStatus::default(), ItemStatus::Unknown);
}

#[test]
fn source_type_facts() {
    assert_eq!(SourceType::all().len(), 9);
    assert_eq!(SourceType::RegistryCurrentUserRun.display_name(), "Registry (HKCU\\Run)");
    assert_eq!(SourceType::StartupFolderAllUsers.short_name(), "All Users Startup");
    assert!(SourceType::WindowsService.requires_admin());
    assert!(!SourceType::RegistryCurrentUserRunOnce.requires_admin());
    assert!(SourceType::RegistryLocalMachineWow6432.is_registry());
    assert!(!SourceType::ScheduledTask.is_registry());
    assert!(SourceType::StartupFolderUser.is_startup_folder());
    assert_eq!(
        SourceType::RegistryLocalMachineWow6432.registry_path(),
        Some("SOFTWARE\\WOW6432Node\\Microsoft\\Windows\\CurrentVersion\\Run")
    );
    assert_eq!(SourceType::ScheduledTask.registry_path(), None);
    assert_eq!(SourceType::StartupFolderUser.adapter(), AdapterKind::StartupFolder);
    assert_eq!(SourceType::WindowsService.index(), 8);
}

#[test]
fn id_is_the_hex_of_the_digest_prefix() {
    let it = item("Updater", SourceType::RegistryCurrentUserRun, "C:\\tools\\upd.exe -silent");
    assert_eq!(it.id, "cc0a2f9fde682d7a");
    assert_eq!(it.id.len(), 16);
    assert_eq!(it.status, ItemStatus::Enabled);
    assert!(!it.requires_admin);
}

#[test]
fn id_is_stable_and_independent_of_status() {
    let a = item("Updater", SourceType::RegistryCurrentUserRun, "C:\\tools\\upd.exe -silent");
    let b = item("Updater", SourceType::RegistryCurrentUserRun, "C:\\tools\\upd.exe -silent")
        .with_status(ItemStatus::Disabled);
    assert_eq!(a.id, b.id);
    let c = item("Updater", SourceType::RegistryLocalMachineRun, "C:\\tools\\upd.exe -silent");
    assert_ne!(a.id, c.id);
    assert!(c.requires_admin);
}

#[test]
fn executable_path_quoted_and_plain() {
    let q = item("A", SourceType::RegistryCurrentUserRun, "  \"C:\\Program Files\\A\\a.exe\" --x");
    assert_eq!(q.executable_path.as_deref(), Some("C:\\Program Files\\A\\a.exe"));
    let p = item("B", SourceType::RegistryCurrentUserRun, "C:\\b.exe /s");
    assert_eq!(p.executable_path.as_deref(), Some("C:\\b.exe"));
    let blank = item("C", SourceType::RegistryCurrentUserRun, "   ");
    assert_eq!(blank.executable_path, None);
    assert!(!blank.file_exists);
    let unclosed = item("D", SourceType::RegistryCurrentUserRun, "\"C:\\x y.exe");
    assert_eq!(unclosed.executable_path.as_deref(), Some("\"C:\\x"));
}

#[test]
fn placeholders_expand_with_defaults_and_values() {
    let env = EnvVars {
        system_root: None,
        program_files: Some("D:\\Apps".to_string()),
        program_files_x86: None,
        user_profile: None,
        app_data: Some("E:\\Roaming".to_string()),
        local_app_data: None,
    };
    let a = StartupItem::new("a".into(), SourceType::RegistryCurrentUserRun, "l".into(), "%SystemRoot%\\x.exe".into(), &env);
    assert_eq!(a.executable_path.as_deref(), Some("C:\\Windows\\x.exe"));
    let b = StartupItem::new("b".into(), SourceType::RegistryCurrentUserRun, "l".into(), "%programfiles%\\y.exe -q".into(), &env);
    assert_eq!(b.executable_path.as_deref(), Some("D:\\Apps\\y.exe"));
    let c = StartupItem::new("c".into(), SourceType::RegistryCurrentUserRun, "l".into(), "%APPDATA%\\z.exe".into(), &env);
    assert_eq!(c.executable_path.as_deref(), Some("E:\\Roaming\\z.exe"));
    let q = StartupItem::new("q".into(), SourceType::RegistryCurrentUserRun, "l".into(), "\"%SystemRoot%\\x.exe\" /a".into(), &env);
    assert_eq!(q.executable_path.as_deref(), Some("C:\\Windows\\x.exe"));
    let d = StartupItem::new("d".into(), SourceType::RegistryCurrentUserRun, "l".into(), "%USERPROFILE%\\w.exe".into(), &env);
    assert_eq!(d.executable_path.as_deref(), Some("\\w.exe"));
}

#[test]
fn builders_and_display() {
    let it = item("N", SourceType::ScheduledTask, "run.exe")
        .with_publisher(Some("Pub".into()))
        .with_description(Some("Desc".into()));
    assert_eq!(it.publisher.as_deref(), Some("Pub"));
    assert_eq!(it.description.as_deref(), Some("Desc"));
    assert_eq!(it.display_path(), "run.exe");
    assert_eq!(it.display_command(), "run.exe");
    let long = "x".repeat(70);
    let l = item("L", SourceType::ScheduledTask, &long);
    assert_eq!(l.display_command(), format!("{}...", "x".repeat(57)));
    let exactly = "y".repeat(60);
    assert_eq!(item("E", SourceType::ScheduledTask, &exactly).display_command(), exactly);
    let blank = item("B", SourceType::ScheduledTask, "");
    assert_eq!(blank.display_path(), "");
}

#[test]
fn truncation_and_icons() {
    assert_eq!(truncate_str("abcdef", 10), "abcdef");
    assert_eq!(truncate_str("abcdefgh", 6), "abc...");
    assert_eq!(truncate_str("abcdef", 2), "ab");
    assert_eq!(get_source_icon(&SourceType::WindowsService), "⚙");
    assert_eq!(get_source_icon(&SourceType::RegistryLocalMachineRun), "📝");
    assert_eq!(get_source_icon(&SourceType::StartupFolderUser), "📁");
    assert_eq!(get_source_icon(&SourceType::ScheduledTask), "⏱");
}

#[test]
fn error_messages() {
    assert_eq!(Error::Registry("x".into()).message(), "Registry access error: x");
    assert_eq!(Error::WindowsApi("w".into()).message(), "Windows API error: w");
    assert_eq!(Error::Io("disk".into()).message(), "IO error: disk");
    assert_eq!(Error::PermissionDenied { message: "no".into() }.message(), "Permission denied: no");
    assert_eq!(Error::ItemNotFound { id: "7".into() }.message(), "Item not found: 7");
    assert_eq!(Error::BackupFailed { reason: "r".into() }.message(), "Backup failed: r");
    assert_eq!(Error::RestoreFailed { reason: "r".into() }.message(), "Restore failed: r");
    assert_eq!(Error::ChangeFailed.message(), "Change failed and was rolled back");
    assert_eq!(Error::ComInitFailed("c".into()).message(), "COM initialization failed: c");
    assert_eq!(Error::ScmAccessDenied.message(), "Service control manager access denied");
    assert_eq!(Error::Serialization("s".into()).message(), "Serialization error: s");
    assert_eq!(Error::TaskScheduler("t".into()).message(), "Task scheduler error: t");
    assert_eq!(Error::InvalidPath("p".into()).message(), "Invalid path: p");
}

#[test]
fn entries_with_one_id_are_equal() {
    let a = item("Same", SourceType::ScheduledTask, "x.exe");
    let b = item("Same", SourceType::ScheduledTask, "x.exe").with_status(ItemStatus::Disabled);
    let c = item("Other", SourceType::ScheduledTask, "x.exe");
    assert!(a == b);
    assert!(a != c);
}
