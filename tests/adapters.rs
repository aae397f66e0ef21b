use startup_checker::folder::StartupFolderScanner;
use startup_checker::registry::{decode_reg_string, decode_value, encode_reg_string, to_wide, REG_EXPAND_SZ, REG_SZ};
use startup_checker::services::{SERVICE_AUTO_START, SERVICE_DEMAND_START};
use startup_checker::{
    admin_warning, merge_scans, modification, parse_csv_line, AdapterKind, EnvVars, Error, ItemStatus,
    Modification, RegistryHive, RegistryScanner, ServicesScanner, SourceType, StartupItem,
    TaskSchedulerScanner,
};

fn no_env() -> EnvVars {
    EnvVars {
        system_root: None,
        program_files: None,
        program_files_x86: None,
        user_profile: None,
        app_data: None,
        local_app_data: None,
    }
}

fn utf16le(s: &str) -> Vec<u8> {
    s.encode_utf16().flat_map(|u| u.to_le_bytes()).collect()
}

#[test]
fn csv_line_respects_quotes() {
    assert_eq!(parse_csv_line("\"a, b\",c , \"d\""), vec!["a, b", "c", "d"]);
    assert_eq!(parse_csv_line(""), vec![""]);
    assert_eq!(parse_csv_line("x,,y"), vec!["x", "", "y"]);
}

#[test]
fn task_listing_keeps_startup_tasks_sorted_once() {
    let out = "\"HostName\",\"TaskName\",\"Status\",\"Trigger\"\r\n\
\"PC\",\"\\Vendor\\Zeta\",\"Ready\",\"At logon time\"\r\n\
\"PC\",\"\\Microsoft\\Windows\\Defrag\",\"Ready\",\"At system start up\"\r\n\
\"PC\",\"\\Vendor\\Alpha\",\"Disabled\",\"At Startup\"\r\n\
\"PC\",\"\\Vendor\\Daily\",\"Ready\",\"Daily\"\r\n\
\"PC\",\"\\Other\\Zeta\",\"Running\",\"At boot\"\r\n\
\"PC\",\"\\Vendor\\Odd\",\"Queued\",\"ON LOGON\"\r\n";
    let items = TaskSchedulerScanner::new().parse_task_listing(out, &no_env());
    let names: Vec<&str> = items.iter().map(|i| i.name.as_str()).collect();
    assert_eq!(names, vec!["Alpha", "Odd", "Zeta"]);
    assert_eq!(items[0].status, ItemStatus::Disabled);
    assert_eq!(items[1].status, ItemStatus::Enabled);
    assert_eq!(items[2].source_location, "\\Vendor\\Zeta");
    assert_eq!(items[2].command, "Scheduled Task: \\Vendor\\Zeta");
    assert_eq!(items[2].source, SourceType::ScheduledTask);
    assert!(items[2].requires_admin == false);
}

#[test]
fn task_listing_without_rows_or_name_column_is_empty() {
    let t = TaskSchedulerScanner::new();
    assert!(t.parse_task_listing("", &no_env()).is_empty());
    assert!(t.parse_task_listing("\"TaskName\",\"Status\"", &no_env()).is_empty());
    assert!(t.parse_task_listing("\"A\",\"B\"\n\"x\",\"y\"", &no_env()).is_empty());
    assert_eq!(t.source_types(), vec![SourceType::ScheduledTask]);
}

#[test]
fn short_task_listing() {
    let out = "\"TaskName\",\"Next Run Time\",\"Status\",\"X\"\n\
\"\\Vendor\\Sync\",\"N/A\",\"Ready\",\"x\"\n\
\"\\Microsoft\\Skip\",\"N/A\",\"Ready\",\"x\"\n\
\"\\Vendor\\Off\",\"N/A\",\"disabled\",\"x\"\n\
\"\\Vendor\\Weird\",\"N/A\",\"Queued\",\"x\"\n\
\"short\",\"row\"\n";
    let items = TaskSchedulerScanner::new().parse_schtasks_output(out, &no_env());
    assert_eq!(items.len(), 2);
    assert_eq!(items[0].name, "Sync");
    assert_eq!(items[0].command, "\\Vendor\\Sync");
    assert_eq!(items[1].name, "Off");
    assert_eq!(items[1].status, ItemStatus::Disabled);
}

#[test]
fn folder_files_become_entries() {
    let f = StartupFolderScanner::new();
    let env = no_env();
    let on = f.folder_item("Tool.lnk", false, "C:\\S\\Tool.lnk", "C:\\S", SourceType::StartupFolderUser, &env).unwrap();
    assert_eq!(on.name, "Tool");
    assert_eq!(on.status, ItemStatus::Enabled);
    assert_eq!(on.command, "C:\\S\\Tool.lnk");
    assert_eq!(on.source_location, "C:\\S");
    let off = f.folder_item("Tool.lnk.disabled", false, "C:\\S\\Tool.lnk.disabled", "C:\\S", SourceType::StartupFolderAllUsers, &env).unwrap();
    assert_eq!(off.name, "Tool.lnk");
    assert_eq!(off.status, ItemStatus::Disabled);
    assert!(off.requires_admin);
    assert!(f.folder_item("DESKTOP.INI", false, "p", "C:\\S", SourceType::StartupFolderUser, &env).is_none());
    assert!(f.folder_item(".hidden", false, "p", "C:\\S", SourceType::StartupFolderUser, &env).is_none());
    assert!(f.folder_item("dir", true, "p", "C:\\S", SourceType::StartupFolderUser, &env).is_none());
    assert_eq!(StartupFolderScanner::get_all_users_startup_folder(), "C:\\ProgramData\\Microsoft\\Windows\\Start Menu\\Programs\\Startup");
    assert_eq!(f.source_types(), vec![SourceType::StartupFolderUser, SourceType::StartupFolderAllUsers]);
}

#[test]
fn folder_rename_targets() {
    let f = StartupFolderScanner::new();
    let it = StartupItem::new("Tool".into(), SourceType::StartupFolderUser, "C:\\S".into(), "c".into(), &no_env());
    let files = vec!["a.txt".to_string(), "Tool.lnk".to_string(), "Tool.lnk.disabled".to_string()];
    assert_eq!(f.disable_target(&files, &it).unwrap(), (1, "Tool.lnk.disabled".to_string()));
    assert_eq!(f.enable_target(&files, &it).unwrap(), (2, "Tool.lnk".to_string()));
    let none = vec!["Other.lnk".to_string()];
    match f.enable_target(&none, &it) {
        Err(Error::ItemNotFound { id }) => assert_eq!(id, it.id),
        _ => panic!("expected ItemNotFound"),
    }
    assert!(f.disable_target(&none, &it).is_err());
}

#[test]
fn registry_value_decoding() {
    let mut data = utf16le("C:\\a.exe");
    data.extend_from_slice(&[0, 0, 0, 0]);
    assert_eq!(decode_reg_string(&data), "C:\\a.exe");
    data.push(7);
    assert_eq!(decode_reg_string(&data), "C:\\a.exe");
    assert_eq!(decode_reg_string(&[0x3D, 0xD8]), "\u{FFFD}");
    assert_eq!(decode_reg_string(&[0x3D, 0xD8, 0x00, 0xDE, 0x41, 0x00]), "😀A");
    assert_eq!(decode_reg_string(&[0x00, 0xDE, 0x41, 0x00]), "\u{FFFD}A");
    assert_eq!(decode_value(REG_SZ, "App".into(), &utf16le("x")), Some(("App".to_string(), "x".to_string())));
    assert_eq!(decode_value(REG_EXPAND_SZ, "App".into(), &utf16le("%x%")), Some(("App".to_string(), "%x%".to_string())));
    assert_eq!(decode_value(4, "App".into(), &utf16le("x")), None);
    assert_eq!(decode_value(REG_SZ, "".into(), &utf16le("x")), None);
}

#[test]
fn registry_value_encoding() {
    assert_eq!(to_wide("Aé"), vec![0x41, 0xE9, 0]);
    assert_eq!(to_wide("😀"), vec![0xD83D, 0xDE00, 0]);
    assert_eq!(encode_reg_string("A"), vec![0x41, 0, 0, 0]);
    assert_eq!(ServicesScanner::to_wide("s"), vec![0x73, 0]);
}

#[test]
fn registry_keys_and_paths() {
    let r = RegistryScanner::new();
    assert_eq!(r.get_key_path(SourceType::RegistryCurrentUserRun), "Software\\Microsoft\\Windows\\CurrentVersion\\Run");
    assert_eq!(r.get_key_path(SourceType::WindowsService), "");
    assert_eq!(r.get_root_key(SourceType::RegistryCurrentUserRunOnce), RegistryHive::CurrentUser);
    assert_eq!(r.get_root_key(SourceType::RegistryLocalMachineRun), RegistryHive::LocalMachine);
    assert_eq!(RegistryScanner::disabled_path("K"), "K\\AutorunsDisabled");
    assert_eq!(r.run_keys().len(), 5);
    assert_eq!(r.source_types().len(), 5);
}

#[test]
fn registry_key_scan_builds_both_statuses() {
    let r = RegistryScanner::new();
    let enabled = vec![("A".to_string(), "a.exe".to_string()), ("".to_string(), "x".to_string()), ("E".to_string(), "".to_string())];
    let disabled = vec![("B".to_string(), "b.exe".to_string())];
    let items = r.scan_registry_key(&enabled, &disabled, "K", SourceType::RegistryLocalMachineRun, &no_env());
    assert_eq!(items.len(), 2);
    assert_eq!(items[0].name, "A");
    assert_eq!(items[0].status, ItemStatus::Enabled);
    assert_eq!(items[0].source_location, "K");
    assert_eq!(items[1].name, "B");
    assert_eq!(items[1].status, ItemStatus::Disabled);
    assert_eq!(items[1].source_location, "K\\AutorunsDisabled");
}

#[test]
fn services_keep_self_starting_ones() {
    let s = ServicesScanner::new();
    let it = s.service_item("svc".into(), "Service One".into(), SERVICE_AUTO_START, "C:\\svc.exe".into(), &no_env()).unwrap();
    assert_eq!(it.name, "Service One");
    assert_eq!(it.source_location, "svc");
    assert_eq!(it.description.as_deref(), Some("Service: svc"));
    assert!(it.requires_admin);
    assert!(s.service_item("svc".into(), "n".into(), SERVICE_DEMAND_START, "p".into(), &no_env()).is_none());
    assert!(s.service_item("svc".into(), "n".into(), 0, "p".into(), &no_env()).is_some());
    assert!(s.service_item("svc".into(), "n".into(), 4, "p".into(), &no_env()).is_none());
    assert_eq!(ServicesScanner::start_type_for(ItemStatus::Enabled), Some(SERVICE_AUTO_START));
    assert_eq!(ServicesScanner::start_type_for(ItemStatus::Disabled), Some(SERVICE_DEMAND_START));
    assert_eq!(ServicesScanner::start_type_for(ItemStatus::Unknown), None);
    assert_eq!(s.source_types(), vec![SourceType::WindowsService]);
}

#[test]
fn dispatch_and_merge() {
    let it = StartupItem::new("n".into(), SourceType::ScheduledTask, "l".into(), "c".into(), &no_env());
    assert_eq!(modification(&it, ItemStatus::Disabled), Modification::Disable(AdapterKind::ScheduledTask));
    assert_eq!(modification(&it, ItemStatus::Enabled), Modification::Enable(AdapterKind::ScheduledTask));
    assert_eq!(modification(&it, ItemStatus::Unknown), Modification::Nothing);
    let a = StartupItem::new("a".into(), SourceType::ScheduledTask, "l".into(), "c".into(), &no_env());
    let b = StartupItem::new("b".into(), SourceType::WindowsService, "l".into(), "c".into(), &no_env());
    let merged = merge_scans(vec![Ok(vec![a]), Err(Error::ScmAccessDenied), Ok(vec![]), Ok(vec![b])]);
    let names: Vec<&str> = merged.iter().map(|i| i.name.as_str()).collect();
    assert_eq!(names, vec!["a", "b"]);
    assert_eq!(admin_warning(true), None);
    assert_eq!(admin_warning(false).as_deref(), Some("Not running as Administrator. Some items cannot be modified."));
}
