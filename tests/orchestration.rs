use std::collections::HashMap;

use startup_checker::backup::{is_backup_file, latest, sort_newest_first};
use startup_checker::{
    modification, AdapterKind, AppState, ApplyPhase, ApplyStep, Backup, DisplayItem, EnvVars,
    ItemStatus, MessageType, Modification, RegistryEvent, RegistryScanner, Relocation,
    RelocationStep, SourceType, StartupItem, Timestamp,
};

fn no_env() -> EnvVars {
    EnvVars {
        system_root: None,
        program_files: None,
        program_files_x86: None,
        user_profile: None,
        app_data: None,
        local_app_data: None,
    }
}

fn mk(name: &str, source: SourceType, status: ItemStatus) -> StartupItem {
    StartupItem::new(name.to_string(), source, "loc".to_string(), format!("{}.exe", name), &no_env()).with_status(status)
}

fn select_item(state: &mut AppState, name: &str) {
    let idx = state
        .display_list
        .iter()
        .position(|d| matches!(d, DisplayItem::Item(i) if i.name == name))
        .unwrap();
    state.selected = Some(idx);
}

fn ts(y: u32, mo: u32, d: u32, h: u32, mi: u32, s: u32) -> Timestamp {
    Timestamp { year: y, month: mo, day: d, hour: h, minute: mi, second: s, nanosecond: 0 }
}

/// Plays a relocation against an in-memory hive of key path -> (name -> value).
fn play(plan: &mut Relocation, hive: &mut HashMap<String, HashMap<String, String>>, refuse_write: bool) {
    loop {
        let ev = match plan.step {
            RelocationStep::OpenSource => {
                if hive.contains_key(&plan.from_path) { RegistryEvent::Succeeded } else { RegistryEvent::Refused("open".into()) }
            }
            RelocationStep::ReadValue => match hive[&plan.from_path].get(&plan.name) {
                Some(v) => RegistryEvent::Value(v.clone()),
                None => RegistryEvent::Refused("missing".into()),
            },
            RelocationStep::CreateTarget => {
                hive.entry(plan.to_path.clone()).or_default();
                RegistryEvent::Succeeded
            }
            RelocationStep::WriteTarget => {
                if refuse_write {
                    RegistryEvent::Refused("write".into())
                } else {
                    let v = plan.value.clone().unwrap();
                    hive.get_mut(&plan.to_path).unwrap().insert(plan.name.clone(), v);
                    RegistryEvent::Succeeded
                }
            }
            RelocationStep::DeleteSource => {
                hive.get_mut(&plan.from_path).unwrap().remove(&plan.name);
                RegistryEvent::Succeeded
            }
            RelocationStep::Done | RelocationStep::Failed => return,
        };
        plan.advance(ev);
    }
}

#[test]
fn new_state_groups_and_sorts_case_insensitively() {
    let items = vec![
        mk("zed", SourceType::ScheduledTask, ItemStatus::Enabled),
        mk("Beta", SourceType::RegistryCurrentUserRun, ItemStatus::Enabled),
        mk("alpha", SourceType::RegistryCurrentUserRun, ItemStatus::Disabled),
    ];
    let state = AppState::new(items, false);
    assert_eq!(state.items_by_source.len(), 2);
    assert_eq!(state.items_by_source[0].0, SourceType::RegistryCurrentUserRun);
    assert_eq!(state.items_by_source[0].1[0].name, "alpha");
    assert_eq!(state.items_by_source[0].1[1].name, "Beta");
    assert_eq!(state.display_list.len(), 5);
    assert!(matches!(state.display_list[0], DisplayItem::GroupHeader { source: SourceType::RegistryCurrentUserRun, count: 2, collapsed: false }));
    assert_eq!(state.selected, Some(0));
    assert_eq!(state.total_items(), 3);
    assert_eq!(state.all_items().len(), 3);
    let empty = AppState::new(vec![], true);
    assert_eq!(empty.selected, None);
    assert!(empty.display_list.is_empty());
}

#[test]
fn navigation_wraps() {
    let mut state = AppState::new(vec![mk("a", SourceType::ScheduledTask, ItemStatus::Enabled)], false);
    state.move_up();
    assert_eq!(state.selected_index(), Some(1));
    state.move_down();
    assert_eq!(state.selected_index(), Some(0));
    state.move_down();
    assert_eq!(state.selected_index(), Some(1));
    assert!(state.selected_startup_item().is_some());
    state.selected = None;
    state.move_down();
    assert_eq!(state.selected, Some(0));
    assert!(state.selected_startup_item().is_none());
}

#[test]
fn toggle_twice_restores_the_disk_status() {
    let mut state = AppState::new(vec![mk("a", SourceType::ScheduledTask, ItemStatus::Enabled)], false);
    select_item(&mut state, "a");
    let item = state.selected_startup_item().unwrap().clone();
    state.toggle_selected();
    assert_eq!(state.pending_change_count(), 1);
    assert_eq!(state.get_effective_status(&item), ItemStatus::Disabled);
    state.toggle_selected();
    assert!(!state.has_pending_changes());
    assert_eq!(state.get_effective_status(&item), ItemStatus::Enabled);
}

#[test]
fn two_toggles_of_unknown_leave_one_change() {
    let mut state = AppState::new(vec![mk("u", SourceType::ScheduledTask, ItemStatus::Unknown)], false);
    select_item(&mut state, "u");
    state.toggle_selected();
    state.toggle_selected();
    assert_eq!(state.pending_changes.len(), 1);
    assert_eq!(state.pending_changes[0].old_status, ItemStatus::Unknown);
    assert_eq!(state.pending_changes[0].new_status, ItemStatus::Disabled);
}

#[test]
fn admin_only_toggle_is_refused() {
    let mut state = AppState::new(vec![mk("svc", SourceType::WindowsService, ItemStatus::Enabled)], false);
    select_item(&mut state, "svc");
    state.toggle_selected();
    assert!(!state.has_pending_changes());
    let (msg, kind) = state.status_message.clone().unwrap();
    assert_eq!(msg, "Cannot modify: Administrator privileges required");
    assert!(matches!(kind, MessageType::Warning));
    let mut admin = AppState::new(vec![mk("svc", SourceType::WindowsService, ItemStatus::Enabled)], true);
    select_item(&mut admin, "svc");
    admin.toggle_selected();
    assert_eq!(admin.pending_change_count(), 1);
}

#[test]
fn header_toggle_collapses_group() {
    let mut state = AppState::new(vec![mk("a", SourceType::ScheduledTask, ItemStatus::Enabled), mk("b", SourceType::ScheduledTask, ItemStatus::Enabled)], false);
    state.selected = Some(0);
    state.toggle_selected();
    assert_eq!(state.display_list.len(), 1);
    assert!(matches!(state.display_list[0], DisplayItem::GroupHeader { collapsed: true, count: 2, .. }));
    assert_eq!(state.selected, Some(0));
    state.toggle_selected();
    assert_eq!(state.display_list.len(), 3);
}

#[test]
fn refresh_drops_changes_and_clamps_selection() {
    let mut state = AppState::new(vec![mk("a", SourceType::ScheduledTask, ItemStatus::Enabled), mk("b", SourceType::ScheduledTask, ItemStatus::Enabled)], false);
    select_item(&mut state, "b");
    state.toggle_selected();
    assert!(state.has_pending_changes());
    state.refresh(vec![mk("a", SourceType::ScheduledTask, ItemStatus::Enabled)]);
    assert!(!state.has_pending_changes());
    assert_eq!(state.selected, Some(1));
    state.set_message("hi".into(), MessageType::Info);
    state.clear_message();
    assert!(state.status_message.is_none());
}

#[test]
fn nothing_staged_means_nothing_to_apply() {
    let state = AppState::new(vec![mk("a", SourceType::ScheduledTask, ItemStatus::Enabled)], false);
    assert!(state.begin_apply().is_none());
}

#[test]
fn failed_backup_changes_nothing() {
    let mut state = AppState::new(vec![mk("a", SourceType::ScheduledTask, ItemStatus::Enabled)], false);
    select_item(&mut state, "a");
    state.toggle_selected();
    let mut session = state.begin_apply().unwrap();
    assert_eq!(session.step(), ApplyStep::CreateBackup);
    assert_eq!(session.backup_items.len(), 1);
    session.backup_done(false);
    assert_eq!(session.phase, ApplyPhase::Aborted);
    assert_eq!(session.step(), ApplyStep::Stop);
    assert_eq!(state.pending_change_count(), 1);
}

#[test]
fn partial_failures_are_counted_and_changes_cleared() {
    let items = vec![
        mk("a", SourceType::ScheduledTask, ItemStatus::Enabled),
        mk("b", SourceType::ScheduledTask, ItemStatus::Enabled),
        mk("c", SourceType::ScheduledTask, ItemStatus::Disabled),
    ];
    let mut state = AppState::new(items.clone(), false);
    for n in ["a", "b", "c"] {
        select_item(&mut state, n);
        state.toggle_selected();
    }
    let mut session = state.begin_apply().unwrap();
    assert_eq!(session.changes.len(), 3);
    session.backup_done(true);
    let outcomes = [true, false, true];
    let mut k = 0;
    while let ApplyStep::Modify(i) = session.step() {
        assert_eq!(i, k);
        session.change_done(outcomes[k]);
        k += 1;
    }
    assert_eq!(session.step(), ApplyStep::Rescan);
    assert_eq!((session.succeeded, session.failed), (2, 1));
    state.finish_apply(&session, items);
    assert!(!state.has_pending_changes());
}

#[test]
fn updater_disable_scenario() {
    let cmd = "C:\\tools\\upd.exe -silent";
    let run = RegistryScanner::new().get_key_path(SourceType::RegistryCurrentUserRun).to_string();
    let mut hive: HashMap<String, HashMap<String, String>> = HashMap::new();
    hive.insert(run.clone(), HashMap::from([("Updater".to_string(), cmd.to_string())]));
    let scan = |hive: &HashMap<String, HashMap<String, String>>| {
        let values = |p: &str| -> Vec<(String, String)> {
            hive.get(p).map(|m| m.iter().map(|(k, v)| (k.clone(), v.clone())).collect()).unwrap_or_default()
        };
        RegistryScanner::new().scan_registry_key(&values(&run), &values(&RegistryScanner::disabled_path(&run)), &run, SourceType::RegistryCurrentUserRun, &no_env())
    };
    let first = scan(&hive);
    assert_eq!(first.len(), 1);
    assert_eq!(first[0].status, ItemStatus::Enabled);
    let id = first[0].id.clone();

    let mut state = AppState::new(first, false);
    select_item(&mut state, "Updater");
    state.toggle_selected();
    let item = state.selected_startup_item().unwrap().clone();
    assert_eq!(state.get_effective_status(&item), ItemStatus::Disabled);
    assert_eq!(hive[&run].get("Updater").map(|s| s.as_str()), Some(cmd));

    let mut session = state.begin_apply().unwrap();
    session.backup_done(true);
    let ApplyStep::Modify(i) = session.step() else { panic!("expected a change") };
    let (target, status) = session.changes[i].clone();
    assert_eq!(modification(&target, status), Modification::Disable(AdapterKind::Registry));
    let mut plan = Relocation::disable_plan(&target);
    assert_eq!(plan.to_path, format!("{}\\AutorunsDisabled", run));
    play(&mut plan, &mut hive, false);
    assert_eq!(plan.outcome().unwrap().is_ok(), true);
    session.change_done(true);
    let rescanned = scan(&hive);
    state.finish_apply(&session, rescanned.clone());
    assert!(hive[&run].get("Updater").is_none());
    assert_eq!(hive[&plan.to_path]["Updater"], cmd);
    assert_eq!(rescanned.len(), 1);
    assert_eq!(rescanned[0].id, id);
    assert_eq!(rescanned[0].status, ItemStatus::Disabled);
}

#[test]
fn relocation_round_trip_restores_value() {
    let it = StartupItem::new("App".into(), SourceType::RegistryLocalMachineRun, "k".into(), "x.exe".into(), &no_env());
    let run = RegistryScanner::new().get_key_path(SourceType::RegistryLocalMachineRun).to_string();
    let mut hive: HashMap<String, HashMap<String, String>> = HashMap::new();
    hive.insert(run.clone(), HashMap::from([("App".to_string(), "x.exe /q".to_string()), ("Other".to_string(), "o".to_string())]));
    let before = hive[&run].clone();
    let mut d = Relocation::disable_plan(&it);
    play(&mut d, &mut hive, false);
    let mut e = Relocation::enable_plan(&it);
    play(&mut e, &mut hive, false);
    assert_eq!(e.step, RelocationStep::Done);
    assert_eq!(hive[&run], before);
    assert!(hive[&d.to_path].get("App").is_none());
}

#[test]
fn refused_write_never_deletes() {
    let it = StartupItem::new("App".into(), SourceType::RegistryCurrentUserRun, "k".into(), "x.exe".into(), &no_env());
    let run = RegistryScanner::new().get_key_path(SourceType::RegistryCurrentUserRun).to_string();
    let mut hive: HashMap<String, HashMap<String, String>> = HashMap::new();
    hive.insert(run.clone(), HashMap::from([("App".to_string(), "x.exe".to_string())]));
    let mut d = Relocation::disable_plan(&it);
    play(&mut d, &mut hive, true);
    assert_eq!(d.step, RelocationStep::Failed);
    assert_eq!(hive[&run]["App"], "x.exe");
    assert!(d.outcome().unwrap().is_err());
    let mut missing = Relocation::enable_plan(&it);
    play(&mut missing, &mut hive, false);
    assert_eq!(missing.step, RelocationStep::Failed);
}

#[test]
fn backup_names_and_order() {
    let a = mk("a", SourceType::ScheduledTask, ItemStatus::Enabled);
    let b = mk("b", SourceType::ScheduledTask, ItemStatus::Enabled);
    let snap = Backup::new(vec![a, b], Some("Manual backup".into()), ts(2024, 3, 9, 7, 5, 2));
    assert_eq!(snap.items.len(), 2);
    assert_eq!(snap.filename(), "backup_20240309_070502.json");
    assert_eq!(snap.version, "0.1.0");
    let older = Backup::new(vec![], None, ts(2023, 12, 31, 23, 59, 59));
    let same = Backup::new(vec![], None, ts(2024, 3, 9, 7, 5, 2));
    let sorted = sort_newest_first(vec![("old".into(), older), ("new".into(), snap), ("tie".into(), same)]);
    let names: Vec<&str> = sorted.iter().map(|p| p.0.as_str()).collect();
    assert_eq!(names, vec!["new", "tie", "old"]);
    assert_eq!(latest(sorted).unwrap().0, "new");
    assert!(latest(vec![]).is_none());
    assert!(ts(2024, 1, 1, 0, 0, 0).is_before(&ts(2024, 1, 1, 0, 0, 1)));
}

#[test]
fn backup_file_extension() {
    assert!(is_backup_file("backup_20240309_070502.json"));
    assert!(!is_backup_file("notes.txt"));
    assert!(!is_backup_file(".json"));
    assert!(!is_backup_file("json"));
    assert!(!is_backup_file(".."));
}

#[test]
fn apply_takes_every_staged_change_in_order() {
    let items = vec![
        mk("a", SourceType::ScheduledTask, ItemStatus::Enabled),
        mk("b", SourceType::ScheduledTask, ItemStatus::Disabled),
    ];
    let mut state = AppState::new(items, false);
    select_item(&mut state, "b");
    state.toggle_selected();
    select_item(&mut state, "a");
    state.toggle_selected();
    let session = state.begin_apply().unwrap();
    let made: Vec<(&str, ItemStatus)> = session.changes.iter().map(|(i, s)| (i.name.as_str(), *s)).collect();
    assert_eq!(made, vec![("b", ItemStatus::Enabled), ("a", ItemStatus::Disabled)]);
}

#[test]
fn equal_names_keep_scan_order() {
    let mut first = mk("App", SourceType::ScheduledTask, ItemStatus::Enabled);
    first.source_location = "first".into();
    let mut second = mk("app", SourceType::ScheduledTask, ItemStatus::Enabled);
    second.source_location = "second".into();
    let state = AppState::new(vec![first, second], false);
    let locs: Vec<&str> = state.items_by_source[0].1.iter().map(|i| i.source_location.as_str()).collect();
    assert_eq!(locs, vec!["first", "second"]);
}

#[test]
fn snapshots_of_one_instant_keep_their_order() {
    let t = ts(2024, 5, 1, 12, 0, 0);
    let sorted = sort_newest_first(vec![
        ("x".into(), Backup::new(vec![], None, t)),
        ("older".into(), Backup::new(vec![], None, ts(2024, 4, 1, 0, 0, 0))),
        ("y".into(), Backup::new(vec![], None, t)),
    ]);
    let names: Vec<&str> = sorted.iter().map(|p| p.0.as_str()).collect();
    assert_eq!(names, vec!["x", "y", "older"]);
}

#[test]
fn entry_toggle_keeps_selection_and_message() {
    let mut state = AppState::new(vec![mk("a", SourceType::ScheduledTask, ItemStatus::Enabled)], false);
    select_item(&mut state, "a");
    state.set_message("kept".into(), MessageType::Info);
    let before = state.selected;
    state.toggle_selected();
    assert_eq!(state.selected, before);
    assert_eq!(state.status_message.as_ref().unwrap().0, "kept");
}
