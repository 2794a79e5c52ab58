use xlfm::error::CommandError;
use xlfm::links::{backup_name, plan_symlink_creation, SymlinkPrep, TargetState};
use xlfm::numfmt::{u64_to_dec, u64_to_hex};
use xlfm::pathfind::skaterxl_candidate_paths;
use xlfm::token::fresh_token;
use xlfm::utils::{
    calculate_directory_size, get_mime_type_from_extension, hash_path, system_time_to_millis,
};
use xlfm::watcher::{
    event_label, should_flush, FsEventKind, PendingChanges, WatchAction, WatchSet, WatcherCommand,
};

#[test]
fn decimal_rendering_is_exact() {
    assert_eq!(u64_to_dec(0), "0");
    assert_eq!(u64_to_dec(7), "7");
    assert_eq!(u64_to_dec(12345), "12345");
    assert_eq!(u64_to_dec(u64::MAX), "18446744073709551615");
}

#[test]
fn hex_rendering_is_exact() {
    assert_eq!(u64_to_hex(0), "0");
    assert_eq!(u64_to_hex(255), "ff");
    assert_eq!(u64_to_hex(0xdead_beef), "deadbeef");
}

#[test]
fn path_hash_is_stable_and_hex() {
    // FNV-1a 64-bit known values.
    assert_eq!(hash_path(""), "cbf29ce484222325");
    assert_eq!(hash_path("a"), "af63dc4c8601ec8c");
    assert_eq!(hash_path("/maps/X"), hash_path("/maps/X"));
    assert_ne!(hash_path("/maps/X"), hash_path("/maps/Y"));
}

#[test]
fn millis_conversion() {
    assert_eq!(system_time_to_millis(None), None);
    assert_eq!(system_time_to_millis(Some(1234)), Some(1234));
    assert_eq!(
        system_time_to_millis(Some(u64::MAX as u128 + 7)),
        Some(6)
    );
}

#[test]
fn mime_types_from_extension() {
    assert_eq!(get_mime_type_from_extension("png").as_deref(), Some("image/png"));
    assert_eq!(get_mime_type_from_extension("JPG").as_deref(), Some("image/jpeg"));
    assert_eq!(get_mime_type_from_extension("jpeg").as_deref(), Some("image/jpeg"));
    assert_eq!(get_mime_type_from_extension("webp").as_deref(), Some("image/webp"));
    assert_eq!(get_mime_type_from_extension("exe"), None);
}

#[test]
fn directory_size_sums_and_saturates() {
    assert_eq!(calculate_directory_size(&vec![]), 0);
    assert_eq!(calculate_directory_size(&vec![1, 2, 3]), 6);
    assert_eq!(calculate_directory_size(&vec![u64::MAX, 5]), u64::MAX);
}

#[test]
fn error_messages_carry_prefix_and_detail() {
    assert_eq!(
        CommandError::Io("disk full".to_string()).message(),
        "Filesystem Error: disk full"
    );
    assert_eq!(
        CommandError::Download {
            status_code: 404,
            message: "HTTP 404".to_string()
        }
        .message(),
        "Download Error: Status 404 - HTTP 404"
    );
    assert_eq!(
        CommandError::Input("bad path".to_string()).message(),
        "Invalid Input or State: bad path"
    );
    assert_eq!(
        CommandError::Network("reset".to_string()).message(),
        "Network Error: reset"
    );
    assert_eq!(
        CommandError::Zip("truncated".to_string()).message(),
        "Zip Archive Error: truncated"
    );
    assert_eq!(
        CommandError::TaskJoin("panicked".to_string()).message(),
        "Background Task Error: panicked"
    );
    assert_eq!(
        CommandError::TrashError("no trash".to_string()).message(),
        "Trash Error: no trash"
    );
    assert_eq!(
        CommandError::Symlink("loop".to_string()).message(),
        "Symlink Operation Error: loop"
    );
    assert_eq!(
        CommandError::DirectoryResolution("no docs".to_string()).message(),
        "Directory Resolution Error: no docs"
    );
}

#[test]
fn fresh_tokens_are_usable_names() {
    let t = fresh_token("map_");
    assert!(t.starts_with("map_"));
    assert_eq!(t.len(), 4 + 36);
    assert!(!t.contains('/'));
    assert!(!t.contains('\\'));
    let t2 = fresh_token("map_");
    assert_ne!(t, t2);
}

#[test]
fn watch_set_adds_and_removes_once() {
    let mut set = WatchSet::new();
    assert!(set.insert("/maps".to_string()));
    assert!(!set.insert("/maps".to_string()));
    assert!(set.contains("/maps"));
    assert!(set.remove("/maps"));
    assert!(!set.remove("/maps"));
    assert!(!set.contains("/maps"));
}

#[test]
fn watcher_commands_drive_the_watch_set() {
    let mut set = WatchSet::new();
    let acts = set.apply_command(WatcherCommand::AddPath("/maps".to_string()), true);
    assert_eq!(acts.len(), 1);
    assert!(matches!(&acts[0], WatchAction::Watch(p) if p == "/maps"));

    // A path that does not exist is never watched.
    let acts = set.apply_command(WatcherCommand::AddPath("/gone".to_string()), false);
    assert!(acts.is_empty());

    let acts = set.apply_command(
        WatcherCommand::ReplaceMapsPath(Some("/maps".to_string()), "/maps2".to_string()),
        true,
    );
    assert_eq!(acts.len(), 2);
    assert!(matches!(&acts[0], WatchAction::Unwatch(p) if p == "/maps"));
    assert!(matches!(&acts[1], WatchAction::Watch(p) if p == "/maps2"));

    let acts = set.apply_command(WatcherCommand::Shutdown, false);
    assert!(matches!(&acts[0], WatchAction::Stop));
}

#[test]
fn pending_changes_keep_the_latest_kind() {
    let mut pc = PendingChanges::new();
    assert!(!pc.record("/maps/a".to_string(), "create".to_string()));
    assert!(pc.record("/maps/a".to_string(), "delete".to_string()));
    assert!(!pc.record("/maps/b".to_string(), "rename".to_string()));
    let drained = pc.drain();
    assert_eq!(drained.len(), 2);
    assert!(drained
        .iter()
        .any(|(p, k)| p == "/maps/a" && k == "delete"));
    assert!(drained
        .iter()
        .any(|(p, k)| p == "/maps/b" && k == "rename"));
    assert!(pc.is_empty());
}

#[test]
fn debounce_flushes_after_the_interval() {
    assert!(!should_flush(1000, 600, false));
    assert!(should_flush(1100, 600, false));
    assert!(!should_flush(1100, 600, true));
    assert!(!should_flush(500, 600, false));
}

#[test]
fn event_labels() {
    assert_eq!(event_label(FsEventKind::Create), Some("create"));
    assert_eq!(event_label(FsEventKind::Remove), Some("delete"));
    assert_eq!(event_label(FsEventKind::Rename), Some("rename"));
    assert_eq!(event_label(FsEventKind::Other), None);
}

#[test]
fn symlink_planning_covers_each_target_state() {
    assert_eq!(
        plan_symlink_creation(true, TargetState::MissingTarget, "/src", "/link").unwrap(),
        SymlinkPrep::CreateNow
    );
    assert_eq!(
        plan_symlink_creation(true, TargetState::SymlinkAt, "/src", "/link").unwrap(),
        SymlinkPrep::RemoveLinkFirst
    );
    assert_eq!(
        plan_symlink_creation(true, TargetState::DirAt, "/src", "/link").unwrap(),
        SymlinkPrep::BackupDirFirst
    );
    assert!(matches!(
        plan_symlink_creation(true, TargetState::OtherAt, "/src", "/link").unwrap_err(),
        CommandError::Input(_)
    ));
    assert!(matches!(
        plan_symlink_creation(false, TargetState::MissingTarget, "/src", "/link").unwrap_err(),
        CommandError::Input(_)
    ));
}

#[test]
fn backup_names_count_up() {
    assert_eq!(backup_name("/maps", 0), "/maps_backup");
    assert_eq!(backup_name("/maps", 1), "/maps_backup_1");
    assert_eq!(backup_name("/maps", 12), "/maps_backup_12");
}

#[test]
fn candidate_paths_come_in_probe_order() {
    let roots = vec!["/ssd/steam".to_string(), "/hdd/steam".to_string()];
    let c = skaterxl_candidate_paths(Some("/home/u/Documents"), &roots, Some("/home/u"));
    assert_eq!(c.len(), 4);
    assert_eq!(c[0], "/home/u/Documents/SkaterXL");
    assert_eq!(
        c[1],
        "/ssd/steam/steamapps/compatdata/962730/pfx/drive_c/users/steamuser/Documents/SkaterXL"
    );
    assert_eq!(
        c[2],
        "/hdd/steam/steamapps/compatdata/962730/pfx/drive_c/users/steamuser/Documents/SkaterXL"
    );
    assert_eq!(
        c[3],
        "/home/u/.steam/steam/steamapps/compatdata/962730/pfx/drive_c/users/steamuser/Documents/Skater XL"
    );
}
