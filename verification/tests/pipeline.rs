use xlfm::analyzer::analyze_archive;
use xlfm::error::CommandError;
use xlfm::extract::{plan_entry, entry_output_path, EntryAction};
use xlfm::fname::derive_save_filename;
use xlfm::machine::{destination_decision, InstallAction, InstallEvent, InstallState};
use xlfm::models::{ArchiveEntry, InstallStep};
use xlfm::progress::{ProgressSignal, ProgressTracker};
use xlfm::sniff::{sniff_content, ContentKind};

fn entry(path: &str, is_directory: bool, size: u64) -> ArchiveEntry {
    ArchiveEntry {
        path: path.to_string(),
        is_directory,
        uncompressed_size: size,
    }
}

#[test]
fn sniff_recognizes_zip_magic() {
    assert_eq!(sniff_content(&[0x50, 0x4b, 0x03, 0x04]), ContentKind::Zip);
    assert_eq!(
        sniff_content(&[0x50, 0x4b, 0x03, 0x04, 0xff, 0x00]),
        ContentKind::Zip
    );
}

#[test]
fn sniff_rejects_other_bytes() {
    assert_eq!(sniff_content(&[0x50, 0x4b, 0x05, 0x06]), ContentKind::Opaque);
    assert_eq!(sniff_content(b"GIF89a"), ContentKind::Opaque);
}

#[test]
fn sniff_short_input_is_opaque() {
    assert_eq!(sniff_content(&[]), ContentKind::Opaque);
    assert_eq!(sniff_content(&[0x50, 0x4b, 0x03]), ContentKind::Opaque);
}

#[test]
fn single_root_archive_is_unwrapped_and_named_after_root() {
    let entries = vec![
        entry("CoolMap/", true, 0),
        entry("CoolMap/level.dat", false, 50),
        entry("CoolMap/textures/wall.png", false, 20),
    ];
    let plan = analyze_archive(&entries, "download.zip", "map_token").unwrap();
    assert_eq!(plan.target_directory_name, "CoolMap");
    assert_eq!(plan.root_to_strip.as_deref(), Some("CoolMap"));
}

#[test]
fn multi_root_archive_is_named_after_largest_file() {
    let entries = vec![
        entry("a/small.bin", false, 10),
        entry("b/Bigger.map", false, 100),
        entry("c/mid.bin", false, 50),
    ];
    let plan = analyze_archive(&entries, "download.zip", "map_token").unwrap();
    assert_eq!(plan.target_directory_name, "Bigger");
    assert!(plan.root_to_strip.is_none());
}

#[test]
fn root_file_prevents_stripping() {
    let entries = vec![
        entry("pack/", true, 0),
        entry("pack/data.bin", false, 10),
        entry("readme.txt", false, 900),
    ];
    let plan = analyze_archive(&entries, "download.zip", "map_token").unwrap();
    assert!(plan.root_to_strip.is_none());
    // The largest file names the target.
    assert_eq!(plan.target_directory_name, "readme");
}

#[test]
fn directories_only_archive_falls_back_to_reference_stem() {
    let entries = vec![entry("a/", true, 0), entry("b/", true, 0)];
    let plan = analyze_archive(&entries, "Session Pack.zip", "map_token").unwrap();
    assert!(plan.root_to_strip.is_none());
    assert_eq!(plan.target_directory_name, "Session Pack");
}

#[test]
fn unusable_candidates_fall_back_to_token() {
    let entries = vec![entry("a/", true, 0), entry("b/", true, 0)];
    let plan = analyze_archive(&entries, "...", "map_token").unwrap();
    assert!(plan.root_to_strip.is_none());
    assert_eq!(plan.target_directory_name, "map_token");
}

#[test]
fn traversal_component_rejects_whole_archive() {
    let entries = vec![
        entry("good/file.bin", false, 10),
        entry("good/../../evil.bin", false, 10),
    ];
    let err = analyze_archive(&entries, "download.zip", "map_token").unwrap_err();
    assert!(matches!(err, CommandError::Input(_)));
}

#[test]
fn bare_dotdot_entry_rejects_whole_archive() {
    let entries = vec![entry("..", false, 1)];
    let err = analyze_archive(&entries, "x.zip", "map_token").unwrap_err();
    assert!(matches!(err, CommandError::Input(_)));
}

#[test]
fn zero_entry_archive_plans_directory_from_source_stem() {
    let entries: Vec<ArchiveEntry> = Vec::new();
    let plan = analyze_archive(&entries, "empty_pack.zip", "map_token").unwrap();
    assert!(plan.root_to_strip.is_none());
    assert_eq!(plan.target_directory_name, "empty_pack");
}

#[test]
fn plan_entry_strips_the_root() {
    let entries = vec![
        entry("wrap/", true, 0),
        entry("wrap/sub/inner.bin", false, 10),
    ];
    let plan = analyze_archive(&entries, "x.zip", "map_token").unwrap();
    match plan_entry(&plan, "wrap/sub/inner.bin", false) {
        EntryAction::WriteFile { rel } => assert_eq!(rel, "sub/inner.bin"),
        _ => panic!("expected a file write"),
    }
    match plan_entry(&plan, "wrap/sub/", true) {
        EntryAction::MakeDir { rel } => assert_eq!(rel, "sub"),
        _ => panic!("expected a directory"),
    }
}

#[test]
fn plan_entry_skips_strays_and_empty() {
    let entries = vec![
        entry("wrap/", true, 0),
        entry("wrap/a.bin", false, 10),
    ];
    let plan = analyze_archive(&entries, "x.zip", "map_token").unwrap();
    assert!(matches!(plan_entry(&plan, "stray.txt", false), EntryAction::Skip));
    assert!(matches!(plan_entry(&plan, "wrap/", true), EntryAction::Skip));
}

#[test]
fn plan_entry_never_hands_out_traversal() {
    // A crafted path fed straight to the extractor, past the
    // analyzer: the per-entry re-check refuses it.
    let plan = xlfm::models::ExtractionPlan {
        target_directory_name: "out".to_string(),
        root_to_strip: None,
    };
    assert!(matches!(
        plan_entry(&plan, "ok/../../escape.bin", false),
        EntryAction::Skip
    ));
    match plan_entry(&plan, "a/./b//c.bin", false) {
        EntryAction::WriteFile { rel } => {
            assert_eq!(rel, "a/b/c.bin");
            assert!(!rel.contains(".."));
            assert!(!rel.starts_with('/'));
        }
        _ => panic!("expected a file write"),
    }
}

#[test]
fn output_paths_stay_under_the_base() {
    let out = entry_output_path("/data/maps/Pack", "sub/inner.bin");
    assert_eq!(out, "/data/maps/Pack/sub/inner.bin");
}

#[test]
fn progress_percentages_are_monotone_and_reach_hundred() {
    let mut t = ProgressTracker::new(Some(200));
    let mut last: i32 = -1;
    let mut signals = Vec::new();
    for _ in 0..4 {
        signals.push(t.record_chunk(50));
    }
    for s in &signals {
        match s {
            ProgressSignal::Percent(p) => {
                assert!((*p as i32) > last);
                last = *p as i32;
            }
            ProgressSignal::Quiet => {}
            ProgressSignal::Bytes(_) => panic!("known length emits percentages"),
        }
    }
    assert_eq!(last, 100);
    assert!(t.is_complete());
}

#[test]
fn progress_rounds_half_up() {
    let mut t = ProgressTracker::new(Some(3));
    assert_eq!(t.record_chunk(1), ProgressSignal::Percent(33));
    assert_eq!(t.record_chunk(1), ProgressSignal::Percent(67));
    assert_eq!(t.record_chunk(1), ProgressSignal::Percent(100));
}

#[test]
fn progress_stays_quiet_without_change() {
    let mut t = ProgressTracker::new(Some(1000000));
    assert_eq!(t.record_chunk(5000), ProgressSignal::Percent(1));
    assert_eq!(t.record_chunk(1000), ProgressSignal::Quiet);
    assert_eq!(t.record_chunk(9000), ProgressSignal::Percent(2));
}

#[test]
fn unknown_length_emits_coarse_byte_counts() {
    let mut t = ProgressTracker::new(None);
    assert_eq!(t.record_chunk(1000), ProgressSignal::Bytes(1000));
    assert_eq!(t.record_chunk(1000), ProgressSignal::Quiet);
    assert_eq!(t.record_chunk(1046576), ProgressSignal::Bytes(1048576));
}

#[test]
fn header_filename_is_used_exactly() {
    let name = derive_save_filename(
        Some("attachment; filename=\"foo.glb\""),
        "https://example.net/things/archive",
    );
    assert_eq!(name, "foo.glb");
}

#[test]
fn missing_header_uses_url_segment() {
    let name = derive_save_filename(None, "https://example.net/things/board.png");
    assert_eq!(name, "board.png");
}

#[test]
fn unusable_url_falls_back_to_fixed_name() {
    assert_eq!(derive_save_filename(None, "https://example.net/things/"), "downloaded_file");
    assert_eq!(derive_save_filename(None, ""), "downloaded_file");
}

#[test]
fn http_failure_deletes_temp_and_reports_status() {
    let (mut st, _) = InstallState::begin("https://example.net/a.zip".to_string());
    let actions = st.on_event(InstallEvent::ResponseHeader {
        status_code: 404,
        content_length: None,
        content_disposition: None,
    });
    assert!(matches!(st.step, InstallStep::Error));
    assert!(actions.iter().any(|a| matches!(a, InstallAction::DeleteTemp)));
    let concluded = actions.iter().any(|a| {
        matches!(
            a,
            InstallAction::Conclude(Err(CommandError::Download { status_code: 404, .. }))
        )
    });
    assert!(concluded);
}

#[test]
fn install_runs_download_extract_complete() {
    let (mut st, start_actions) = InstallState::begin("https://example.net/pack.zip".to_string());
    assert_eq!(start_actions.len(), 1);
    assert!(matches!(st.step, InstallStep::Downloading));

    let a = st.on_event(InstallEvent::ResponseHeader {
        status_code: 200,
        content_length: Some(100),
        content_disposition: None,
    });
    assert!(a.is_empty());

    let a = st.on_event(InstallEvent::BodyChunk { len: 100 });
    assert_eq!(a.len(), 1);
    match &a[0] {
        InstallAction::Emit(pr) => {
            assert_eq!(pr.percent, 100);
            assert!(matches!(pr.step, InstallStep::Downloading));
        }
        _ => panic!("expected a progress record"),
    }

    let a = st.on_event(InstallEvent::BodyFinished);
    assert!(a.iter().any(|x| matches!(x, InstallAction::SniffTemp)));

    let a = st.on_event(InstallEvent::Sniffed { kind: ContentKind::Zip });
    assert!(matches!(st.step, InstallStep::Extracting));
    assert!(a.iter().any(|x| matches!(x, InstallAction::StartExtraction)));

    let a = st.on_event(InstallEvent::ExtractionFinished {
        final_path: "/maps/Pack".to_string(),
        elapsed_ms: 1200,
    });
    assert!(matches!(st.step, InstallStep::Complete));
    assert!(a.iter().any(|x| matches!(x, InstallAction::DeleteTemp)));
    let ok = a.iter().any(|x| match x {
        InstallAction::Conclude(Ok(res)) => {
            assert!(res.success);
            assert_eq!(res.final_path.as_deref(), Some("/maps/Pack"));
            assert_eq!(res.source, "https://example.net/pack.zip");
            assert_eq!(res.message, "Installed in 1200 ms");
            true
        }
        _ => false,
    });
    assert!(ok);

    // Terminal states absorb everything.
    let a = st.on_event(InstallEvent::BodyFinished);
    assert!(a.is_empty());
    assert!(matches!(st.step, InstallStep::Complete));
}

#[test]
fn opaque_download_is_saved_under_derived_name() {
    let (mut st, _) = InstallState::begin("https://example.net/model.glb".to_string());
    st.on_event(InstallEvent::ResponseHeader {
        status_code: 200,
        content_length: Some(10),
        content_disposition: Some("attachment; filename=\"foo.glb\"".to_string()),
    });
    st.on_event(InstallEvent::BodyChunk { len: 10 });
    st.on_event(InstallEvent::BodyFinished);
    let a = st.on_event(InstallEvent::Sniffed { kind: ContentKind::Opaque });
    assert!(matches!(st.step, InstallStep::Saving));
    let saved = a.iter().any(|x| match x {
        InstallAction::StartSave { filename } => {
            assert_eq!(filename, "foo.glb");
            true
        }
        _ => false,
    });
    assert!(saved);

    let a = st.on_event(InstallEvent::SaveFinished {
        final_path: "/maps/foo.glb".to_string(),
        elapsed_ms: 30,
    });
    assert!(matches!(st.step, InstallStep::Complete));
    assert!(a.iter().any(|x| matches!(x, InstallAction::Conclude(Ok(_)))));
}

#[test]
fn extraction_failure_keeps_temp_file() {
    let (mut st, _) = InstallState::begin("https://example.net/bad.zip".to_string());
    st.on_event(InstallEvent::ResponseHeader {
        status_code: 200,
        content_length: Some(4),
        content_disposition: None,
    });
    st.on_event(InstallEvent::BodyChunk { len: 4 });
    st.on_event(InstallEvent::BodyFinished);
    st.on_event(InstallEvent::Sniffed { kind: ContentKind::Zip });
    let a = st.on_event(InstallEvent::ExtractionFailed {
        error: CommandError::Zip("central directory truncated".to_string()),
    });
    assert!(matches!(st.step, InstallStep::Error));
    // The temp archive is kept for inspection.
    assert!(!a.iter().any(|x| matches!(x, InstallAction::DeleteTemp)));
    assert!(a
        .iter()
        .any(|x| matches!(x, InstallAction::Conclude(Err(CommandError::Zip(_))))));
}

#[test]
fn save_failure_deletes_temp_file() {
    let (mut st, _) = InstallState::begin("https://example.net/f.bin".to_string());
    st.on_event(InstallEvent::ResponseHeader {
        status_code: 200,
        content_length: Some(4),
        content_disposition: None,
    });
    st.on_event(InstallEvent::BodyChunk { len: 4 });
    st.on_event(InstallEvent::BodyFinished);
    st.on_event(InstallEvent::Sniffed { kind: ContentKind::Opaque });
    let a = st.on_event(InstallEvent::SaveFailed {
        detail: "permission denied".to_string(),
    });
    assert!(matches!(st.step, InstallStep::Error));
    assert!(a.iter().any(|x| matches!(x, InstallAction::DeleteTemp)));
    assert!(a
        .iter()
        .any(|x| matches!(x, InstallAction::Conclude(Err(CommandError::Io(_))))));
}

#[test]
fn transport_failure_concludes_with_network_error() {
    let (mut st, _) = InstallState::begin("https://example.net/f.bin".to_string());
    st.on_event(InstallEvent::ResponseHeader {
        status_code: 200,
        content_length: None,
        content_disposition: None,
    });
    let a = st.on_event(InstallEvent::TransportFailed {
        detail: "connection reset".to_string(),
    });
    assert!(matches!(st.step, InstallStep::Error));
    assert!(a
        .iter()
        .any(|x| matches!(x, InstallAction::Conclude(Err(CommandError::Network(_))))));
}

#[test]
fn destination_must_be_a_directory() {
    assert_eq!(destination_decision(false, false, "/maps").unwrap(), true);
    assert_eq!(destination_decision(true, true, "/maps").unwrap(), false);
    assert!(matches!(
        destination_decision(true, false, "/maps").unwrap_err(),
        CommandError::Input(_)
    ));
}

#[test]
fn equally_sized_files_keep_the_earliest() {
    let entries = vec![
        entry("a/first.map", false, 64),
        entry("b/second.map", false, 64),
    ];
    let plan = analyze_archive(&entries, "x.zip", "map_token").unwrap();
    assert_eq!(plan.target_directory_name, "first");
}

#[test]
fn largest_entry_is_tracked_at_any_depth() {
    let entries = vec![
        entry("a/top.bin", false, 10),
        entry("b/deep/nested/Huge.map", false, 1000),
    ];
    let plan = analyze_archive(&entries, "x.zip", "map_token").unwrap();
    assert_eq!(plan.target_directory_name, "Huge");
}

#[test]
fn redundant_separators_and_dots_are_normalized() {
    let entries = vec![
        entry("./wrap//inner/", true, 0),
        entry("wrap/inner/f.bin", false, 5),
    ];
    let plan = analyze_archive(&entries, "x.zip", "map_token").unwrap();
    assert_eq!(plan.target_directory_name, "wrap");
    assert_eq!(plan.root_to_strip.as_deref(), Some("wrap"));
}

#[test]
fn sniff_result_is_ignored_until_the_body_is_done() {
    let (mut st, _) = InstallState::begin("https://example.net/a.zip".to_string());
    st.on_event(InstallEvent::ResponseHeader {
        status_code: 200,
        content_length: Some(4),
        content_disposition: None,
    });
    // Out of order: the body has not finished.
    let a = st.on_event(InstallEvent::Sniffed { kind: ContentKind::Zip });
    assert!(a.is_empty());
    assert!(matches!(st.step, InstallStep::Downloading));
}

#[test]
fn directory_sizes_never_count_as_largest() {
    let entries = vec![
        entry("a/huge_dir/", true, 100000),
        entry("b/small.map", false, 3),
    ];
    let plan = analyze_archive(&entries, "x.zip", "map_token").unwrap();
    assert_eq!(plan.target_directory_name, "small");
}
