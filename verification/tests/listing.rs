use xlfm::error::CommandError;
use xlfm::listing::{
    build_directory_listing, build_maps_listing, build_mods_listing, is_excluded_file_ext,
    is_thumbnail_ext, sort_entries, SortMode, ThumbnailRef,
};
use xlfm::models::{FsEntry, ListingStatus};

fn fs_entry(name: &str, is_directory: bool) -> FsEntry {
    FsEntry {
        name: Some(name.to_string()),
        path: format!("/maps/{}", name),
        is_directory,
        size: Some(1),
        modified: None,
        thumbnail_path: None,
        thumbnail_mime_type: None,
    }
}

#[test]
fn missing_directory_reports_does_not_exist() {
    let r = build_directory_listing("/nowhere".to_string(), false, false, Vec::new()).unwrap();
    assert_eq!(r.status, ListingStatus::DoesNotExist);
    assert!(r.entries.is_empty());
    assert_eq!(r.path, "/nowhere");
}

#[test]
fn non_directory_is_invalid_input() {
    let err = build_directory_listing("/a/file".to_string(), true, false, Vec::new()).unwrap_err();
    assert!(matches!(err, CommandError::Input(_)));
}

#[test]
fn empty_directory_reports_exists_and_empty() {
    let r = build_directory_listing("/maps".to_string(), true, true, Vec::new()).unwrap();
    assert_eq!(r.status, ListingStatus::ExistsAndEmpty);
}

#[test]
fn listing_sorts_directories_first_then_names() {
    let raw = vec![
        fs_entry("zeta.bin", false),
        fs_entry("Alpha", true),
        fs_entry("beta.bin", false),
        fs_entry("gamma", true),
    ];
    let r = build_directory_listing("/maps".to_string(), true, true, raw).unwrap();
    assert_eq!(r.status, ListingStatus::ExistsAndPopulated);
    let names: Vec<&str> = r.entries.iter().map(|e| e.name.as_deref().unwrap()).collect();
    assert_eq!(names, vec!["Alpha", "gamma", "beta.bin", "zeta.bin"]);
}

#[test]
fn name_sort_ignores_ascii_case() {
    let raw = vec![
        fs_entry("banana", true),
        fs_entry("APPLE", true),
        fs_entry("Cherry", true),
    ];
    let sorted = sort_entries(raw, SortMode::NameInsensitive);
    let names: Vec<&str> = sorted.iter().map(|e| e.name.as_deref().unwrap()).collect();
    assert_eq!(names, vec!["APPLE", "banana", "Cherry"]);
}

#[test]
fn nameless_file_entries_are_dropped() {
    let mut raw = vec![fs_entry("kept.bin", false)];
    raw.push(FsEntry {
        name: None,
        path: "/maps/odd".to_string(),
        is_directory: false,
        size: None,
        modified: None,
        thumbnail_path: None,
        thumbnail_mime_type: None,
    });
    let r = build_directory_listing("/maps".to_string(), true, true, raw).unwrap();
    assert_eq!(r.entries.len(), 1);
}

#[test]
fn excluded_extensions_are_hidden_from_maps() {
    let raw = vec![
        fs_entry("level_pack", true),
        fs_entry("map_data.dat", false),
        fs_entry("notes.txt", false),
        fs_entry("shot.PNG", false),
    ];
    let r = build_maps_listing("/maps".to_string(), true, true, raw, &Vec::new()).unwrap();
    let names: Vec<&str> = r.entries.iter().map(|e| e.name.as_deref().unwrap()).collect();
    assert_eq!(names, vec!["level_pack", "map_data.dat"]);
    // The status reflects the raw directory contents, not the filter.
    assert_eq!(r.status, ListingStatus::ExistsAndPopulated);
}

#[test]
fn thumbnails_attach_by_key() {
    let raw = vec![fs_entry("CoolMap", true), fs_entry("other.dat", false)];
    let thumbs = vec![ThumbnailRef {
        key: "coolmap".to_string(),
        path: "/cache/thumbnails/abc.png".to_string(),
        mime: "image/png".to_string(),
    }];
    let r = build_maps_listing("/maps".to_string(), true, true, raw, &thumbs).unwrap();
    let cool = r
        .entries
        .iter()
        .find(|e| e.name.as_deref() == Some("CoolMap"))
        .unwrap();
    assert_eq!(cool.thumbnail_path.as_deref(), Some("/cache/thumbnails/abc.png"));
    assert_eq!(cool.thumbnail_mime_type.as_deref(), Some("image/png"));
    let other = r
        .entries
        .iter()
        .find(|e| e.name.as_deref() == Some("other.dat"))
        .unwrap();
    assert!(other.thumbnail_path.is_none());
}

#[test]
fn mods_listing_keeps_everything_and_sorts_by_raw_name() {
    let raw = vec![
        fs_entry("b_mod", true),
        fs_entry("notes.txt", false),
        fs_entry("A_mod", true),
    ];
    let r = build_mods_listing("/mods".to_string(), true, true, raw, &Vec::new()).unwrap();
    let names: Vec<&str> = r.entries.iter().map(|e| e.name.as_deref().unwrap()).collect();
    assert_eq!(names, vec!["A_mod", "b_mod", "notes.txt"]);
}

#[test]
fn extension_lists_match_known_cases() {
    assert!(is_excluded_file_ext("txt"));
    assert!(is_excluded_file_ext("ZIP"));
    assert!(!is_excluded_file_ext("dat"));
    assert!(is_thumbnail_ext("png"));
    assert!(is_thumbnail_ext("JPEG"));
    assert!(!is_thumbnail_ext("txt"));
}

#[test]
fn cache_names_cover_every_thumbnail_extension() {
    let names = xlfm::listing::thumbnail_cache_names("/maps/CoolMap");
    assert_eq!(names.len(), 6);
    let key = xlfm::utils::hash_path("/maps/CoolMap");
    assert_eq!(names[0], format!("{}.png", key));
    assert_eq!(names[5], format!("{}.bmp", key));
}
