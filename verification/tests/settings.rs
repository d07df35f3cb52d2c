use speakeasy::quality::{OutputQuality, PREVIEW_SIDE};
use speakeasy::storage::{
    app_support_dir, config_path, db_path, default_resolution, join_path, movies_root,
    project_dir, project_id_suffix, sanitize_folder_name, AppConfig,
};
use speakeasy::widgets::{clock_from_secs, format_clock, resolution_hint};

#[test]
fn quality_labels_round_trip() {
    for q in OutputQuality::ALL {
        assert_eq!(OutputQuality::from_label(q.label()), q);
    }
    assert_eq!(OutputQuality::from_label("2160p"), OutputQuality::P2160);
    assert_eq!(OutputQuality::from_label("nonsense"), OutputQuality::P1080);
    assert_eq!(OutputQuality::default(), OutputQuality::P1080);
}

#[test]
fn quality_sizes() {
    assert_eq!(OutputQuality::P720.square_side(), 720);
    assert_eq!(OutputQuality::P2160.capture_size(), (3840, 2160));
    assert_eq!(OutputQuality::P1440.capture_size(), (2560, 1440));
    assert_eq!(PREVIEW_SIDE, 720);
}

#[test]
fn config_defaults_and_key() {
    let mut c = AppConfig::default();
    assert_eq!(c.resolution, default_resolution());
    assert_eq!(c.resolution, "1080p");
    assert!(!c.has_key());
    c.gemini_api_key = "  \t ".into();
    assert!(!c.has_key());
    c.gemini_api_key = " abc ".into();
    assert!(c.has_key());
}

#[test]
fn paths_join_like_path_join() {
    assert_eq!(join_path("/a", "b"), "/a/b");
    assert_eq!(join_path("/a/", "b"), "/a/b");
    assert_eq!(join_path("", "b"), "b");
    assert_eq!(join_path("/a", "/b"), "/b");
    assert_eq!(config_path("/x/SpeakEasy"), "/x/SpeakEasy/config.yaml");
    assert_eq!(db_path("/x/SpeakEasy"), "/x/SpeakEasy/speakeasy.sqlite");
    assert_eq!(app_support_dir(Some("/data")), Ok("/data/SpeakEasy".to_string()));
    assert_eq!(
        app_support_dir(None),
        Err("Could not find Application Support".to_string())
    );
}

#[test]
fn movies_root_falls_back_to_home() {
    assert_eq!(movies_root(Some("/v"), Some("/h")), Ok("/v/SpeakEasy".to_string()));
    assert_eq!(movies_root(None, Some("/h")), Ok("/h/Movies/SpeakEasy".to_string()));
    assert_eq!(
        movies_root(None, None),
        Err("Could not find the Movies folder".to_string())
    );
}

#[test]
fn folder_names_are_cleaned() {
    assert_eq!(sanitize_folder_name("  My: Project/1  "), "My- Project-1");
    assert_eq!(sanitize_folder_name("..hidden.."), "hidden");
    assert_eq!(sanitize_folder_name(" . a\u{7}b . "), "ab");
    assert_eq!(sanitize_folder_name("   "), "Untitled");
    assert_eq!(sanitize_folder_name("..."), "Untitled");
    for title in ["a/b\\c:d*e?f\"g<h>i|j", "\u{1}\u{2}", "x\ny"] {
        let name = sanitize_folder_name(title);
        assert!(!name.is_empty());
        assert!(!name.chars().any(|c| "/\\:*?\"<>|".contains(c) || c.is_control()));
    }
}

#[test]
fn project_dirs_get_a_suffix_when_taken() {
    let id = "0123456789abcdef";
    assert_eq!(project_dir("/m", "Talk", id, None), "/m/Talk");
    assert_eq!(project_dir("/m", "Talk", id, Some(Some(id))), "/m/Talk");
    assert_eq!(project_dir("/m", "Talk", id, Some(Some("other"))), "/m/Talk-01234567");
    assert_eq!(project_dir("/m", "Talk", id, Some(None)), "/m/Talk-01234567");
    assert_eq!(project_id_suffix("short"), "short");
    assert_eq!(project_id_suffix("ééééé"), "éééé");
    assert_eq!(project_id_suffix("aééééé"), "aééééé");
}

#[test]
fn clock_and_hint_texts() {
    assert_eq!(clock_from_secs(0), "00:00");
    assert_eq!(clock_from_secs(65), "01:05");
    assert_eq!(clock_from_secs(6005), "100:05");
    assert_eq!(format_clock(std::time::Duration::from_millis(61_900)), "01:01");
    assert_eq!(
        resolution_hint(1080),
        "Records a 1080×1080 square, then exports 1080×607 landscape and 607×1080 portrait."
    );
}
