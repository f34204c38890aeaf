use daily_plan::organize::{
    conflict_action, generate_unique_path, is_image_file, name_ascii_lower_ext, name_folded_ext,
    str_is_one_of, target_is_exe, target_is_program, unique_candidate, ConflictStrategy, MoveAction,
    OrganizeTally,
};
use std::collections::HashSet;

#[test]
fn image_extensions_in_any_case() {
    assert!(is_image_file("jpg"));
    assert!(is_image_file("JPG"));
    assert!(is_image_file("HeIc"));
    assert!(is_image_file("svg"));
    assert!(!is_image_file("raw"));
    assert!(!is_image_file("txt"));
    assert!(!is_image_file(""));
    assert!(!is_image_file(".jpg"));
}

#[test]
fn conflict_actions() {
    assert_eq!(conflict_action(false, ConflictStrategy::Overwrite), MoveAction::Move);
    assert_eq!(conflict_action(false, ConflictStrategy::Rename), MoveAction::Move);
    assert_eq!(conflict_action(false, ConflictStrategy::Skip), MoveAction::Move);
    assert_eq!(conflict_action(true, ConflictStrategy::Overwrite), MoveAction::ReplaceThenMove);
    assert_eq!(conflict_action(true, ConflictStrategy::Rename), MoveAction::MoveRenamed);
    assert_eq!(conflict_action(true, ConflictStrategy::Skip), MoveAction::Leave);
}

#[test]
fn candidates_number_the_stem() {
    assert_eq!(unique_candidate("report.docx", 0), "report.docx");
    assert_eq!(unique_candidate("report.docx", 1), "report(1).docx");
    assert_eq!(unique_candidate("report.docx", 12), "report(12).docx");
    assert_eq!(unique_candidate("archive.tar.gz", 2), "archive.tar(2).gz");
    assert_eq!(unique_candidate("Makefile", 3), "Makefile(3)");
    assert_eq!(unique_candidate(".env", 1), ".env(1)");
}

#[test]
fn unique_path_when_free() {
    let taken: HashSet<String> = HashSet::new();
    let r = generate_unique_path("a.txt", |n: &String| taken.contains(n));
    assert_eq!(r, Some("a.txt".to_string()));
}

#[test]
fn unique_path_skips_taken_names() {
    let taken: HashSet<String> = ["a.txt", "a(1).txt", "a(2).txt", "a(4).txt"]
        .iter()
        .map(|s| s.to_string())
        .collect();
    let r = generate_unique_path("a.txt", |n: &String| taken.contains(n));
    assert_eq!(r, Some("a(3).txt".to_string()));
}

#[test]
fn unique_path_without_extension() {
    let taken: HashSet<String> = ["notes", "notes(1)"].iter().map(|s| s.to_string()).collect();
    let r = generate_unique_path("notes", |n: &String| taken.contains(n));
    assert_eq!(r, Some("notes(2)".to_string()));
}

#[test]
fn program_targets() {
    assert!(target_is_program(&Some("C:\\Program Files\\App\\app.EXE".to_string())));
    assert!(target_is_program(&Some("run.bat".to_string())));
    assert!(target_is_program(&Some("x.Cmd".to_string())));
    assert!(!target_is_program(&Some("readme.txt".to_string())));
    assert!(!target_is_program(&Some("exe".to_string())));
    assert!(!target_is_program(&None));
}

#[test]
fn extension_forms() {
    assert_eq!(name_ascii_lower_ext("Photo.JPG"), Some("jpg".to_string()));
    assert_eq!(name_ascii_lower_ext("noext"), None);
    assert_eq!(name_folded_ext("Setup.EXE"), Some("exe".to_string()));
    assert_eq!(name_folded_ext("x.ÄBC"), Some("äbc".to_string()));
    assert_eq!(name_ascii_lower_ext("x.ÄBC"), Some("Äbc".to_string()));
    assert!(str_is_one_of("png", &["jpg", "png"]));
    assert!(!str_is_one_of("PNG", &["jpg", "png"]));
}

#[test]
fn tally_counts_and_messages() {
    let mut t = OrganizeTally::new();
    t.record(0, "a.lnk", Ok(()));
    t.record(2, "b.png", Ok(()));
    t.record(2, "c.png", Ok(()));
    t.record(3, "d.txt", Err("拒绝访问".to_string()));
    t.record_error("读取桌面失败".to_string());
    let (p, o, i, f, errors) = t.finish();
    assert_eq!((p, o, i, f), (1, 0, 2, 0));
    assert_eq!(errors, vec!["d.txt: 拒绝访问".to_string(), "读取桌面失败".to_string()]);
}

#[test]
fn exe_targets() {
    assert!(target_is_exe(&Some("C:\\a\\b.Exe".to_string())));
    assert!(!target_is_exe(&Some("C:\\a\\b.bat".to_string())));
    assert!(!target_is_exe(&None));
}
