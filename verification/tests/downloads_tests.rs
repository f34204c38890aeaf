use daily_plan::downloads::{
    build_downloads_analysis, classify_downloads_entry, downloads_conflict_target,
    downloads_folders, downloads_organize_target, DownloadsAnalyzeManager, DownloadsFolder,
};

#[test]
fn classify_by_extension() {
    let cat = |n: &str| classify_downloads_entry(n, "p", false).unwrap().category;
    assert_eq!(cat("setup.EXE"), "exe");
    assert_eq!(cat("tool.msi"), "exe");
    assert_eq!(cat("photo.nef"), "image");
    assert_eq!(cat("photo.PNG"), "image");
    assert_eq!(cat("data.zip"), "archive");
    assert_eq!(cat("data.tar.gz"), "archive");
    assert_eq!(cat("data.7Z"), "archive");
    assert_eq!(cat("notes.txt"), "other");
    assert_eq!(cat("README"), "other");
    let dir = classify_downloads_entry("pics.jpg", "p", true).unwrap();
    assert_eq!(dir.category, "other");
    assert!(dir.is_dir);
    assert_eq!(dir.path, Some("p".to_string()));
}

#[test]
fn skipped_entries() {
    for n in ["可执行文件", "图片文件", "其他文件", "压缩包", "desktop.ini", "DESKTOP.INI"] {
        assert!(classify_downloads_entry(n, "p", true).is_none());
        assert_eq!(downloads_organize_target(n, false, true), None);
        assert_eq!(downloads_conflict_target(n, true), None);
    }
}

#[test]
fn analysis_counts() {
    let items = vec![
        classify_downloads_entry("a.exe", "p/a.exe", false).unwrap(),
        classify_downloads_entry("b.png", "p/b.png", false).unwrap(),
        classify_downloads_entry("c.png", "p/c.png", false).unwrap(),
        classify_downloads_entry("d.rar", "p/d.rar", false).unwrap(),
        classify_downloads_entry("e", "p/e", true).unwrap(),
        classify_downloads_entry("f.doc", "p/f.doc", false).unwrap(),
    ];
    let a = build_downloads_analysis("p".to_string(), items, vec![]);
    assert_eq!((a.exe_count, a.image_count, a.archive_count, a.other_count), (1, 2, 1, 2));
    assert_eq!(a.exe_count + a.image_count + a.archive_count + a.other_count, a.items.len());
    assert_eq!(a.downloads_path, "p");
}

#[test]
fn downloads_tidy_targets() {
    assert_eq!(downloads_organize_target("a.EXE", true, false), Some(DownloadsFolder::Executables));
    assert_eq!(downloads_organize_target("a.heic", true, false), Some(DownloadsFolder::Images));
    assert_eq!(downloads_organize_target("a.iso", true, false), Some(DownloadsFolder::Archives));
    assert_eq!(downloads_organize_target("a.pdf", true, false), Some(DownloadsFolder::Others));
    assert_eq!(downloads_organize_target("dir", false, true), Some(DownloadsFolder::Others));
    assert_eq!(downloads_organize_target("odd", false, false), None);
    assert_eq!(downloads_conflict_target("odd", false), Some(DownloadsFolder::Others));
}

#[test]
fn folder_order_and_names() {
    let f = downloads_folders();
    let names: Vec<&str> = f.iter().map(|x| x.name()).collect();
    assert_eq!(names, vec!["可执行文件", "图片文件", "其他文件", "压缩包"]);
    let slots: Vec<usize> = f.iter().map(|x| x.slot()).collect();
    assert_eq!(slots, vec![0, 1, 3, 2]);
}

#[test]
fn downloads_manager_keeps_latest() {
    let mut m = DownloadsAnalyzeManager::new();
    assert!(m.get().is_none());
    m.set(build_downloads_analysis("x".to_string(), vec![], vec!["e".to_string()]));
    let a = m.get().unwrap();
    assert_eq!(a.downloads_path, "x");
    assert_eq!(a.errors, vec!["e".to_string()]);
}
