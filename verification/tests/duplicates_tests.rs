use daily_plan::duplicates::{
    compute_file_hash, digest_candidates, group_duplicates, hashed_file, plan_duplicate_cleanup,
    sort_by_name, text_le, CleanupTally, DuplicateFile, DuplicateFileGroup, HashedFile,
    ScannedFile,
};

fn scanned(name: &str, size: u64) -> ScannedFile {
    ScannedFile {
        name: name.to_string(),
        path: format!("D:\\dl\\{}", name),
        folder: "D:\\dl".to_string(),
        size,
    }
}

fn file(name: &str) -> DuplicateFile {
    DuplicateFile { name: name.to_string(), path: format!("D:\\dl\\{}", name), folder: "D:\\dl".to_string() }
}

fn hashed(name: &str, size: u64, hash: &str) -> HashedFile {
    HashedFile { file: file(name), size, hash: hash.to_string() }
}

#[test]
fn sha256_of_known_texts() {
    assert_eq!(
        compute_file_hash(b"abc"),
        "ba7816bf8f01cfea414140de5dae2223b00361a396177a9cb410ff61f20015ad"
    );
    assert_eq!(
        compute_file_hash(b""),
        "e3b0c44298fc1c149afbf4c8996fb92427ae41e4649b934ca495991b7852b855"
    );
    assert_eq!(compute_file_hash(b"hello world").len(), 64);
    assert_ne!(compute_file_hash(b"a"), compute_file_hash(b"b"));
}

#[test]
fn only_shared_sizes_are_hashed() {
    let files = vec![
        scanned("a.bin", 10),
        scanned("b.bin", 20),
        scanned("c.bin", 10),
        scanned("empty1", 0),
        scanned("empty2", 0),
        scanned("d.bin", 30),
    ];
    let c = digest_candidates(files);
    let names: Vec<String> = c.iter().map(|f| f.name.clone()).collect();
    assert_eq!(names, vec!["a.bin".to_string(), "c.bin".to_string()]);
    assert!(digest_candidates(vec![]).is_empty());
}

#[test]
fn names_order_by_code_point() {
    assert!(text_le(&"a".to_string(), &"b".to_string()));
    assert!(text_le(&"ab".to_string(), &"ab".to_string()));
    assert!(text_le(&"ab".to_string(), &"abc".to_string()));
    assert!(!text_le(&"b".to_string(), &"a".to_string()));
    assert!(text_le(&"Z".to_string(), &"a".to_string()));
    let sorted = sort_by_name(vec![file("c"), file("a"), file("b"), file("a")]);
    let names: Vec<String> = sorted.iter().map(|f| f.name.clone()).collect();
    assert_eq!(names, vec!["a", "a", "b", "c"]);
}

#[test]
fn grouping_by_digest() {
    let groups = group_duplicates(vec![
        hashed("x2.txt", 5, "h1"),
        hashed("big2.iso", 100, "h2"),
        hashed("x1.txt", 5, "h1"),
        hashed("single.txt", 5, "h3"),
        hashed("big1.iso", 100, "h2"),
        hashed("x3.txt", 5, "h1"),
    ]);
    assert_eq!(groups.len(), 2);
    assert_eq!(groups[0].hash, "h2");
    assert_eq!(groups[0].size, 100);
    let g0: Vec<String> = groups[0].files.iter().map(|f| f.name.clone()).collect();
    assert_eq!(g0, vec!["big1.iso", "big2.iso"]);
    assert_eq!(groups[1].hash, "h1");
    let g1: Vec<String> = groups[1].files.iter().map(|f| f.name.clone()).collect();
    assert_eq!(g1, vec!["x1.txt", "x2.txt", "x3.txt"]);
}

#[test]
fn no_duplicates_no_groups() {
    assert!(group_duplicates(vec![]).is_empty());
    assert!(group_duplicates(vec![hashed("a", 1, "h1"), hashed("b", 1, "h2")]).is_empty());
}

#[test]
fn cleanup_keeps_the_first_of_each_group() {
    let groups = vec![
        DuplicateFileGroup { hash: "h".to_string(), size: 3, files: vec![file("a"), file("b"), file("c")] },
        DuplicateFileGroup { hash: "k".to_string(), size: 2, files: vec![file("d")] },
        DuplicateFileGroup { hash: "m".to_string(), size: 1, files: vec![file("e"), file("f")] },
    ];
    let (n, remove) = plan_duplicate_cleanup(&groups);
    assert_eq!(n, 2);
    let names: Vec<String> = remove.iter().map(|f| f.name.clone()).collect();
    assert_eq!(names, vec!["b", "c", "f"]);
}

#[test]
fn hashed_file_keeps_the_scan() {
    let h = hashed_file(&scanned("a.bin", 7), "abc".to_string());
    assert_eq!(h.file.name, "a.bin");
    assert_eq!(h.file.path, "D:\\dl\\a.bin");
    assert_eq!(h.size, 7);
    assert_eq!(h.hash, "abc");
}

#[test]
fn cleanup_tally() {
    let mut t = CleanupTally::new();
    t.record("a", Ok(()));
    t.record("b", Err("移入回收站失败 (错误码: 2)".to_string()));
    t.record("c", Ok(()));
    assert_eq!(t.moved, 2);
    assert_eq!(t.errors, vec!["b: 移入回收站失败 (错误码: 2)".to_string()]);
}

fn file_in(name: &str, folder: &str) -> DuplicateFile {
    DuplicateFile { name: name.to_string(), path: format!("{}\\{}", folder, name), folder: folder.to_string() }
}

#[test]
fn same_names_keep_their_order() {
    let sorted = sort_by_name(vec![file_in("b", "x"), file_in("a", "2"), file_in("a", "1"), file_in("a", "3")]);
    let folders: Vec<String> = sorted.iter().map(|f| format!("{}{}", f.name, f.folder)).collect();
    assert_eq!(folders, vec!["a2", "a1", "a3", "bx"]);
    let groups = group_duplicates(vec![
        HashedFile { file: file_in("a", "桌面整理文件"), size: 4, hash: "h".to_string() },
        HashedFile { file: file_in("a", "桌面图片文件"), size: 4, hash: "h".to_string() },
    ]);
    assert_eq!(groups.len(), 1);
    assert_eq!(groups[0].files[0].folder, "桌面整理文件");
    assert_eq!(groups[0].files[1].folder, "桌面图片文件");
}
