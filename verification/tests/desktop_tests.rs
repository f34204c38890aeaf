use daily_plan::desktop::{
    build_desktop_analysis, classify_desktop_entry, conflict_file, desktop_conflict_target,
    desktop_folders, desktop_icons, desktop_organize_target, is_desktop_icon_visible,
    needs_link_target, tidy_needs_link_target, virtual_desktop_items, DesktopAnalysis,
    DesktopAnalyzeManager, DesktopFolder, DesktopItem,
};

fn item(name: &str, category: &str) -> DesktopItem {
    DesktopItem {
        name: name.to_string(),
        category: category.to_string(),
        path: None,
        target: None,
        is_dir: false,
    }
}

#[test]
fn classify_program_shortcut() {
    let it = classify_desktop_entry(
        "微信.lnk",
        "C:\\Users\\u\\Desktop\\微信.lnk",
        false,
        Some("C:\\Program Files\\WeChat\\WeChat.exe".to_string()),
    )
    .unwrap();
    assert_eq!(it.name, "微信.lnk");
    assert_eq!(it.category, "programShortcut");
    assert_eq!(it.path, Some("C:\\Users\\u\\Desktop\\微信.lnk".to_string()));
    assert_eq!(it.target, Some("C:\\Program Files\\WeChat\\WeChat.exe".to_string()));
    assert!(!it.is_dir);
}

#[test]
fn classify_other_entries() {
    let doc = classify_desktop_entry("Docs.LNK", "p", false, Some("D:\\docs".to_string())).unwrap();
    assert_eq!(doc.category, "otherShortcut");
    assert_eq!(doc.target, Some("D:\\docs".to_string()));
    let broken = classify_desktop_entry("x.lnk", "p", false, None).unwrap();
    assert_eq!(broken.category, "otherShortcut");
    assert_eq!(broken.target, None);
    let url = classify_desktop_entry("site.url", "p", false, None).unwrap();
    assert_eq!(url.category, "otherShortcut");
    let pic = classify_desktop_entry("cat.PNG", "p", false, None).unwrap();
    assert_eq!(pic.category, "image");
    let pic_dir = classify_desktop_entry("album.jpg", "p", true, None).unwrap();
    assert_eq!(pic_dir.category, "regular");
    assert!(pic_dir.is_dir);
    let txt = classify_desktop_entry("a.txt", "p", false, Some("ignored".to_string())).unwrap();
    assert_eq!(txt.category, "regular");
    assert_eq!(txt.target, None);
    let folder = classify_desktop_entry("项目", "p", true, None).unwrap();
    assert_eq!(folder.category, "regular");
    assert!(folder.is_dir);
    assert!(classify_desktop_entry("Desktop.ini", "p", false, None).is_none());
    assert!(classify_desktop_entry("desktop.ini", "p", true, None).is_none());
}

#[test]
fn shortcut_targets_are_resolved_only_for_shortcuts() {
    assert!(needs_link_target("a.lnk"));
    assert!(needs_link_target("a.LNK"));
    assert!(!needs_link_target("a.url"));
    assert!(tidy_needs_link_target("a.Lnk", true));
    assert!(!tidy_needs_link_target("a.lnk", false));
    assert!(!tidy_needs_link_target("程序快捷方式", true));
}

#[test]
fn analysis_counts_by_category() {
    let items = vec![
        item("此电脑", "virtual"),
        item("a.lnk", "programShortcut"),
        item("b.lnk", "otherShortcut"),
        item("c.url", "otherShortcut"),
        item("d.png", "image"),
        item("e.txt", "regular"),
        item("f", "regular"),
    ];
    let a: DesktopAnalysis = build_desktop_analysis(
        "C:\\Users\\u\\Desktop".to_string(),
        Some("C:\\Users\\Public\\Desktop".to_string()),
        items,
        vec!["读取失败".to_string()],
    );
    assert_eq!(a.virtual_count, 1);
    assert_eq!(a.program_shortcut_count, 1);
    assert_eq!(a.other_shortcut_count, 2);
    assert_eq!(a.image_count, 1);
    assert_eq!(a.regular_count, 2);
    assert_eq!(
        a.virtual_count + a.program_shortcut_count + a.other_shortcut_count + a.image_count + a.regular_count,
        a.items.len()
    );
    assert_eq!(a.errors, vec!["读取失败".to_string()]);
    assert_eq!(a.desktop_path, "C:\\Users\\u\\Desktop");
}

#[test]
fn analysis_of_nothing() {
    let a = build_desktop_analysis("d".to_string(), None, vec![], vec![]);
    assert_eq!(a.items.len(), 0);
    assert_eq!(a.regular_count, 0);
    assert_eq!(a.public_desktop_path, None);
}

#[test]
fn icon_visibility() {
    let bin = "{645FF040-5081-101B-9F08-00AA002F954E}";
    let pc = "{20D04FE0-3AEA-1069-A2D8-08002B30309D}";
    assert!(is_desktop_icon_visible(&vec![None, None], bin));
    assert!(is_desktop_icon_visible(&vec![None, None], &bin.to_lowercase()));
    assert!(!is_desktop_icon_visible(&vec![None, None], pc));
    assert!(is_desktop_icon_visible(&vec![Some(0), Some(1)], pc));
    assert!(!is_desktop_icon_visible(&vec![Some(1), Some(0)], pc));
    assert!(!is_desktop_icon_visible(&vec![None, Some(1)], bin));
    assert!(is_desktop_icon_visible(&vec![None, Some(2)], pc));
}

#[test]
fn virtual_items_follow_visibility() {
    let icons = desktop_icons();
    assert_eq!(icons.len(), 5);
    assert_eq!(icons[1].1, "回收站");
    let v = virtual_desktop_items(&vec![true, true, false, false, true]);
    let names: Vec<String> = v.iter().map(|i| i.name.clone()).collect();
    assert_eq!(names, vec!["此电脑".to_string(), "回收站".to_string(), "控制面板".to_string()]);
    for i in &v {
        assert_eq!(i.category, "virtual");
        assert!(i.is_dir);
        assert_eq!(i.path, None);
    }
    assert!(virtual_desktop_items(&vec![false; 5]).is_empty());
}

#[test]
fn desktop_tidy_targets() {
    let prog = Some("C:\\x\\app.exe".to_string());
    assert_eq!(desktop_organize_target("app.lnk", true, false, &prog), Some(DesktopFolder::ProgramShortcuts));
    assert_eq!(desktop_organize_target("doc.lnk", true, false, &None), Some(DesktopFolder::OtherShortcuts));
    assert_eq!(desktop_organize_target("site.URL", true, false, &None), Some(DesktopFolder::OtherShortcuts));
    assert_eq!(desktop_organize_target("pic.Jpeg", true, false, &None), Some(DesktopFolder::Images));
    assert_eq!(desktop_organize_target("a.txt", true, false, &None), Some(DesktopFolder::OtherFiles));
    assert_eq!(desktop_organize_target("folder", false, true, &None), Some(DesktopFolder::OtherFiles));
    assert_eq!(desktop_organize_target("odd", false, false, &None), None);
    assert_eq!(desktop_organize_target("桌面图片文件", false, true, &None), None);
    assert_eq!(desktop_organize_target("DESKTOP.INI", true, false, &None), None);
    assert_eq!(desktop_conflict_target("odd", false, &None), Some(DesktopFolder::OtherFiles));
    assert_eq!(desktop_conflict_target("其他快捷方式", false, &None), None);
    assert_eq!(desktop_conflict_target("a.png", true, &None), Some(DesktopFolder::Images));
}

#[test]
fn folder_names_and_slots() {
    let f = desktop_folders();
    let names: Vec<&str> = f.iter().map(|x| x.name()).collect();
    assert_eq!(names, vec!["程序快捷方式", "其他快捷方式", "桌面图片文件", "桌面整理文件"]);
    let slots: Vec<usize> = f.iter().map(|x| x.slot()).collect();
    assert_eq!(slots, vec![0, 1, 2, 3]);
}

#[test]
fn conflict_record() {
    let c = conflict_file("a.png", "C:\\d\\a.png", "桌面图片文件", "C:\\d\\桌面图片文件\\a.png");
    assert_eq!(c.file_name, "a.png");
    assert_eq!(c.source_path, "C:\\d\\a.png");
    assert_eq!(c.target_folder, "桌面图片文件");
    assert_eq!(c.target_path, "C:\\d\\桌面图片文件\\a.png");
}

#[test]
fn manager_keeps_latest_analysis() {
    let mut m = DesktopAnalyzeManager::new();
    assert!(m.get().is_none());
    m.set(build_desktop_analysis("one".to_string(), None, vec![], vec![]));
    m.set(build_desktop_analysis("two".to_string(), None, vec![item("x", "image")], vec![]));
    let a = m.get().unwrap();
    assert_eq!(a.desktop_path, "two");
    assert_eq!(a.image_count, 1);
    assert_eq!(a.items[0].name, "x");
}

#[test]
fn only_exe_targets_make_program_shortcuts_in_the_analysis() {
    let bat = classify_desktop_entry("run.lnk", "p", false, Some("C:\\tools\\run.BAT".to_string())).unwrap();
    assert_eq!(bat.category, "otherShortcut");
    let cmd = classify_desktop_entry("go.lnk", "p", false, Some("C:\\tools\\go.cmd".to_string())).unwrap();
    assert_eq!(cmd.category, "otherShortcut");
    let exe = classify_desktop_entry("app.lnk", "p", false, Some("C:\\App\\APP.EXE".to_string())).unwrap();
    assert_eq!(exe.category, "programShortcut");
    // The tidy-up still files .bat and .cmd shortcuts with the programs.
    assert_eq!(
        desktop_organize_target("run.lnk", true, false, &Some("C:\\tools\\run.bat".to_string())),
        Some(DesktopFolder::ProgramShortcuts)
    );
}
