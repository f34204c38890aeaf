use daily_plan::commands::{greet, recycle_bin_result};
use daily_plan::tasks::{from_trash, reorder_plan, sanitize_color, to_trash, DeletedTask, Task};
use daily_plan::text::{
    bytes_to_hex_lower, char_is_white_space, chars_of, file_extension, file_stem, owned, str_eq,
    str_eq_ignore_ascii_case, string_of, to_ascii_lowercase, trim_chars, u64_to_string,
};

#[test]
fn greet_names_the_caller() {
    assert_eq!(greet("Alice"), "Hello, Alice! You've been greeted from Rust!");
    assert_eq!(greet(""), "Hello, ! You've been greeted from Rust!");
}

#[test]
fn recycle_bin_codes() {
    assert_eq!(recycle_bin_result(0), Ok(true));
    assert_eq!(recycle_bin_result(1), Ok(false));
    assert_eq!(recycle_bin_result(2), Err("清空回收站失败，错误码: 0x2".to_string()));
    assert_eq!(recycle_bin_result(255), Err("清空回收站失败，错误码: 0xff".to_string()));
    assert_eq!(
        recycle_bin_result(-2147467259),
        Err("清空回收站失败，错误码: 0x80004005".to_string())
    );
    assert_eq!(recycle_bin_result(-1), Err("清空回收站失败，错误码: 0xffffffff".to_string()));
}

#[test]
fn sanitize_color_keeps_hex_colors_in_uppercase() {
    assert_eq!(sanitize_color("#a1b2c3"), "#A1B2C3");
    assert_eq!(sanitize_color("  #ffFFff \n"), "#FFFFFF");
    assert_eq!(sanitize_color("#000000"), "#000000");
}

#[test]
fn sanitize_color_rejects_other_texts() {
    assert_eq!(sanitize_color("red"), "#000000");
    assert_eq!(sanitize_color("#12345"), "#000000");
    assert_eq!(sanitize_color("#1234567"), "#000000");
    assert_eq!(sanitize_color("#12345g"), "#000000");
    assert_eq!(sanitize_color("123456#"), "#000000");
    assert_eq!(sanitize_color(""), "#000000");
    assert_eq!(sanitize_color("#é1234"), "#000000");
}

#[test]
fn sanitize_color_is_stable() {
    for c in ["#abcdef", " #0a0B0c ", "blue", "", "#zzzzzz"] {
        let once = sanitize_color(c);
        assert_eq!(sanitize_color(&once), once);
        assert_eq!(once.len(), 7);
        assert!(once.starts_with('#'));
    }
}

fn sample_task() -> Task {
    Task {
        id: 7,
        text: "写周报".to_string(),
        status: false,
        color: "#FF0000".to_string(),
        bold: true,
        timer_type: "countdown".to_string(),
        timer_value: 25,
        timer_remaining: 100,
        created_at: "2024-01-01 10:00:00".to_string(),
        order_index: 3,
    }
}

#[test]
fn trash_and_restore_give_back_the_task() {
    let task = sample_task();
    let d: DeletedTask = to_trash(&task, 42, "2024-02-02 12:00:00".to_string());
    assert_eq!(d.id, 42);
    assert_eq!(d.original_id, 7);
    assert_eq!(d.text, "写周报");
    assert_eq!(d.deleted_at, "2024-02-02 12:00:00");
    assert_eq!(d.order_index, 3);
    let back = from_trash(&d, d.original_id);
    assert_eq!(back.id, task.id);
    assert_eq!(back.text, task.text);
    assert_eq!(back.status, task.status);
    assert_eq!(back.color, task.color);
    assert_eq!(back.bold, task.bold);
    assert_eq!(back.timer_type, task.timer_type);
    assert_eq!(back.timer_value, task.timer_value);
    assert_eq!(back.timer_remaining, task.timer_remaining);
    assert_eq!(back.created_at, task.created_at);
    assert_eq!(back.order_index, task.order_index);
    let renumbered = from_trash(&d, 99);
    assert_eq!(renumbered.id, 99);
}

#[test]
fn reorder_plan_numbers_positions() {
    assert_eq!(reorder_plan(&vec![5, 3, 9]), vec![(5, 0), (3, 1), (9, 2)]);
    assert!(reorder_plan(&vec![]).is_empty());
}

#[test]
fn file_name_parts_follow_path_rules() {
    assert_eq!(file_extension("photo.JPG"), Some("JPG".to_string()));
    assert_eq!(file_extension("archive.tar.gz"), Some("gz".to_string()));
    assert_eq!(file_extension(".bashrc"), None);
    assert_eq!(file_extension("README"), None);
    assert_eq!(file_extension("name."), Some("".to_string()));
    assert_eq!(file_extension(".."), None);
    assert_eq!(file_stem("archive.tar.gz"), "archive.tar");
    assert_eq!(file_stem(".bashrc"), ".bashrc");
    assert_eq!(file_stem("README"), "README");
    assert_eq!(file_stem(".."), "");
    assert_eq!(file_stem(""), "");
    assert_eq!(file_stem("name."), "name");
    for n in ["photo.JPG", "archive.tar.gz", ".bashrc", "README", "name.", "..", "a.b.c"] {
        let p = std::path::Path::new(n);
        assert_eq!(file_extension(n), p.extension().map(|e| e.to_string_lossy().to_string()));
        assert_eq!(file_stem(n), p.file_stem().map(|e| e.to_string_lossy().to_string()).unwrap_or_default());
    }
}

#[test]
fn text_helpers() {
    assert_eq!(to_ascii_lowercase("ÄbC.LNK"), "Äbc.lnk");
    assert_eq!(u64_to_string(0), "0");
    assert_eq!(u64_to_string(1700000000), "1700000000");
    assert_eq!(u64_to_string(u64::MAX), u64::MAX.to_string());
    assert_eq!(bytes_to_hex_lower(&[0x00, 0x0f, 0xab, 0xff]), "000fabff");
    assert!(str_eq("桌面", "桌面"));
    assert!(!str_eq("桌面", "桌"));
    assert!(str_eq_ignore_ascii_case("Desktop.INI", "desktop.ini"));
    assert!(!str_eq_ignore_ascii_case("desktop.ini", "desktop.in"));
    assert_eq!(string_of(&chars_of("a桌b")), "a桌b");
    assert_eq!(owned("x"), "x");
    assert_eq!(string_of(&trim_chars("\u{3000} a b \t")), "a b");
    assert!(char_is_white_space('\u{a0}'));
    assert!(!char_is_white_space('a'));
}
