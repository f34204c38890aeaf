//! Desktop analysis and the rules by which the desktop is tidied up.
//!
//! Reading the folders, resolving shortcuts and moving files is left to the
//! caller; this module decides what each entry is and where it goes.

use vstd::prelude::*;
use crate::organize::{
    ConflictFile, ascii_lower_ext, desktop_image_exts, folded_ext, is_exe_target, is_one_of, is_program_target,
    name_ascii_lower_ext, name_folded_ext, str_is_one_of, target_is_exe, target_is_program,
};
use crate::text::{opt_view, clone_opt_string, clone_strings, eq_ignore_ascii_case, owned, str_eq, str_eq_ignore_ascii_case};

verus! {

/// One entry of the desktop.
#[derive(Debug)]
pub struct DesktopItem {
    pub name: String,
    /// `virtual`, `programShortcut`, `otherShortcut`, `image` or `regular`.
    pub category: String,
    pub path: Option<String>,
    pub target: Option<String>,
    pub is_dir: bool,
}

impl Clone for DesktopItem {
    fn clone(&self) -> (r: Self)
        ensures
            r == *self,
    {
        DesktopItem {
            name: self.name.clone(),
            category: self.category.clone(),
            path: clone_opt_string(&self.path),
            target: clone_opt_string(&self.target),
            is_dir: self.is_dir,
        }
    }
}

/// What an analysis of the desktop found.
#[derive(Debug)]
pub struct DesktopAnalysis {
    pub desktop_path: String,
    pub public_desktop_path: Option<String>,
    pub items: Vec<DesktopItem>,
    pub virtual_count: usize,
    pub program_shortcut_count: usize,
    pub other_shortcut_count: usize,
    pub image_count: usize,
    pub regular_count: usize,
    pub errors: Vec<String>,
}

pub fn clone_items(v: &Vec<DesktopItem>) -> (r: Vec<DesktopItem>)
    ensures
        r@ == v@,
{
    let mut r: Vec<DesktopItem> = Vec::new();
    let mut i: usize = 0;
    while i < v.len()
        invariant
            i <= v.len(),
            r@ == v@.subrange(0, i as int),
        decreases v.len() - i,
    {
        r.push(v[i].clone());
        i = i + 1;
        assert(r@ =~= v@.subrange(0, i as int));
    }
    assert(r@ =~= v@);
    r
}

/// Two analyses hold the same values.
pub open spec fn same_analysis(a: DesktopAnalysis, b: DesktopAnalysis) -> bool {
    &&& a.desktop_path == b.desktop_path
    &&& a.public_desktop_path == b.public_desktop_path
    &&& a.items@ == b.items@
    &&& a.virtual_count == b.virtual_count
    &&& a.program_shortcut_count == b.program_shortcut_count
    &&& a.other_shortcut_count == b.other_shortcut_count
    &&& a.image_count == b.image_count
    &&& a.regular_count == b.regular_count
    &&& a.errors@ == b.errors@
}

impl Clone for DesktopAnalysis {
    fn clone(&self) -> (r: Self)
        ensures
            same_analysis(r, *self),
    {
        DesktopAnalysis {
            desktop_path: self.desktop_path.clone(),
            public_desktop_path: clone_opt_string(&self.public_desktop_path),
            items: clone_items(&self.items),
            virtual_count: self.virtual_count,
            program_shortcut_count: self.program_shortcut_count,
            other_shortcut_count: self.other_shortcut_count,
            image_count: self.image_count,
            regular_count: self.regular_count,
            errors: clone_strings(&self.errors),
        }
    }
}

/// Keeps the latest desktop analysis for the window that shows it.
pub struct DesktopAnalyzeManager {
    current_analysis: Option<DesktopAnalysis>,
}

impl DesktopAnalyzeManager {
    /// The analysis held, if any.
    pub closed spec fn current(&self) -> Option<DesktopAnalysis> {
        self.current_analysis
    }

    pub fn new() -> (m: Self)
        ensures
            m.current() is None,
    {
        DesktopAnalyzeManager { current_analysis: None }
    }

    pub fn set(&mut self, analysis: DesktopAnalysis)
        ensures
            final(self).current() == Some(analysis),
    {
        self.current_analysis = Some(analysis);
    }

    pub fn get(&self) -> (r: Option<DesktopAnalysis>)
        ensures
            r is Some <==> self.current() is Some,
            r matches Some(a) ==> same_analysis(a, self.current()->0),
    {
        match &self.current_analysis {
            Some(a) => Some(a.clone()),
            None => None,
        }
    }
}

/// The category names are distinct texts.
pub proof fn lemma_category_names()
    ensures
        "virtual"@ != "programShortcut"@,
        "virtual"@ != "otherShortcut"@,
        "virtual"@ != "image"@,
        "virtual"@ != "regular"@,
        "programShortcut"@ != "otherShortcut"@,
        "programShortcut"@ != "image"@,
        "programShortcut"@ != "regular"@,
        "otherShortcut"@ != "image"@,
        "otherShortcut"@ != "regular"@,
        "image"@ != "regular"@,
{
    reveal_strlit("virtual");
    reveal_strlit("programShortcut");
    reveal_strlit("otherShortcut");
    reveal_strlit("image");
    reveal_strlit("regular");
    assert("virtual"@.len() == 7);
    assert("programShortcut"@.len() == 15);
    assert("otherShortcut"@.len() == 13);
    assert("image"@.len() == 5);
    assert("regular"@.len() == 7);
    assert("virtual"@[0] == 'v');
    assert("regular"@[0] == 'r');
}

// ---------------------------------------------------------------------------
// Classifying entries
// ---------------------------------------------------------------------------

/// `desktop.ini`, in any ASCII case, is never listed nor moved.
pub open spec fn is_desktop_ini(name: Seq<char>) -> bool {
    eq_ignore_ascii_case(name, "desktop.ini"@)
}

/// The category under which the analysis lists a desktop entry: a shortcut
/// is a program shortcut when it points at an `.exe`, and any other shortcut
/// (a `.lnk` pointing elsewhere or unresolved, or a `.url`) is an other
/// shortcut.
pub open spec fn desktop_category(name: Seq<char>, is_dir: bool, target: Option<Seq<char>>) -> Seq<
    char,
> {
    let ext = ascii_lower_ext(name);
    if ext == Some("lnk"@) {
        if target matches Some(t) && is_exe_target(t) {
            "programShortcut"@
        } else {
            "otherShortcut"@
        }
    } else if ext == Some("url"@) {
        "otherShortcut"@
    } else if ext matches Some(e) && is_one_of(e, desktop_image_exts()) && !is_dir {
        "image"@
    } else {
        "regular"@
    }
}

/// Whether the analysis needs the target of this entry, which is a shortcut.
pub open spec fn analysis_needs_target(name: Seq<char>) -> bool {
    ascii_lower_ext(name) == Some("lnk"@)
}

pub fn needs_link_target(name: &str) -> (r: bool)
    ensures
        r == analysis_needs_target(name@),
{
    match name_ascii_lower_ext(name) {
        Some(e) => str_eq(e.as_str(), "lnk"),
        None => false,
    }
}

/// The item the analysis lists for one entry of a desktop folder; `None` for
/// `desktop.ini`. `link_target` is the resolved target of a shortcut, and is
/// kept only when the entry is one.
pub fn classify_desktop_entry(name: &str, path: &str, is_dir: bool, link_target: Option<String>) -> (r:
    Option<DesktopItem>)
    ensures
        is_desktop_ini(name@) <==> r is None,
        r matches Some(item) ==> {
            let category = desktop_category(name@, is_dir, opt_view(link_target));
            &&& item.name@ == name@
            &&& item.category@ == category
            &&& item.path matches Some(p) && p@ == path@
            &&& (if analysis_needs_target(name@) {
                item.target == link_target
            } else {
                item.target is None
            })
            &&& item.is_dir == (category == "regular"@ && is_dir)
        },
{
    proof {
        lemma_category_names();
    }
    if str_eq_ignore_ascii_case(name, "desktop.ini") {
        return None;
    }
    let ext = name_ascii_lower_ext(name);
    let (is_lnk, is_url, is_image) = match &ext {
        Some(e) => {
            let image_list: [&str; 12] = [
                "jpg",
                "jpeg",
                "png",
                "gif",
                "bmp",
                "webp",
                "tiff",
                "tif",
                "svg",
                "ico",
                "heic",
                "heif",
            ];
            assert(image_list@ =~= desktop_image_exts());
            (str_eq(e.as_str(), "lnk"), str_eq(e.as_str(), "url"), str_is_one_of(e.as_str(), &image_list))
        },
        None => (false, false, false),
    };
    if is_lnk {
        let is_program = target_is_exe(&link_target);
        let category = if is_program {
            owned("programShortcut")
        } else {
            owned("otherShortcut")
        };
        Some(
            DesktopItem {
                name: owned(name),
                category,
                path: Some(owned(path)),
                target: link_target,
                is_dir: false,
            },
        )
    } else if is_url {
        Some(
            DesktopItem {
                name: owned(name),
                category: owned("otherShortcut"),
                path: Some(owned(path)),
                target: None,
                is_dir: false,
            },
        )
    } else if is_image && !is_dir {
        Some(
            DesktopItem {
                name: owned(name),
                category: owned("image"),
                path: Some(owned(path)),
                target: None,
                is_dir: false,
            },
        )
    } else {
        Some(
            DesktopItem {
                name: owned(name),
                category: owned("regular"),
                path: Some(owned(path)),
                target: None,
                is_dir,
            },
        )
    }
}

// ---------------------------------------------------------------------------
// Counting
// ---------------------------------------------------------------------------

/// How many items carry the category `c`.
pub open spec fn count_category(items: Seq<DesktopItem>, c: Seq<char>) -> nat
    decreases items.len(),
{
    if items.len() == 0 {
        0
    } else {
        count_category(items.drop_last(), c) + if items.last().category@ == c {
            1nat
        } else {
            0nat
        }
    }
}

/// The categories that have a count of their own; the rest count as regular.
pub open spec fn is_counted_category(c: Seq<char>) -> bool {
    c == "virtual"@ || c == "programShortcut"@ || c == "otherShortcut"@ || c == "image"@
}

/// How many items carry none of the counted categories.
pub open spec fn count_other(items: Seq<DesktopItem>) -> nat
    decreases items.len(),
{
    if items.len() == 0 {
        0
    } else {
        count_other(items.drop_last()) + if is_counted_category(items.last().category@) {
            0nat
        } else {
            1nat
        }
    }
}

/// The counts of an analysis add up to the number of items it lists: every
/// item counts once, under its category or as regular.
pub proof fn lemma_desktop_counts_add_up(items: Seq<DesktopItem>)
    ensures
        count_category(items, "virtual"@) + count_category(items, "programShortcut"@)
            + count_category(items, "otherShortcut"@) + count_category(items, "image"@)
            + count_other(items) == items.len(),
    decreases items.len(),
{
    lemma_category_names();
    if items.len() > 0 {
        lemma_desktop_counts_add_up(items.drop_last());
    }
}

/// Puts together an analysis, counting the items by category.
pub fn build_desktop_analysis(
    desktop_path: String,
    public_desktop_path: Option<String>,
    items: Vec<DesktopItem>,
    errors: Vec<String>,
) -> (r: DesktopAnalysis)
    ensures
        r.desktop_path == desktop_path,
        r.public_desktop_path == public_desktop_path,
        r.items@ == items@,
        r.errors@ == errors@,
        r.virtual_count == count_category(items@, "virtual"@),
        r.program_shortcut_count == count_category(items@, "programShortcut"@),
        r.other_shortcut_count == count_category(items@, "otherShortcut"@),
        r.image_count == count_category(items@, "image"@),
        r.regular_count == count_other(items@),
{
    let mut v: usize = 0;
    let mut p: usize = 0;
    let mut o: usize = 0;
    let mut im: usize = 0;
    let mut reg: usize = 0;
    let mut i: usize = 0;
    while i < items.len()
        invariant
            i <= items.len(),
            v == count_category(items@.subrange(0, i as int), "virtual"@),
            p == count_category(items@.subrange(0, i as int), "programShortcut"@),
            o == count_category(items@.subrange(0, i as int), "otherShortcut"@),
            im == count_category(items@.subrange(0, i as int), "image"@),
            reg == count_other(items@.subrange(0, i as int)),
        decreases items.len() - i,
    {
        let ghost pre = items@.subrange(0, i as int);
        let ghost next = items@.subrange(0, i + 1);
        proof {
            assert(next.drop_last() =~= pre);
            lemma_category_names();
            lemma_desktop_counts_add_up(pre);
        }
        let c = items[i].category.as_str();
        if str_eq(c, "virtual") {
            v = v + 1;
        } else if str_eq(c, "programShortcut") {
            p = p + 1;
        } else if str_eq(c, "otherShortcut") {
            o = o + 1;
        } else if str_eq(c, "image") {
            im = im + 1;
        } else {
            reg = reg + 1;
        }
        i = i + 1;
    }
    assert(items@.subrange(0, items.len() as int) =~= items@);
    DesktopAnalysis {
        desktop_path,
        public_desktop_path,
        items,
        virtual_count: v,
        program_shortcut_count: p,
        other_shortcut_count: o,
        image_count: im,
        regular_count: reg,
        errors,
    }
}

// ---------------------------------------------------------------------------
// System icons shown on the desktop
// ---------------------------------------------------------------------------

/// The system icons that may stand on the desktop: their class id and the
/// name under which the analysis lists them.
pub open spec fn spec_desktop_icons() -> Seq<(&'static str, &'static str)> {
    seq![
        ("{20D04FE0-3AEA-1069-A2D8-08002B30309D}", "此电脑"),
        ("{645FF040-5081-101B-9F08-00AA002F954E}", "回收站"),
        ("{59031a47-3f72-44a7-89c5-5595fe6b30ee}", "用户的文件"),
        ("{F02C1A0D-BE21-4350-88B0-7367FC96EF3C}", "网络"),
        ("{5399E694-6CE5-4D6C-8FCE-1D8870FDCBA0}", "控制面板"),
    ]
}

/// The class id of the recycle bin, the one icon shown when the registry says
/// nothing.
pub open spec fn recycle_bin_clsid() -> Seq<char> {
    "{645FF040-5081-101B-9F08-00AA002F954E}"@
}

pub fn desktop_icons() -> (r: Vec<(&'static str, &'static str)>)
    ensures
        r@ == spec_desktop_icons(),
{
    let r = vec![
        ("{20D04FE0-3AEA-1069-A2D8-08002B30309D}", "此电脑"),
        ("{645FF040-5081-101B-9F08-00AA002F954E}", "回收站"),
        ("{59031a47-3f72-44a7-89c5-5595fe6b30ee}", "用户的文件"),
        ("{F02C1A0D-BE21-4350-88B0-7367FC96EF3C}", "网络"),
        ("{5399E694-6CE5-4D6C-8FCE-1D8870FDCBA0}", "控制面板"),
    ];
    assert(r@ =~= spec_desktop_icons());
    r
}

/// Whether an icon is shown, from the values found for it under the registry
/// keys in the order they are read: the first value found decides (1 hides,
/// anything else shows); with none found only the recycle bin is shown.
pub open spec fn icon_visible(values: Seq<Option<u32>>, clsid: Seq<char>) -> bool
    decreases values.len(),
{
    if values.len() == 0 {
        eq_ignore_ascii_case(clsid, recycle_bin_clsid())
    } else {
        match values[0] {
            Some(v) => v != 1,
            None => icon_visible(values.drop_first(), clsid),
        }
    }
}

pub fn is_desktop_icon_visible(values: &Vec<Option<u32>>, clsid: &str) -> (r: bool)
    ensures
        r == icon_visible(values@, clsid@),
{
    let mut i: usize = 0;
    assert(values@.subrange(0, values.len() as int) =~= values@);
    while i < values.len()
        invariant
            i <= values.len(),
            icon_visible(values@, clsid@) == icon_visible(values@.subrange(i as int, values.len() as int), clsid@),
        decreases values.len() - i,
    {
        let ghost rest = values@.subrange(i as int, values.len() as int);
        if let Some(v) = values[i] {
            assert(rest[0] == values@[i as int]);
            return v != 1;
        }
        assert(rest.drop_first() =~= values@.subrange(i + 1, values.len() as int));
        i = i + 1;
    }
    str_eq_ignore_ascii_case(clsid, "{645FF040-5081-101B-9F08-00AA002F954E}")
}

/// The names of the icons that `visible` marks as shown, among the first `k`.
pub open spec fn shown_icon_names(visible: Seq<bool>, k: int) -> Seq<Seq<char>>
    decreases k,
{
    if k <= 0 {
        Seq::empty()
    } else if visible[k - 1] {
        shown_icon_names(visible, k - 1).push(spec_desktop_icons()[k - 1].1@)
    } else {
        shown_icon_names(visible, k - 1)
    }
}

/// The analysis items of the system icons that `visible` marks as shown, in
/// the order of `spec_desktop_icons()`.
pub fn virtual_desktop_items(visible: &Vec<bool>) -> (r: Vec<DesktopItem>)
    requires
        visible.len() == 5,
    ensures
        r@.len() == shown_icon_names(visible@, 5).len(),
        forall|i: int|
            0 <= i < r@.len() ==> {
                &&& (#[trigger] r@[i]).name@ == shown_icon_names(visible@, 5)[i]
                &&& r@[i].category@ == "virtual"@
                &&& r@[i].path is None
                &&& r@[i].target is None
                &&& r@[i].is_dir
            },
{
    let icons = desktop_icons();
    let mut r: Vec<DesktopItem> = Vec::new();
    let mut k: usize = 0;
    while k < 5
        invariant
            k <= 5,
            visible.len() == 5,
            icons@ == spec_desktop_icons(),
            r@.len() == shown_icon_names(visible@, k as int).len(),
            forall|i: int|
                0 <= i < r@.len() ==> {
                    &&& (#[trigger] r@[i]).name@ == shown_icon_names(visible@, k as int)[i]
                    &&& r@[i].category@ == "virtual"@
                    &&& r@[i].path is None
                    &&& r@[i].target is None
                    &&& r@[i].is_dir
                },
        decreases 5 - k,
    {
        if visible[k] {
            let (_, name) = icons[k];
            r.push(
                DesktopItem {
                    name: owned(name),
                    category: owned("virtual"),
                    path: None,
                    target: None,
                    is_dir: true,
                },
            );
        }
        k = k + 1;
    }
    r
}

// ---------------------------------------------------------------------------
// Tidying up
// ---------------------------------------------------------------------------

/// The four folders into which the desktop is tidied.
#[derive(Clone, Copy, Debug, PartialEq, Eq)]
pub enum DesktopFolder {
    ProgramShortcuts,
    OtherShortcuts,
    Images,
    OtherFiles,
}

pub open spec fn desktop_folder_name(f: DesktopFolder) -> Seq<char> {
    match f {
        DesktopFolder::ProgramShortcuts => "程序快捷方式"@,
        DesktopFolder::OtherShortcuts => "其他快捷方式"@,
        DesktopFolder::Images => "桌面图片文件"@,
        DesktopFolder::OtherFiles => "桌面整理文件"@,
    }
}

/// The position of a folder's count in the result of a tidy-up.
pub open spec fn desktop_folder_slot(f: DesktopFolder) -> int {
    match f {
        DesktopFolder::ProgramShortcuts => 0,
        DesktopFolder::OtherShortcuts => 1,
        DesktopFolder::Images => 2,
        DesktopFolder::OtherFiles => 3,
    }
}

impl DesktopFolder {
    /// The folder's name on the desktop.
    pub fn name(&self) -> (r: &'static str)
        ensures
            r@ == desktop_folder_name(*self),
    {
        match self {
            DesktopFolder::ProgramShortcuts => "程序快捷方式",
            DesktopFolder::OtherShortcuts => "其他快捷方式",
            DesktopFolder::Images => "桌面图片文件",
            DesktopFolder::OtherFiles => "桌面整理文件",
        }
    }

    pub fn slot(&self) -> (r: usize)
        ensures
            r == desktop_folder_slot(*self),
    {
        match self {
            DesktopFolder::ProgramShortcuts => 0,
            DesktopFolder::OtherShortcuts => 1,
            DesktopFolder::Images => 2,
            DesktopFolder::OtherFiles => 3,
        }
    }
}

/// The four folders, in slot order.
pub fn desktop_folders() -> (r: Vec<DesktopFolder>)
    ensures
        r@ == seq![
            DesktopFolder::ProgramShortcuts,
            DesktopFolder::OtherShortcuts,
            DesktopFolder::Images,
            DesktopFolder::OtherFiles,
        ],
{
    let r = vec![
        DesktopFolder::ProgramShortcuts,
        DesktopFolder::OtherShortcuts,
        DesktopFolder::Images,
        DesktopFolder::OtherFiles,
    ];
    assert(r@ =~= seq![
        DesktopFolder::ProgramShortcuts,
        DesktopFolder::OtherShortcuts,
        DesktopFolder::Images,
        DesktopFolder::OtherFiles,
    ]);
    r
}

/// Entries that a tidy-up leaves alone: its own folders and `desktop.ini`.
pub open spec fn desktop_skips(name: Seq<char>) -> bool {
    ||| name == "程序快捷方式"@
    ||| name == "其他快捷方式"@
    ||| name == "桌面图片文件"@
    ||| name == "桌面整理文件"@
    ||| is_desktop_ini(name)
}

/// The folder that a file goes to.
pub open spec fn desktop_file_folder(name: Seq<char>, target: Option<Seq<char>>) -> DesktopFolder {
    let ext = folded_ext(name);
    if ext == Some("lnk"@) {
        if target matches Some(t) && is_program_target(t) {
            DesktopFolder::ProgramShortcuts
        } else {
            DesktopFolder::OtherShortcuts
        }
    } else if ext == Some("url"@) {
        DesktopFolder::OtherShortcuts
    } else if ext matches Some(e) && is_one_of(e, desktop_image_exts()) {
        DesktopFolder::Images
    } else {
        DesktopFolder::OtherFiles
    }
}

/// Where a tidy-up moves an entry; `None` when it leaves it alone. Folders go
/// with the other files; what is neither file nor folder stays.
pub open spec fn desktop_move_target(name: Seq<char>, is_file: bool, is_dir: bool, target: Option<Seq<char>>) -> Option<DesktopFolder> {
    if desktop_skips(name) {
        None
    } else if is_file {
        Some(desktop_file_folder(name, target))
    } else if is_dir {
        Some(DesktopFolder::OtherFiles)
    } else {
        None
    }
}

/// The folder against which the conflict check holds an entry; `None` when
/// it is left alone. Whatever is not a file is checked against the folder of
/// other files.
pub open spec fn desktop_check_target(name: Seq<char>, is_file: bool, target: Option<Seq<char>>) -> Option<DesktopFolder> {
    if desktop_skips(name) {
        None
    } else if is_file {
        Some(desktop_file_folder(name, target))
    } else {
        Some(DesktopFolder::OtherFiles)
    }
}

/// Whether a tidy-up or the conflict check resolves this entry's shortcut
/// target before it decides.
pub open spec fn tidy_needs_target(name: Seq<char>, is_file: bool) -> bool {
    !desktop_skips(name) && is_file && folded_ext(name) == Some("lnk"@)
}


fn is_skipped_name(name: &str) -> (r: bool)
    ensures
        r == desktop_skips(name@),
{
    str_eq(name, "程序快捷方式") || str_eq(name, "其他快捷方式") || str_eq(name, "桌面图片文件")
        || str_eq(name, "桌面整理文件") || str_eq_ignore_ascii_case(name, "desktop.ini")
}

fn file_folder(name: &str, link_target: &Option<String>) -> (r: DesktopFolder)
    ensures
        r == desktop_file_folder(name@, opt_view(*link_target)),
{
    let ext = name_folded_ext(name);
    match &ext {
        Some(e) => {
            if str_eq(e.as_str(), "lnk") {
                if target_is_program(link_target) {
                    DesktopFolder::ProgramShortcuts
                } else {
                    DesktopFolder::OtherShortcuts
                }
            } else if str_eq(e.as_str(), "url") {
                DesktopFolder::OtherShortcuts
            } else {
                let image_list: [&str; 12] = [
                    "jpg",
                    "jpeg",
                    "png",
                    "gif",
                    "bmp",
                    "webp",
                    "tiff",
                    "tif",
                    "svg",
                    "ico",
                    "heic",
                    "heif",
                ];
                assert(image_list@ =~= desktop_image_exts());
                if str_is_one_of(e.as_str(), &image_list) {
                    DesktopFolder::Images
                } else {
                    DesktopFolder::OtherFiles
                }
            }
        },
        None => DesktopFolder::OtherFiles,
    }
}

pub fn tidy_needs_link_target(name: &str, is_file: bool) -> (r: bool)
    ensures
        r == tidy_needs_target(name@, is_file),
{
    if is_skipped_name(name) || !is_file {
        return false;
    }
    match name_folded_ext(name) {
        Some(e) => str_eq(e.as_str(), "lnk"),
        None => false,
    }
}

/// Where a tidy-up of the desktop moves this entry (see `desktop_move_target`).
pub fn desktop_organize_target(name: &str, is_file: bool, is_dir: bool, link_target: &Option<String>) -> (r: Option<DesktopFolder>)
    ensures
        r == desktop_move_target(name@, is_file, is_dir, opt_view(*link_target)),
{
    if is_skipped_name(name) {
        None
    } else if is_file {
        Some(file_folder(name, link_target))
    } else if is_dir {
        Some(DesktopFolder::OtherFiles)
    } else {
        None
    }
}

/// The folder against which the conflict check holds this entry (see
/// `desktop_check_target`).
pub fn desktop_conflict_target(name: &str, is_file: bool, link_target: &Option<String>) -> (r: Option<DesktopFolder>)
    ensures
        r == desktop_check_target(name@, is_file, opt_view(*link_target)),
{
    if is_skipped_name(name) {
        None
    } else if is_file {
        Some(file_folder(name, link_target))
    } else {
        Some(DesktopFolder::OtherFiles)
    }
}

/// The record of a conflict: the entry, and the taken path in `folder`.
pub fn conflict_file(file_name: &str, source_path: &str, folder_name: &str, target_path: &str) -> (r: ConflictFile)
    ensures
        r.file_name@ == file_name@,
        r.source_path@ == source_path@,
        r.target_folder@ == folder_name@,
        r.target_path@ == target_path@,
{
    ConflictFile {
        file_name: owned(file_name),
        source_path: owned(source_path),
        target_folder: owned(folder_name),
        target_path: owned(target_path),
    }
}

/// The picture extensions, spelt out: jpg, jpeg, png, gif, bmp, webp, tiff,
/// tif, svg, ico, heic and heif; none of them names a shortcut.
proof fn lemma_picture_ext(e: Seq<char>)
    ensures
        is_one_of(e, desktop_image_exts()) <==> (e == "jpg"@ || e == "jpeg"@ || e == "png"@ || e == "gif"@ || e == "bmp"@
            || e == "webp"@ || e == "tiff"@ || e == "tif"@ || e == "svg"@ || e == "ico"@
            || e == "heic"@ || e == "heif"@),
        is_one_of(e, desktop_image_exts()) ==> e != "lnk"@ && e != "url"@,
{
    reveal_strlit("lnk");
    reveal_strlit("url");
    reveal_strlit("jpg");
    reveal_strlit("jpeg");
    reveal_strlit("png");
    reveal_strlit("gif");
    reveal_strlit("bmp");
    reveal_strlit("webp");
    reveal_strlit("tiff");
    reveal_strlit("tif");
    reveal_strlit("svg");
    reveal_strlit("ico");
    reveal_strlit("heic");
    reveal_strlit("heif");
    let list = desktop_image_exts();
    if is_one_of(e, list) {
        let i = choose|i: int| 0 <= i < list.len() && list[i]@ == e;
        assert(0 <= i < 12);
        assert("lnk"@[0] == 'l' && "url"@[0] == 'u');
        assert(e[0] != 'l' && e[0] != 'u') by {
            assert("jpg"@[0] == 'j' && "jpeg"@[0] == 'j' && "png"@[0] == 'p' && "gif"@[0] == 'g');
            assert("bmp"@[0] == 'b' && "webp"@[0] == 'w' && "tiff"@[0] == 't' && "tif"@[0] == 't');
            assert("svg"@[0] == 's' && "ico"@[0] == 'i' && "heic"@[0] == 'h' && "heif"@[0] == 'h');
        }
    }
    if e == "jpg"@ || e == "jpeg"@ || e == "png"@ || e == "gif"@ || e == "bmp"@
        || e == "webp"@ || e == "tiff"@ || e == "tif"@ || e == "svg"@ || e == "ico"@
        || e == "heic"@ || e == "heif"@ {
        if e == "jpg"@ {
            assert(list[0]@ == e);
        } else if e == "jpeg"@ {
            assert(list[1]@ == e);
        } else if e == "png"@ {
            assert(list[2]@ == e);
        } else if e == "gif"@ {
            assert(list[3]@ == e);
        } else if e == "bmp"@ {
            assert(list[4]@ == e);
        } else if e == "webp"@ {
            assert(list[5]@ == e);
        } else if e == "tiff"@ {
            assert(list[6]@ == e);
        } else if e == "tif"@ {
            assert(list[7]@ == e);
        } else if e == "svg"@ {
            assert(list[8]@ == e);
        } else if e == "ico"@ {
            assert(list[9]@ == e);
        } else if e == "heic"@ {
            assert(list[10]@ == e);
        } else if e == "heif"@ {
            assert(list[11]@ == e);
        }
        assert(is_one_of(e, list));
    }
}

/// A file is a picture, for the analysis of the desktop and for its tidy-up,
/// exactly when its extension in lowercase is one of jpg, jpeg, png, gif, bmp,
/// webp, tiff, tif, svg, ico, heic and heif: the analysis lists such a file
/// as an image, and the tidy-up moves it to the picture folder.
pub proof fn lemma_pictures_go_to_images(name: Seq<char>, is_dir: bool, target: Option<Seq<char>>, e: Seq<char>)
    ensures
        ascii_lower_ext(name) == Some(e) ==> ((desktop_category(name, false, target) == "image"@) <==> (e == "jpg"@ || e == "jpeg"@ || e == "png"@ || e == "gif"@ || e == "bmp"@
            || e == "webp"@ || e == "tiff"@ || e == "tif"@ || e == "svg"@ || e == "ico"@
            || e == "heic"@ || e == "heif"@)),
        !desktop_skips(name) && folded_ext(name) == Some(e) ==> ((desktop_move_target(name, true, is_dir, target)
            == Some(DesktopFolder::Images)) <==> (e == "jpg"@ || e == "jpeg"@ || e == "png"@ || e == "gif"@ || e == "bmp"@
            || e == "webp"@ || e == "tiff"@ || e == "tif"@ || e == "svg"@ || e == "ico"@
            || e == "heic"@ || e == "heif"@)),
{
    lemma_picture_ext(e);
    lemma_category_names();
}

} // verus!
