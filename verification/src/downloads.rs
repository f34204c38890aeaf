//! Analysis of a folder (the downloads folder by default) and the rules by
//! which it is tidied up into four sub-folders.

use vstd::prelude::*;
use crate::desktop::is_desktop_ini;
use crate::organize::{
    ascii_lower_ext, folded_ext, is_one_of, name_ascii_lower_ext, name_folded_ext, str_is_one_of,
};
use crate::text::{opt_view, clone_strings, owned, str_eq, str_eq_ignore_ascii_case};

verus! {

/// One entry of the analysed folder.
#[derive(Debug)]
pub struct DownloadsItem {
    pub name: String,
    /// `exe`, `image`, `archive` or `other`.
    pub category: String,
    pub path: Option<String>,
    pub is_dir: bool,
}

impl Clone for DownloadsItem {
    fn clone(&self) -> (r: Self)
        ensures
            r == *self,
    {
        DownloadsItem {
            name: self.name.clone(),
            category: self.category.clone(),
            path: match &self.path {
                Some(p) => Some(p.clone()),
                None => None,
            },
            is_dir: self.is_dir,
        }
    }
}

/// What an analysis of the folder found.
#[derive(Debug)]
pub struct DownloadsAnalysis {
    pub downloads_path: String,
    pub items: Vec<DownloadsItem>,
    pub exe_count: usize,
    pub image_count: usize,
    pub archive_count: usize,
    pub other_count: usize,
    pub errors: Vec<String>,
}

/// Two analyses hold the same values.
pub open spec fn same_downloads_analysis(a: DownloadsAnalysis, b: DownloadsAnalysis) -> bool {
    &&& a.downloads_path == b.downloads_path
    &&& a.items@ == b.items@
    &&& a.exe_count == b.exe_count
    &&& a.image_count == b.image_count
    &&& a.archive_count == b.archive_count
    &&& a.other_count == b.other_count
    &&& a.errors@ == b.errors@
}

fn clone_downloads_items(v: &Vec<DownloadsItem>) -> (r: Vec<DownloadsItem>)
    ensures
        r@ == v@,
{
    let mut r: Vec<DownloadsItem> = Vec::new();
    let mut i: usize = 0;
    while i < v.len()
        invariant
            i <= v.len(),
            r@ == v@.subrange(0, i as int),
        decreases v.len() - i,
    {
        r.push(v[i].clone());
        i = i + 1;
        assert(r@ =~= v@.subrange(0, i as int));
    }
    assert(r@ =~= v@);
    r
}

impl Clone for DownloadsAnalysis {
    fn clone(&self) -> (r: Self)
        ensures
            same_downloads_analysis(r, *self),
    {
        DownloadsAnalysis {
            downloads_path: self.downloads_path.clone(),
            items: clone_downloads_items(&self.items),
            exe_count: self.exe_count,
            image_count: self.image_count,
            archive_count: self.archive_count,
            other_count: self.other_count,
            errors: clone_strings(&self.errors),
        }
    }
}

/// Keeps the latest folder analysis for the window that shows it.
pub struct DownloadsAnalyzeManager {
    current_analysis: Option<DownloadsAnalysis>,
}

impl DownloadsAnalyzeManager {
    /// The analysis held, if any.
    pub closed spec fn current(&self) -> Option<DownloadsAnalysis> {
        self.current_analysis
    }

    pub fn new() -> (m: Self)
        ensures
            m.current() is None,
    {
        DownloadsAnalyzeManager { current_analysis: None }
    }

    pub fn set(&mut self, analysis: DownloadsAnalysis)
        ensures
            final(self).current() == Some(analysis),
    {
        self.current_analysis = Some(analysis);
    }

    pub fn get(&self) -> (r: Option<DownloadsAnalysis>)
        ensures
            r is Some <==> self.current() is Some,
            r matches Some(a) ==> same_downloads_analysis(a, self.current()->0),
    {
        match &self.current_analysis {
            Some(a) => Some(a.clone()),
            None => None,
        }
    }
}

// ---------------------------------------------------------------------------
// Extension lists
// ---------------------------------------------------------------------------

pub open spec fn folder_image_exts() -> Seq<&'static str> {
    seq![
        "jpg",
        "jpeg",
        "png",
        "gif",
        "bmp",
        "webp",
        "tiff",
        "tif",
        "svg",
        "ico",
        "heic",
        "heif",
        "raw",
        "cr2",
        "nef",
        "orf",
        "dng",
        "arw",
    ]
}

pub open spec fn folder_exe_exts() -> Seq<&'static str> {
    seq!["exe", "msi", "msu", "bat", "cmd", "com", "scr", "pif"]
}

/// The two-part names in this list never match: an extension holds no dot.
pub open spec fn folder_archive_exts() -> Seq<&'static str> {
    seq![
        "zip",
        "rar",
        "7z",
        "tar",
        "gz",
        "bz2",
        "xz",
        "z",
        "cab",
        "iso",
        "img",
        "tgz",
        "tbz",
        "tar.gz",
        "tar.bz2",
    ]
}

fn is_image_ext(e: &str) -> (r: bool)
    ensures
        r == is_one_of(e@, folder_image_exts()),
{
    let list: [&str; 18] = [
        "jpg",
        "jpeg",
        "png",
        "gif",
        "bmp",
        "webp",
        "tiff",
        "tif",
        "svg",
        "ico",
        "heic",
        "heif",
        "raw",
        "cr2",
        "nef",
        "orf",
        "dng",
        "arw",
    ];
    assert(list@ =~= folder_image_exts());
    str_is_one_of(e, &list)
}

fn is_exe_ext(e: &str) -> (r: bool)
    ensures
        r == is_one_of(e@, folder_exe_exts()),
{
    let list: [&str; 8] = ["exe", "msi", "msu", "bat", "cmd", "com", "scr", "pif"];
    assert(list@ =~= folder_exe_exts());
    str_is_one_of(e, &list)
}

fn is_archive_ext(e: &str) -> (r: bool)
    ensures
        r == is_one_of(e@, folder_archive_exts()),
{
    let list: [&str; 15] = [
        "zip",
        "rar",
        "7z",
        "tar",
        "gz",
        "bz2",
        "xz",
        "z",
        "cab",
        "iso",
        "img",
        "tgz",
        "tbz",
        "tar.gz",
        "tar.bz2",
    ];
    assert(list@ =~= folder_archive_exts());
    str_is_one_of(e, &list)
}

/// The kind that an extension gives a file: `exe`, `image`, `archive` or
/// `other`, checked in that order.
pub open spec fn ext_kind(ext: Option<Seq<char>>) -> Seq<char> {
    match ext {
        Some(e) => if is_one_of(e, folder_exe_exts()) {
            "exe"@
        } else if is_one_of(e, folder_image_exts()) {
            "image"@
        } else if is_one_of(e, folder_archive_exts()) {
            "archive"@
        } else {
            "other"@
        },
        None => "other"@,
    }
}

fn kind_of(ext: &Option<String>) -> (r: String)
    ensures
        r@ == ext_kind(opt_view(*ext)),
{
    match ext {
        Some(e) => if is_exe_ext(e.as_str()) {
            owned("exe")
        } else if is_image_ext(e.as_str()) {
            owned("image")
        } else if is_archive_ext(e.as_str()) {
            owned("archive")
        } else {
            owned("other")
        },
        None => owned("other"),
    }
}

// ---------------------------------------------------------------------------
// Analysis
// ---------------------------------------------------------------------------

/// Entries that the analysis and the tidy-up leave alone: the four target
/// folders and `desktop.ini`.
pub open spec fn folder_skips(name: Seq<char>) -> bool {
    ||| name == "可执行文件"@
    ||| name == "图片文件"@
    ||| name == "其他文件"@
    ||| name == "压缩包"@
    ||| is_desktop_ini(name)
}

fn is_skipped_name(name: &str) -> (r: bool)
    ensures
        r == folder_skips(name@),
{
    str_eq(name, "可执行文件") || str_eq(name, "图片文件") || str_eq(name, "其他文件") || str_eq(
        name,
        "压缩包",
    ) || str_eq_ignore_ascii_case(name, "desktop.ini")
}

/// The category under which the analysis lists an entry: folders are
/// `other`, files go by their extension with ASCII letters in lowercase.
pub open spec fn downloads_category(name: Seq<char>, is_dir: bool) -> Seq<char> {
    if is_dir {
        "other"@
    } else {
        ext_kind(ascii_lower_ext(name))
    }
}

/// The item the analysis lists for one entry; `None` for the entries it
/// leaves alone.
pub fn classify_downloads_entry(name: &str, path: &str, is_dir: bool) -> (r: Option<DownloadsItem>)
    ensures
        folder_skips(name@) <==> r is None,
        r matches Some(item) ==> {
            &&& item.name@ == name@
            &&& item.category@ == downloads_category(name@, is_dir)
            &&& item.path matches Some(p) && p@ == path@
            &&& item.is_dir == is_dir
        },
{
    if is_skipped_name(name) {
        return None;
    }
    let category = if is_dir {
        owned("other")
    } else {
        kind_of(&name_ascii_lower_ext(name))
    };
    Some(DownloadsItem { name: owned(name), category, path: Some(owned(path)), is_dir })
}

/// How many items carry the category `c`.
pub open spec fn count_kind(items: Seq<DownloadsItem>, c: Seq<char>) -> nat
    decreases items.len(),
{
    if items.len() == 0 {
        0
    } else {
        count_kind(items.drop_last(), c) + if items.last().category@ == c {
            1nat
        } else {
            0nat
        }
    }
}

/// How many items carry none of `exe`, `image` and `archive`.
pub open spec fn count_rest(items: Seq<DownloadsItem>) -> nat
    decreases items.len(),
{
    if items.len() == 0 {
        0
    } else {
        let c = items.last().category@;
        count_rest(items.drop_last()) + if c == "exe"@ || c == "image"@ || c == "archive"@ {
            0nat
        } else {
            1nat
        }
    }
}

/// The category names are distinct texts.
pub proof fn lemma_kind_names()
    ensures
        "exe"@ != "image"@,
        "exe"@ != "archive"@,
        "exe"@ != "other"@,
        "image"@ != "archive"@,
        "image"@ != "other"@,
        "archive"@ != "other"@,
{
    reveal_strlit("exe");
    reveal_strlit("image");
    reveal_strlit("archive");
    reveal_strlit("other");
    assert("exe"@.len() == 3);
    assert("image"@.len() == 5);
    assert("archive"@.len() == 7);
    assert("other"@.len() == 5);
    assert("image"@[0] == 'i');
    assert("other"@[0] == 'o');
}

/// The counts of an analysis add up to the number of items it lists: every
/// item counts once, under its kind or as other.
pub proof fn lemma_downloads_counts_add_up(items: Seq<DownloadsItem>)
    ensures
        count_kind(items, "exe"@) + count_kind(items, "image"@) + count_kind(items, "archive"@)
            + count_rest(items) == items.len(),
    decreases items.len(),
{
    lemma_kind_names();
    if items.len() > 0 {
        lemma_downloads_counts_add_up(items.drop_last());
    }
}

/// Puts together an analysis, counting the items by category.
pub fn build_downloads_analysis(downloads_path: String, items: Vec<DownloadsItem>, errors: Vec<String>) -> (r:
    DownloadsAnalysis)
    ensures
        r.downloads_path == downloads_path,
        r.items@ == items@,
        r.errors@ == errors@,
        r.exe_count == count_kind(items@, "exe"@),
        r.image_count == count_kind(items@, "image"@),
        r.archive_count == count_kind(items@, "archive"@),
        r.other_count == count_rest(items@),
{
    let mut ex: usize = 0;
    let mut im: usize = 0;
    let mut ar: usize = 0;
    let mut ot: usize = 0;
    let mut i: usize = 0;
    while i < items.len()
        invariant
            i <= items.len(),
            ex == count_kind(items@.subrange(0, i as int), "exe"@),
            im == count_kind(items@.subrange(0, i as int), "image"@),
            ar == count_kind(items@.subrange(0, i as int), "archive"@),
            ot == count_rest(items@.subrange(0, i as int)),
        decreases items.len() - i,
    {
        let ghost pre = items@.subrange(0, i as int);
        proof {
            assert(items@.subrange(0, i + 1).drop_last() =~= pre);
            lemma_kind_names();
            lemma_downloads_counts_add_up(pre);
        }
        let c = items[i].category.as_str();
        if str_eq(c, "exe") {
            ex = ex + 1;
        } else if str_eq(c, "image") {
            im = im + 1;
        } else if str_eq(c, "archive") {
            ar = ar + 1;
        } else {
            ot = ot + 1;
        }
        i = i + 1;
    }
    assert(items@.subrange(0, items.len() as int) =~= items@);
    DownloadsAnalysis {
        downloads_path,
        items,
        exe_count: ex,
        image_count: im,
        archive_count: ar,
        other_count: ot,
        errors,
    }
}

// ---------------------------------------------------------------------------
// Tidying up
// ---------------------------------------------------------------------------

/// The four folders into which the folder is tidied.
#[derive(Clone, Copy, Debug, PartialEq, Eq)]
pub enum DownloadsFolder {
    Executables,
    Images,
    Archives,
    Others,
}

pub open spec fn downloads_folder_name(f: DownloadsFolder) -> Seq<char> {
    match f {
        DownloadsFolder::Executables => "可执行文件"@,
        DownloadsFolder::Images => "图片文件"@,
        DownloadsFolder::Archives => "压缩包"@,
        DownloadsFolder::Others => "其他文件"@,
    }
}

/// The position of a folder's count in the result of a tidy-up
/// (executables, images, archives, others).
pub open spec fn downloads_folder_slot(f: DownloadsFolder) -> int {
    match f {
        DownloadsFolder::Executables => 0,
        DownloadsFolder::Images => 1,
        DownloadsFolder::Archives => 2,
        DownloadsFolder::Others => 3,
    }
}

impl DownloadsFolder {
    pub fn name(&self) -> (r: &'static str)
        ensures
            r@ == downloads_folder_name(*self),
    {
        match self {
            DownloadsFolder::Executables => "可执行文件",
            DownloadsFolder::Images => "图片文件",
            DownloadsFolder::Archives => "压缩包",
            DownloadsFolder::Others => "其他文件",
        }
    }

    pub fn slot(&self) -> (r: usize)
        ensures
            r == downloads_folder_slot(*self),
    {
        match self {
            DownloadsFolder::Executables => 0,
            DownloadsFolder::Images => 1,
            DownloadsFolder::Archives => 2,
            DownloadsFolder::Others => 3,
        }
    }
}

/// The four folders, in the order in which they are created.
pub fn downloads_folders() -> (r: Vec<DownloadsFolder>)
    ensures
        r@ == seq![
            DownloadsFolder::Executables,
            DownloadsFolder::Images,
            DownloadsFolder::Others,
            DownloadsFolder::Archives,
        ],
{
    let r = vec![
        DownloadsFolder::Executables,
        DownloadsFolder::Images,
        DownloadsFolder::Others,
        DownloadsFolder::Archives,
    ];
    assert(r@ =~= seq![
        DownloadsFolder::Executables,
        DownloadsFolder::Images,
        DownloadsFolder::Others,
        DownloadsFolder::Archives,
    ]);
    r
}

/// The folder a file goes to, by its extension folded to lowercase.
pub open spec fn downloads_file_folder(name: Seq<char>) -> DownloadsFolder {
    let k = ext_kind(folded_ext(name));
    if k == "exe"@ {
        DownloadsFolder::Executables
    } else if k == "image"@ {
        DownloadsFolder::Images
    } else if k == "archive"@ {
        DownloadsFolder::Archives
    } else {
        DownloadsFolder::Others
    }
}

/// Where a tidy-up moves an entry; `None` when it leaves it alone.
pub open spec fn downloads_move_target(name: Seq<char>, is_file: bool, is_dir: bool) -> Option<DownloadsFolder> {
    if folder_skips(name) {
        None
    } else if is_file {
        Some(downloads_file_folder(name))
    } else if is_dir {
        Some(DownloadsFolder::Others)
    } else {
        None
    }
}

/// The folder against which the conflict check holds an entry.
pub open spec fn downloads_check_target(name: Seq<char>, is_file: bool) -> Option<DownloadsFolder> {
    if folder_skips(name) {
        None
    } else if is_file {
        Some(downloads_file_folder(name))
    } else {
        Some(DownloadsFolder::Others)
    }
}

fn file_folder(name: &str) -> (r: DownloadsFolder)
    ensures
        r == downloads_file_folder(name@),
{
    proof {
        lemma_kind_names();
    }
    let k = kind_of(&name_folded_ext(name));
    if str_eq(k.as_str(), "exe") {
        DownloadsFolder::Executables
    } else if str_eq(k.as_str(), "image") {
        DownloadsFolder::Images
    } else if str_eq(k.as_str(), "archive") {
        DownloadsFolder::Archives
    } else {
        DownloadsFolder::Others
    }
}

/// Where a tidy-up of the folder moves this entry.
pub fn downloads_organize_target(name: &str, is_file: bool, is_dir: bool) -> (r: Option<DownloadsFolder>)
    ensures
        r == downloads_move_target(name@, is_file, is_dir),
{
    if is_skipped_name(name) {
        None
    } else if is_file {
        Some(file_folder(name))
    } else if is_dir {
        Some(DownloadsFolder::Others)
    } else {
        None
    }
}

/// The folder against which the conflict check holds this entry.
pub fn downloads_conflict_target(name: &str, is_file: bool) -> (r: Option<DownloadsFolder>)
    ensures
        r == downloads_check_target(name@, is_file),
{
    if is_skipped_name(name) {
        None
    } else if is_file {
        Some(file_folder(name))
    } else {
        Some(DownloadsFolder::Others)
    }
}

/// The pictures of a folder: the extensions jpg, jpeg, png, gif, bmp, webp,
/// tiff, tif, svg, ico, heic, heif, raw, cr2, nef, orf, dng and arw, and no
/// other, make a file a picture.
proof fn lemma_picture_kind(e: Seq<char>)
    ensures
        (ext_kind(Some(e)) == "image"@) <==> (e == "jpg"@ || e == "jpeg"@ || e == "png"@ || e == "gif"@ || e == "bmp"@
            || e == "webp"@ || e == "tiff"@ || e == "tif"@ || e == "svg"@ || e == "ico"@
            || e == "heic"@ || e == "heif"@ || e == "raw"@ || e == "cr2"@ || e == "nef"@
            || e == "orf"@ || e == "dng"@ || e == "arw"@),
{
    lemma_kind_names();
    reveal_strlit("exe");
    reveal_strlit("msi");
    reveal_strlit("msu");
    reveal_strlit("bat");
    reveal_strlit("cmd");
    reveal_strlit("com");
    reveal_strlit("scr");
    reveal_strlit("pif");
    reveal_strlit("jpg");
    reveal_strlit("jpeg");
    reveal_strlit("png");
    reveal_strlit("gif");
    reveal_strlit("bmp");
    reveal_strlit("webp");
    reveal_strlit("tiff");
    reveal_strlit("tif");
    reveal_strlit("svg");
    reveal_strlit("ico");
    reveal_strlit("heic");
    reveal_strlit("heif");
    reveal_strlit("raw");
    reveal_strlit("cr2");
    reveal_strlit("nef");
    reveal_strlit("orf");
    reveal_strlit("dng");
    reveal_strlit("arw");
    let list = folder_image_exts();
    let exe = folder_exe_exts();
    if is_one_of(e, list) {
        let i = choose|i: int| 0 <= i < list.len() && list[i]@ == e;
        assert(0 <= i < 18);
    }
    if e == "jpg"@ || e == "jpeg"@ || e == "png"@ || e == "gif"@ || e == "bmp"@
        || e == "webp"@ || e == "tiff"@ || e == "tif"@ || e == "svg"@ || e == "ico"@
        || e == "heic"@ || e == "heif"@ || e == "raw"@ || e == "cr2"@ || e == "nef"@
        || e == "orf"@ || e == "dng"@ || e == "arw"@ {
        if e == "jpg"@ {
            assert(list[0]@ == e);
        } else if e == "jpeg"@ {
            assert(list[1]@ == e);
        } else if e == "png"@ {
            assert(list[2]@ == e);
        } else if e == "gif"@ {
            assert(list[3]@ == e);
        } else if e == "bmp"@ {
            assert(list[4]@ == e);
        } else if e == "webp"@ {
            assert(list[5]@ == e);
        } else if e == "tiff"@ {
            assert(list[6]@ == e);
        } else if e == "tif"@ {
            assert(list[7]@ == e);
        } else if e == "svg"@ {
            assert(list[8]@ == e);
        } else if e == "ico"@ {
            assert(list[9]@ == e);
        } else if e == "heic"@ {
            assert(list[10]@ == e);
        } else if e == "heif"@ {
            assert(list[11]@ == e);
        } else if e == "raw"@ {
            assert(list[12]@ == e);
        } else if e == "cr2"@ {
            assert(list[13]@ == e);
        } else if e == "nef"@ {
            assert(list[14]@ == e);
        } else if e == "orf"@ {
            assert(list[15]@ == e);
        } else if e == "dng"@ {
            assert(list[16]@ == e);
        } else if e == "arw"@ {
            assert(list[17]@ == e);
        }
        assert(is_one_of(e, list));
        if is_one_of(e, exe) {
            let i = choose|i: int| 0 <= i < exe.len() && exe[i]@ == e;
            assert(0 <= i < 8);
            assert("exe"@[0] == 'e' && "msi"@[0] == 'm' && "msu"@[0] == 'm' && "bat"@[0] == 'b');
            assert("cmd"@[0] == 'c' && "com"@[0] == 'c' && "scr"@[0] == 's' && "pif"@[0] == 'p');
            assert("jpg"@[0] == 'j' && "jpeg"@[0] == 'j' && "png"@[0] == 'p' && "gif"@[0] == 'g');
            assert("bmp"@[0] == 'b' && "webp"@[0] == 'w' && "tiff"@[0] == 't' && "tif"@[0] == 't');
            assert("svg"@[0] == 's' && "ico"@[0] == 'i' && "heic"@[0] == 'h' && "heif"@[0] == 'h');
            assert("raw"@[0] == 'r' && "cr2"@[0] == 'c' && "nef"@[0] == 'n' && "orf"@[0] == 'o');
            assert("dng"@[0] == 'd' && "arw"@[0] == 'a');
            assert("png"@[1] == 'n' && "pif"@[1] == 'i' && "bmp"@[1] == 'm');
            assert("bat"@[1] == 'a' && "svg"@[1] == 'v' && "scr"@[1] == 'c');
            assert("cr2"@[1] == 'r' && "cmd"@[1] == 'm' && "com"@[1] == 'o');
            assert(false);
        }
    }
}

/// The analysis lists a file as a picture, and the tidy-up moves it to the
/// picture folder, exactly when its extension in lowercase is one of jpg,
/// jpeg, png, gif, bmp, webp, tiff, tif, svg, ico, heic, heif, raw, cr2, nef,
/// orf, dng and arw.
pub proof fn lemma_pictures_are_images(name: Seq<char>, is_dir: bool, e: Seq<char>)
    ensures
        ascii_lower_ext(name) == Some(e) ==> ((downloads_category(name, false) == "image"@) <==> (e == "jpg"@ || e == "jpeg"@ || e == "png"@ || e == "gif"@ || e == "bmp"@
            || e == "webp"@ || e == "tiff"@ || e == "tif"@ || e == "svg"@ || e == "ico"@
            || e == "heic"@ || e == "heif"@ || e == "raw"@ || e == "cr2"@ || e == "nef"@
            || e == "orf"@ || e == "dng"@ || e == "arw"@)),
        !folder_skips(name) && folded_ext(name) == Some(e) ==> ((downloads_move_target(name, true, is_dir) == Some(DownloadsFolder::Images))
            <==> (e == "jpg"@ || e == "jpeg"@ || e == "png"@ || e == "gif"@ || e == "bmp"@
            || e == "webp"@ || e == "tiff"@ || e == "tif"@ || e == "svg"@ || e == "ico"@
            || e == "heic"@ || e == "heif"@ || e == "raw"@ || e == "cr2"@ || e == "nef"@
            || e == "orf"@ || e == "dng"@ || e == "arw"@)),
{
    lemma_picture_kind(e);
    lemma_kind_names();
}

/// The programs of a folder: the extensions exe, msi, msu, bat, cmd, com, scr
/// and pif, and no other, make a file a program.
proof fn lemma_program_kind(e: Seq<char>)
    ensures
        (ext_kind(Some(e)) == "exe"@) <==> (e == "exe"@ || e == "msi"@ || e == "msu"@ || e == "bat"@ || e == "cmd"@
            || e == "com"@ || e == "scr"@ || e == "pif"@),
{
    lemma_kind_names();
    reveal_strlit("exe");
    reveal_strlit("msi");
    reveal_strlit("msu");
    reveal_strlit("bat");
    reveal_strlit("cmd");
    reveal_strlit("com");
    reveal_strlit("scr");
    reveal_strlit("pif");
    let exe = folder_exe_exts();
    if is_one_of(e, exe) {
        let i = choose|i: int| 0 <= i < exe.len() && exe[i]@ == e;
        assert(0 <= i < 8);
    }
    if e == "exe"@ || e == "msi"@ || e == "msu"@ || e == "bat"@ || e == "cmd"@
        || e == "com"@ || e == "scr"@ || e == "pif"@ {
        if e == "exe"@ {
            assert(exe[0]@ == e);
        } else if e == "msi"@ {
            assert(exe[1]@ == e);
        } else if e == "msu"@ {
            assert(exe[2]@ == e);
        } else if e == "bat"@ {
            assert(exe[3]@ == e);
        } else if e == "cmd"@ {
            assert(exe[4]@ == e);
        } else if e == "com"@ {
            assert(exe[5]@ == e);
        } else if e == "scr"@ {
            assert(exe[6]@ == e);
        } else if e == "pif"@ {
            assert(exe[7]@ == e);
        }
        assert(is_one_of(e, exe));
    }
}

/// The archives of a folder: the extensions zip, rar, 7z, tar, gz, bz2, xz,
/// z, cab, iso, img, tgz, tbz, tar.gz and tar.bz2, and no other, make a file
/// an archive.
proof fn lemma_archive_kind(e: Seq<char>)
    ensures
        (ext_kind(Some(e)) == "archive"@) <==> (e == "zip"@ || e == "rar"@ || e == "7z"@ || e == "tar"@ || e == "gz"@ || e == "bz2"@
            || e == "xz"@ || e == "z"@ || e == "cab"@ || e == "iso"@ || e == "img"@ || e == "tgz"@
            || e == "tbz"@ || e == "tar.gz"@ || e == "tar.bz2"@),
{
    lemma_kind_names();
    reveal_strlit("exe");
    reveal_strlit("msi");
    reveal_strlit("msu");
    reveal_strlit("bat");
    reveal_strlit("cmd");
    reveal_strlit("com");
    reveal_strlit("scr");
    reveal_strlit("pif");
    reveal_strlit("jpg");
    reveal_strlit("jpeg");
    reveal_strlit("png");
    reveal_strlit("gif");
    reveal_strlit("bmp");
    reveal_strlit("webp");
    reveal_strlit("tiff");
    reveal_strlit("tif");
    reveal_strlit("svg");
    reveal_strlit("ico");
    reveal_strlit("heic");
    reveal_strlit("heif");
    reveal_strlit("raw");
    reveal_strlit("cr2");
    reveal_strlit("nef");
    reveal_strlit("orf");
    reveal_strlit("dng");
    reveal_strlit("arw");
    reveal_strlit("zip");
    reveal_strlit("rar");
    reveal_strlit("7z");
    reveal_strlit("tar");
    reveal_strlit("gz");
    reveal_strlit("bz2");
    reveal_strlit("xz");
    reveal_strlit("z");
    reveal_strlit("cab");
    reveal_strlit("iso");
    reveal_strlit("img");
    reveal_strlit("tgz");
    reveal_strlit("tbz");
    reveal_strlit("tar.gz");
    reveal_strlit("tar.bz2");
    let exe = folder_exe_exts();
    let list = folder_image_exts();
    let arc = folder_archive_exts();
    if is_one_of(e, arc) {
        let i = choose|i: int| 0 <= i < arc.len() && arc[i]@ == e;
        assert(0 <= i < 15);
    }
    if e == "zip"@ || e == "rar"@ || e == "7z"@ || e == "tar"@ || e == "gz"@ || e == "bz2"@
        || e == "xz"@ || e == "z"@ || e == "cab"@ || e == "iso"@ || e == "img"@ || e == "tgz"@
        || e == "tbz"@ || e == "tar.gz"@ || e == "tar.bz2"@ {
        if e == "zip"@ {
            assert(arc[0]@ == e);
        } else if e == "rar"@ {
            assert(arc[1]@ == e);
        } else if e == "7z"@ {
            assert(arc[2]@ == e);
        } else if e == "tar"@ {
            assert(arc[3]@ == e);
        } else if e == "gz"@ {
            assert(arc[4]@ == e);
        } else if e == "bz2"@ {
            assert(arc[5]@ == e);
        } else if e == "xz"@ {
            assert(arc[6]@ == e);
        } else if e == "z"@ {
            assert(arc[7]@ == e);
        } else if e == "cab"@ {
            assert(arc[8]@ == e);
        } else if e == "iso"@ {
            assert(arc[9]@ == e);
        } else if e == "img"@ {
            assert(arc[10]@ == e);
        } else if e == "tgz"@ {
            assert(arc[11]@ == e);
        } else if e == "tbz"@ {
            assert(arc[12]@ == e);
        } else if e == "tar.gz"@ {
            assert(arc[13]@ == e);
        } else if e == "tar.bz2"@ {
            assert(arc[14]@ == e);
        }
        assert(is_one_of(e, arc));
        if is_one_of(e, exe) || is_one_of(e, list) {
            assert("exe"@.len() == 3 && "exe"@[0] == 'e' && "exe"@[1] == 'x' && "exe"@[2] == 'e');
            assert("msi"@.len() == 3 && "msi"@[0] == 'm' && "msi"@[1] == 's' && "msi"@[2] == 'i');
            assert("msu"@.len() == 3 && "msu"@[0] == 'm' && "msu"@[1] == 's' && "msu"@[2] == 'u');
            assert("bat"@.len() == 3 && "bat"@[0] == 'b' && "bat"@[1] == 'a' && "bat"@[2] == 't');
            assert("cmd"@.len() == 3 && "cmd"@[0] == 'c' && "cmd"@[1] == 'm' && "cmd"@[2] == 'd');
            assert("com"@.len() == 3 && "com"@[0] == 'c' && "com"@[1] == 'o' && "com"@[2] == 'm');
            assert("scr"@.len() == 3 && "scr"@[0] == 's' && "scr"@[1] == 'c' && "scr"@[2] == 'r');
            assert("pif"@.len() == 3 && "pif"@[0] == 'p' && "pif"@[1] == 'i' && "pif"@[2] == 'f');
            assert("jpg"@.len() == 3 && "jpg"@[0] == 'j' && "jpg"@[1] == 'p' && "jpg"@[2] == 'g');
            assert("jpeg"@.len() == 4 && "jpeg"@[0] == 'j' && "jpeg"@[1] == 'p' && "jpeg"@[2] == 'e');
            assert("png"@.len() == 3 && "png"@[0] == 'p' && "png"@[1] == 'n' && "png"@[2] == 'g');
            assert("gif"@.len() == 3 && "gif"@[0] == 'g' && "gif"@[1] == 'i' && "gif"@[2] == 'f');
            assert("bmp"@.len() == 3 && "bmp"@[0] == 'b' && "bmp"@[1] == 'm' && "bmp"@[2] == 'p');
            assert("webp"@.len() == 4 && "webp"@[0] == 'w' && "webp"@[1] == 'e' && "webp"@[2] == 'b');
            assert("tiff"@.len() == 4 && "tiff"@[0] == 't' && "tiff"@[1] == 'i' && "tiff"@[2] == 'f');
            assert("tif"@.len() == 3 && "tif"@[0] == 't' && "tif"@[1] == 'i' && "tif"@[2] == 'f');
            assert("svg"@.len() == 3 && "svg"@[0] == 's' && "svg"@[1] == 'v' && "svg"@[2] == 'g');
            assert("ico"@.len() == 3 && "ico"@[0] == 'i' && "ico"@[1] == 'c' && "ico"@[2] == 'o');
            assert("heic"@.len() == 4 && "heic"@[0] == 'h' && "heic"@[1] == 'e' && "heic"@[2] == 'i');
            assert("heif"@.len() == 4 && "heif"@[0] == 'h' && "heif"@[1] == 'e' && "heif"@[2] == 'i');
            assert("raw"@.len() == 3 && "raw"@[0] == 'r' && "raw"@[1] == 'a' && "raw"@[2] == 'w');
            assert("cr2"@.len() == 3 && "cr2"@[0] == 'c' && "cr2"@[1] == 'r' && "cr2"@[2] == '2');
            assert("nef"@.len() == 3 && "nef"@[0] == 'n' && "nef"@[1] == 'e' && "nef"@[2] == 'f');
            assert("orf"@.len() == 3 && "orf"@[0] == 'o' && "orf"@[1] == 'r' && "orf"@[2] == 'f');
            assert("dng"@.len() == 3 && "dng"@[0] == 'd' && "dng"@[1] == 'n' && "dng"@[2] == 'g');
            assert("arw"@.len() == 3 && "arw"@[0] == 'a' && "arw"@[1] == 'r' && "arw"@[2] == 'w');
            assert("zip"@.len() == 3 && "zip"@[0] == 'z' && "zip"@[1] == 'i' && "zip"@[2] == 'p');
            assert("rar"@.len() == 3 && "rar"@[0] == 'r' && "rar"@[1] == 'a' && "rar"@[2] == 'r');
            assert("7z"@.len() == 2 && "7z"@[0] == '7' && "7z"@[1] == 'z');
            assert("tar"@.len() == 3 && "tar"@[0] == 't' && "tar"@[1] == 'a' && "tar"@[2] == 'r');
            assert("gz"@.len() == 2 && "gz"@[0] == 'g' && "gz"@[1] == 'z');
            assert("bz2"@.len() == 3 && "bz2"@[0] == 'b' && "bz2"@[1] == 'z' && "bz2"@[2] == '2');
            assert("xz"@.len() == 2 && "xz"@[0] == 'x' && "xz"@[1] == 'z');
            assert("z"@.len() == 1 && "z"@[0] == 'z');
            assert("cab"@.len() == 3 && "cab"@[0] == 'c' && "cab"@[1] == 'a' && "cab"@[2] == 'b');
            assert("iso"@.len() == 3 && "iso"@[0] == 'i' && "iso"@[1] == 's' && "iso"@[2] == 'o');
            assert("img"@.len() == 3 && "img"@[0] == 'i' && "img"@[1] == 'm' && "img"@[2] == 'g');
            assert("tgz"@.len() == 3 && "tgz"@[0] == 't' && "tgz"@[1] == 'g' && "tgz"@[2] == 'z');
            assert("tbz"@.len() == 3 && "tbz"@[0] == 't' && "tbz"@[1] == 'b' && "tbz"@[2] == 'z');
            assert("tar.gz"@.len() == 6 && "tar.gz"@[0] == 't' && "tar.gz"@[1] == 'a' && "tar.gz"@[2] == 'r');
            assert("tar.bz2"@.len() == 7 && "tar.bz2"@[0] == 't' && "tar.bz2"@[1] == 'a' && "tar.bz2"@[2] == 'r');
            if is_one_of(e, exe) {
                let i = choose|i: int| 0 <= i < exe.len() && exe[i]@ == e;
                assert(0 <= i < 8);
                assert(false);
            } else {
                let i = choose|i: int| 0 <= i < list.len() && list[i]@ == e;
                assert(0 <= i < 18);
                assert(false);
            }
        }
    }
}

/// The analysis lists a file as a program, and the tidy-up moves it to the
/// program folder, exactly when its extension in lowercase is one of exe, msi,
/// msu, bat, cmd, com, scr and pif; likewise for archives and the extensions
/// zip, rar, 7z, tar, gz, bz2, xz, z, cab, iso, img, tgz, tbz, tar.gz and
/// tar.bz2.
pub proof fn lemma_programs_and_archives(name: Seq<char>, is_dir: bool, e: Seq<char>)
    ensures
        ascii_lower_ext(name) == Some(e) ==> ((downloads_category(name, false) == "exe"@) <==> (e == "exe"@ || e == "msi"@ || e == "msu"@ || e == "bat"@ || e == "cmd"@
            || e == "com"@ || e == "scr"@ || e == "pif"@)),
        !folder_skips(name) && folded_ext(name) == Some(e) ==> ((downloads_move_target(name, true, is_dir)
            == Some(DownloadsFolder::Executables)) <==> (e == "exe"@ || e == "msi"@ || e == "msu"@ || e == "bat"@ || e == "cmd"@
            || e == "com"@ || e == "scr"@ || e == "pif"@)),
        ascii_lower_ext(name) == Some(e) ==> ((downloads_category(name, false) == "archive"@) <==> (e == "zip"@ || e == "rar"@ || e == "7z"@ || e == "tar"@ || e == "gz"@ || e == "bz2"@
            || e == "xz"@ || e == "z"@ || e == "cab"@ || e == "iso"@ || e == "img"@ || e == "tgz"@
            || e == "tbz"@ || e == "tar.gz"@ || e == "tar.bz2"@)),
        !folder_skips(name) && folded_ext(name) == Some(e) ==> ((downloads_move_target(name, true, is_dir)
            == Some(DownloadsFolder::Archives)) <==> (e == "zip"@ || e == "rar"@ || e == "7z"@ || e == "tar"@ || e == "gz"@ || e == "bz2"@
            || e == "xz"@ || e == "z"@ || e == "cab"@ || e == "iso"@ || e == "img"@ || e == "tgz"@
            || e == "tbz"@ || e == "tar.gz"@ || e == "tar.bz2"@)),
{
    lemma_program_kind(e);
    lemma_archive_kind(e);
    lemma_kind_names();
}

} // verus!
