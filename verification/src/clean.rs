//! The bookkeeping of a clean-up of temporary files and caches.
//!
//! Only whitelisted folders are cleaned; files in use or out of reach are
//! skipped; temporary files are removed only once a week old. The walking of
//! folders and the removing of files is the caller's; this module keeps the
//! counts and decides what may go.

use vstd::prelude::*;
use crate::text::{
    chars_of, ends_with, owned, push_str, seq_ends_with, seq_starts_with, starts_with, to_lowercase,
    unicode_lower,
};

verus! {

/// What a category of the clean-up removed.
#[derive(Debug)]
pub struct CategoryResult {
    pub name: String,
    pub deleted: usize,
    pub skipped: usize,
    pub freed_bytes: u64,
}

impl Clone for CategoryResult {
    fn clone(&self) -> (r: Self)
        ensures
            r == *self,
    {
        CategoryResult {
            name: self.name.clone(),
            deleted: self.deleted,
            skipped: self.skipped,
            freed_bytes: self.freed_bytes,
        }
    }
}

/// The progress and outcome of a clean-up.
#[derive(Debug)]
pub struct CleanStats {
    pub scanned: usize,
    pub deleted: usize,
    pub skipped: usize,
    pub freed_bytes: u64,
    pub current_category: String,
    pub current_path: String,
    pub is_running: bool,
    /// At most `max_error_details()` messages.
    pub error_details: Vec<String>,
    pub categories: Vec<CategoryResult>,
}

/// How many error messages a clean-up keeps.
pub open spec fn max_error_details() -> nat {
    30
}

/// The age, in seconds, from which a temporary file may be removed (7 days).
pub open spec fn seven_days_secs() -> nat {
    604800
}

/// Two statistics hold the same values.
pub open spec fn same_stats(a: CleanStats, b: CleanStats) -> bool {
    &&& a.scanned == b.scanned
    &&& a.deleted == b.deleted
    &&& a.skipped == b.skipped
    &&& a.freed_bytes == b.freed_bytes
    &&& a.current_category == b.current_category
    &&& a.current_path == b.current_path
    &&& a.is_running == b.is_running
    &&& a.error_details@ == b.error_details@
    &&& a.categories@ == b.categories@
}

/// Empty statistics, as a clean-up that did nothing leaves them.
pub open spec fn is_empty_stats(s: CleanStats) -> bool {
    &&& s.scanned == 0
    &&& s.deleted == 0
    &&& s.skipped == 0
    &&& s.freed_bytes == 0
    &&& s.current_category@ == Seq::<char>::empty()
    &&& s.current_path@ == Seq::<char>::empty()
    &&& !s.is_running
    &&& s.error_details@ == Seq::<String>::empty()
    &&& s.categories@ == Seq::<CategoryResult>::empty()
}

impl Default for CleanStats {
    fn default() -> (r: Self)
        ensures
            is_empty_stats(r),
    {
        CleanStats {
            scanned: 0,
            deleted: 0,
            skipped: 0,
            freed_bytes: 0,
            current_category: String::new(),
            current_path: String::new(),
            is_running: false,
            error_details: Vec::new(),
            categories: Vec::new(),
        }
    }
}

fn clone_categories(v: &Vec<CategoryResult>) -> (r: Vec<CategoryResult>)
    ensures
        r@ == v@,
{
    let mut r: Vec<CategoryResult> = Vec::new();
    let mut i: usize = 0;
    while i < v.len()
        invariant
            i <= v.len(),
            r@ == v@.subrange(0, i as int),
        decreases v.len() - i,
    {
        r.push(v[i].clone());
        i = i + 1;
        assert(r@ =~= v@.subrange(0, i as int));
    }
    assert(r@ =~= v@);
    r
}

impl Clone for CleanStats {
    fn clone(&self) -> (r: Self)
        ensures
            same_stats(r, *self),
    {
        CleanStats {
            scanned: self.scanned,
            deleted: self.deleted,
            skipped: self.skipped,
            freed_bytes: self.freed_bytes,
            current_category: self.current_category.clone(),
            current_path: self.current_path.clone(),
            is_running: self.is_running,
            error_details: crate::text::clone_strings(&self.error_details),
            categories: clone_categories(&self.categories),
        }
    }
}

/// The counts at the start of a category, from which its result is taken.
#[derive(Clone, Copy, Debug)]
pub struct CategoryStart {
    pub deleted: usize,
    pub skipped: usize,
    pub freed_bytes: u64,
}

/// Whether a file may be removed: any file when age does not matter, else
/// only one known to be a week old (`elapsed_secs` is `None` when its age
/// could not be read).
pub open spec fn old_enough(require_old: bool, elapsed_secs: Option<u64>) -> bool {
    !require_old || (elapsed_secs matches Some(e) && e >= seven_days_secs())
}

pub fn may_delete(require_old: bool, elapsed_secs: Option<u64>) -> (r: bool)
    ensures
        r == old_enough(require_old, elapsed_secs),
{
    if !require_old {
        return true;
    }
    match elapsed_secs {
        Some(e) => e >= 604800,
        None => false,
    }
}

/// Whether a file of the Explorer cache folder is a thumbnail or icon cache:
/// its lowercase name starts with `thumbcache_` or `iconcache_` and ends with
/// `.db`.
pub open spec fn is_thumbnail_cache(name: Seq<char>) -> bool {
    let n = unicode_lower(name);
    (starts_with(n, "thumbcache_"@) || starts_with(n, "iconcache_"@)) && ends_with(n, ".db"@)
}

pub fn is_thumbnail_cache_file(name: &str) -> (r: bool)
    ensures
        r == is_thumbnail_cache(name@),
{
    let lower = to_lowercase(name);
    let v = chars_of(lower.as_str());
    (seq_starts_with(&v, "thumbcache_") || seq_starts_with(&v, "iconcache_")) && seq_ends_with(&v, ".db")
}

/// What looking at a file does to the statistics `old`, giving `new`: it is
/// counted and becomes the current path; `remove` says whether it is to be
/// removed (its size was read and it is old enough); otherwise it is skipped.
pub open spec fn file_decided(
    old: CleanStats,
    new: CleanStats,
    path: String,
    size: Option<u64>,
    require_old: bool,
    elapsed_secs: Option<u64>,
    remove: bool,
) -> bool {
    &&& remove == (size is Some && old_enough(require_old, elapsed_secs))
    &&& new.scanned == old.scanned + 1
    &&& new.current_path == path
    &&& new.skipped == old.skipped + if remove { 0int } else { 1int }
    &&& new.deleted == old.deleted
    &&& new.freed_bytes == old.freed_bytes
    &&& new.error_details@ == old.error_details@
    &&& new.categories@ == old.categories@
    &&& new.current_category == old.current_category
    &&& new.is_running == old.is_running
}

/// What the outcome of removing a file of `size` bytes at `path` does: a
/// removal counts as deleted and frees its size; a failure skips the file and
/// keeps the message `跳过 {path}: {error}` while fewer than
/// `max_error_details()` messages are kept.
pub open spec fn removal_settled(old: CleanStats, new: CleanStats, path: Seq<char>, size: u64, outcome: Result<(), String>) -> bool {
    &&& match outcome {
        Ok(()) => {
            &&& new.deleted == old.deleted + 1
            &&& new.freed_bytes == old.freed_bytes + size
            &&& new.skipped == old.skipped
            &&& new.error_details@ == old.error_details@
        },
        Err(e) => {
            &&& new.deleted == old.deleted
            &&& new.freed_bytes == old.freed_bytes
            &&& new.skipped == old.skipped + 1
            &&& old.error_details@.len() < max_error_details() ==> new.error_details@.len() == old.error_details@.len()
                + 1 && new.error_details@.subrange(0, old.error_details@.len() as int) == old.error_details@
                && new.error_details@.last()@ == "跳过 "@ + path + ": "@ + e@
            &&& old.error_details@.len() >= max_error_details() ==> new.error_details@ == old.error_details@
        },
    }
    &&& new.scanned == old.scanned
    &&& new.categories@ == old.categories@
    &&& new.current_path == old.current_path
    &&& new.current_category == old.current_category
    &&& new.is_running == old.is_running
}

/// What ending the category `name` that started at `start` does: its result
/// is what changed since then, appended to the results; nothing else changes.
pub open spec fn category_finished(old: CleanStats, new: CleanStats, name: Seq<char>, start: CategoryStart) -> bool {
    &&& new.categories@.len() == old.categories@.len() + 1
    &&& new.categories@.subrange(0, old.categories@.len() as int) == old.categories@
    &&& new.categories@.last().name@ == name
    &&& new.categories@.last().deleted == old.deleted - start.deleted
    &&& new.categories@.last().skipped == old.skipped - start.skipped
    &&& new.categories@.last().freed_bytes == old.freed_bytes - start.freed_bytes
    &&& new.scanned == old.scanned
    &&& new.deleted == old.deleted
    &&& new.skipped == old.skipped
    &&& new.freed_bytes == old.freed_bytes
    &&& new.error_details@ == old.error_details@
    &&& new.current_path == old.current_path
    &&& new.current_category == old.current_category
    &&& new.is_running == old.is_running
}

/// Every file looked at was either deleted or skipped.
pub open spec fn files_balance(s: CleanStats) -> bool {
    s.scanned == s.deleted + s.skipped
}

pub open spec fn sum_deleted(c: Seq<CategoryResult>) -> int
    decreases c.len(),
{
    if c.len() == 0 {
        0
    } else {
        sum_deleted(c.drop_last()) + c.last().deleted
    }
}

pub open spec fn sum_skipped(c: Seq<CategoryResult>) -> int
    decreases c.len(),
{
    if c.len() == 0 {
        0
    } else {
        sum_skipped(c.drop_last()) + c.last().skipped
    }
}

pub open spec fn sum_freed(c: Seq<CategoryResult>) -> int
    decreases c.len(),
{
    if c.len() == 0 {
        0
    } else {
        sum_freed(c.drop_last()) + c.last().freed_bytes
    }
}

/// The categories' results add up to the totals.
pub open spec fn categories_add_up(s: CleanStats) -> bool {
    &&& sum_deleted(s.categories@) == s.deleted
    &&& sum_skipped(s.categories@) == s.skipped
    &&& sum_freed(s.categories@) == s.freed_bytes
}

/// Looking at a file and settling its removal keeps the balance: every file
/// looked at is deleted or skipped, once the file is settled (at once when
/// it is not to be removed).
pub proof fn lemma_file_keeps_balance(
    s0: CleanStats,
    s1: CleanStats,
    s2: CleanStats,
    path: String,
    size: Option<u64>,
    require_old: bool,
    elapsed_secs: Option<u64>,
    remove: bool,
    removed_path: Seq<char>,
    removed_size: u64,
    outcome: Result<(), String>,
)
    requires
        files_balance(s0),
        file_decided(s0, s1, path, size, require_old, elapsed_secs, remove),
        remove ==> removal_settled(s1, s2, removed_path, removed_size, outcome),
    ensures
        !remove ==> files_balance(s1),
        remove ==> files_balance(s2),
{
}

/// A category's result is what its files did: when the results add up to
/// the totals as a category starts (`start` notes the totals then) and its
/// files change only the totals, they add up again once it ends.
pub proof fn lemma_categories_add_up(a: CleanStats, b: CleanStats, c: CleanStats, name: Seq<char>, start: CategoryStart)
    requires
        categories_add_up(a),
        start.deleted == a.deleted,
        start.skipped == a.skipped,
        start.freed_bytes == a.freed_bytes,
        b.categories@ == a.categories@,
        category_finished(b, c, name, start),
    ensures
        categories_add_up(c),
{
    let k = b.categories@.len() as int;
    assert(c.categories@.drop_last() =~= c.categories@.subrange(0, k));
}

impl CleanStats {
    /// The statistics of a run that starts.
    pub fn for_new_run() -> (r: Self)
        ensures
            r.scanned == 0 && r.deleted == 0 && r.skipped == 0 && r.freed_bytes == 0,
            r.current_category@ == "初始化"@,
            r.current_path@ == Seq::<char>::empty(),
            r.is_running,
            r.error_details@ == Seq::<String>::empty(),
            r.categories@ == Seq::<CategoryResult>::empty(),
    {
        let mut s = CleanStats::default();
        s.is_running = true;
        s.current_category = owned("初始化");
        s
    }

    /// A file is looked at.
    pub fn begin_file(&mut self, path: String)
        requires
            old(self).scanned < usize::MAX,
        ensures
            final(self).scanned == old(self).scanned + 1,
            final(self).current_path == path,
            final(self).deleted == old(self).deleted,
            final(self).skipped == old(self).skipped,
            final(self).freed_bytes == old(self).freed_bytes,
            final(self).error_details@ == old(self).error_details@,
            final(self).categories@ == old(self).categories@,
            final(self).current_category == old(self).current_category,
            final(self).is_running == old(self).is_running,
    {
        self.scanned = self.scanned + 1;
        self.current_path = path;
    }

    /// A file is left alone.
    pub fn record_skip(&mut self)
        requires
            old(self).skipped < usize::MAX,
        ensures
            final(self).skipped == old(self).skipped + 1,
            final(self).scanned == old(self).scanned,
            final(self).deleted == old(self).deleted,
            final(self).freed_bytes == old(self).freed_bytes,
            final(self).error_details@ == old(self).error_details@,
            final(self).categories@ == old(self).categories@,
            final(self).current_path == old(self).current_path,
            final(self).current_category == old(self).current_category,
            final(self).is_running == old(self).is_running,
    {
        self.skipped = self.skipped + 1;
    }

    /// A file of `size` bytes was removed.
    pub fn record_deleted(&mut self, size: u64)
        requires
            old(self).deleted < usize::MAX,
            old(self).freed_bytes + size <= u64::MAX,
        ensures
            final(self).deleted == old(self).deleted + 1,
            final(self).freed_bytes == old(self).freed_bytes + size,
            final(self).scanned == old(self).scanned,
            final(self).skipped == old(self).skipped,
            final(self).error_details@ == old(self).error_details@,
            final(self).categories@ == old(self).categories@,
            final(self).current_path == old(self).current_path,
            final(self).current_category == old(self).current_category,
            final(self).is_running == old(self).is_running,
    {
        self.deleted = self.deleted + 1;
        self.freed_bytes = self.freed_bytes + size;
    }

    /// A file could not be removed: it is skipped, and the message kept while
    /// fewer than `max_error_details()` are.
    pub fn record_delete_error(&mut self, detail: String)
        requires
            old(self).skipped < usize::MAX,
        ensures
            final(self).skipped == old(self).skipped + 1,
            final(self).error_details@ == if old(self).error_details@.len() < max_error_details() {
                old(self).error_details@.push(detail)
            } else {
                old(self).error_details@
            },
            final(self).scanned == old(self).scanned,
            final(self).deleted == old(self).deleted,
            final(self).freed_bytes == old(self).freed_bytes,
            final(self).categories@ == old(self).categories@,
            final(self).current_path == old(self).current_path,
            final(self).current_category == old(self).current_category,
            final(self).is_running == old(self).is_running,
            old(self).error_details@.len() <= max_error_details() ==> final(self).error_details@.len()
                <= max_error_details(),
    {
        self.skipped = self.skipped + 1;
        if self.error_details.len() < 30 {
            self.error_details.push(detail);
        }
    }

    /// A file is looked at: it is counted and becomes the current path. Gives
    /// whether it is to be removed: only when its size could be read
    /// (`size` is `None` otherwise) and it is old enough
    /// (see `old_enough`); a file that is not to be removed is skipped.
    pub fn decide_file(&mut self, path: String, size: Option<u64>, require_old: bool, elapsed_secs: Option<u64>) -> (remove: bool)
        requires
            old(self).scanned < usize::MAX,
            old(self).skipped < usize::MAX,
        ensures
            file_decided(*old(self), *final(self), path, size, require_old, elapsed_secs, remove),
    {
        self.begin_file(path);
        let remove = size.is_some() && may_delete(require_old, elapsed_secs);
        if !remove {
            self.record_skip();
        }
        remove
    }

    /// The outcome of removing a file of `size` bytes found at `path`: a
    /// removal counts as deleted and frees its size; a failure skips the file
    /// and keeps the message `跳过 {path}: {error}` while fewer than
    /// `max_error_details()` messages are kept.
    pub fn settle_removal(&mut self, path: &str, size: u64, outcome: Result<(), String>)
        requires
            old(self).deleted < usize::MAX,
            old(self).skipped < usize::MAX,
            old(self).freed_bytes + size <= u64::MAX,
        ensures
            removal_settled(*old(self), *final(self), path@, size, outcome),
            old(self).error_details@.len() <= max_error_details() ==> final(self).error_details@.len()
                <= max_error_details(),
    {
        match outcome {
            Ok(()) => self.record_deleted(size),
            Err(e) => {
                let mut msg = owned("跳过 ");
                push_str(&mut msg, path);
                push_str(&mut msg, ": ");
                push_str(&mut msg, e.as_str());
                let ghost before = self.error_details@;
                self.record_delete_error(msg);
                proof {
                    if before.len() < max_error_details() {
                        assert(self.error_details@.subrange(0, before.len() as int) =~= before);
                    }
                }
            },
        }
    }

    /// A category starts: it becomes the current one, and the counts are
    /// noted.
    pub fn start_category(&mut self, name: &str) -> (r: CategoryStart)
        ensures
            r.deleted == old(self).deleted,
            r.skipped == old(self).skipped,
            r.freed_bytes == old(self).freed_bytes,
            final(self).current_category@ == name@,
            final(self).scanned == old(self).scanned,
            final(self).deleted == old(self).deleted,
            final(self).skipped == old(self).skipped,
            final(self).freed_bytes == old(self).freed_bytes,
            final(self).error_details@ == old(self).error_details@,
            final(self).categories@ == old(self).categories@,
            final(self).current_path == old(self).current_path,
            final(self).is_running == old(self).is_running,
    {
        self.current_category = owned(name);
        CategoryStart { deleted: self.deleted, skipped: self.skipped, freed_bytes: self.freed_bytes }
    }

    /// A category ends: its result is what changed since it started.
    pub fn finish_category(&mut self, name: &str, start: CategoryStart)
        requires
            start.deleted <= old(self).deleted,
            start.skipped <= old(self).skipped,
            start.freed_bytes <= old(self).freed_bytes,
        ensures
            category_finished(*old(self), *final(self), name@, start),
    {
        let r = CategoryResult {
            name: owned(name),
            deleted: self.deleted - start.deleted,
            skipped: self.skipped - start.skipped,
            freed_bytes: self.freed_bytes - start.freed_bytes,
        };
        self.categories.push(r);
        assert(self.categories@.subrange(0, old(self).categories@.len() as int) =~= old(self).categories@);
    }

    /// The run is over.
    pub fn finish_run(&mut self)
        ensures
            !final(self).is_running,
            final(self).current_category@ == "完成"@,
            final(self).current_path@ == Seq::<char>::empty(),
            final(self).scanned == old(self).scanned,
            final(self).deleted == old(self).deleted,
            final(self).skipped == old(self).skipped,
            final(self).freed_bytes == old(self).freed_bytes,
            final(self).error_details@ == old(self).error_details@,
            final(self).categories@ == old(self).categories@,
    {
        self.is_running = false;
        self.current_category = owned("完成");
        self.current_path = String::new();
    }
}

/// Whether a clean-up runs, and the statistics of the last one.
pub struct CleanComputerManager {
    is_running: bool,
    last_stats: Option<CleanStats>,
}

impl CleanComputerManager {
    pub closed spec fn running(&self) -> bool {
        self.is_running
    }

    pub closed spec fn stats(&self) -> Option<CleanStats> {
        self.last_stats
    }

    pub fn new() -> (r: Self)
        ensures
            !r.running(),
            r.stats() is None,
    {
        CleanComputerManager { is_running: false, last_stats: None }
    }

    pub fn is_running(&self) -> (r: bool)
        ensures
            r == self.running(),
    {
        self.is_running
    }

    pub fn set_running(&mut self, running: bool)
        ensures
            final(self).running() == running,
            final(self).stats() == old(self).stats(),
    {
        self.is_running = running;
    }

    pub fn set_stats(&mut self, stats: CleanStats)
        ensures
            final(self).running() == old(self).running(),
            final(self).stats() == Some(stats),
    {
        self.last_stats = Some(stats);
    }

    pub fn get_stats(&self) -> (r: Option<CleanStats>)
        ensures
            r is Some <==> self.stats() is Some,
            r matches Some(s) ==> same_stats(s, self.stats()->0),
    {
        match &self.last_stats {
            Some(s) => Some(s.clone()),
            None => None,
        }
    }

    /// Starts a clean-up unless one runs: then the request is refused.
    pub fn try_start(&mut self) -> (r: Result<bool, String>)
        ensures
            old(self).running() ==> r is Err && r->Err_0@ == "清理任务正在进行中，请等待完成"@
                && final(self).running() && final(self).stats() == old(self).stats(),
            !old(self).running() ==> r == Ok::<bool, String>(true) && final(self).running()
                && final(self).stats() == old(self).stats(),
    {
        if self.is_running {
            return Err(owned("清理任务正在进行中，请等待完成"));
        }
        self.is_running = true;
        Ok(true)
    }

    /// A clean-up ended with `stats`.
    pub fn complete(&mut self, stats: CleanStats)
        ensures
            !final(self).running(),
            final(self).stats() == Some(stats),
    {
        self.is_running = false;
        self.last_stats = Some(stats);
    }

    /// The status to report: while a clean-up runs, empty statistics marked
    /// as running (its progress goes out as it happens); otherwise the last
    /// statistics (empty ones before any run), marked as not running.
    pub fn status(&self) -> (r: CleanStats)
        ensures
            r.is_running == self.running(),
            self.running() ==> is_empty_stats(CleanStats { is_running: false, ..r }),
            !self.running() && self.stats() is Some ==> same_stats(
                r,
                CleanStats { is_running: false, ..self.stats()->0 },
            ),
            !self.running() && self.stats() is None ==> is_empty_stats(r),
    {
        if self.is_running {
            let mut s = CleanStats::default();
            s.is_running = true;
            return s;
        }
        let mut s = match &self.last_stats {
            Some(s) => s.clone(),
            None => CleanStats::default(),
        };
        s.is_running = false;
        s
    }
}

// ---------------------------------------------------------------------------
// What is cleaned
// ---------------------------------------------------------------------------

/// How a target's folders are cleaned.
#[derive(Clone, Copy, Debug, PartialEq, Eq)]
pub enum CleanKind {
    /// Everything inside the folders, down to `MAX_CLEAN_DEPTH` levels; the
    /// folders themselves stay.
    Contents,
    /// Only the thumbnail and icon caches directly in the folder (see
    /// `is_thumbnail_cache`), and only when the folder exists.
    ThumbnailCaches,
}

/// A category of the clean-up: its folders, each given as its root followed
/// by the names below it, and whether its files must be a week old.
#[derive(Debug)]
pub struct CleanTarget {
    pub category: String,
    pub paths: Vec<Vec<String>>,
    pub require_old: bool,
    pub kind: CleanKind,
}

/// The texts of a sequence of strings.
pub open spec fn string_views(v: Seq<String>) -> Seq<Seq<char>> {
    Seq::new(v.len(), |i: int| v[i]@)
}

/// The texts of a sequence of string slices.
pub open spec fn str_views(v: Seq<&str>) -> Seq<Seq<char>> {
    Seq::new(v.len(), |i: int| v[i]@)
}

/// A category of the plan, by its texts.
pub type CleanTargetSpec = (Seq<char>, Seq<Seq<Seq<char>>>, bool, CleanKind);

/// `t` holds the texts of `spec`.
pub open spec fn target_is(t: CleanTarget, spec: CleanTargetSpec) -> bool {
    &&& t.category@ == spec.0
    &&& t.paths@.len() == spec.1.len()
    &&& forall|j: int| 0 <= j < spec.1.len() ==> string_views(#[trigger] t.paths@[j]@) == spec.1[j]
    &&& t.require_old == spec.2
    &&& t.kind == spec.3
}

pub open spec fn edge_cache(leaf: &'static str) -> Seq<Seq<char>> {
    str_views(seq!["Microsoft", "Edge", "User Data", "Default", leaf])
}

pub open spec fn chrome_cache(leaf: &'static str) -> Seq<Seq<char>> {
    str_views(seq!["Google", "Chrome", "User Data", "Default", leaf])
}

/// The cache folder of a Firefox profile.
pub open spec fn firefox_cache(profile: Seq<char>) -> Seq<Seq<char>> {
    str_views(seq!["Mozilla", "Firefox", "Profiles"]) + seq![profile] + str_views(seq!["cache2"])
}

/// The browser caches under the local application data folder `lad`: those
/// of Edge and Chrome, then the cache of each Firefox profile.
pub open spec fn browser_cache_paths(lad: Seq<char>, profiles: Seq<Seq<char>>) -> Seq<Seq<Seq<char>>> {
    seq![
        seq![lad] + edge_cache("Cache"),
        seq![lad] + edge_cache("Code Cache"),
        seq![lad] + edge_cache("GPUCache"),
        seq![lad] + chrome_cache("Cache"),
        seq![lad] + chrome_cache("Code Cache"),
        seq![lad] + chrome_cache("GPUCache"),
    ] + Seq::new(profiles.len(), |i: int| seq![lad] + firefox_cache(profiles[i]))
}

/// The clean-up, category by category: the user's temporary folder `temp`;
/// on Windows also the system's temporary folder, the browser caches under
/// `lad`, the Windows update cache, the thumbnail caches and the system
/// logs. `profiles` are the names of the Firefox profiles.
pub open spec fn spec_clean_plan(temp: Seq<char>, lad: Seq<char>, profiles: Seq<Seq<char>>, on_windows: bool) -> Seq<CleanTargetSpec> {
    let user: CleanTargetSpec = ("用户临时文件"@, seq![seq![temp]], true, CleanKind::Contents);
    if !on_windows {
        seq![user]
    } else {
        seq![
            user,
            ("系统临时文件"@, seq![seq!["C:\\Windows\\Temp"@]], true, CleanKind::Contents),
            ("浏览器缓存"@, browser_cache_paths(lad, profiles), false, CleanKind::Contents),
            ("Windows 更新缓存"@, seq![seq!["C:\\Windows\\SoftwareDistribution\\Download"@]], false, CleanKind::Contents),
            ("缩略图缓存"@, seq![seq![lad] + str_views(seq!["Microsoft", "Windows", "Explorer"])], false, CleanKind::ThumbnailCaches),
            ("系统日志"@, seq![seq!["C:\\Windows\\Logs"@]], true, CleanKind::Contents),
        ]
    }
}

/// The folders the clean-up may touch: the temporary folders, the browser
/// caches, the update cache, the Explorer cache folder and the system logs.
pub open spec fn whitelisted(p: Seq<Seq<char>>, temp: Seq<char>, lad: Seq<char>, profiles: Seq<Seq<char>>) -> bool {
    ||| p == seq![temp]
    ||| p == seq!["C:\\Windows\\Temp"@]
    ||| p == seq!["C:\\Windows\\SoftwareDistribution\\Download"@]
    ||| p == seq!["C:\\Windows\\Logs"@]
    ||| p == seq![lad] + str_views(seq!["Microsoft", "Windows", "Explorer"])
    ||| exists|k: int| 0 <= k < 6 && p == (#[trigger] browser_cache_paths(lad, profiles)[k])
    ||| exists|n: int| 0 <= n < profiles.len() && p == seq![lad] + firefox_cache(#[trigger] profiles[n])
}

/// Only whitelisted folders are cleaned, and the temporary folders and the
/// logs only of files a week old; the caches are cleaned whatever their age.
pub proof fn lemma_clean_plan_is_safe(temp: Seq<char>, lad: Seq<char>, profiles: Seq<Seq<char>>, on_windows: bool)
    ensures
        forall|i: int, j: int|
            0 <= i < spec_clean_plan(temp, lad, profiles, on_windows).len() && 0 <= j < spec_clean_plan(
                temp,
                lad,
                profiles,
                on_windows,
            )[i].1.len() ==> whitelisted(
                #[trigger] spec_clean_plan(temp, lad, profiles, on_windows)[i].1[j],
                temp,
                lad,
                profiles,
            ),
        spec_clean_plan(temp, lad, profiles, on_windows)[0].2,
        on_windows ==> spec_clean_plan(temp, lad, profiles, on_windows)[1].2 && spec_clean_plan(
            temp,
            lad,
            profiles,
            on_windows,
        )[5].2,
{
    let plan = spec_clean_plan(temp, lad, profiles, on_windows);
    let b = browser_cache_paths(lad, profiles);
    assert forall|i: int, j: int| 0 <= i < plan.len() && 0 <= j < plan[i].1.len() implies whitelisted(
        #[trigger] plan[i].1[j],
        temp,
        lad,
        profiles,
    ) by {
        if on_windows && i == 2 {
            if j >= 6 {
                let n = j - 6;
                assert(b[j] == seq![lad] + firefox_cache(profiles[n]));
            } else {
                assert(b[j] == browser_cache_paths(lad, profiles)[j]);
            }
        }
    }
}

/// How deep below a target's folder the clean-up goes.
pub const MAX_CLEAN_DEPTH: u32 = 6;

/// What the walk does with an entry of a folder it cleans, `max_depth`
/// levels still allowed. `is_dir` says whether the entry leads to a folder,
/// and `is_link` whether it is a link.
#[derive(Clone, Copy, Debug, PartialEq, Eq)]
pub enum WalkStep {
    /// The entry is left alone: no level is left, or it is a link to a
    /// folder, which may lead out of the whitelisted folders.
    Skip,
    /// A folder: clean it with this many levels, then try to remove it
    /// (which fails, harmlessly, when something is left in it).
    Descend(u32),
    /// A file, or a link to one (the link itself is what goes): decide on it
    /// (`CleanStats::decide_file`).
    Settle,
}

pub open spec fn spec_walk_step(max_depth: u32, is_dir: bool, is_link: bool) -> WalkStep {
    if max_depth == 0 || (is_dir && is_link) {
        WalkStep::Skip
    } else if is_dir {
        WalkStep::Descend((max_depth - 1) as u32)
    } else {
        WalkStep::Settle
    }
}

pub fn walk_step(max_depth: u32, is_dir: bool, is_link: bool) -> (r: WalkStep)
    ensures
        r == spec_walk_step(max_depth, is_dir, is_link),
{
    if max_depth == 0 || (is_dir && is_link) {
        WalkStep::Skip
    } else if is_dir {
        WalkStep::Descend(max_depth - 1)
    } else {
        WalkStep::Settle
    }
}

/// The walk stays inside the folder it cleans and ends: it never follows a
/// link into a folder, and each folder it descends into has fewer levels
/// left.
pub proof fn lemma_walk_descends(max_depth: u32, is_dir: bool, is_link: bool)
    ensures
        spec_walk_step(max_depth, is_dir, is_link) matches WalkStep::Descend(d) ==> d < max_depth && !is_link,
        is_dir && is_link ==> spec_walk_step(max_depth, is_dir, is_link) == WalkStep::Skip,
{
}

/// Appends `name` to a path.
fn push_name(p: &mut Vec<String>, name: &str)
    ensures
        string_views(final(p)@) == string_views(old(p)@).push(name@),
{
    p.push(owned(name));
    assert(string_views(p@) =~= string_views(old(p)@).push(name@));
}

/// `root` followed by the names of `rest`.
fn path_of(root: &str, rest: &[&str]) -> (r: Vec<String>)
    ensures
        string_views(r@) == seq![root@] + str_views(rest@),
{
    let mut r: Vec<String> = Vec::new();
    push_name(&mut r, root);
    assert(string_views(r@) =~= seq![root@] + str_views(rest@.subrange(0, 0)));
    let mut i: usize = 0;
    while i < rest.len()
        invariant
            i <= rest.len(),
            string_views(r@) == seq![root@] + str_views(rest@.subrange(0, i as int)),
        decreases rest.len() - i,
    {
        push_name(&mut r, rest[i]);
        i = i + 1;
        assert(string_views(r@) =~= seq![root@] + str_views(rest@.subrange(0, i as int)));
    }
    assert(rest@.subrange(0, rest.len() as int) =~= rest@);
    r
}

fn target(category: &str, paths: Vec<Vec<String>>, require_old: bool, kind: CleanKind) -> (r: CleanTarget)
    ensures
        r.category@ == category@,
        r.paths == paths,
        r.require_old == require_old,
        r.kind == kind,
{
    CleanTarget { category: owned(category), paths, require_old, kind }
}

/// The clean-up's categories, in order (see `spec_clean_plan`).
pub fn clean_plan(temp_dir: &str, local_app_data: &str, firefox_profiles: &Vec<String>, on_windows: bool) -> (r: Vec<CleanTarget>)
    ensures
        r@.len() == spec_clean_plan(temp_dir@, local_app_data@, string_views(firefox_profiles@), on_windows).len(),
        forall|i: int|
            0 <= i < r@.len() ==> target_is(
                #[trigger] r@[i],
                spec_clean_plan(temp_dir@, local_app_data@, string_views(firefox_profiles@), on_windows)[i],
            ),
{
    let ghost plan = spec_clean_plan(temp_dir@, local_app_data@, string_views(firefox_profiles@), on_windows);
    let ghost profiles = string_views(firefox_profiles@);
    let lad = local_app_data;
    let mut r: Vec<CleanTarget> = Vec::new();
    let user = target("用户临时文件", vec![path_of(temp_dir, &[])], true, CleanKind::Contents);
    proof {
        assert(seq![temp_dir@] + str_views(Seq::<&str>::empty()) =~= seq![temp_dir@]);
        assert(target_is(user, plan[0]));
    }
    r.push(user);
    if !on_windows {
        return r;
    }
    let sys_temp = target("系统临时文件", vec![path_of("C:\\Windows\\Temp", &[])], true, CleanKind::Contents);
    proof {
        assert(seq!["C:\\Windows\\Temp"@] + str_views(Seq::<&str>::empty()) =~= seq!["C:\\Windows\\Temp"@]);
        assert(target_is(sys_temp, plan[1]));
    }
    r.push(sys_temp);

    let e1: [&str; 5] = ["Microsoft", "Edge", "User Data", "Default", "Cache"];
    let e2: [&str; 5] = ["Microsoft", "Edge", "User Data", "Default", "Code Cache"];
    let e3: [&str; 5] = ["Microsoft", "Edge", "User Data", "Default", "GPUCache"];
    let c1: [&str; 5] = ["Google", "Chrome", "User Data", "Default", "Cache"];
    let c2: [&str; 5] = ["Google", "Chrome", "User Data", "Default", "Code Cache"];
    let c3: [&str; 5] = ["Google", "Chrome", "User Data", "Default", "GPUCache"];
    assert(e1@ =~= seq!["Microsoft", "Edge", "User Data", "Default", "Cache"]);
    assert(e2@ =~= seq!["Microsoft", "Edge", "User Data", "Default", "Code Cache"]);
    assert(e3@ =~= seq!["Microsoft", "Edge", "User Data", "Default", "GPUCache"]);
    assert(c1@ =~= seq!["Google", "Chrome", "User Data", "Default", "Cache"]);
    assert(c2@ =~= seq!["Google", "Chrome", "User Data", "Default", "Code Cache"]);
    assert(c3@ =~= seq!["Google", "Chrome", "User Data", "Default", "GPUCache"]);
    let mut browser: Vec<Vec<String>> = Vec::new();
    browser.push(path_of(lad, &e1));
    browser.push(path_of(lad, &e2));
    browser.push(path_of(lad, &e3));
    browser.push(path_of(lad, &c1));
    browser.push(path_of(lad, &c2));
    browser.push(path_of(lad, &c3));
    let ghost bp = browser_cache_paths(lad@, profiles);
    let ff: [&str; 3] = ["Mozilla", "Firefox", "Profiles"];
    assert(ff@ =~= seq!["Mozilla", "Firefox", "Profiles"]);
    let leaf: [&str; 1] = ["cache2"];
    assert(leaf@ =~= seq!["cache2"]);
    let mut k: usize = 0;
    while k < firefox_profiles.len()
        invariant
            k <= firefox_profiles.len(),
            profiles == string_views(firefox_profiles@),
            bp == browser_cache_paths(lad@, profiles),
            ff@ == seq!["Mozilla", "Firefox", "Profiles"],
            leaf@ == seq!["cache2"],
            browser@.len() == 6 + k,
            forall|j: int| 0 <= j < 6 + k ==> string_views(#[trigger] browser@[j]@) == bp[j],
        decreases firefox_profiles.len() - k,
    {
        let mut p = path_of(lad, &ff);
        push_name(&mut p, firefox_profiles[k].as_str());
        push_name(&mut p, leaf[0]);
        proof {
            assert(string_views(p@) =~= seq![lad@] + firefox_cache(profiles[k as int]));
            assert(bp[6 + k] == seq![lad@] + firefox_cache(profiles[k as int]));
        }
        browser.push(p);
        k = k + 1;
    }
    let browser_target = target("浏览器缓存", browser, false, CleanKind::Contents);
    assert(target_is(browser_target, plan[2]));
    r.push(browser_target);

    let update = target(
        "Windows 更新缓存",
        vec![path_of("C:\\Windows\\SoftwareDistribution\\Download", &[])],
        false,
        CleanKind::Contents,
    );
    proof {
        assert(seq!["C:\\Windows\\SoftwareDistribution\\Download"@] + str_views(Seq::<&str>::empty())
            =~= seq!["C:\\Windows\\SoftwareDistribution\\Download"@]);
        assert(target_is(update, plan[3]));
    }
    r.push(update);

    let explorer: [&str; 3] = ["Microsoft", "Windows", "Explorer"];
    assert(explorer@ =~= seq!["Microsoft", "Windows", "Explorer"]);
    let thumbs = target("缩略图缓存", vec![path_of(lad, &explorer)], false, CleanKind::ThumbnailCaches);
    assert(target_is(thumbs, plan[4]));
    r.push(thumbs);

    let logs = target("系统日志", vec![path_of("C:\\Windows\\Logs", &[])], true, CleanKind::Contents);
    proof {
        assert(seq!["C:\\Windows\\Logs"@] + str_views(Seq::<&str>::empty()) =~= seq!["C:\\Windows\\Logs"@]);
        assert(target_is(logs, plan[5]));
    }
    r.push(logs);
    r
}

} // verus!
