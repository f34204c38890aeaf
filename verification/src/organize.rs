//! Rules shared by the desktop and folder organisers: conflict handling,
//! extension lists and unique target names.

use vstd::prelude::*;
use crate::text::{
    decimal, extension_of, file_extension, file_stem, owned, push_char, push_decimal, push_str,
    stem_of, str_eq, to_lowercase, unicode_lower, ascii_lower_seq, to_ascii_lowercase,
    ends_with, chars_of, seq_ends_with,
};

verus! {

/// Whether `e` is the view of one of the strings in `list`.
pub open spec fn is_one_of(e: Seq<char>, list: Seq<&str>) -> bool {
    exists|i: int| 0 <= i < list.len() && list[i]@ == e
}

pub fn str_is_one_of(e: &str, list: &[&str]) -> (r: bool)
    ensures
        r == is_one_of(e@, list@),
{
    let mut i: usize = 0;
    while i < list.len()
        invariant
            i <= list.len(),
            forall|j: int| 0 <= j < i ==> list@[j]@ != e@,
        decreases list.len() - i,
    {
        if str_eq(list[i], e) {
            return true;
        }
        i = i + 1;
    }
    false
}

/// Extensions that the desktop organiser files as pictures.
pub open spec fn desktop_image_exts() -> Seq<&'static str> {
    seq!["jpg", "jpeg", "png", "gif", "bmp", "webp", "tiff", "tif", "svg", "ico", "heic", "heif"]
}

/// Whether an extension names a picture, whatever its case.
pub fn is_image_file(ext: &str) -> (r: bool)
    ensures
        r == is_one_of(unicode_lower(ext@), desktop_image_exts()),
{
    let lower = to_lowercase(ext);
    let list: [&str; 12] = ["jpg", "jpeg", "png", "gif", "bmp", "webp", "tiff", "tif", "svg", "ico", "heic", "heif"];
    assert(list@ =~= desktop_image_exts());
    str_is_one_of(lower.as_str(), &list)
}


/// What the organiser does when a target name is already taken.
#[derive(Clone, Copy, Debug, PartialEq, Eq)]
pub enum ConflictStrategy {
    Overwrite,
    Rename,
    Skip,
}

/// A file whose target path is already taken.
#[derive(Debug)]
pub struct ConflictFile {
    pub file_name: String,
    pub source_path: String,
    pub target_folder: String,
    pub target_path: String,
}

/// How one file or folder is moved into its target.
#[derive(Clone, Copy, Debug, PartialEq, Eq)]
pub enum MoveAction {
    /// The target is free: move there.
    Move,
    /// Delete what holds the target, then move there.
    ReplaceThenMove,
    /// Move under the first free name derived from the target's name.
    MoveRenamed,
    /// Leave the source where it is; this counts as done.
    Leave,
}

pub open spec fn spec_conflict_action(target_exists: bool, strategy: ConflictStrategy) -> MoveAction {
    if !target_exists {
        MoveAction::Move
    } else {
        match strategy {
            ConflictStrategy::Overwrite => MoveAction::ReplaceThenMove,
            ConflictStrategy::Rename => MoveAction::MoveRenamed,
            ConflictStrategy::Skip => MoveAction::Leave,
        }
    }
}

/// The move that a strategy calls for, given whether the target exists.
pub fn conflict_action(target_exists: bool, strategy: ConflictStrategy) -> (r: MoveAction)
    ensures
        r == spec_conflict_action(target_exists, strategy),
{
    if !target_exists {
        MoveAction::Move
    } else {
        match strategy {
            ConflictStrategy::Overwrite => MoveAction::ReplaceThenMove,
            ConflictStrategy::Rename => MoveAction::MoveRenamed,
            ConflictStrategy::Skip => MoveAction::Leave,
        }
    }
}

/// The `counter`-th name tried for `name` in a folder: the name itself first,
/// then `stem(counter).ext`, or `stem(counter)` for a name without extension.
pub open spec fn candidate_name(name: Seq<char>, counter: nat) -> Seq<char> {
    if counter == 0 {
        name
    } else {
        match extension_of(name) {
            Some(e) => stem_of(name) + seq!['('] + decimal(counter) + seq![')', '.'] + e,
            None => stem_of(name) + seq!['('] + decimal(counter) + seq![')'],
        }
    }
}

/// The last counter tried before giving up: the largest `i32`.
pub open spec fn max_candidate() -> nat {
    0x7fff_ffff
}

/// The name tried at step `counter` (see `candidate_name`).
pub fn unique_candidate(file_name: &str, counter: u32) -> (r: String)
    ensures
        r@ == candidate_name(file_name@, counter as nat),
{
    if counter == 0 {
        return owned(file_name);
    }
    let stem = file_stem(file_name);
    let ext = file_extension(file_name);
    let mut r = String::new();
    push_str(&mut r, stem.as_str());
    push_char(&mut r, '(');
    push_decimal(&mut r, counter as u64);
    push_char(&mut r, ')');
    match ext {
        Some(e) => {
            push_char(&mut r, '.');
            push_str(&mut r, e.as_str());
            assert(r@ =~= candidate_name(file_name@, counter as nat));
        },
        None => {
            assert(r@ =~= candidate_name(file_name@, counter as nat));
        },
    }
    r
}

/// `is_taken` answered `answer` when asked about a name whose text is `name`.
pub open spec fn answered<F: Fn(&String) -> bool>(is_taken: F, name: Seq<char>, answer: bool) -> bool {
    exists|m: String| m@ == name && #[trigger] is_taken.ensures((&m,), answer)
}

/// Finds a free name for `file_name` in a folder. `is_taken` says whether a
/// name is already used there; the names are tried in the order of
/// `candidate_name`, and the first free one is returned. `None` comes back
/// only when every counter up to `max_candidate()` was taken.
pub fn generate_unique_path<F: Fn(&String) -> bool>(file_name: &str, is_taken: F) -> (r: Option<String>)
    requires
        forall|m: &String| #[trigger] is_taken.requires((m,)),
    ensures
        match r {
            Some(n) => exists|k: nat|
                k <= max_candidate() && n@ == candidate_name(file_name@, k) && answered(
                    is_taken,
                    n@,
                    false,
                ) && forall|j: nat| j < k ==> answered(is_taken, #[trigger] candidate_name(file_name@, j), true),
            None => forall|j: nat|
                j <= max_candidate() ==> answered(is_taken, #[trigger] candidate_name(file_name@, j), true),
        },
{
    let mut counter: u32 = 0;
    while counter <= 0x7fff_ffff
        invariant
            counter <= 0x8000_0000,
            forall|m: &String| #[trigger] is_taken.requires((m,)),
            forall|j: nat| j < counter ==> answered(is_taken, #[trigger] candidate_name(file_name@, j), true),
        decreases 0x8000_0000 - counter,
    {
        let n = unique_candidate(file_name, counter);
        let taken = is_taken(&n);
        assert(answered(is_taken, n@, taken));
        if !taken {
            return Some(n);
        }
        assert forall|j: nat| j < counter + 1 implies answered(is_taken, #[trigger] candidate_name(file_name@, j), true) by {
            if j == counter {
                assert(n@ == candidate_name(file_name@, j));
            }
        }
        counter = counter + 1;
    }
    None
}

/// The extension of a name with its ASCII letters in lowercase.
pub open spec fn ascii_lower_ext(name: Seq<char>) -> Option<Seq<char>> {
    match extension_of(name) {
        Some(e) => Some(ascii_lower_seq(e)),
        None => None,
    }
}

/// The extension of a name folded to lowercase: first its ASCII letters,
/// then as `str::to_lowercase` does.
pub open spec fn folded_ext(name: Seq<char>) -> Option<Seq<char>> {
    match extension_of(name) {
        Some(e) => Some(unicode_lower(ascii_lower_seq(e))),
        None => None,
    }
}

pub fn name_ascii_lower_ext(name: &str) -> (r: Option<String>)
    ensures
        match r {
            Some(e) => ascii_lower_ext(name@) == Some(e@),
            None => ascii_lower_ext(name@) is None,
        },
{
    match file_extension(name) {
        Some(e) => Some(to_ascii_lowercase(e.as_str())),
        None => None,
    }
}

pub fn name_folded_ext(name: &str) -> (r: Option<String>)
    ensures
        match r {
            Some(e) => folded_ext(name@) == Some(e@),
            None => folded_ext(name@) is None,
        },
{
    match file_extension(name) {
        Some(e) => {
            let a = to_ascii_lowercase(e.as_str());
            Some(to_lowercase(a.as_str()))
        },
        None => None,
    }
}

/// Whether a shortcut's target is a program: its lowercase form ends with
/// `.exe`, `.bat` or `.cmd`.
pub open spec fn is_program_target(target: Seq<char>) -> bool {
    let t = unicode_lower(target);
    ends_with(t, ".exe"@) || ends_with(t, ".bat"@) || ends_with(t, ".cmd"@)
}

pub fn target_is_program(target: &Option<String>) -> (r: bool)
    ensures
        r == (target matches Some(t) && is_program_target(t@)),
{
    match target {
        Some(t) => {
            let lower = chars_of(to_lowercase(t.as_str()).as_str());
            seq_ends_with(&lower, ".exe") || seq_ends_with(&lower, ".bat") || seq_ends_with(
                &lower,
                ".cmd",
            )
        },
        None => false,
    }
}

/// Whether a shortcut's target is an executable: its lowercase form ends
/// with `.exe`.
pub open spec fn is_exe_target(target: Seq<char>) -> bool {
    ends_with(unicode_lower(target), ".exe"@)
}

pub fn target_is_exe(target: &Option<String>) -> (r: bool)
    ensures
        r == (target matches Some(t) && is_exe_target(t@)),
{
    match target {
        Some(t) => {
            let lower = chars_of(to_lowercase(t.as_str()).as_str());
            seq_ends_with(&lower, ".exe")
        },
        None => false,
    }
}

/// Counts of what an organising run moved into each of its four folders, and
/// the messages of what failed, in the order it happened.
#[derive(Debug)]
pub struct OrganizeTally {
    pub counts: (usize, usize, usize, usize),
    pub errors: Vec<String>,
}

/// The count kept for slot `slot` (0 to 3).
pub open spec fn tally_count(t: (usize, usize, usize, usize), slot: int) -> usize {
    if slot == 0 {
        t.0
    } else if slot == 1 {
        t.1
    } else if slot == 2 {
        t.2
    } else {
        t.3
    }
}

/// `t` with slot `slot` one higher.
pub open spec fn tally_bump(t: (usize, usize, usize, usize), slot: int) -> (usize, usize, usize, usize) {
    if slot == 0 {
        ((t.0 + 1) as usize, t.1, t.2, t.3)
    } else if slot == 1 {
        (t.0, (t.1 + 1) as usize, t.2, t.3)
    } else if slot == 2 {
        (t.0, t.1, (t.2 + 1) as usize, t.3)
    } else {
        (t.0, t.1, t.2, (t.3 + 1) as usize)
    }
}

impl OrganizeTally {
    pub fn new() -> (r: Self)
        ensures
            r.counts == (0usize, 0usize, 0usize, 0usize),
            r.errors@ == Seq::<String>::empty(),
    {
        OrganizeTally { counts: (0, 0, 0, 0), errors: Vec::new() }
    }

    /// Records the outcome of moving `file_name` into the folder of slot
    /// `slot`: a success counts there, a failure adds `"{file_name}: {error}"`.
    pub fn record(&mut self, slot: usize, file_name: &str, outcome: Result<(), String>)
        requires
            slot < 4,
            tally_count(old(self).counts, slot as int) < usize::MAX,
        ensures
            match outcome {
                Ok(()) => {
                    &&& final(self).counts == tally_bump(old(self).counts, slot as int)
                    &&& final(self).errors@ == old(self).errors@
                },
                Err(e) => {
                    &&& final(self).counts == old(self).counts
                    &&& final(self).errors@.len() == old(self).errors@.len() + 1
                    &&& final(self).errors@.subrange(0, old(self).errors@.len() as int)
                        == old(self).errors@
                    &&& final(self).errors@.last()@ == file_name@ + ": "@ + e@
                },
            },
    {
        match outcome {
            Ok(()) => {
                if slot == 0 {
                    self.counts.0 = self.counts.0 + 1;
                } else if slot == 1 {
                    self.counts.1 = self.counts.1 + 1;
                } else if slot == 2 {
                    self.counts.2 = self.counts.2 + 1;
                } else {
                    self.counts.3 = self.counts.3 + 1;
                }
            },
            Err(e) => {
                let mut msg = owned(file_name);
                push_str(&mut msg, ": ");
                push_str(&mut msg, e.as_str());
                self.errors.push(msg);
                assert(self.errors@.subrange(0, old(self).errors@.len() as int) =~= old(
                    self,
                ).errors@);
            },
        }
    }

    /// Records a failure that belongs to no single file.
    pub fn record_error(&mut self, message: String)
        ensures
            final(self).counts == old(self).counts,
            final(self).errors@ == old(self).errors@.push(message),
    {
        self.errors.push(message);
    }

    /// The four counts and the messages, in the order of the slots.
    pub fn finish(self) -> (r: (usize, usize, usize, usize, Vec<String>))
        ensures
            r.0 == self.counts.0,
            r.1 == self.counts.1,
            r.2 == self.counts.2,
            r.3 == self.counts.3,
            r.4@ == self.errors@,
    {
        (self.counts.0, self.counts.1, self.counts.2, self.counts.3, self.errors)
    }
}

} // verus!
