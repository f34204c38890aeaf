//! Finding files with the same content: files are first compared by size,
//! those that share a size by their SHA-256 digest, and the files that share
//! a digest form a group.

use vstd::prelude::*;
use sha2::Digest;
use crate::text::{bytes_to_hex_lower, chars_of, hex_lower, owned, push_str};

verus! {

// ---------------------------------------------------------------------------
// Digests
// ---------------------------------------------------------------------------

/// The SHA-256 digest of a byte string.
pub uninterp spec fn sha256(data: Seq<u8>) -> Seq<u8>;

/// Wraps `sha2::Sha256::digest`: the 32 bytes of the SHA-256 digest of
/// `data` (the output size of `Sha256` is 32 bytes).
#[verifier::external_body]
fn sha256_digest(data: &[u8]) -> (r: Vec<u8>)
    ensures
        r@ == sha256(data@),
        r@.len() == 32,
{
    sha2::Sha256::digest(data).to_vec()
}

proof fn lemma_hex_len(bytes: Seq<u8>)
    ensures
        hex_lower(bytes).len() == 2 * bytes.len(),
    decreases bytes.len(),
{
    if bytes.len() > 0 {
        lemma_hex_len(bytes.drop_last());
    }
}

/// The digest of a file's contents, in lowercase hexadecimal (64 digits).
pub fn compute_file_hash(contents: &[u8]) -> (r: String)
    ensures
        r@ == hex_lower(sha256(contents@)),
        r@.len() == 64,
{
    let d = sha256_digest(contents);
    proof {
        lemma_hex_len(d@);
    }
    bytes_to_hex_lower(d.as_slice())
}

// ---------------------------------------------------------------------------
// Files
// ---------------------------------------------------------------------------

/// A file of a duplicate group.
#[derive(Debug)]
pub struct DuplicateFile {
    pub name: String,
    pub path: String,
    pub folder: String,
}

impl Clone for DuplicateFile {
    fn clone(&self) -> (r: Self)
        ensures
            r == *self,
    {
        DuplicateFile { name: self.name.clone(), path: self.path.clone(), folder: self.folder.clone() }
    }
}

/// Files that hold the same content.
#[derive(Debug)]
pub struct DuplicateFileGroup {
    /// The content's digest.
    pub hash: String,
    /// The size in bytes.
    pub size: u64,
    /// The files, ordered by name.
    pub files: Vec<DuplicateFile>,
}

/// A file found by a scan, with its size in bytes.
#[derive(Debug)]
pub struct ScannedFile {
    pub name: String,
    pub path: String,
    pub folder: String,
    pub size: u64,
}

/// A file whose digest was computed.
#[derive(Debug)]
pub struct HashedFile {
    pub file: DuplicateFile,
    pub size: u64,
    pub hash: String,
}

// ---------------------------------------------------------------------------
// Sizes
// ---------------------------------------------------------------------------

/// How many files of `files` have size `size`.
pub open spec fn size_count(files: Seq<ScannedFile>, size: u64) -> nat
    decreases files.len(),
{
    if files.len() == 0 {
        0
    } else {
        size_count(files.drop_last(), size) + if files.last().size == size {
            1nat
        } else {
            0nat
        }
    }
}

/// The files of `prefix` worth a digest: not empty, and sharing their size
/// with another file of `all`; in the order of `prefix`.
pub open spec fn size_candidates(prefix: Seq<ScannedFile>, all: Seq<ScannedFile>) -> Seq<ScannedFile>
    decreases prefix.len(),
{
    if prefix.len() == 0 {
        Seq::empty()
    } else {
        let rest = size_candidates(prefix.drop_last(), all);
        let f = prefix.last();
        if f.size > 0 && size_count(all, f.size) >= 2 {
            rest.push(f)
        } else {
            rest
        }
    }
}

proof fn lemma_size_count_bound(files: Seq<ScannedFile>, size: u64)
    ensures
        size_count(files, size) <= files.len(),
    decreases files.len(),
{
    if files.len() > 0 {
        lemma_size_count_bound(files.drop_last(), size);
    }
}

fn count_size(files: &Vec<ScannedFile>, size: u64) -> (r: usize)
    ensures
        r == size_count(files@, size),
{
    let mut n: usize = 0;
    let mut i: usize = 0;
    while i < files.len()
        invariant
            i <= files.len(),
            n == size_count(files@.subrange(0, i as int), size),
        decreases files.len() - i,
    {
        proof {
            assert(files@.subrange(0, i + 1).drop_last() =~= files@.subrange(0, i as int));
            lemma_size_count_bound(files@.subrange(0, i as int), size);
        }
        if files[i].size == size {
            n = n + 1;
        }
        i = i + 1;
    }
    assert(files@.subrange(0, files.len() as int) =~= files@);
    n
}

/// A size held by the file at `k` is counted at least once.
proof fn lemma_size_count_holds(files: Seq<ScannedFile>, k: int)
    requires
        0 <= k < files.len(),
    ensures
        size_count(files, files[k].size) >= 1,
    decreases files.len(),
{
    if k < files.len() - 1 {
        lemma_size_count_holds(files.drop_last(), k);
    }
}

/// A size held by two files is counted at least twice.
proof fn lemma_size_count_two(files: Seq<ScannedFile>, j: int, k: int)
    requires
        0 <= j < files.len(),
        0 <= k < files.len(),
        j != k,
        files[j].size == files[k].size,
    ensures
        size_count(files, files[k].size) >= 2,
    decreases files.len(),
{
    let last = files.len() - 1;
    if j == last {
        lemma_size_count_holds(files.drop_last(), k);
    } else if k == last {
        lemma_size_count_holds(files.drop_last(), j);
    } else {
        lemma_size_count_two(files.drop_last(), j, k);
    }
}

/// A counted size is held by some file.
proof fn lemma_size_count_witness(files: Seq<ScannedFile>, size: u64)
    requires
        size_count(files, size) >= 1,
    ensures
        exists|j: int| 0 <= j < files.len() && files[j].size == size,
    decreases files.len(),
{
    if files.last().size != size {
        lemma_size_count_witness(files.drop_last(), size);
        let j = choose|j: int| 0 <= j < files.len() - 1 && files.drop_last()[j].size == size;
        assert(files[j].size == size);
    } else {
        assert(files[files.len() - 1].size == size);
    }
}

/// A size counted twice is held by a second file besides the one at `k`.
proof fn lemma_size_count_other(files: Seq<ScannedFile>, k: int)
    requires
        0 <= k < files.len(),
        size_count(files, files[k].size) >= 2,
    ensures
        exists|j: int| 0 <= j < files.len() && j != k && files[j].size == files[k].size,
    decreases files.len(),
{
    let last = files.len() - 1;
    let v = files[k].size;
    if files.last().size == v {
        if k == last {
            lemma_size_count_witness(files.drop_last(), v);
            let j = choose|j: int| 0 <= j < last && files.drop_last()[j].size == v;
            assert(files[j].size == v);
        } else {
            assert(files[last].size == v);
        }
    } else {
        lemma_size_count_other(files.drop_last(), k);
        let j = choose|j: int| 0 <= j < last && j != k && files.drop_last()[j].size == v;
        assert(files[j].size == v);
    }
}

/// What `size_candidates` keeps of `prefix`: each file worth a digest, and
/// nothing else.
proof fn lemma_size_candidates_members(prefix: Seq<ScannedFile>, all: Seq<ScannedFile>)
    ensures
        forall|k: int|
            0 <= k < prefix.len() && prefix[k].size > 0 && size_count(all, prefix[k].size) >= 2
                ==> #[trigger] size_candidates(prefix, all).contains(prefix[k]),
        forall|i: int|
            0 <= i < size_candidates(prefix, all).len() ==> {
                let f = #[trigger] size_candidates(prefix, all)[i];
                &&& f.size > 0
                &&& size_count(all, f.size) >= 2
                &&& exists|k: int| 0 <= k < prefix.len() && prefix[k] == f
            },
    decreases prefix.len(),
{
    if prefix.len() > 0 {
        let rest = prefix.drop_last();
        lemma_size_candidates_members(rest, all);
        let r = size_candidates(prefix, all);
        let r0 = size_candidates(rest, all);
        assert forall|k: int|
            0 <= k < prefix.len() && prefix[k].size > 0 && size_count(all, prefix[k].size) >= 2 implies
            #[trigger] r.contains(prefix[k]) by {
            if k == prefix.len() - 1 {
                assert(r[r.len() - 1] == prefix[k]);
            } else {
                assert(rest[k] == prefix[k]);
                assert(r0.contains(rest[k]));
                let i = choose|i: int| 0 <= i < r0.len() && r0[i] == rest[k];
                assert(r[i] == r0[i]);
            }
        }
        assert forall|i: int| 0 <= i < r.len() implies {
            let f = #[trigger] r[i];
            &&& f.size > 0
            &&& size_count(all, f.size) >= 2
            &&& exists|k: int| 0 <= k < prefix.len() && prefix[k] == f
        } by {
            if i < r0.len() {
                assert(r[i] == r0[i]);
                let f = r0[i];
                let k = choose|k: int| 0 <= k < rest.len() && rest[k] == f;
                assert(prefix[k] == f);
            } else {
                assert(r[i] == prefix[prefix.len() - 1]);
            }
        }
    }
}

/// The files kept for a digest are exactly the files with content whose size
/// at least one other scanned file shares, however many files share it: every
/// such file is kept, and every kept file is a scanned file of that kind.
pub proof fn lemma_candidates_share_a_size(all: Seq<ScannedFile>)
    ensures
        forall|k: int|
            0 <= k < all.len() && all[k].size > 0 && (exists|j: int|
                0 <= j < all.len() && j != k && all[j].size == all[k].size)
                ==> #[trigger] size_candidates(all, all).contains(all[k]),
        forall|i: int|
            0 <= i < size_candidates(all, all).len() ==> exists|k: int|
                0 <= k < all.len() && all[k] == #[trigger] size_candidates(all, all)[i] && all[k].size > 0
                    && exists|j: int| 0 <= j < all.len() && j != k && all[j].size == all[k].size,
{
    lemma_size_candidates_members(all, all);
    let r = size_candidates(all, all);
    assert forall|k: int|
        0 <= k < all.len() && all[k].size > 0 && (exists|j: int|
            0 <= j < all.len() && j != k && all[j].size == all[k].size) implies
        #[trigger] r.contains(all[k]) by {
        let j = choose|j: int| 0 <= j < all.len() && j != k && all[j].size == all[k].size;
        lemma_size_count_two(all, j, k);
    }
    assert forall|i: int| 0 <= i < r.len() implies exists|k: int|
        0 <= k < all.len() && all[k] == #[trigger] r[i] && all[k].size > 0
            && exists|j: int| 0 <= j < all.len() && j != k && all[j].size == all[k].size by {
        let f = r[i];
        let k = choose|k: int| 0 <= k < all.len() && all[k] == f;
        lemma_size_count_other(all, k);
    }
}

/// The files that need a digest: those with content whose size another file
/// shares. Files of size zero are never duplicates here.
pub fn digest_candidates(files: Vec<ScannedFile>) -> (r: Vec<ScannedFile>)
    ensures
        r@ == size_candidates(files@, files@),
{
    let mut r: Vec<ScannedFile> = Vec::new();
    let mut rest = files;
    let ghost all = rest@;
    // The counts are taken over every file before any is moved out.
    let mut keep: Vec<bool> = Vec::new();
    let mut i: usize = 0;
    while i < rest.len()
        invariant
            rest@ == all,
            i <= rest.len(),
            keep@.len() == i,
            forall|j: int| 0 <= j < i ==> keep@[j] == (all[j].size > 0 && size_count(all, all[j].size) >= 2),
        decreases rest.len() - i,
    {
        let s = rest[i].size;
        let c = count_size(&rest, s);
        keep.push(s > 0 && c >= 2);
        i = i + 1;
    }
    let mut out: Vec<ScannedFile> = Vec::new();
    let mut j: usize = 0;
    while j < rest.len()
        invariant
            rest@ == all,
            keep@.len() == all.len(),
            j <= all.len(),
            forall|k: int| 0 <= k < all.len() ==> keep@[k] == (all[k].size > 0 && size_count(all, all[k].size) >= 2),
            out@ == size_candidates(all.subrange(0, j as int), all),
        decreases all.len() - j,
    {
        assert(all.subrange(0, j + 1).drop_last() =~= all.subrange(0, j as int));
        if keep[j] {
            let f = ScannedFile {
                name: rest[j].name.clone(),
                path: rest[j].path.clone(),
                folder: rest[j].folder.clone(),
                size: rest[j].size,
            };
            out.push(f);
        }
        j = j + 1;
    }
    assert(all.subrange(0, all.len() as int) =~= all);
    r = out;
    r
}

// ---------------------------------------------------------------------------
// Ordering by name
// ---------------------------------------------------------------------------

/// Lexicographic order of texts by code point, the order of `String::cmp`
/// (UTF-8 keeps the order of code points).
pub open spec fn lex_le(a: Seq<char>, b: Seq<char>) -> bool
    decreases a.len(),
{
    if a.len() == 0 {
        true
    } else if b.len() == 0 {
        false
    } else if (a[0] as u32) < (b[0] as u32) {
        true
    } else if (a[0] as u32) > (b[0] as u32) {
        false
    } else {
        lex_le(a.drop_first(), b.drop_first())
    }
}

pub proof fn lemma_lex_total(a: Seq<char>, b: Seq<char>)
    ensures
        lex_le(a, b) || lex_le(b, a),
    decreases a.len(),
{
    if a.len() > 0 && b.len() > 0 && (a[0] as u32) == (b[0] as u32) {
        lemma_lex_total(a.drop_first(), b.drop_first());
    }
}

/// `lex_le(a, b)`.
pub fn text_le(a: &String, b: &String) -> (r: bool)
    ensures
        r == lex_le(a@, b@),
{
    let x = chars_of(a.as_str());
    let y = chars_of(b.as_str());
    let mut i: usize = 0;
    assert(x@.subrange(0, x@.len() as int) =~= x@);
    assert(y@.subrange(0, y@.len() as int) =~= y@);
    while i < x.len() && i < y.len() && (x[i] as u32) == (y[i] as u32)
        invariant
            x@ == a@,
            y@ == b@,
            i <= x.len(),
            i <= y.len(),
            lex_le(a@, b@) == lex_le(x@.subrange(i as int, x@.len() as int), y@.subrange(i as int, y@.len() as int)),
        decreases x.len() - i,
    {
        let ghost xs = x@.subrange(i as int, x@.len() as int);
        let ghost ys = y@.subrange(i as int, y@.len() as int);
        assert(xs.drop_first() =~= x@.subrange(i + 1, x@.len() as int));
        assert(ys.drop_first() =~= y@.subrange(i + 1, y@.len() as int));
        i = i + 1;
    }
    let ghost xs = x@.subrange(i as int, x@.len() as int);
    let ghost ys = y@.subrange(i as int, y@.len() as int);
    if i == x.len() {
        true
    } else if i == y.len() {
        false
    } else {
        assert(xs[0] == x@[i as int] && ys[0] == y@[i as int]);
        (x[i] as u32) < (y[i] as u32)
    }
}

/// The files are ordered by name.
pub open spec fn sorted_by_name(f: Seq<DuplicateFile>) -> bool {
    forall|i: int| 0 <= i < f.len() - 1 ==> lex_le(#[trigger] f[i].name@, f[i + 1].name@)
}

proof fn lemma_lex_refl(a: Seq<char>)
    ensures
        lex_le(a, a),
    decreases a.len(),
{
    if a.len() > 0 {
        lemma_lex_refl(a.drop_first());
    }
}

proof fn lemma_lex_trans(a: Seq<char>, b: Seq<char>, c: Seq<char>)
    requires
        lex_le(a, b),
        lex_le(b, c),
    ensures
        lex_le(a, c),
    decreases a.len(),
{
    if a.len() > 0 && b.len() > 0 && c.len() > 0 && (a[0] as u32) == (b[0] as u32) && (b[0] as u32) == (c[0] as u32) {
        lemma_lex_trans(a.drop_first(), b.drop_first(), c.drop_first());
    }
}

/// The files of `f` named `n`, in the order of `f`.
pub open spec fn named(f: Seq<DuplicateFile>, n: Seq<char>) -> Seq<DuplicateFile>
    decreases f.len(),
{
    if f.len() == 0 {
        Seq::empty()
    } else if f.last().name@ == n {
        named(f.drop_last(), n).push(f.last())
    } else {
        named(f.drop_last(), n)
    }
}

proof fn lemma_named_add(a: Seq<DuplicateFile>, b: Seq<DuplicateFile>, n: Seq<char>)
    ensures
        named(a + b, n) == named(a, n) + named(b, n),
    decreases b.len(),
{
    if b.len() == 0 {
        assert(a + b =~= a);
        assert(named(a, n) + named(b, n) =~= named(a, n));
    } else {
        assert((a + b).drop_last() =~= a + b.drop_last());
        assert((a + b).last() == b.last());
        lemma_named_add(a, b.drop_last(), n);
        if b.last().name@ == n {
            assert(named(a, n) + named(b, n) =~= (named(a, n) + named(b.drop_last(), n)).push(b.last()));
        }
    }
}

proof fn lemma_named_none(f: Seq<DuplicateFile>, n: Seq<char>)
    requires
        forall|k: int| 0 <= k < f.len() ==> (#[trigger] f[k]).name@ != n,
    ensures
        named(f, n) == Seq::<DuplicateFile>::empty(),
    decreases f.len(),
{
    if f.len() > 0 {
        assert forall|k: int| 0 <= k < f.drop_last().len() implies (#[trigger] f.drop_last()[k]).name@ != n by {
            assert(f.drop_last()[k] == f[k]);
        }
        lemma_named_none(f.drop_last(), n);
    }
}

/// The files of `v`, ordered by name; files of the same name keep their
/// order (a stable sort).
pub fn sort_by_name(v: Vec<DuplicateFile>) -> (r: Vec<DuplicateFile>)
    ensures
        r@.to_multiset() == v@.to_multiset(),
        sorted_by_name(r@),
        forall|n: Seq<char>| #[trigger] named(r@, n) == named(v@, n),
{
    broadcast use vstd::seq_lib::group_to_multiset_ensures;
    broadcast use vstd::multiset::group_multiset_axioms;
    let mut out: Vec<DuplicateFile> = Vec::new();
    let mut src = v;
    let ghost all = src@;
    assert(all.subrange(0, 0) =~= Seq::<DuplicateFile>::empty());
    assert(out@ =~= Seq::<DuplicateFile>::empty());
    let mut i: usize = 0;
    while i < src.len()
        invariant
            src@ == all,
            i <= src.len(),
            out@.to_multiset() == all.subrange(0, i as int).to_multiset(),
            forall|a: int, b: int| 0 <= a < b < out@.len() ==> lex_le(#[trigger] out@[a].name@, #[trigger] out@[b].name@),
            forall|n: Seq<char>| #[trigger] named(out@, n) == named(all.subrange(0, i as int), n),
        decreases src.len() - i,
    {
        let x = src[i].clone();
        assert(x == all[i as int]);
        // the first position whose name is strictly after `x`'s
        let mut p: usize = 0;
        while p < out.len() && text_le(&out[p].name, &x.name)
            invariant
                p <= out.len(),
                forall|q: int| 0 <= q < p ==> lex_le(#[trigger] out@[q].name@, x.name@),
            decreases out.len() - p,
        {
            p = p + 1;
        }
        let ghost before = out@;
        proof {
            if p < out.len() {
                lemma_lex_total(x.name@, out@[p as int].name@);
            }
        }
        out.insert(p, x);
        proof {
            assert(out@ == before.insert(p as int, x));
            let pre = all.subrange(0, i as int);
            assert(all.subrange(0, i + 1) =~= pre.push(all[i as int]));
            vstd::seq_lib::to_multiset_insert(before, p as int, x);
            vstd::seq_lib::to_multiset_build(pre, all[i as int]);
            // pairwise order
            assert forall|a: int, b: int| 0 <= a < b < out@.len() implies lex_le(
                #[trigger] out@[a].name@,
                #[trigger] out@[b].name@,
            ) by {
                if b < p {
                    assert(out@[a] == before[a] && out@[b] == before[b]);
                } else if b == p {
                    assert(out@[a] == before[a]);
                } else if a < p {
                    assert(out@[a] == before[a] && out@[b] == before[b - 1]);
                } else if a == p {
                    assert(out@[b] == before[b - 1]);
                    if b - 1 > p {
                        assert(lex_le(before[p as int].name@, before[b - 1].name@));
                        lemma_lex_trans(x.name@, before[p as int].name@, before[b - 1].name@);
                    }
                } else {
                    assert(out@[a] == before[a - 1] && out@[b] == before[b - 1]);
                }
            }
            // files of each name keep their order
            let head = before.subrange(0, p as int);
            let tail = before.subrange(p as int, before.len() as int);
            assert(before =~= head + tail);
            assert(out@ =~= head + seq![x] + tail);
            assert forall|n: Seq<char>| #[trigger] named(out@, n) == named(all.subrange(0, i + 1), n) by {
                lemma_named_add(head + seq![x], tail, n);
                lemma_named_add(head, seq![x], n);
                lemma_named_add(head, tail, n);
                assert(seq![x].drop_last() =~= Seq::<DuplicateFile>::empty());
                assert(seq![x].last() == x);
                assert(named(Seq::<DuplicateFile>::empty(), n) == Seq::<DuplicateFile>::empty());
                if x.name@ == n {
                    assert(named(seq![x], n) =~= seq![x]);
                } else {
                    assert(named(seq![x], n) =~= Seq::<DuplicateFile>::empty());
                }
                assert(pre.push(x).drop_last() =~= pre);
                if x.name@ == n {
                    assert forall|k: int| 0 <= k < tail.len() implies (#[trigger] tail[k]).name@ != n by {
                        assert(tail[k] == before[p + k]);
                        assert(lex_le(before[p as int].name@, before[p + k].name@) || k == 0);
                        lemma_lex_refl(x.name@);
                    }
                    lemma_named_none(tail, n);
                    assert(named(head, n) + named(tail, n) =~= named(head, n));
                    assert(named(head, n) + seq![x] =~= named(head, n).push(x));
                    assert(named(out@, n) =~= named(before, n).push(x));
                } else {
                    assert(named(head, n) + Seq::<DuplicateFile>::empty() =~= named(head, n));
                }
            }
        }
        i = i + 1;
    }
    assert(all.subrange(0, all.len() as int) =~= all);
    proof {
        assert forall|k: int| 0 <= k < out@.len() - 1 implies lex_le(#[trigger] out@[k].name@, out@[k + 1].name@) by {
            assert(lex_le(out@[k].name@, out@[k + 1].name@));
        }
    }
    out
}

// ---------------------------------------------------------------------------
// Grouping by digest
// ---------------------------------------------------------------------------

impl Clone for HashedFile {
    fn clone(&self) -> (r: Self)
        ensures
            r == *self,
    {
        HashedFile { file: self.file.clone(), size: self.size, hash: self.hash.clone() }
    }
}

/// The files of `e` whose digest is `h`, in the order of `e`.
pub open spec fn files_with_hash(e: Seq<HashedFile>, h: Seq<char>) -> Seq<DuplicateFile>
    decreases e.len(),
{
    if e.len() == 0 {
        Seq::empty()
    } else {
        let rest = files_with_hash(e.drop_last(), h);
        if e.last().hash@ == h {
            rest.push(e.last().file)
        } else {
            rest
        }
    }
}

/// What `group_duplicates` promises of its result for the digests `e`:
/// one group for each digest that two files or more share, holding just
/// those files ordered by name, with the size of one of them; no digest twice;
/// the larger files first. Where files with the same digest have the same
/// size, files of the same name in a group keep the order of `e`.
pub open spec fn is_duplicate_grouping(groups: Seq<DuplicateFileGroup>, e: Seq<HashedFile>) -> bool {
    &&& forall|i: int|
        0 <= i < groups.len() ==> {
            &&& (#[trigger] groups[i]).files@.len() >= 2
            &&& groups[i].files@.to_multiset() == files_with_hash(e, groups[i].hash@).to_multiset()
            &&& sorted_by_name(groups[i].files@)
            &&& has_witness(e, groups[i])
        }
    &&& forall|i: int, j: int|
        0 <= i < j < groups.len() ==> (#[trigger] groups[i]).hash@ != (#[trigger] groups[j]).hash@
            && groups[i].size >= groups[j].size
    &&& forall|k: int|
        0 <= k < e.len() && files_with_hash(e, (#[trigger] e[k]).hash@).len() >= 2 ==> has_group(groups, e[k].hash@)
    &&& sizes_follow_digests(e) ==> forall|i: int, n: Seq<char>|
        0 <= i < groups.len() ==> #[trigger] named(groups[i].files@, n) == named(files_with_hash(e, groups[i].hash@), n)
}

proof fn lemma_fwh_insert(s: Seq<HashedFile>, p: int, x: HashedFile, h: Seq<char>)
    requires
        0 <= p <= s.len(),
    ensures
        files_with_hash(s.insert(p, x), h).to_multiset() == (if x.hash@ == h {
            files_with_hash(s, h).to_multiset().insert(x.file)
        } else {
            files_with_hash(s, h).to_multiset()
        }),
    decreases s.len(),
{
    broadcast use vstd::seq_lib::group_to_multiset_ensures;
    broadcast use vstd::multiset::group_multiset_axioms;

    let t = s.insert(p, x);
    if p == s.len() {
        assert(t.drop_last() =~= s);
        assert(t.last() == x);
    } else {
        assert(t.drop_last() =~= s.drop_last().insert(p, x));
        assert(t.last() == s.last());
        lemma_fwh_insert(s.drop_last(), p, x, h);
        if s.last().hash@ == h {
            vstd::seq_lib::to_multiset_build(files_with_hash(t.drop_last(), h), s.last().file);
            vstd::seq_lib::to_multiset_build(files_with_hash(s.drop_last(), h), s.last().file);
            if x.hash@ == h {
                assert(files_with_hash(t, h).to_multiset() =~= files_with_hash(s, h).to_multiset().insert(x.file));
            } else {
                assert(files_with_hash(t, h).to_multiset() =~= files_with_hash(s, h).to_multiset());
            }
        }
    }
}

proof fn lemma_fwh_push(s: Seq<HashedFile>, x: HashedFile, h: Seq<char>)
    ensures
        files_with_hash(s.push(x), h) == (if x.hash@ == h {
            files_with_hash(s, h).push(x.file)
        } else {
            files_with_hash(s, h)
        }),
{
    assert(s.push(x).drop_last() =~= s);
}

proof fn lemma_fwh_absent(s: Seq<HashedFile>, h: Seq<char>)
    requires
        forall|k: int| 0 <= k < s.len() ==> (#[trigger] s[k]).hash@ != h,
    ensures
        files_with_hash(s, h).len() == 0,
    decreases s.len(),
{
    if s.len() > 0 {
        assert forall|k: int| 0 <= k < s.drop_last().len() implies (#[trigger] s.drop_last()[k]).hash@ != h by {
            assert(s.drop_last()[k] == s[k]);
        }
        lemma_fwh_absent(s.drop_last(), h);
    }
}

/// Entries with the same digest have the same size, as files with the
/// same content do.
pub open spec fn sizes_follow_digests(e: Seq<HashedFile>) -> bool {
    forall|k: int, l: int|
        0 <= k < e.len() && 0 <= l < e.len() && (#[trigger] e[k]).hash@ == (#[trigger] e[l]).hash@ ==> e[k].size
            == e[l].size
}

proof fn lemma_fwh_add(a: Seq<HashedFile>, b: Seq<HashedFile>, h: Seq<char>)
    ensures
        files_with_hash(a + b, h) == files_with_hash(a, h) + files_with_hash(b, h),
    decreases b.len(),
{
    if b.len() == 0 {
        assert(a + b =~= a);
        assert(files_with_hash(a, h) + files_with_hash(b, h) =~= files_with_hash(a, h));
    } else {
        assert((a + b).drop_last() =~= a + b.drop_last());
        assert((a + b).last() == b.last());
        lemma_fwh_add(a, b.drop_last(), h);
        if b.last().hash@ == h {
            assert(files_with_hash(a, h) + files_with_hash(b, h) =~= (files_with_hash(a, h) + files_with_hash(
                b.drop_last(),
                h,
            )).push(b.last().file));
        }
    }
}

/// The digests ordered by size, larger first; the same entries, so the same
/// files for each digest, and in the same order where sizes follow digests
/// (a stable sort).
fn sort_by_size_desc(v: Vec<HashedFile>) -> (r: Vec<HashedFile>)
    ensures
        r@.to_multiset() == v@.to_multiset(),
        sizes_follow_digests(v@) ==> forall|h: Seq<char>| #[trigger] files_with_hash(r@, h) == files_with_hash(v@, h),
        forall|h: Seq<char>| #[trigger] files_with_hash(r@, h).to_multiset() == files_with_hash(v@, h).to_multiset(),
        forall|a: int, b: int| 0 <= a < b < r@.len() ==> (#[trigger] r@[a]).size >= (#[trigger] r@[b]).size,
{
    broadcast use vstd::seq_lib::group_to_multiset_ensures;
    broadcast use vstd::multiset::group_multiset_axioms;

    let mut out: Vec<HashedFile> = Vec::new();
    let src = v;
    let ghost all = src@;
    assert(all.subrange(0, 0) =~= Seq::<HashedFile>::empty());
    assert(out@ =~= Seq::<HashedFile>::empty());
    let mut i: usize = 0;
    while i < src.len()
        invariant
            src@ == all,
            i <= src.len(),
            out@.to_multiset() == all.subrange(0, i as int).to_multiset(),
            forall|h: Seq<char>| #[trigger] files_with_hash(out@, h).to_multiset() == files_with_hash(all.subrange(0, i as int), h).to_multiset(),
            forall|a: int, b: int| 0 <= a < b < out@.len() ==> (#[trigger] out@[a]).size >= (#[trigger] out@[b]).size,
            sizes_follow_digests(all) ==> forall|h: Seq<char>| #[trigger] files_with_hash(out@, h) == files_with_hash(all.subrange(0, i as int), h),
        decreases src.len() - i,
    {
        let x = src[i].clone();
        assert(x == all[i as int]);
        let mut p: usize = 0;
        while p < out.len() && out[p].size >= x.size
            invariant
                p <= out.len(),
                forall|q: int| 0 <= q < p ==> (#[trigger] out@[q]).size >= x.size,
            decreases out.len() - p,
        {
            p = p + 1;
        }
        let ghost before = out@;
        let ghost pre = all.subrange(0, i as int);
        out.insert(p, x);
        proof {
            assert(all.subrange(0, i + 1) =~= pre.push(x));
            vstd::seq_lib::to_multiset_insert(before, p as int, x);
            vstd::seq_lib::to_multiset_build(pre, x);
            assert forall|h: Seq<char>| #[trigger] files_with_hash(out@, h).to_multiset() == files_with_hash(all.subrange(0, i + 1), h).to_multiset() by {
                lemma_fwh_insert(before, p as int, x, h);
                lemma_fwh_push(pre, x, h);
                if x.hash@ == h {
                    vstd::seq_lib::to_multiset_build(files_with_hash(pre, h), x.file);
                }
            }
            assert forall|a: int, b: int| 0 <= a < b < out@.len() implies (#[trigger] out@[a]).size >= (#[trigger] out@[b]).size by {
                if b < p {
                    assert(out@[a] == before[a] && out@[b] == before[b]);
                } else if b == p {
                    assert(out@[a] == before[a]);
                } else if a < p {
                    assert(out@[a] == before[a] && out@[b] == before[b - 1]);
                    assert(before[p as int].size < x.size);
                } else if a == p {
                    assert(out@[b] == before[b - 1]);
                    assert(before[p as int].size < x.size);
                    if b - 1 > p {
                        assert(before[p as int].size >= before[b - 1].size);
                    }
                } else {
                    assert(out@[a] == before[a - 1] && out@[b] == before[b - 1]);
                }
            }
            if sizes_follow_digests(all) {
                let head = before.subrange(0, p as int);
                let tail = before.subrange(p as int, before.len() as int);
                assert(before =~= head + tail);
                assert(out@ =~= head + seq![x] + tail);
                assert(seq![x].drop_last() =~= Seq::<HashedFile>::empty());
                assert(seq![x].last() == x);
                assert forall|h: Seq<char>| #[trigger] files_with_hash(out@, h) == files_with_hash(all.subrange(0, i + 1), h) by {
                    lemma_fwh_add(head + seq![x], tail, h);
                    lemma_fwh_add(head, seq![x], h);
                    lemma_fwh_add(head, tail, h);
                    lemma_fwh_push(pre, x, h);
                    assert(files_with_hash(seq![x].drop_last(), h) == Seq::<DuplicateFile>::empty());
                    if x.hash@ == h {
                        assert forall|k: int| 0 <= k < tail.len() implies (#[trigger] tail[k]).hash@ != h by {
                            assert(tail[k] == before[p + k]);
                            lemma_member_transfer(before, pre, p + k);
                            let j = choose|j: int| 0 <= j < pre.len() && pre[j] == before[p + k];
                            assert(pre[j] == all[j]);
                            assert(all[i as int] == x);
                            if k > 0 {
                                assert(before[p as int].size >= before[p + k].size);
                            }
                        }
                        lemma_fwh_absent(tail, h);
                        assert(files_with_hash(seq![x], h) =~= seq![x.file]);
                        assert(files_with_hash(head, h) + seq![x.file] + Seq::<DuplicateFile>::empty()
                            =~= files_with_hash(head, h).push(x.file));
                    } else {
                        assert(files_with_hash(seq![x], h) =~= Seq::<DuplicateFile>::empty());
                        assert(files_with_hash(head, h) + Seq::<DuplicateFile>::empty() =~= files_with_hash(head, h));
                    }
                }
            }
        }
        i = i + 1;
    }
    assert(all.subrange(0, all.len() as int) =~= all);
    out
}

/// Some entry of `e` has the group's digest and size.
pub open spec fn has_witness(e: Seq<HashedFile>, grp: DuplicateFileGroup) -> bool {
    exists|k: int| 0 <= k < e.len() && e[k].hash@ == grp.hash@ && e[k].size == grp.size
}

/// Some group carries the digest `h`.
pub open spec fn has_group(groups: Seq<DuplicateFileGroup>, h: Seq<char>) -> bool {
    exists|g: int| 0 <= g < groups.len() && groups[g].hash@ == h
}

/// What bucketing promises on entries already ordered by size.
spec fn is_bucketing(groups: Seq<DuplicateFileGroup>, e: Seq<HashedFile>) -> bool {
    &&& forall|g: int| 0 <= g < groups.len() ==> (#[trigger] groups[g]).files@ == files_with_hash(e, groups[g].hash@)
    &&& forall|g: int| 0 <= g < groups.len() ==> has_witness(e, #[trigger] groups[g])
    &&& forall|a: int, b: int|
        0 <= a < b < groups.len() ==> (#[trigger] groups[a]).hash@ != (#[trigger] groups[b]).hash@
            && groups[a].size >= groups[b].size
    &&& forall|k: int| 0 <= k < e.len() ==> has_group(groups, (#[trigger] e[k]).hash@)
}

/// One group per digest, in the order in which the digests first occur.
fn bucket(e: &Vec<HashedFile>) -> (r: Vec<DuplicateFileGroup>)
    requires
        forall|a: int, b: int| 0 <= a < b < e@.len() ==> (#[trigger] e@[a]).size >= (#[trigger] e@[b]).size,
    ensures
        is_bucketing(r@, e@),
{
    let mut groups: Vec<DuplicateFileGroup> = Vec::new();
    let mut i: usize = 0;
    assert(e@.subrange(0, 0) =~= Seq::<HashedFile>::empty());
    while i < e.len()
        invariant
            i <= e.len(),
            forall|a: int, b: int| 0 <= a < b < e@.len() ==> (#[trigger] e@[a]).size >= (#[trigger] e@[b]).size,
            is_bucketing(groups@, e@.subrange(0, i as int)),
        decreases e.len() - i,
    {
        let ghost pre = e@.subrange(0, i as int);
        let ghost old_groups = groups@;
        let x = e[i].clone();
        let ghost ne = e@.subrange(0, i + 1);
        assert(ne =~= pre.push(x));
        let mut j: usize = 0;
        while j < groups.len() && groups[j].hash != x.hash
            invariant
                j <= groups.len(),
                forall|q: int| 0 <= q < j ==> (#[trigger] groups@[q]).hash@ != x.hash@,
            decreases groups.len() - j,
        {
            j = j + 1;
        }
        if j < groups.len() {
            let f = x.file.clone();
            groups[j].files.push(f);
            proof {
                assert forall|g: int| 0 <= g < groups@.len() implies (#[trigger] groups@[g]).files@ == files_with_hash(ne, groups@[g].hash@) by {
                    lemma_fwh_push(pre, x, groups@[g].hash@);
                    if g != j {
                        assert(groups@[g] == old_groups[g]);
                        if x.hash@ == groups@[g].hash@ {
                            assert(old_groups[g].hash@ != old_groups[j as int].hash@);
                        }
                    }
                }
                assert forall|g: int| 0 <= g < groups@.len() implies has_witness(ne, #[trigger] groups@[g]) by {
                    assert(has_witness(pre, old_groups[g]));
                    let k = choose|k: int| 0 <= k < pre.len() && pre[k].hash@ == old_groups[g].hash@ && pre[k].size == old_groups[g].size;
                    assert(ne[k] == pre[k]);
                }
                assert forall|a: int, b: int| 0 <= a < b < groups@.len() implies (#[trigger] groups@[a]).hash@ != (#[trigger] groups@[b]).hash@ && groups@[a].size >= groups@[b].size by {
                    assert(old_groups[a].hash@ != old_groups[b].hash@);
                }
                assert forall|k: int| 0 <= k < ne.len() implies has_group(groups@, (#[trigger] ne[k]).hash@) by {
                    if k < i {
                        assert(ne[k] == pre[k]);
                        assert(has_group(old_groups, pre[k].hash@));
                        let g = choose|g: int| 0 <= g < old_groups.len() && old_groups[g].hash@ == pre[k].hash@;
                        assert(groups@[g].hash@ == old_groups[g].hash@);
                    } else {
                        assert(groups@[j as int].hash@ == x.hash@);
                    }
                }
            }
        } else {
            let mut files: Vec<DuplicateFile> = Vec::new();
            files.push(x.file.clone());
            let g = DuplicateFileGroup { hash: x.hash.clone(), size: x.size, files };
            groups.push(g);
            proof {
                assert forall|k: int| 0 <= k < pre.len() implies (#[trigger] pre[k]).hash@ != x.hash@ by {
                    assert(has_group(old_groups, pre[k].hash@));
                }
                lemma_fwh_absent(pre, x.hash@);
                assert forall|g: int| 0 <= g < groups@.len() implies (#[trigger] groups@[g]).files@ == files_with_hash(ne, groups@[g].hash@) by {
                    lemma_fwh_push(pre, x, groups@[g].hash@);
                    if g < old_groups.len() {
                        assert(groups@[g] == old_groups[g]);
                    } else {
                        assert(groups@[g].files@ =~= files_with_hash(pre, x.hash@).push(x.file));
                    }
                }
                assert forall|g: int| 0 <= g < groups@.len() implies has_witness(ne, #[trigger] groups@[g]) by {
                    if g < old_groups.len() {
                        assert(groups@[g] == old_groups[g]);
                        assert(has_witness(pre, old_groups[g]));
                        let k = choose|k: int| 0 <= k < pre.len() && pre[k].hash@ == old_groups[g].hash@ && pre[k].size == old_groups[g].size;
                        assert(ne[k] == pre[k]);
                    } else {
                        assert(ne[i as int] == x);
                    }
                }
                assert forall|a: int, b: int| 0 <= a < b < groups@.len() implies (#[trigger] groups@[a]).hash@ != (#[trigger] groups@[b]).hash@ && groups@[a].size >= groups@[b].size by {
                    if b < old_groups.len() {
                        assert(old_groups[a].hash@ != old_groups[b].hash@);
                    } else {
                        assert(groups@[a] == old_groups[a]);
                        assert(has_witness(pre, old_groups[a]));
                        let k = choose|k: int| 0 <= k < pre.len() && pre[k].hash@ == old_groups[a].hash@ && pre[k].size == old_groups[a].size;
                        assert(pre[k] == e@[k]);
                        assert(e@[k].size >= e@[i as int].size);
                    }
                }
                assert forall|k: int| 0 <= k < ne.len() implies has_group(groups@, (#[trigger] ne[k]).hash@) by {
                    if k < i {
                        assert(ne[k] == pre[k]);
                        assert(has_group(old_groups, pre[k].hash@));
                        let g = choose|g: int| 0 <= g < old_groups.len() && old_groups[g].hash@ == pre[k].hash@;
                        assert(groups@[g] == old_groups[g]);
                    } else {
                        assert(groups@[old_groups.len() as int].hash@ == x.hash@);
                    }
                }
            }
        }
        i = i + 1;
    }
    assert(e@.subrange(0, e@.len() as int) =~= e@);
    groups
}

fn clone_files(v: &Vec<DuplicateFile>) -> (r: Vec<DuplicateFile>)
    ensures
        r@ == v@,
{
    let mut r: Vec<DuplicateFile> = Vec::new();
    let mut i: usize = 0;
    while i < v.len()
        invariant
            i <= v.len(),
            r@ == v@.subrange(0, i as int),
        decreases v.len() - i,
    {
        r.push(v[i].clone());
        i = i + 1;
        assert(r@ =~= v@.subrange(0, i as int));
    }
    assert(r@ =~= v@);
    r
}

proof fn lemma_member_transfer(a: Seq<HashedFile>, b: Seq<HashedFile>, k: int)
    requires
        a.to_multiset() == b.to_multiset(),
        0 <= k < a.len(),
    ensures
        exists|j: int| 0 <= j < b.len() && b[j] == a[k],
{
    broadcast use vstd::seq_lib::group_to_multiset_ensures;

    assert(a.contains(a[k]));
    vstd::seq_lib::to_multiset_contains(a, a[k]);
    vstd::seq_lib::to_multiset_contains(b, a[k]);
}

/// Groups the files that share a digest (see `is_duplicate_grouping`).
pub fn group_duplicates(hashed: Vec<HashedFile>) -> (r: Vec<DuplicateFileGroup>)
    ensures
        is_duplicate_grouping(r@, hashed@),
{
    broadcast use vstd::seq_lib::group_to_multiset_ensures;

    let ghost input = hashed@;
    let sorted = sort_by_size_desc(hashed);
    let b = bucket(&sorted);
    let mut out: Vec<DuplicateFileGroup> = Vec::new();
    let ghost mut idx: Seq<int> = Seq::empty();
    let mut i: usize = 0;
    while i < b.len()
        invariant
            i <= b.len(),
            is_bucketing(b@, sorted@),
            idx.len() == out@.len(),
            forall|t: int| 0 <= t < idx.len() ==> 0 <= #[trigger] idx[t] < i,
            forall|t: int, u: int| 0 <= t < u < idx.len() ==> #[trigger] idx[t] < #[trigger] idx[u],
            forall|t: int|
                0 <= t < out@.len() ==> {
                    &&& (#[trigger] out@[t]).hash@ == b@[idx[t]].hash@
                    &&& out@[t].size == b@[idx[t]].size
                    &&& out@[t].files@.len() >= 2
                    &&& out@[t].files@.to_multiset() == b@[idx[t]].files@.to_multiset()
                    &&& sorted_by_name(out@[t].files@)
                    &&& forall|n: Seq<char>| #[trigger] named(out@[t].files@, n) == named(b@[idx[t]].files@, n)
                },
            forall|k: int| 0 <= k < i && (#[trigger] b@[k]).files@.len() >= 2 ==> has_group(out@, b@[k].hash@),
        decreases b.len() - i,
    {
        if b[i].files.len() >= 2 {
            let files = sort_by_name(clone_files(&b[i].files));
            let g = DuplicateFileGroup { hash: b[i].hash.clone(), size: b[i].size, files };
            let ghost old_out = out@;
            out.push(g);
            proof {
                vstd::seq_lib::to_multiset_len(b@[i as int].files@);
                vstd::seq_lib::to_multiset_len(out@.last().files@);
                idx = idx.push(i as int);
                assert forall|k: int| 0 <= k < i + 1 && (#[trigger] b@[k]).files@.len() >= 2 implies has_group(out@, b@[k].hash@) by {
                    if k < i {
                        let g = choose|g: int| 0 <= g < old_out.len() && old_out[g].hash@ == b@[k].hash@;
                        assert(out@[g] == old_out[g]);
                    } else {
                        assert(out@[old_out.len() as int].hash@ == b@[k].hash@);
                    }
                }
            }
        }
        i = i + 1;
    }
    proof {
        let e = sorted@;
        // The groups, read against the ordered entries.
        assert forall|t: int| 0 <= t < out@.len() implies has_witness(input, #[trigger] out@[t]) && out@[t].files@.to_multiset() == files_with_hash(input, out@[t].hash@).to_multiset() by {
            let g = idx[t];
            assert(b@[g].files@ == files_with_hash(e, b@[g].hash@));
            assert(has_witness(e, b@[g]));
            let k = choose|k: int| 0 <= k < e.len() && e[k].hash@ == b@[g].hash@ && e[k].size == b@[g].size;
            lemma_member_transfer(e, input, k);
            let j = choose|j: int| 0 <= j < input.len() && input[j] == e[k];
            assert(files_with_hash(e, out@[t].hash@).to_multiset() == files_with_hash(input, out@[t].hash@).to_multiset());
        }
        assert forall|p: int, q: int| 0 <= p < q < out@.len() implies (#[trigger] out@[p]).hash@ != (#[trigger] out@[q]).hash@ && out@[p].size >= out@[q].size by {
            assert(idx[p] < idx[q]);
            assert(b@[idx[p]].hash@ != b@[idx[q]].hash@);
        }
        assert forall|k: int| 0 <= k < input.len() && files_with_hash(input, (#[trigger] input[k]).hash@).len() >= 2 implies has_group(out@, input[k].hash@) by {
            let h = input[k].hash@;
            assert(files_with_hash(e, h).to_multiset() == files_with_hash(input, h).to_multiset());
            vstd::seq_lib::to_multiset_len(files_with_hash(e, h));
            vstd::seq_lib::to_multiset_len(files_with_hash(input, h));
            lemma_member_transfer(input, e, k);
            let j = choose|j: int| 0 <= j < e.len() && e[j] == input[k];
            assert(has_group(b@, e[j].hash@));
            let g = choose|g: int| 0 <= g < b@.len() && b@[g].hash@ == h;
            assert(b@[g].files@ == files_with_hash(e, h));
        }
        if sizes_follow_digests(input) {
            assert forall|t: int, n: Seq<char>| 0 <= t < out@.len() implies #[trigger] named(out@[t].files@, n)
                == named(files_with_hash(input, out@[t].hash@), n) by {
                let g = idx[t];
                assert(b@[g].files@ == files_with_hash(e, b@[g].hash@));
                assert(files_with_hash(e, out@[t].hash@) == files_with_hash(input, out@[t].hash@));
            }
        }
    }
    out
}

// ---------------------------------------------------------------------------
// Cleaning up
// ---------------------------------------------------------------------------

/// A scanned file with its digest.
pub fn hashed_file(f: &ScannedFile, hash: String) -> (r: HashedFile)
    ensures
        r.file.name == f.name,
        r.file.path == f.path,
        r.file.folder == f.folder,
        r.size == f.size,
        r.hash == hash,
{
    HashedFile {
        file: DuplicateFile { name: f.name.clone(), path: f.path.clone(), folder: f.folder.clone() },
        size: f.size,
        hash,
    }
}

/// How many groups hold more than one file.
pub open spec fn groups_to_clean(groups: Seq<DuplicateFileGroup>) -> nat
    decreases groups.len(),
{
    if groups.len() == 0 {
        0
    } else {
        groups_to_clean(groups.drop_last()) + if groups.last().files@.len() > 1 {
            1nat
        } else {
            0nat
        }
    }
}

/// The files a clean-up sends to the recycle bin: in each group of more than
/// one file, all but the first; group after group.
pub open spec fn files_to_remove(groups: Seq<DuplicateFileGroup>) -> Seq<DuplicateFile>
    decreases groups.len(),
{
    if groups.len() == 0 {
        Seq::empty()
    } else {
        let g = groups.last();
        files_to_remove(groups.drop_last()) + if g.files@.len() > 1 {
            g.files@.subrange(1, g.files@.len() as int)
        } else {
            Seq::empty()
        }
    }
}

proof fn lemma_groups_to_clean_bound(groups: Seq<DuplicateFileGroup>)
    ensures
        groups_to_clean(groups) <= groups.len(),
    decreases groups.len(),
{
    if groups.len() > 0 {
        lemma_groups_to_clean_bound(groups.drop_last());
    }
}

/// The number of groups to clean and the files to remove from them (each
/// group keeps its first file, the first by name).
pub fn plan_duplicate_cleanup(groups: &Vec<DuplicateFileGroup>) -> (r: (usize, Vec<DuplicateFile>))
    ensures
        r.0 == groups_to_clean(groups@),
        r.1@ == files_to_remove(groups@),
{
    let mut n: usize = 0;
    let mut out: Vec<DuplicateFile> = Vec::new();
    let mut i: usize = 0;
    while i < groups.len()
        invariant
            i <= groups.len(),
            n == groups_to_clean(groups@.subrange(0, i as int)),
            out@ == files_to_remove(groups@.subrange(0, i as int)),
        decreases groups.len() - i,
    {
        let ghost pre = groups@.subrange(0, i as int);
        proof {
            assert(groups@.subrange(0, i + 1).drop_last() =~= pre);
            lemma_groups_to_clean_bound(pre);
        }
        let fs = &groups[i].files;
        if fs.len() > 1 {
            n = n + 1;
            let ghost before = out@;
            let mut j: usize = 1;
            while j < fs.len()
                invariant
                    1 <= j <= fs.len(),
                    out@ == before + fs@.subrange(1, j as int),
                decreases fs.len() - j,
            {
                out.push(fs[j].clone());
                j = j + 1;
                assert(out@ =~= before + fs@.subrange(1, j as int));
            }
        } else {
            assert(out@ =~= out@ + Seq::<DuplicateFile>::empty());
        }
        i = i + 1;
    }
    assert(groups@.subrange(0, groups.len() as int) =~= groups@);
    (n, out)
}

/// The outcome of a clean-up: the files moved to the recycle bin and the
/// messages of those that could not be.
#[derive(Debug)]
pub struct CleanupTally {
    pub moved: usize,
    pub errors: Vec<String>,
}

impl CleanupTally {
    pub fn new() -> (r: Self)
        ensures
            r.moved == 0,
            r.errors@ == Seq::<String>::empty(),
    {
        CleanupTally { moved: 0, errors: Vec::new() }
    }

    /// Records what became of one file: a move counts, a failure adds
    /// `"{file_name}: {error}"`.
    pub fn record(&mut self, file_name: &str, outcome: Result<(), String>)
        requires
            old(self).moved < usize::MAX,
        ensures
            match outcome {
                Ok(()) => final(self).moved == old(self).moved + 1 && final(self).errors@ == old(self).errors@,
                Err(e) => {
                    &&& final(self).moved == old(self).moved
                    &&& final(self).errors@.len() == old(self).errors@.len() + 1
                    &&& final(self).errors@.subrange(0, old(self).errors@.len() as int) == old(self).errors@
                    &&& final(self).errors@.last()@ == file_name@ + ": "@ + e@
                },
            },
    {
        match outcome {
            Ok(()) => {
                self.moved = self.moved + 1;
            },
            Err(e) => {
                let mut msg = owned(file_name);
                push_str(&mut msg, ": ");
                push_str(&mut msg, e.as_str());
                self.errors.push(msg);
                assert(self.errors@.subrange(0, old(self).errors@.len() as int) =~= old(self).errors@);
            },
        }
    }
}

} // verus!
