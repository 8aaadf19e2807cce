//! The idempotency manifest: content hashes of files already processed, and the
//! decision, per file, whether a run processes it or skips it.

use vstd::prelude::*;
use crate::hashing::{blake3_digest, hex_hash, hex_lower};
use crate::text::{same_text, texts};

verus! {

/// Content hashes of processed files, in the order they were first recorded.
#[derive(Debug)]
pub struct Manifest {
    processed: Vec<String>,
}

/// A sequence in which nothing occurs twice.
pub open spec fn distinct<T>(s: Seq<T>) -> bool {
    forall|i: int, j: int| 0 <= i < j < s.len() ==> s[i] != s[j]
}

/// Recording a hash: unchanged if already present, appended otherwise.
pub open spec fn recorded(hashes: Seq<Seq<char>>, hash: Seq<char>) -> Seq<Seq<char>> {
    if hashes.contains(hash) {
        hashes
    } else {
        hashes.push(hash)
    }
}

impl View for Manifest {
    type V = Seq<Seq<char>>;

    closed spec fn view(&self) -> Seq<Seq<char>> {
        texts(self.processed@)
    }
}

impl Manifest {
    /// An empty manifest.
    pub fn new() -> (m: Self)
        ensures
            m@ == Seq::<Seq<char>>::empty(),
    {
        let m = Manifest { processed: Vec::new() };
        assert(m@ =~= Seq::<Seq<char>>::empty());
        m
    }

    /// A manifest holding the given hashes, as stored (for one read back from disk).
    pub fn from_hashes(hashes: Vec<String>) -> (m: Self)
        ensures
            m@ == texts(hashes@),
    {
        Manifest { processed: hashes }
    }

    /// The recorded hashes, in order (for writing the manifest back).
    pub fn hashes(&self) -> (h: &Vec<String>)
        ensures
            texts(h@) == self@,
    {
        &self.processed
    }

    /// Whether `hash` is recorded.
    pub fn contains(&self, hash: &str) -> (b: bool)
        ensures
            b == self@.contains(hash@),
    {
        let mut i: usize = 0;
        while i < self.processed.len()
            invariant
                i <= self.processed@.len(),
                forall|j: int| 0 <= j < i ==> self@[j] != hash@,
                self@ == texts(self.processed@),
            decreases self.processed@.len() - i,
        {
            assert(self@[i as int] == self.processed@[i as int]@);
            if same_text(self.processed[i].as_str(), hash) {
                assert(self@[i as int] == hash@);
                return true;
            }
            i = i + 1;
        }
        false
    }

    /// Records `hash` unless it is already there.
    pub fn insert(&mut self, hash: String)
        ensures
            final(self)@ == recorded(old(self)@, hash@),
    {
        if !self.contains(hash.as_str()) {
            self.processed.push(hash);
            assert(self@ =~= old(self)@.push(hash@));
        }
    }

    /// Number of recorded hashes.
    pub fn len(&self) -> (n: usize)
        ensures
            n == self@.len(),
    {
        self.processed.len()
    }
}

/// Law: a hash is recorded once it has been inserted.
pub proof fn lemma_insert_records(hashes: Seq<Seq<char>>, hash: Seq<char>)
    ensures
        recorded(hashes, hash).contains(hash),
{
    if !hashes.contains(hash) {
        assert(hashes.push(hash)[hashes.len() as int] == hash);
    }
}

/// Law: inserting the same hash twice is the same as inserting it once.
pub proof fn lemma_insert_idempotent(hashes: Seq<Seq<char>>, hash: Seq<char>)
    ensures
        recorded(recorded(hashes, hash), hash) == recorded(hashes, hash),
{
    lemma_insert_records(hashes, hash);
}

/// Law: inserting keeps a duplicate-free manifest duplicate-free, and every hash
/// recorded before stays recorded.
pub proof fn lemma_insert_keeps_distinct(hashes: Seq<Seq<char>>, hash: Seq<char>)
    requires
        distinct(hashes),
    ensures
        distinct(recorded(hashes, hash)),
        forall|h: Seq<char>| hashes.contains(h) ==> #[trigger] recorded(hashes, hash).contains(h),
{
    if !hashes.contains(hash) {
        let r = hashes.push(hash);
        assert forall|h: Seq<char>| hashes.contains(h) implies #[trigger] r.contains(h) by {
            let k = choose|k: int| 0 <= k < hashes.len() && hashes[k] == h;
            assert(r[k] == h);
        }
    }
}

/// What a run does with one file.
#[derive(Debug)]
pub enum Admission {
    /// The file's hash is in the manifest: skip it.
    Skip,
    /// Process the file, whose content hash and size in bytes are given.
    Process { hash: String, size: u64 },
}

/// The content hash of a file's bytes, as recorded in manifests and JSON output.
pub open spec fn content_hash(bytes: Seq<u8>) -> Seq<char> {
    hex_lower(blake3_digest(bytes))
}

/// Whether a run skips a file: not forced, and its content hash already recorded.
pub open spec fn skips(hashes: Seq<Seq<char>>, bytes: Seq<u8>, force: bool) -> bool {
    !force && hashes.contains(content_hash(bytes))
}

/// Decides whether a file with these contents is processed in this run: skipped
/// when its hash is recorded (unless `force`), otherwise processed, its hash
/// recorded and its size reported.
pub fn admit_file(manifest: &mut Manifest, bytes: &[u8], force: bool) -> (a: Admission)
    ensures
        skips(old(manifest)@, bytes@, force) ==> a is Skip && final(manifest)@ == old(manifest)@,
        !skips(old(manifest)@, bytes@, force) ==> (a matches Admission::Process { hash, size } && hash@
            == content_hash(bytes@) && size == bytes@.len()) && final(manifest)@ == recorded(
            old(manifest)@,
            content_hash(bytes@),
        ),
{
    let hash = hex_hash(bytes);
    if !force && manifest.contains(hash.as_str()) {
        return Admission::Skip;
    }
    let size = bytes.len() as u64;
    manifest.insert(hash.clone());
    Admission::Process { hash, size }
}

/// Law (idempotent runs): once a file has been admitted, the same contents are
/// skipped by any later run that is not forced.
pub proof fn lemma_admitted_then_skipped(hashes: Seq<Seq<char>>, bytes: Seq<u8>, force: bool)
    ensures
        skips(
            if skips(hashes, bytes, force) {
                hashes
            } else {
                recorded(hashes, content_hash(bytes))
            },
            bytes,
            false,
        ),
{
    lemma_insert_records(hashes, content_hash(bytes));
}

/// The manifest after one file of a run: unchanged when the file is skipped, its
/// hash recorded otherwise.
pub open spec fn admit_step(hashes: Seq<Seq<char>>, bytes: Seq<u8>, force: bool) -> Seq<Seq<char>> {
    if skips(hashes, bytes, force) {
        hashes
    } else {
        recorded(hashes, content_hash(bytes))
    }
}

/// The manifest after a run over files with these contents, in order.
pub open spec fn run_manifest(hashes: Seq<Seq<char>>, contents: Seq<Seq<u8>>, force: bool) -> Seq<
    Seq<char>,
>
    decreases contents.len(),
{
    if contents.len() == 0 {
        hashes
    } else {
        admit_step(run_manifest(hashes, contents.drop_last(), force), contents.last(), force)
    }
}

/// Whether the `i`-th file of a run is processed: it is judged against the
/// manifest as the files before it left it.
pub open spec fn run_admits(hashes: Seq<Seq<char>>, contents: Seq<Seq<u8>>, force: bool, i: int) -> bool {
    !skips(run_manifest(hashes, contents.take(i), force), contents[i], force)
}

/// How many files of a run are processed.
pub open spec fn run_processed(hashes: Seq<Seq<char>>, contents: Seq<Seq<u8>>, force: bool) -> nat
    decreases contents.len(),
{
    if contents.len() == 0 {
        0
    } else {
        run_processed(hashes, contents.drop_last(), force) + if skips(
            run_manifest(hashes, contents.drop_last(), force),
            contents.last(),
            force,
        ) {
            0nat
        } else {
            1nat
        }
    }
}

/// The contents of a run's files, as byte sequences.
pub open spec fn byte_seqs(contents: Seq<Vec<u8>>) -> Seq<Seq<u8>> {
    contents.map_values(|b: Vec<u8>| b@)
}

/// Whether a decision is the one for a file with these contents: processed, with
/// its hash and size, or skipped.
pub open spec fn decided(a: Admission, processed: bool, bytes: Seq<u8>) -> bool {
    if processed {
        a matches Admission::Process { hash, size } && hash@ == content_hash(bytes) && size
            == bytes.len()
    } else {
        a is Skip
    }
}

/// Decides, for every file of a run in order, whether it is processed, recording
/// the hashes of the processed ones. Returns the decisions and how many files are
/// processed.
pub fn admit_run(manifest: &mut Manifest, contents: &Vec<Vec<u8>>, force: bool) -> (r: (
    Vec<Admission>,
    usize,
))
    ensures
        final(manifest)@ == run_manifest(old(manifest)@, byte_seqs(contents@), force),
        r.0@.len() == contents@.len(),
        forall|i: int|
            0 <= i < contents@.len() ==> decided(
                #[trigger] r.0@[i],
                run_admits(old(manifest)@, byte_seqs(contents@), force, i),
                contents@[i]@,
            ),
        r.1 == run_processed(old(manifest)@, byte_seqs(contents@), force),
{
    let ghost start = manifest@;
    let ghost all = byte_seqs(contents@);
    let mut out: Vec<Admission> = Vec::new();
    let mut processed: usize = 0;
    let mut i: usize = 0;
    while i < contents.len()
        invariant
            i <= contents@.len(),
            all == byte_seqs(contents@),
            manifest@ == run_manifest(start, all.take(i as int), force),
            out@.len() == i,
            processed == run_processed(start, all.take(i as int), force),
            processed <= i,
            forall|k: int|
                0 <= k < i ==> decided(#[trigger] out@[k], run_admits(start, all, force, k), all[k]),
        decreases contents@.len() - i,
    {
        let ghost before = manifest@;
        assert(all.take(i + 1).drop_last() =~= all.take(i as int));
        assert(all.take(i + 1).last() == all[i as int]);
        assert(contents@[i as int]@ == all[i as int]);
        let a = admit_file(manifest, contents[i].as_slice(), force);
        let is_process = match &a {
            Admission::Process { .. } => true,
            Admission::Skip => false,
        };
        if is_process {
            processed = processed + 1;
        }
        out.push(a);
        i = i + 1;
    }
    assert(all.take(contents@.len() as int) =~= all);
    (out, processed)
}

/// The hashes a run leaves recorded include every hash recorded before.
pub proof fn lemma_run_keeps(hashes: Seq<Seq<char>>, contents: Seq<Seq<u8>>, force: bool, h: Seq<char>)
    requires
        hashes.contains(h),
    ensures
        run_manifest(hashes, contents, force).contains(h),
    decreases contents.len(),
{
    if contents.len() > 0 {
        let prev = run_manifest(hashes, contents.drop_last(), force);
        lemma_run_keeps(hashes, contents.drop_last(), force, h);
        if !skips(prev, contents.last(), force) && !prev.contains(content_hash(contents.last())) {
            let k = choose|k: int| 0 <= k < prev.len() && prev[k] == h;
            assert(prev.push(content_hash(contents.last()))[k] == h);
        }
    }
}

/// After a run, the hash of every file of the run is recorded.
pub proof fn lemma_run_records_all(hashes: Seq<Seq<char>>, contents: Seq<Seq<u8>>, force: bool, i: int)
    requires
        0 <= i < contents.len(),
    ensures
        run_manifest(hashes, contents, force).contains(content_hash(contents[i])),
    decreases contents.len(),
{
    let prev = run_manifest(hashes, contents.drop_last(), force);
    if i == contents.len() - 1 {
        lemma_insert_records(prev, content_hash(contents.last()));
    } else {
        lemma_run_records_all(hashes, contents.drop_last(), force, i);
        assert(contents.drop_last()[i] == contents[i]);
        let h = content_hash(contents[i]);
        if !skips(prev, contents.last(), force) && !prev.contains(content_hash(contents.last())) {
            let k = choose|k: int| 0 <= k < prev.len() && prev[k] == h;
            assert(prev.push(content_hash(contents.last()))[k] == h);
        }
    }
}

/// A run over files whose hashes are all recorded, not forced, processes nothing
/// and leaves the manifest as it was.
pub proof fn lemma_run_over_recorded(hashes: Seq<Seq<char>>, contents: Seq<Seq<u8>>)
    requires
        forall|i: int| 0 <= i < contents.len() ==> hashes.contains(#[trigger] content_hash(contents[i])),
    ensures
        run_manifest(hashes, contents, false) == hashes,
        run_processed(hashes, contents, false) == 0,
    decreases contents.len(),
{
    if contents.len() > 0 {
        let c = contents.drop_last();
        assert forall|i: int| 0 <= i < c.len() implies hashes.contains(#[trigger] content_hash(c[i])) by {
            assert(c[i] == contents[i]);
        }
        lemma_run_over_recorded(hashes, c);
        assert(hashes.contains(content_hash(contents[contents.len() - 1])));
    }
}

/// Law (idempotent runs): after a run over some files, a second run over the same,
/// unchanged files that is not forced processes none of them, skips every one and
/// leaves the manifest unchanged.
pub proof fn lemma_second_run_processes_nothing(hashes: Seq<Seq<char>>, contents: Seq<Seq<u8>>, force: bool)
    ensures
        ({
            let after = run_manifest(hashes, contents, force);
            &&& run_manifest(after, contents, false) == after
            &&& run_processed(after, contents, false) == 0
            &&& forall|i: int| 0 <= i < contents.len() ==> !#[trigger] run_admits(after, contents, false, i)
        }),
{
    let after = run_manifest(hashes, contents, force);
    assert forall|i: int| 0 <= i < contents.len() implies after.contains(#[trigger] content_hash(contents[i])) by {
        lemma_run_records_all(hashes, contents, force, i);
    }
    lemma_run_over_recorded(after, contents);
    assert forall|i: int| 0 <= i < contents.len() implies !#[trigger] run_admits(after, contents, false, i) by {
        let t = contents.take(i);
        assert forall|j: int| 0 <= j < t.len() implies after.contains(#[trigger] content_hash(t[j])) by {
            assert(t[j] == contents[j]);
        }
        lemma_run_over_recorded(after, t);
        assert(after.contains(content_hash(contents[i])));
    }
}

} // verus!
