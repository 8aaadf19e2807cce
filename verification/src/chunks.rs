//! Chunks produced by the pipeline, as this tool handles them: gathering the
//! results of several files, numbering chunks across them, and the rows written
//! as JSON with their deduplication hashes.

use vstd::prelude::*;
use crate::config::{copy_texts, opt_text};
use crate::hashing::{blake3_digest, hex_hash, hex_lower};
use crate::text::texts;

verus! {

/// A PII finding inside a chunk. The confidence score, a 32-bit float, is carried
/// by its bit pattern (`f32::to_bits`).
#[derive(Debug)]
pub struct PiiRecord {
    pub entity: String,
    pub offset_start: u32,
    pub offset_end: u32,
    pub confidence_bits: u32,
    pub anchors_hit: Vec<String>,
}

/// One chunk of a document. `section_kind` is the lower-case name of the kind of
/// section the chunk comes from (e.g. `paragraph`).
#[derive(Debug)]
pub struct ChunkRecord {
    pub chunk_index: u32,
    pub chunk_id: String,
    pub text: String,
    pub token_count: u16,
    pub source_path: String,
    pub heading_path: Vec<String>,
    pub section_kind: String,
    pub char_offset_start: u32,
    pub char_offset_end: u32,
    pub pii: Vec<PiiRecord>,
}

/// Two findings that hold the same values.
pub open spec fn same_finding(a: PiiRecord, b: PiiRecord) -> bool {
    &&& a.entity@ == b.entity@
    &&& a.offset_start == b.offset_start
    &&& a.offset_end == b.offset_end
    &&& a.confidence_bits == b.confidence_bits
    &&& texts(a.anchors_hit@) == texts(b.anchors_hit@)
}

/// Two lists of findings that hold the same values, in the same order.
pub open spec fn same_findings(a: Seq<PiiRecord>, b: Seq<PiiRecord>) -> bool {
    &&& a.len() == b.len()
    &&& forall|i: int| 0 <= i < a.len() ==> #[trigger] same_finding(a[i], b[i])
}

impl PiiRecord {
    /// A copy of the finding.
    pub fn duplicate(&self) -> (p: Self)
        ensures
            same_finding(p, *self),
    {
        PiiRecord {
            entity: self.entity.clone(),
            offset_start: self.offset_start,
            offset_end: self.offset_end,
            confidence_bits: self.confidence_bits,
            anchors_hit: copy_texts(&self.anchors_hit),
        }
    }
}

/// A copy of a list of findings.
pub fn copy_findings(v: &Vec<PiiRecord>) -> (c: Vec<PiiRecord>)
    ensures
        same_findings(c@, v@),
{
    let mut c: Vec<PiiRecord> = Vec::new();
    let mut i: usize = 0;
    while i < v.len()
        invariant
            i <= v@.len(),
            c@.len() == i,
            forall|j: int| 0 <= j < i ==> #[trigger] same_finding(c@[j], v@[j]),
        decreases v@.len() - i,
    {
        c.push(v[i].duplicate());
        i = i + 1;
    }
    c
}

/// A chunk paired with the content hash of the file it came from (empty when the
/// hash is not known).
#[derive(Debug)]
pub struct ProcessedChunk {
    pub chunk: ChunkRecord,
    pub source_hash: String,
}

/// A chunk as written to JSON output, carrying deduplication keys: the hash of its
/// source file and the hash of its own text.
#[derive(Debug)]
pub struct JsonChunk {
    pub chunk_index: u32,
    pub chunk_id: String,
    pub text: String,
    pub token_count: u16,
    pub source_path: String,
    pub heading_path: Vec<String>,
    pub section_kind: String,
    pub pii: Vec<PiiRecord>,
    pub source_hash: String,
    pub chunk_hash: String,
}

/// The hash that identifies a chunk's text: BLAKE3 of its UTF-8 bytes, lower-case
/// hex.
pub open spec fn text_hash(text: Seq<char>) -> Seq<char> {
    hex_lower(blake3_digest(vstd::utf8::encode_utf8(text)))
}

/// The JSON row of a chunk: the chunk's fields, `source_hash` as given and
/// `chunk_hash` the hash of the chunk's text.
pub open spec fn is_json_row(j: JsonChunk, c: ChunkRecord, source_hash: Seq<char>) -> bool {
    &&& j.chunk_index == c.chunk_index
    &&& j.chunk_id@ == c.chunk_id@
    &&& j.text@ == c.text@
    &&& j.token_count == c.token_count
    &&& j.source_path@ == c.source_path@
    &&& texts(j.heading_path@) == texts(c.heading_path@)
    &&& j.section_kind@ == c.section_kind@
    &&& same_findings(j.pii@, c.pii@)
    &&& j.source_hash@ == source_hash
    &&& j.chunk_hash@ == text_hash(c.text@)
}

/// What a chunk says of itself, field by field: index, id, text, token count,
/// source path, heading path and section kind.
pub open spec fn chunk_fields(c: ChunkRecord) -> (u32, Seq<char>, Seq<char>, u16, Seq<char>, Seq<
    Seq<char>,
>, Seq<char>) {
    (
        c.chunk_index,
        c.chunk_id@,
        c.text@,
        c.token_count,
        c.source_path@,
        texts(c.heading_path@),
        c.section_kind@,
    )
}

/// The same fields read back from a JSON row.
pub open spec fn row_fields(j: JsonChunk) -> (u32, Seq<char>, Seq<char>, u16, Seq<char>, Seq<
    Seq<char>,
>, Seq<char>) {
    (
        j.chunk_index,
        j.chunk_id@,
        j.text@,
        j.token_count,
        j.source_path@,
        texts(j.heading_path@),
        j.section_kind@,
    )
}

/// Law: a chunk's JSON row gives the chunk back: reading the row's fields yields
/// the chunk's fields of the same names, with the same findings; the row's
/// `chunk_hash` is the hash of the text the row carries, and its `source_hash` the
/// file hash it was written with. Two rows written for the same chunk and file agree
/// in everything.
pub proof fn lemma_json_row_gives_chunk_back(
    j: JsonChunk,
    k: JsonChunk,
    c: ChunkRecord,
    source_hash: Seq<char>,
)
    requires
        is_json_row(j, c, source_hash),
        is_json_row(k, c, source_hash),
    ensures
        row_fields(j) == chunk_fields(c),
        same_findings(j.pii@, c.pii@),
        j.chunk_hash@ == text_hash(j.text@),
        j.source_hash@ == source_hash,
        row_fields(j) == row_fields(k),
        j.chunk_hash@ == k.chunk_hash@,
        j.source_hash@ == k.source_hash@,
{
}

impl JsonChunk {
    /// The JSON row for a chunk from a file with the given content hash.
    pub fn from_chunk(c: &ChunkRecord, source_hash: &str) -> (j: Self)
        ensures
            is_json_row(j, *c, source_hash@),
            row_fields(j) == chunk_fields(*c),
    {
        let chunk_hash = hex_hash(c.text.as_str().as_bytes());
        let heading_path = copy_texts(&c.heading_path);
        JsonChunk {
            chunk_index: c.chunk_index,
            chunk_id: c.chunk_id.clone(),
            text: c.text.clone(),
            token_count: c.token_count,
            source_path: c.source_path.clone(),
            heading_path,
            section_kind: c.section_kind.clone(),
            pii: copy_findings(&c.pii),
            source_hash: String::from_str(source_hash),
            chunk_hash,
        }
    }
}

/// The JSON rows of processed chunks, one per chunk, in order.
pub fn json_rows(processed: &Vec<ProcessedChunk>) -> (rows: Vec<JsonChunk>)
    ensures
        rows@.len() == processed@.len(),
        forall|i: int|
            0 <= i < rows@.len() ==> #[trigger] is_json_row(
                rows@[i],
                processed@[i].chunk,
                processed@[i].source_hash@,
            ),
{
    let mut rows: Vec<JsonChunk> = Vec::new();
    let mut i: usize = 0;
    while i < processed.len()
        invariant
            i <= processed@.len(),
            rows@.len() == i,
            forall|j: int|
                0 <= j < i ==> #[trigger] is_json_row(
                    rows@[j],
                    processed@[j].chunk,
                    processed@[j].source_hash@,
                ),
        decreases processed@.len() - i,
    {
        let p = &processed[i];
        rows.push(JsonChunk::from_chunk(&p.chunk, p.source_hash.as_str()));
        i = i + 1;
    }
    rows
}

/// Pairs every chunk with the content hash of its file, keeping the order of files
/// and of chunks within each file.
pub open spec fn tagged(files: Seq<(Seq<char>, Seq<ChunkRecord>)>) -> Seq<(Seq<char>, ChunkRecord)>
    decreases files.len(),
{
    if files.len() == 0 {
        Seq::empty()
    } else {
        tagged(files.drop_last()) + files.last().1.map_values(
            |c: ChunkRecord| (files.last().0, c),
        )
    }
}

/// View of the per-file results of a batch: each file's content hash and chunks.
pub open spec fn file_batch(files: Seq<(String, Vec<ChunkRecord>)>) -> Seq<(Seq<char>, Seq<ChunkRecord>)> {
    files.map_values(|f: (String, Vec<ChunkRecord>)| (f.0@, f.1@))
}

/// View of processed chunks: source hash and chunk.
pub open spec fn processed_view(p: Seq<ProcessedChunk>) -> Seq<(Seq<char>, ChunkRecord)> {
    p.map_values(|x: ProcessedChunk| (x.source_hash@, x.chunk))
}

/// Flattens per-file results (content hash, chunks) into one list of chunks, each
/// paired with its file's hash.
pub fn tag_with_hashes(files: Vec<(String, Vec<ChunkRecord>)>) -> (out: Vec<ProcessedChunk>)
    ensures
        processed_view(out@) == tagged(file_batch(files@)),
{
    let ghost all = file_batch(files@);
    let mut files = files;
    let mut out: Vec<ProcessedChunk> = Vec::new();
    let mut i: usize = 0;
    let n = files.len();
    assert(all.take(0) =~= Seq::<(Seq<char>, Seq<ChunkRecord>)>::empty());
    while i < n
        invariant
            n == all.len(),
            i <= n,
            files@.len() == n - i,
            file_batch(files@) == all.subrange(i as int, n as int),
            processed_view(out@) == tagged(all.take(i as int)),
        decreases n - i,
    {
        let ghost old_files = files@;
        assert(file_batch(old_files)[0] == all[i as int]);
        let (hash, chunks) = files.remove(0);
        assert(file_batch(files@) =~= all.subrange(i + 1, n as int)) by {
            assert forall|q: int| 0 <= q < files@.len() implies #[trigger] file_batch(files@)[q]
                == all.subrange(i + 1, n as int)[q] by {
                assert(files@[q] == old_files[q + 1]);
                assert(file_batch(old_files)[q + 1] == all[i + 1 + q]);
            }
        }
        let ghost before = out@;
        let mut chunks = chunks;
        let ghost cs = chunks@;
        let mut k: usize = 0;
        let m = chunks.len();
        while k < m
            invariant
                m == cs.len(),
                k <= m,
                chunks@ == cs.subrange(k as int, m as int),
                out@.len() == before.len() + k,
                forall|j: int| 0 <= j < before.len() ==> #[trigger] out@[j] == before[j],
                forall|j: int|
                    before.len() <= j < before.len() + k ==> #[trigger] out@[j].chunk == cs[j
                        - before.len()] && out@[j].source_hash@ == hash@,
            decreases m - k,
        {
            let c = chunks.remove(0);
            assert(c == cs[k as int]);
            let tag = hash.clone();
            out.push(ProcessedChunk { chunk: c, source_hash: tag });
            assert(out@[before.len() + k].chunk == cs[k as int]);
            assert(chunks@ =~= cs.subrange(k + 1, m as int));
            k = k + 1;
        }
        assert(all.take(i + 1).drop_last() =~= all.take(i as int));
        assert(processed_view(out@) =~= tagged(all.take(i + 1))) by {
            let t = tagged(all.take(i as int));
            let extra = cs.map_values(|c: ChunkRecord| (hash@, c));
            assert(all.take(i + 1).last() == (hash@, cs));
            assert(tagged(all.take(i + 1)) == t + extra);
            assert(processed_view(before) == t);
            assert forall|j: int| 0 <= j < out@.len() implies processed_view(out@)[j] == (t
                + extra)[j] by {
                if j < before.len() {
                    assert(processed_view(before)[j] == t[j]);
                    assert(out@[j] == before[j]);
                } else {
                    assert(out@[j].chunk == cs[j - before.len()]);
                    assert(extra[j - before.len()] == (hash@, cs[j - before.len()]));
                }
            }
        }
        i = i + 1;
    }
    assert(all.take(n as int) =~= all);
    out
}

/// What processing a set of files produced: all chunks, and the last error met.
#[derive(Debug)]
pub struct ProcessOutcome {
    pub chunks: Vec<ChunkRecord>,
    pub error: Option<String>,
}

/// The chunks of every file that was processed, in file order.
pub open spec fn ok_chunks(results: Seq<Result<Vec<ChunkRecord>, String>>) -> Seq<ChunkRecord>
    decreases results.len(),
{
    if results.len() == 0 {
        Seq::empty()
    } else {
        ok_chunks(results.drop_last()) + match results.last() {
            Ok(v) => v@,
            Err(_) => Seq::empty(),
        }
    }
}

/// The message of the last file that failed, if any failed.
pub open spec fn last_error(results: Seq<Result<Vec<ChunkRecord>, String>>) -> Option<Seq<char>>
    decreases results.len(),
{
    if results.len() == 0 {
        None
    } else {
        match results.last() {
            Err(e) => Some(e@),
            Ok(_) => last_error(results.drop_last()),
        }
    }
}

/// Chunks renumbered `0, 1, 2, ...` in order (indices wrap at 2^32, as `as u32`
/// does); nothing else changes.
pub open spec fn numbered(s: Seq<ChunkRecord>) -> Seq<ChunkRecord> {
    Seq::new(s.len(), |i: int| ChunkRecord { chunk_index: i as u32, ..s[i] })
}

/// Renumbers chunk indices sequentially, in place.
pub fn renumber(chunks: &mut Vec<ChunkRecord>)
    ensures
        final(chunks)@ == numbered(old(chunks)@),
{
    let mut i: usize = 0;
    let ghost orig = chunks@;
    while i < chunks.len()
        invariant
            chunks@.len() == orig.len(),
            i <= orig.len(),
            forall|j: int| 0 <= j < i ==> #[trigger] chunks@[j] == numbered(orig)[j],
            forall|j: int| i <= j < orig.len() ==> #[trigger] chunks@[j] == orig[j],
        decreases orig.len() - i,
    {
        chunks[i].chunk_index = i as u32;
        i = i + 1;
    }
    assert(chunks@ =~= numbered(orig));
}

/// Gathers the per-file results of processing several files: the chunks of every
/// file that succeeded, concatenated in order and renumbered sequentially across
/// files, and the message of the last file that failed.
pub fn assemble_outcome(results: Vec<Result<Vec<ChunkRecord>, String>>) -> (out: ProcessOutcome)
    ensures
        out.chunks@ == numbered(ok_chunks(results@)),
        opt_text(out.error) == last_error(results@),
{
    let ghost all = results@;
    let n = results.len();
    let mut results = results;
    let mut chunks: Vec<ChunkRecord> = Vec::new();
    let mut error: Option<String> = None;
    let mut i: usize = 0;
    assert(all.take(0) =~= Seq::<Result<Vec<ChunkRecord>, String>>::empty());
    while i < n
        invariant
            n == all.len(),
            i <= n,
            results@ == all.subrange(i as int, n as int),
            chunks@ == ok_chunks(all.take(i as int)),
            opt_text(error) == last_error(all.take(i as int)),
        decreases n - i,
    {
        let r = results.remove(0);
        assert(r == all[i as int]);
        assert(results@ =~= all.subrange(i + 1, n as int));
        assert(all.take(i + 1).drop_last() =~= all.take(i as int));
        assert(all.take(i + 1).last() == r);
        match r {
            Ok(v) => {
                let mut v = v;
                chunks.append(&mut v);
                assert(chunks@ =~= ok_chunks(all.take(i + 1)));
            },
            Err(e) => {
                error = Some(e);
                assert(chunks@ =~= ok_chunks(all.take(i + 1)));
            },
        }
        i = i + 1;
    }
    assert(all.take(n as int) =~= all);
    renumber(&mut chunks);
    ProcessOutcome { chunks, error }
}

/// Sum of the token counts of the chunks.
pub open spec fn token_total(s: Seq<ChunkRecord>) -> nat
    decreases s.len(),
{
    if s.len() == 0 {
        0
    } else {
        token_total(s.drop_last()) + s.last().token_count as nat
    }
}

/// Total and average tokens per chunk (integer division; 0 for no chunks).
pub fn token_stats(chunks: &Vec<ChunkRecord>) -> (stats: (u64, u64))
    requires
        token_total(chunks@) <= u64::MAX,
    ensures
        stats.0 == token_total(chunks@),
        stats.1 == if chunks@.len() == 0 {
            0
        } else {
            token_total(chunks@) / chunks@.len()
        },
{
    let mut total: u64 = 0;
    let mut i: usize = 0;
    assert(chunks@.take(0) =~= Seq::<ChunkRecord>::empty());
    while i < chunks.len()
        invariant
            i <= chunks@.len(),
            total == token_total(chunks@.take(i as int)),
            token_total(chunks@) <= u64::MAX,
        decreases chunks@.len() - i,
    {
        assert(chunks@.take(i + 1).drop_last() =~= chunks@.take(i as int));
        proof {
            lemma_token_total_prefix(chunks@, i as int + 1);
        }
        total = total + chunks[i].token_count as u64;
        i = i + 1;
    }
    assert(chunks@.take(chunks@.len() as int) =~= chunks@);
    let avg = if chunks.len() == 0 {
        0
    } else {
        total / (chunks.len() as u64)
    };
    (total, avg)
}

proof fn lemma_token_total_prefix(s: Seq<ChunkRecord>, k: int)
    requires
        0 <= k <= s.len(),
    ensures
        token_total(s.take(k)) <= token_total(s),
    decreases s.len() - k,
{
    if k < s.len() {
        lemma_token_total_prefix(s, k + 1);
        assert(s.take(k + 1).drop_last() =~= s.take(k));
    } else {
        assert(s.take(k) =~= s);
    }
}

} // verus!
