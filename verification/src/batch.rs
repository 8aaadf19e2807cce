//! Decisions of a headless run: which collected paths are kept, which
//! configuration each file is processed with, where output goes, and how the
//! tool is launched.

use vstd::prelude::*;
use crate::chunks::{processed_view, ChunkRecord, ProcessedChunk};
use crate::config::{ConfigView, PipelineConfig};
use crate::format::{file_format, infer_format};
use crate::manifest::distinct;
use crate::text::{owned, same_text, texts};

verus! {

/// The paths with repeats removed; the first occurrence of each is kept, in order.
pub open spec fn first_occurrences(s: Seq<Seq<char>>) -> Seq<Seq<char>>
    decreases s.len(),
{
    if s.len() == 0 {
        s
    } else {
        let r = first_occurrences(s.drop_last());
        if s.drop_last().contains(s.last()) {
            r
        } else {
            r.push(s.last())
        }
    }
}

/// Law: deduplication keeps exactly the paths that were collected, each once.
pub proof fn lemma_first_occurrences(s: Seq<Seq<char>>)
    ensures
        distinct(first_occurrences(s)),
        forall|x: Seq<char>| #[trigger] first_occurrences(s).contains(x) == s.contains(x),
    decreases s.len(),
{
    if s.len() > 0 {
        let d = s.drop_last();
        lemma_first_occurrences(d);
        let r = first_occurrences(d);
        let x = s.last();
        assert forall|y: Seq<char>| #[trigger] first_occurrences(s).contains(y) == s.contains(y) by {
            assert(r.contains(y) == d.contains(y));
            if d.contains(x) {
                assert(first_occurrences(s) == r);
                if s.contains(y) && !d.contains(y) {
                    let k = choose|k: int| 0 <= k < s.len() && s[k] == y;
                    if k < d.len() {
                        assert(d[k] == y);
                    }
                    assert(y == x);
                }
                if d.contains(y) {
                    let k = choose|k: int| 0 <= k < d.len() && d[k] == y;
                    assert(s[k] == y);
                }
            } else {
                let t = r.push(x);
                assert(first_occurrences(s) == t);
                assert(t[r.len() as int] == x);
                if t.contains(y) {
                    let m = choose|m: int| 0 <= m < t.len() && t[m] == y;
                    if m < r.len() {
                        assert(r[m] == y);
                        let k = choose|k: int| 0 <= k < d.len() && d[k] == y;
                        assert(s[k] == y);
                    } else {
                        assert(s[s.len() - 1] == y);
                    }
                }
                if s.contains(y) {
                    let k = choose|k: int| 0 <= k < s.len() && s[k] == y;
                    if k < d.len() {
                        assert(d[k] == y);
                        let m = choose|m: int| 0 <= m < r.len() && r[m] == y;
                        assert(t[m] == y);
                    }
                }
            }
        }
        if !d.contains(x) {
            let t = r.push(x);
            assert forall|i: int, j: int| 0 <= i < j < t.len() implies t[i] != t[j] by {
                if j == r.len() {
                    assert(t[i] == r[i]);
                    assert(r.contains(r[i]));
                }
            }
        }
    }
}

/// Removes repeated paths (the same file may be named by `--input` and a
/// `--glob`), keeping the first occurrence of each in order.
pub fn dedup_paths(paths: Vec<String>) -> (out: Vec<String>)
    ensures
        texts(out@) == first_occurrences(texts(paths@)),
{
    let ghost all = texts(paths@);
    let mut out: Vec<String> = Vec::new();
    let mut i: usize = 0;
    assert(all.take(0) =~= Seq::<Seq<char>>::empty());
    while i < paths.len()
        invariant
            all == texts(paths@),
            i <= paths@.len(),
            texts(out@) == first_occurrences(all.take(i as int)),
        decreases paths@.len() - i,
    {
        proof {
            lemma_first_occurrences(all.take(i as int));
        }
        let ghost prefix = all.take(i as int);
        assert(all.take(i + 1).drop_last() =~= prefix);
        assert(all.take(i + 1).last() == paths@[i as int]@);
        let mut seen = false;
        let mut j: usize = 0;
        while j < out.len()
            invariant
                i < paths@.len(),
                texts(out@) == first_occurrences(prefix),
                first_occurrences(prefix).contains(paths@[i as int]@) == prefix.contains(
                    paths@[i as int]@,
                ),
                j <= out@.len(),
                !seen ==> forall|k: int| 0 <= k < j ==> texts(out@)[k] != paths@[i as int]@,
                seen ==> texts(out@).contains(paths@[i as int]@),
            decreases out@.len() - j,
        {
            if same_text(out[j].as_str(), paths[i].as_str()) {
                assert(texts(out@)[j as int] == paths@[i as int]@);
                seen = true;
            }
            j = j + 1;
        }
        assert(seen == prefix.contains(paths@[i as int]@)) by {
            if !seen && texts(out@).contains(paths@[i as int]@) {
                let k = choose|k: int| 0 <= k < out@.len() && texts(out@)[k] == paths@[i as int]@;
            }
        }
        if !seen {
            let ghost prev = out@;
            out.push(paths[i].clone());
            assert(texts(out@) =~= texts(prev).push(paths@[i as int]@));
        }
        i = i + 1;
    }
    assert(all.take(paths@.len() as int) =~= all);
    out
}

/// The configuration one file is processed with: the base configuration labelled
/// with the file's path, its format the one given by `--format` or else inferred
/// from the extension.
pub fn file_config(base: &PipelineConfig, path: &str) -> (cfg: PipelineConfig)
    ensures
        cfg@ == (ConfigView {
            format: file_format(base@, path@),
            source_label: Some(path@),
            ..base@
        }),
{
    let mut cfg = base.duplicate();
    cfg.source_label = Some(owned(path));
    infer_format(path, cfg)
}

/// Chunks written without a source hash (the interactive path does not hash
/// files): each chunk paired with an empty hash.
pub fn without_hashes(chunks: Vec<ChunkRecord>) -> (out: Vec<ProcessedChunk>)
    ensures
        processed_view(out@) == chunks@.map_values(|c: ChunkRecord| (Seq::<char>::empty(), c)),
{
    let ghost all = chunks@;
    let n = chunks.len();
    let mut chunks = chunks;
    let mut out: Vec<ProcessedChunk> = Vec::new();
    let mut i: usize = 0;
    while i < n
        invariant
            n == all.len(),
            i <= n,
            chunks@ == all.subrange(i as int, n as int),
            out@.len() == i,
            processed_view(out@) == all.take(i as int).map_values(
                |c: ChunkRecord| (Seq::<char>::empty(), c),
            ),
        decreases n - i,
    {
        let c = chunks.remove(0);
        assert(c == all[i as int]);
        assert(chunks@ =~= all.subrange(i + 1, n as int));
        let ghost prev = out@;
        out.push(ProcessedChunk { chunk: c, source_hash: String::new() });
        assert(processed_view(out@) =~= all.take(i + 1).map_values(
            |c: ChunkRecord| (Seq::<char>::empty(), c),
        )) by {
            assert forall|q: int| 0 <= q < i + 1 implies #[trigger] processed_view(out@)[q]
                == all.take(i + 1).map_values(|c: ChunkRecord| (Seq::<char>::empty(), c))[q] by {
                if q < i {
                    assert(out@[q] == prev[q]);
                    assert(processed_view(prev)[q] == all.take(i as int).map_values(
                        |c: ChunkRecord| (Seq::<char>::empty(), c),
                    )[q]);
                }
            }
        }
        i = i + 1;
    }
    assert(all.take(n as int) =~= all);
    out
}

/// The output path of a headless run: `--output`, or `output.json`.
pub fn output_path_or_default(output: Option<&str>) -> (p: String)
    ensures
        p@ == match output {
            Some(o) => o@,
            None => "output.json"@,
        },
{
    match output {
        Some(o) => owned(o),
        None => owned("output.json"),
    }
}

/// Whether output goes to standard output (the path `-`) rather than a file.
pub fn writes_to_stdout(output: &str) -> (b: bool)
    ensures
        b == (output@ == "-"@),
{
    same_text(output, "-")
}

/// How the tool starts.
#[derive(Debug, Clone, Copy, PartialEq, Eq, Structural)]
pub enum LaunchMode {
    /// The interactive terminal UI.
    Tui,
    /// Headless with nothing to read: print the help text.
    Help,
    /// Headless processing.
    Headless,
}

/// The launch mode: headless when an input or a glob is given or `--no-tui` is
/// set; then help when there is nothing to read; the terminal UI otherwise.
pub open spec fn launch_mode_of(has_input: bool, glob_count: nat, no_tui: bool) -> LaunchMode {
    if !(has_input || glob_count > 0 || no_tui) {
        LaunchMode::Tui
    } else if !has_input && glob_count == 0 {
        LaunchMode::Help
    } else {
        LaunchMode::Headless
    }
}

/// Chooses how the tool starts from the command-line flags.
pub fn launch_mode(has_input: bool, glob_count: usize, no_tui: bool) -> (m: LaunchMode)
    ensures
        m == launch_mode_of(has_input, glob_count as nat, no_tui),
{
    let headless = has_input || glob_count > 0 || no_tui;
    if !headless {
        LaunchMode::Tui
    } else if !has_input && glob_count == 0 {
        LaunchMode::Help
    } else {
        LaunchMode::Headless
    }
}

/// Law: an `--input` or at least one `--glob` always means headless processing,
/// whatever `--no-tui` says; the help text is printed exactly when neither is given
/// and `--no-tui` is set; the terminal UI starts exactly when none of the three is
/// given.
pub proof fn lemma_launch_mode(has_input: bool, glob_count: nat, no_tui: bool)
    ensures
        (has_input || glob_count > 0) ==> launch_mode_of(has_input, glob_count, no_tui)
            == LaunchMode::Headless,
        launch_mode_of(has_input, glob_count, no_tui) == LaunchMode::Help <==> (!has_input
            && glob_count == 0 && no_tui),
        launch_mode_of(has_input, glob_count, no_tui) == LaunchMode::Tui <==> (!has_input
            && glob_count == 0 && !no_tui),
{
}

/// Worker threads for `--jobs n`: `n`, but at least one.
pub fn worker_threads(jobs: usize) -> (n: usize)
    ensures
        n == if jobs == 0 {
            1
        } else {
            jobs
        },
{
    if jobs == 0 {
        1
    } else {
        jobs
    }
}

/// Seconds between watch scans for `--poll-interval s`: `s`, but at least one.
pub fn poll_seconds(interval: u64) -> (s: u64)
    ensures
        s == if interval == 0 {
            1
        } else {
            interval
        },
{
    if interval == 0 {
        1
    } else {
        interval
    }
}

} // verus!
