//! Properties of the terminal UI's state machine that span several steps.

use vstd::prelude::*;
use crate::config::{all_tokenizers, TokenizerKind};
use crate::paths::{std_path_ends_with_parent_dir, std_path_parent};
use crate::tui::{
    dec_sat, step_down, first_index_from, key_step, next_max_tokens, next_tokenizer, processed_message, pump_step,
    refreshed, save_step, saved_step, selected_files_on_disk, start_step, toggled, Action, AppView,
    EffectView, KeyInput, ProbeView, PumpView, Screen, StatusView,
};

verus! {

/// Law: with nothing being edited, pressing `?` twice returns to the screen it
/// was pressed on, with everything else as it was (the remembered screen becomes
/// that screen).
pub proof fn lemma_help_twice(v: AppView, p: ProbeView)
    requires
        !v.editing_path,
        v.screen != Screen::Help,
    ensures
        key_step(key_step(v, KeyInput::Char('?'), p).0, KeyInput::Char('?'), p).0 == (AppView {
            prev_screen: v.screen,
            ..v
        }),
{
}

/// Law: outside path editing and the help screen, `q` and Esc quit and change
/// nothing.
pub proof fn lemma_quit_keys(v: AppView, p: ProbeView)
    requires
        !v.editing_path,
        v.screen != Screen::Help,
    ensures
        key_step(v, KeyInput::Char('q'), p) == (v, Action::Quit, EffectView::Nothing),
        key_step(v, KeyInput::Esc, p) == (v, Action::Quit, EffectView::Nothing),
{
}

/// Keys that edit the output path without ending the edit.
pub open spec fn is_edit_key(k: KeyInput) -> bool {
    k != KeyInput::Enter && k != KeyInput::Esc
}

/// The state after a sequence of keys, with the directory and selection probes
/// fixed.
pub open spec fn after_keys(v: AppView, keys: Seq<KeyInput>, p: ProbeView) -> AppView
    decreases keys.len(),
{
    if keys.len() == 0 {
        v
    } else {
        key_step(after_keys(v, keys.drop_last(), p), keys.last(), p).0
    }
}

proof fn lemma_edits_keep_editing(v: AppView, keys: Seq<KeyInput>, p: ProbeView)
    requires
        v.editing_path,
        forall|i: int| 0 <= i < keys.len() ==> is_edit_key(#[trigger] keys[i]),
    ensures
        after_keys(v, keys, p).editing_path,
        after_keys(v, keys, p).saved_path == v.saved_path,
    decreases keys.len(),
{
    if keys.len() > 0 {
        lemma_edits_keep_editing(v, keys.drop_last(), p);
        assert(is_edit_key(keys[keys.len() - 1]));
    }
}

/// Law: editing the output path and cancelling with Esc gives back the path it had
/// before editing began, whatever was typed or deleted in between; editing ends,
/// the status is cleared and the UI keeps running.
pub proof fn lemma_cancel_edit_restores_path(v: AppView, keys: Seq<KeyInput>, p: ProbeView)
    requires
        !v.editing_path,
        v.screen == Screen::Results,
        !v.processing,
        forall|i: int| 0 <= i < keys.len() ==> is_edit_key(#[trigger] keys[i]),
    ensures
        ({
            let started = key_step(v, KeyInput::Char('e'), p).0;
            let edited = after_keys(started, keys, p);
            let (done, action, effect) = key_step(edited, KeyInput::Esc, p);
            &&& done.output_path == v.output_path
            &&& !done.editing_path
            &&& done.status is None
            &&& action == Action::Continue
            &&& effect == EffectView::Nothing
        }),
{
    let started = key_step(v, KeyInput::Char('e'), p).0;
    assert(started.editing_path && started.saved_path == v.output_path);
    lemma_edits_keep_editing(started, keys, p);
}

/// The last position among `len` lines (0 when there are none).
pub open spec fn last_line(len: nat) -> int {
    if len == 0 {
        0
    } else {
        len - 1
    }
}

/// Law: in the file browser, Up and `k` move the cursor up one, stopping at the
/// top; Down and `j` move it down one, stopping at the last entry; nothing else
/// changes, the UI keeps running, and a cursor within the entries stays within
/// them.
pub proof fn lemma_cursor_stays_in_range(v: AppView, key: KeyInput, p: ProbeView)
    requires
        !v.editing_path,
        v.screen == Screen::FileBrowser,
        key == KeyInput::Up || key == KeyInput::Down || key == KeyInput::Char('j') || key
            == KeyInput::Char('k'),
    ensures
        ({
            let (w, a, e) = key_step(v, key, p);
            &&& a == Action::Continue
            &&& e == EffectView::Nothing
            &&& (key == KeyInput::Up || key == KeyInput::Char('k')) ==> w == (AppView {
                cursor: dec_sat(v.cursor),
                ..v
            })
            &&& (key == KeyInput::Down || key == KeyInput::Char('j')) ==> w == (AppView {
                cursor: step_down(v.cursor, v.dir_entries.len()),
                ..v
            })
            &&& w.cursor <= v.cursor + 1
            &&& v.cursor <= last_line(v.dir_entries.len()) ==> w.cursor <= last_line(
                v.dir_entries.len(),
            )
        }),
{
}

/// Law: on the results screen, Up and `k` scroll up one line, stopping at the top;
/// Down and `j` scroll down one, stopping at the last chunk; nothing else changes,
/// the UI keeps running, and a scroll position within the chunks stays within them.
pub proof fn lemma_scroll_stays_in_range(v: AppView, key: KeyInput, p: ProbeView)
    requires
        !v.editing_path,
        v.screen == Screen::Results,
        key == KeyInput::Up || key == KeyInput::Down || key == KeyInput::Char('j') || key
            == KeyInput::Char('k'),
    ensures
        ({
            let (w, a, e) = key_step(v, key, p);
            &&& a == Action::Continue
            &&& e == EffectView::Nothing
            &&& (key == KeyInput::Up || key == KeyInput::Char('k')) ==> w == (AppView {
                scroll: dec_sat(v.scroll),
                ..v
            })
            &&& (key == KeyInput::Down || key == KeyInput::Char('j')) ==> w == (AppView {
                scroll: step_down(v.scroll, v.chunks.len()),
                ..v
            })
            &&& w.scroll <= v.scroll + 1
            &&& v.scroll <= last_line(v.chunks.len()) ==> w.scroll <= last_line(v.chunks.len())
        }),
{
}

/// Law: in the file browser, Enter on an entry that ends in `..` (the first entry
/// a listing shows when the directory has a parent) moves to the parent of the
/// current directory and asks for its listing.
pub proof fn lemma_enter_parent_entry(v: AppView, p: ProbeView)
    requires
        !v.editing_path,
        v.screen == Screen::FileBrowser,
        v.cursor < v.dir_entries.len(),
        std_path_ends_with_parent_dir(v.dir_entries[v.cursor as int]),
    ensures
        key_step(v, KeyInput::Enter, p) == (
            AppView {
                current_dir: match std_path_parent(v.current_dir) {
                    Some(q) => q,
                    None => v.current_dir,
                },
                ..v
            },
            Action::Continue,
            EffectView::ListDirectory,
        ),
{
}

/// The max-tokens presets.
pub open spec fn is_preset(mt: u32) -> bool {
    mt == 128 || mt == 256 || mt == 512 || mt == 1024
}

/// Law: cycling max tokens always lands on a preset, and from a preset the four
/// presets come in turn (128, 256, 512, 1024, then 128 again), four different
/// values before the fourth press brings it back.
pub proof fn lemma_max_tokens_cycle(mt: u32)
    ensures
        is_preset(next_max_tokens(mt)),
        is_preset(mt) ==> next_max_tokens(next_max_tokens(next_max_tokens(next_max_tokens(mt))))
            == mt,
        is_preset(mt) ==> ({
            let m1 = next_max_tokens(mt);
            let m2 = next_max_tokens(m1);
            let m3 = next_max_tokens(m2);
            &&& mt != m1 && mt != m2 && mt != m3 && m1 != m2 && m1 != m3 && m2 != m3
        }),
        next_max_tokens(128) == 256 && next_max_tokens(256) == 512 && next_max_tokens(512) == 1024
            && next_max_tokens(1024) == 128,
{
}

/// Law: the tokenizer key cycles through all six tokenizers in their documented
/// order (cl100k_base, o200k_base, r50k_base, p50k_base, p50k_edit, o200k_harmony,
/// then back to cl100k_base): from any tokenizer, the first six presses give six
/// different tokenizers, so every one is reachable, and the sixth brings it back.
pub proof fn lemma_tokenizer_cycle(t: TokenizerKind)
    ensures
        forall|i: int|
            0 <= i < 6 ==> next_tokenizer(#[trigger] all_tokenizers()[i]) == all_tokenizers()[(i + 1)
                % 6],
        ({
            let t1 = next_tokenizer(t);
            let t2 = next_tokenizer(t1);
            let t3 = next_tokenizer(t2);
            let t4 = next_tokenizer(t3);
            let t5 = next_tokenizer(t4);
            let visited = seq![t, t1, t2, t3, t4, t5];
            &&& forall|i: int, j: int| 0 <= i < j < 6 ==> visited[i] != visited[j]
            &&& forall|u: TokenizerKind| visited.contains(u)
            &&& next_tokenizer(t5) == t
        }),
{
    let t1 = next_tokenizer(t);
    let t2 = next_tokenizer(t1);
    let t3 = next_tokenizer(t2);
    let t4 = next_tokenizer(t3);
    let t5 = next_tokenizer(t4);
    let visited = seq![t, t1, t2, t3, t4, t5];
    assert forall|u: TokenizerKind| visited.contains(u) by {
        if u == t { assert(visited[0] == u); }
        else if u == t1 { assert(visited[1] == u); }
        else if u == t2 { assert(visited[2] == u); }
        else if u == t3 { assert(visited[3] == u); }
        else if u == t4 { assert(visited[4] == u); }
        else { assert(visited[5] == u); }
    }
}

proof fn lemma_first_index<T>(s: Seq<T>, x: T, i: int)
    requires
        0 <= i <= s.len(),
    ensures
        i <= first_index_from(s, x, i) <= s.len(),
        first_index_from(s, x, i) < s.len() ==> s[first_index_from(s, x, i)] == x,
        forall|j: int| i <= j < first_index_from(s, x, i) ==> s[j] != x,
    decreases s.len() - i,
{
    if i < s.len() && s[i] != x {
        lemma_first_index(s, x, i + 1);
    }
}

/// Law: toggling an item (a PII pattern on the configuration screen, a file in
/// the browser) flips whether it is in the list, in a list where nothing occurs
/// twice, and keeps the list free of repeats.
pub proof fn lemma_toggle_flips<T>(s: Seq<T>, x: T)
    requires
        crate::manifest::distinct(s),
    ensures
        toggled(s, x).contains(x) == !s.contains(x),
        crate::manifest::distinct(toggled(s, x)),
{
    lemma_first_index(s, x, 0);
    let k = first_index_from(s, x, 0);
    if k < s.len() {
        let r = s.remove(k);
        assert(s.contains(x));
        if r.contains(x) {
            let j = choose|j: int| 0 <= j < r.len() && r[j] == x;
            if j < k {
                assert(r[j] == s[j]);
            } else {
                assert(r[j] == s[j + 1]);
            }
        }
        assert forall|a: int, b: int| 0 <= a < b < r.len() implies r[a] != r[b] by {
            let sa = if a < k { a } else { a + 1 };
            let sb = if b < k { b } else { b + 1 };
            assert(r[a] == s[sa] && r[b] == s[sb]);
        }
    } else {
        let r = s.push(x);
        assert(r[s.len() as int] == x);
        assert(!s.contains(x)) by {
            if s.contains(x) {
                let j = choose|j: int| 0 <= j < s.len() && s[j] == x;
            }
        }
        assert forall|a: int, b: int| 0 <= a < b < r.len() implies r[a] != r[b] by {
            if b == s.len() {
                assert(r[a] == s[a]);
            }
        }
    }
}

/// Law: toggling an item that is not in the list, twice, gives back the same list.
pub proof fn lemma_toggle_twice<T>(s: Seq<T>, x: T)
    requires
        !s.contains(x),
    ensures
        toggled(toggled(s, x), x) == s,
{
    lemma_first_index(s, x, 0);
    let k = first_index_from(s, x, 0);
    assert(k == s.len()) by {
        if k < s.len() {
            assert(s[k] == x);
        }
    }
    let r = s.push(x);
    lemma_first_index(r, x, 0);
    let k2 = first_index_from(r, x, 0);
    assert(r[s.len() as int] == x);
    assert(k2 == s.len()) by {
        if k2 < s.len() {
            assert(r[k2] == s[k2]);
            assert(s.contains(x));
        }
    }
    assert(r.remove(s.len() as int) =~= s);
}

/// `idx` lists, in increasing order, exactly the positions of `sel` whose entry
/// in `is_file` says the path is a file, and `r` holds the selected paths at
/// those positions.
pub open spec fn picks_flagged(r: Seq<Seq<char>>, sel: Seq<Seq<char>>, is_file: Seq<bool>, idx: Seq<int>) -> bool {
    &&& idx.len() == r.len()
    &&& forall|k: int|
        0 <= k < idx.len() ==> {
            &&& 0 <= #[trigger] idx[k] < sel.len()
            &&& idx[k] < is_file.len()
            &&& is_file[idx[k]]
            &&& r[k] == sel[idx[k]]
        }
    &&& forall|k1: int, k2: int| 0 <= k1 < k2 < idx.len() ==> #[trigger] idx[k1] < #[trigger] idx[k2]
    &&& forall|i: int|
        0 <= i < sel.len() && i < is_file.len() && #[trigger] is_file[i] ==> exists|k: int|
            0 <= k < idx.len() && #[trigger] idx[k] == i
}

proof fn flagged_positions(sel: Seq<Seq<char>>, is_file: Seq<bool>) -> (idx: Seq<int>)
    ensures
        picks_flagged(selected_files_on_disk(sel, is_file), sel, is_file, idx),
    decreases sel.len(),
{
    if sel.len() == 0 {
        Seq::empty()
    } else {
        let d = sel.drop_last();
        let n = sel.len() - 1;
        let idx0 = flagged_positions(d, is_file);
        let r0 = selected_files_on_disk(d, is_file);
        let r = selected_files_on_disk(sel, is_file);
        if n < is_file.len() && is_file[n] {
            let idx = idx0.push(n);
            assert forall|k: int| 0 <= k < idx.len() implies {
                &&& 0 <= #[trigger] idx[k] < sel.len()
                &&& idx[k] < is_file.len()
                &&& is_file[idx[k]]
                &&& r[k] == sel[idx[k]]
            } by {
                if k < idx0.len() {
                    assert(idx[k] == idx0[k]);
                    assert(r[k] == r0[k]);
                    assert(d[idx0[k]] == sel[idx0[k]]);
                }
            }
            assert forall|k1: int, k2: int| 0 <= k1 < k2 < idx.len() implies #[trigger] idx[k1]
                < #[trigger] idx[k2] by {
                assert(idx[k1] == idx0[k1]);
                if k2 < idx0.len() {
                    assert(idx[k2] == idx0[k2]);
                } else {
                    assert(0 <= #[trigger] idx0[k1] < d.len());
                }
            }
            assert forall|i: int| 0 <= i < sel.len() && i < is_file.len() && #[trigger] is_file[i]
                implies exists|k: int| 0 <= k < idx.len() && #[trigger] idx[k] == i by {
                if i == n {
                    assert(idx[idx0.len() as int] == i);
                } else {
                    let k = choose|k: int| 0 <= k < idx0.len() && #[trigger] idx0[k] == i;
                    assert(idx[k] == i);
                }
            }
            idx
        } else {
            assert forall|k: int| 0 <= k < idx0.len() implies {
                &&& 0 <= #[trigger] idx0[k] < sel.len()
                &&& idx0[k] < is_file.len()
                &&& is_file[idx0[k]]
                &&& r[k] == sel[idx0[k]]
            } by {
                assert(d[idx0[k]] == sel[idx0[k]]);
            }
            assert forall|i: int| 0 <= i < sel.len() && i < is_file.len() && #[trigger] is_file[i]
                implies exists|k: int| 0 <= k < idx0.len() && #[trigger] idx0[k] == i by {
                assert(i != n);
            }
            idx0
        }
    }
}

/// Law: the files handed to the worker are exactly the selected paths that are
/// files, in selection order: the `k`-th file is the selection at the `k`-th
/// position (in increasing order) whose probe says "file", and every such position
/// appears. In particular there are as many files as such positions, so two
/// selected files give two paths.
pub proof fn lemma_processed_files_are_the_selected_files(sel: Seq<Seq<char>>, is_file: Seq<bool>)
    ensures
        exists|idx: Seq<int>| picks_flagged(selected_files_on_disk(sel, is_file), sel, is_file, idx),
{
    let idx = flagged_positions(sel, is_file);
}

/// Law: a result delivered while it was awaited ends processing and replaces the
/// chunks shown, from the top.
pub proof fn lemma_delivered_result_shown(v: AppView, chunks: Seq<crate::chunks::ChunkRecord>, err: Option<Seq<char>>)
    requires
        v.awaiting_result,
    ensures
        ({
            let w = pump_step(v, PumpView::Finished(chunks, err));
            &&& !w.processing
            &&& !w.awaiting_result
            &&& w.chunks == chunks
            &&& w.scroll == 0
            &&& w.status == Some(
                match err {
                    Some(e) => StatusView::Error(e),
                    None => StatusView::Success(processed_message(chunks.len())),
                },
            )
        }),
{
}

/// Law: starting processing with at least one selected file leaves the UI
/// awaiting a result, so the next delivered result is shown.
pub proof fn lemma_start_then_deliver(
    v: AppView,
    is_file: Seq<bool>,
    chunks: Seq<crate::chunks::ChunkRecord>,
    err: Option<Seq<char>>,
)
    requires
        !v.processing,
        selected_files_on_disk(v.selected_files, is_file).len() > 0,
    ensures
        ({
            let (started, effect) = start_step(v, is_file);
            &&& effect == EffectView::Process(selected_files_on_disk(v.selected_files, is_file))
            &&& started.processing && started.screen == Screen::Results
            &&& pump_step(started, PumpView::Finished(chunks, err)).chunks == chunks
            &&& !pump_step(started, PumpView::Finished(chunks, err)).processing
        }),
{
}

/// Law: screen navigation: Tab goes from the browser to the configuration and
/// from there to the results, and from the results back to the configuration;
/// `b` goes back to the browser from either of those.
pub proof fn lemma_screen_navigation(v: AppView, p: ProbeView)
    requires
        !v.editing_path,
    ensures
        v.screen == Screen::FileBrowser ==> key_step(v, KeyInput::Tab, p).0.screen == Screen::Config,
        v.screen == Screen::Config ==> key_step(v, KeyInput::Tab, p).0.screen == Screen::Results,
        v.screen == Screen::Results ==> key_step(v, KeyInput::Tab, p).0.screen == Screen::Config,
        v.screen == Screen::Config ==> key_step(v, KeyInput::Char('b'), p).0.screen
            == Screen::FileBrowser,
        v.screen == Screen::Results ==> key_step(v, KeyInput::Char('b'), p).0.screen
            == Screen::FileBrowser,
{
}

/// Something that happens to the terminal UI: a key, a request to start
/// processing, a render tick with what the worker delivered, a request to save,
/// the outcome of a save, or a new directory listing.
pub enum UiEvent {
    Key(KeyInput, ProbeView),
    Start(Seq<bool>),
    Pump(PumpView),
    Save,
    Saved(Result<(), Seq<char>>),
    Refresh(Seq<(Seq<char>, bool)>),
}

/// The state after one event, and the effect it asks of the caller.
pub open spec fn event_step(v: AppView, e: UiEvent) -> (AppView, EffectView) {
    match e {
        UiEvent::Key(k, p) => {
            let (w, _a, x) = key_step(v, k, p);
            (w, x)
        },
        UiEvent::Start(f) => start_step(v, f),
        UiEvent::Pump(ev) => (pump_step(v, ev), EffectView::Nothing),
        UiEvent::Save => save_step(v),
        UiEvent::Saved(r) => (saved_step(v, r), EffectView::Nothing),
        UiEvent::Refresh(l) => (refreshed(v, l), EffectView::Nothing),
    }
}

/// The state after a sequence of events.
pub open spec fn after_events(v: AppView, evs: Seq<UiEvent>) -> AppView
    decreases evs.len(),
{
    if evs.len() == 0 {
        v
    } else {
        event_step(after_events(v, evs.drop_last()), evs.last()).0
    }
}

/// Whether an event starts a background job (its effect hands files to a worker).
pub open spec fn starts_job(v: AppView, e: UiEvent) -> bool {
    event_step(v, e).1 is Process
}

/// Whether an event absorbs a job's result: a render tick that delivers a result,
/// or finds the worker gone, while one is awaited.
pub open spec fn absorbs_job(v: AppView, e: UiEvent) -> bool {
    e matches UiEvent::Pump(ev) && !(ev is Pending) && v.awaiting_result
}

/// Jobs started and not yet absorbed over a sequence of events.
pub open spec fn pending_jobs(v: AppView, evs: Seq<UiEvent>) -> int
    decreases evs.len(),
{
    if evs.len() == 0 {
        0
    } else {
        let prev = after_events(v, evs.drop_last());
        pending_jobs(v, evs.drop_last()) + (if starts_job(prev, evs.last()) { 1int } else { 0int })
            - (if absorbs_job(prev, evs.last()) { 1int } else { 0int })
    }
}

/// One event keeps `processing` equal to whether a result is awaited; a job is
/// started only when none is pending, and then `processing` turns on; it turns off
/// only when a result is absorbed.
pub proof fn lemma_event_keeps_job_state(v: AppView, e: UiEvent)
    requires
        v.processing == v.awaiting_result,
    ensures
        ({
            let w = event_step(v, e).0;
            &&& w.processing == w.awaiting_result
            &&& starts_job(v, e) ==> !v.processing && w.processing
            &&& absorbs_job(v, e) ==> v.processing && !w.processing
            &&& (!starts_job(v, e) && !absorbs_job(v, e)) ==> w.processing == v.processing
        }),
{
}

/// Law: in every state the terminal UI reaches from a state with no job pending,
/// `processing` is on exactly while one background job's result is awaited; at
/// most one job is ever pending, a job is started only when none is, and asking to
/// start while processing changes nothing.
pub proof fn lemma_one_pending_job(v: AppView, evs: Seq<UiEvent>)
    requires
        !v.processing,
        !v.awaiting_result,
    ensures
        ({
            let w = after_events(v, evs);
            &&& w.processing == w.awaiting_result
            &&& pending_jobs(v, evs) == if w.processing { 1int } else { 0int }
            &&& forall|f: Seq<bool>| w.processing ==> #[trigger] start_step(w, f) == (w, EffectView::Nothing)
        }),
    decreases evs.len(),
{
    if evs.len() > 0 {
        lemma_one_pending_job(v, evs.drop_last());
        lemma_event_keeps_job_state(after_events(v, evs.drop_last()), evs.last());
    }
}

} // verus!
