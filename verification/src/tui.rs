//! The interactive terminal UI as a state machine: screens, key handling, the
//! file selection, configuration editing, background processing and saving.
//!
//! Each step is a function from the current state and one event to the next state
//! and what the caller must do (list a directory, start processing, write a file).
//! Reading the terminal, the file system and the worker thread is left to the
//! caller, which hands back what it found.

use vstd::prelude::*;
use crate::chunks::{ChunkRecord, ProcessOutcome};
use crate::config::{
    build_config, config_error_message, default_config, opt_text, BuiltInPattern, CliOverrides,
    ConfigView, PipelineConfig, TokenizerKind,
};
use crate::format::{
    lemma_label_names_writer, lower_extension, output_format_of, output_label_for_path,
    output_label_of, writer_label,
};
use crate::listing::{browser_order, listing_view, sort_listing, DirListing};
use crate::paths::{
    path_ends_with_parent_dir, path_join, path_parent, std_path_ends_with_parent_dir,
    std_path_join, std_path_parent,
};
use crate::text::{decimal, decimal_text, owned, pop_char, push_char, same_text, texts};

verus! {

/// Which screen is displayed.
#[derive(Debug, Clone, Copy, PartialEq, Eq, Structural)]
pub enum Screen {
    FileBrowser,
    Config,
    Results,
    Help,
}

/// What the main loop does after a key.
#[derive(Debug, Clone, Copy, PartialEq, Eq, Structural)]
pub enum Action {
    Quit,
    /// Keep running.
    Continue,
}

/// A status message shown to the user, coloured by kind.
#[derive(Debug)]
pub enum Status {
    Success(String),
    Error(String),
}

/// View of a [`Status`].
pub enum StatusView {
    Success(Seq<char>),
    Error(Seq<char>),
}

impl View for Status {
    type V = StatusView;

    open spec fn view(&self) -> StatusView {
        match self {
            Status::Success(m) => StatusView::Success(m@),
            Status::Error(m) => StatusView::Error(m@),
        }
    }
}

/// View of an optional status.
pub open spec fn opt_status(s: Option<Status>) -> Option<StatusView> {
    match s {
        Some(st) => Some(st@),
        None => None,
    }
}

/// A key press, as far as the UI tells keys apart (modifiers are ignored).
#[derive(Debug, Clone, Copy, PartialEq, Eq, Structural)]
pub enum KeyInput {
    Char(char),
    Enter,
    Esc,
    Backspace,
    Up,
    Down,
    Tab,
    BackTab,
    Other,
}

/// What the caller found on disk just before the key, for the decisions that need
/// it: whether the entry under the cursor is a directory or a file, and whether
/// each selected path is a file.
#[derive(Debug)]
pub struct KeyProbe {
    pub entry_is_dir: bool,
    pub entry_is_file: bool,
    pub selected_is_file: Vec<bool>,
}

/// View of a [`KeyProbe`].
pub struct ProbeView {
    pub entry_is_dir: bool,
    pub entry_is_file: bool,
    pub selected_is_file: Seq<bool>,
}

impl View for KeyProbe {
    type V = ProbeView;

    open spec fn view(&self) -> ProbeView {
        ProbeView {
            entry_is_dir: self.entry_is_dir,
            entry_is_file: self.entry_is_file,
            selected_is_file: self.selected_is_file@,
        }
    }
}

/// Work a step asks of the caller.
#[derive(Debug)]
pub enum Effect {
    /// Nothing.
    Nothing,
    /// The current directory changed: list it and hand the listing to
    /// [`AppState::refresh_dir`].
    ListDirectory,
    /// Run the pipeline over these files in the background; report with
    /// [`AppState::pump`].
    Process(Vec<String>),
    /// Write the chunks to this path; report with [`AppState::finish_save`].
    Save(String),
}

/// View of an [`Effect`].
pub enum EffectView {
    Nothing,
    ListDirectory,
    Process(Seq<Seq<char>>),
    Save(Seq<char>),
}

impl View for Effect {
    type V = EffectView;

    open spec fn view(&self) -> EffectView {
        match self {
            Effect::Nothing => EffectView::Nothing,
            Effect::ListDirectory => EffectView::ListDirectory,
            Effect::Process(files) => EffectView::Process(texts(files@)),
            Effect::Save(path) => EffectView::Save(path@),
        }
    }
}

/// What the background processing has delivered at a render tick.
#[derive(Debug)]
pub enum PumpEvent {
    /// Nothing yet.
    Pending,
    /// The result arrived.
    Finished(ProcessOutcome),
    /// The worker went away without a result.
    Disconnected,
}

/// Top-level TUI application state.
#[derive(Debug)]
pub struct AppState {
    pub screen: Screen,
    /// The screen the help screen was opened from.
    pub prev_screen: Screen,
    pub current_dir: String,
    pub dir_entries: Vec<String>,
    pub cursor: usize,
    pub selected_files: Vec<String>,
    pub config: PipelineConfig,
    pub chunks: Vec<ChunkRecord>,
    pub status: Option<Status>,
    pub scroll: usize,
    pub processing: bool,
    pub output_path: String,
    pub editing_path: bool,
    /// Spinner frame counter, advanced each render tick.
    pub tick: usize,
    /// Whether a background job's result is awaited.
    pub awaiting_result: bool,
    /// The output path as it was when editing began (restored by Esc).
    pub saved_path: String,
}

/// Mathematical view of an [`AppState`].
#[verifier::ext_equal]
pub struct AppView {
    pub screen: Screen,
    pub prev_screen: Screen,
    pub current_dir: Seq<char>,
    pub dir_entries: Seq<Seq<char>>,
    pub cursor: usize,
    pub selected_files: Seq<Seq<char>>,
    pub config: ConfigView,
    pub chunks: Seq<ChunkRecord>,
    pub status: Option<StatusView>,
    pub scroll: usize,
    pub processing: bool,
    pub output_path: Seq<char>,
    pub editing_path: bool,
    pub tick: usize,
    pub awaiting_result: bool,
    pub saved_path: Seq<char>,
}

impl View for AppState {
    type V = AppView;

    open spec fn view(&self) -> AppView {
        AppView {
            screen: self.screen,
            prev_screen: self.prev_screen,
            current_dir: self.current_dir@,
            dir_entries: texts(self.dir_entries@),
            cursor: self.cursor,
            selected_files: texts(self.selected_files@),
            config: self.config@,
            chunks: self.chunks@,
            status: opt_status(self.status),
            scroll: self.scroll,
            processing: self.processing,
            output_path: self.output_path@,
            editing_path: self.editing_path,
            tick: self.tick,
            awaiting_result: self.awaiting_result,
            saved_path: self.saved_path@,
        }
    }
}

// ---------------------------------------------------------------------------
// Messages
// ---------------------------------------------------------------------------

/// Shown when processing is asked for with no file selected.
pub open spec fn no_files_message() -> Seq<char> {
    "no files selected \u{2014} use Space in the file browser first"@
}

/// Shown when saving is asked for with no chunks.
pub open spec fn nothing_to_save_message() -> Seq<char> {
    "nothing to save \u{2014} no chunks"@
}

/// Shown when the worker disappears without a result.
pub open spec fn worker_lost_message() -> Seq<char> {
    "processing thread terminated unexpectedly"@
}

/// Shown when processing finished without error.
pub open spec fn processed_message(count: nat) -> Seq<char> {
    "Processed "@ + decimal(count) + " chunks"@
}

/// Shown when saving succeeded.
pub open spec fn saved_message(count: nat, path: Seq<char>) -> Seq<char> {
    "Saved "@ + decimal(count) + " chunks to "@ + path
}

/// Shown when saving failed.
pub open spec fn save_failed_message(err: Seq<char>) -> Seq<char> {
    "save failed: "@ + err
}

/// Shown when the configuration could not be built at start-up.
pub open spec fn load_failed_message(err: Seq<char>) -> Seq<char> {
    "config load failed ("@ + err + "); using defaults"@
}

// ---------------------------------------------------------------------------
// Specification of the steps
// ---------------------------------------------------------------------------

/// `x - 1`, stopping at zero.
pub open spec fn dec_sat(x: usize) -> usize {
    if x == 0 {
        0
    } else {
        (x - 1) as usize
    }
}

/// Moving a position down one line: one further, but not past the last of `len`
/// lines (0 when there are none).
pub open spec fn step_down(x: usize, len: nat) -> usize {
    let last = if len == 0 {
        0
    } else {
        (len - 1) as usize
    };
    if x + 1 <= last {
        (x + 1) as usize
    } else {
        last
    }
}

/// Index of the first occurrence of `x` at or after `i` (`s.len()` if none).
pub open spec fn first_index_from<T>(s: Seq<T>, x: T, i: int) -> int
    decreases s.len() - i,
{
    if i < 0 || i >= s.len() {
        s.len() as int
    } else if s[i] == x {
        i
    } else {
        first_index_from(s, x, i + 1)
    }
}

/// Toggling membership: removes the first occurrence of `x`, or appends `x` when
/// it is absent.
pub open spec fn toggled<T>(s: Seq<T>, x: T) -> Seq<T> {
    let k = first_index_from(s, x, 0);
    if k < s.len() {
        s.remove(k)
    } else {
        s.push(x)
    }
}

/// The max-tokens presets the configuration screen cycles through:
/// 128 -> 256 -> 512 -> 1024 -> 128 (values in between move to the next preset).
pub open spec fn next_max_tokens(mt: u32) -> u32 {
    if mt <= 128 {
        256
    } else if mt <= 256 {
        512
    } else if mt <= 512 {
        1024
    } else {
        128
    }
}

/// The tokenizer cycle of the configuration screen.
pub open spec fn next_tokenizer(t: TokenizerKind) -> TokenizerKind {
    match t {
        TokenizerKind::Cl100kBase => TokenizerKind::O200kBase,
        TokenizerKind::O200kBase => TokenizerKind::R50kBase,
        TokenizerKind::R50kBase => TokenizerKind::P50kBase,
        TokenizerKind::P50kBase => TokenizerKind::P50kEdit,
        TokenizerKind::P50kEdit => TokenizerKind::O200kHarmony,
        TokenizerKind::O200kHarmony => TokenizerKind::Cl100kBase,
    }
}

/// The selected paths that are files, in selection order.
pub open spec fn selected_files_on_disk(sel: Seq<Seq<char>>, is_file: Seq<bool>) -> Seq<Seq<char>>
    decreases sel.len(),
{
    if sel.len() == 0 {
        Seq::empty()
    } else {
        let r = selected_files_on_disk(sel.drop_last(), is_file);
        let i = sel.len() - 1;
        if i < is_file.len() && is_file[i] {
            r.push(sel.last())
        } else {
            r
        }
    }
}

/// Path-edit mode: Enter confirms, Esc restores the path saved when editing began,
/// Backspace deletes the last character, a character is appended.
pub open spec fn edit_step(v: AppView, key: KeyInput) -> AppView {
    match key {
        KeyInput::Enter => AppView { editing_path: false, status: None, ..v },
        KeyInput::Esc => AppView {
            editing_path: false,
            output_path: v.saved_path,
            status: None,
            ..v
        },
        KeyInput::Backspace => AppView {
            output_path: if v.output_path.len() > 0 {
                v.output_path.drop_last()
            } else {
                v.output_path
            },
            ..v
        },
        KeyInput::Char(c) => AppView { output_path: v.output_path.push(c), ..v },
        _ => v,
    }
}

/// `?`: opens the help screen, remembering where it was opened, or closes it.
pub open spec fn help_toggled(v: AppView) -> AppView {
    if v.screen == Screen::Help {
        AppView { screen: v.prev_screen, ..v }
    } else {
        AppView { prev_screen: v.screen, screen: Screen::Help, ..v }
    }
}

/// The entry under the cursor, if any.
pub open spec fn entry_at_cursor(v: AppView) -> Option<Seq<char>> {
    if v.cursor < v.dir_entries.len() {
        Some(v.dir_entries[v.cursor as int])
    } else {
        None
    }
}

/// The file browser's response to a key.
pub open spec fn browser_step(v: AppView, key: KeyInput, p: ProbeView) -> (AppView, Action, EffectView) {
    if key == KeyInput::Char('q') || key == KeyInput::Esc {
        (v, Action::Quit, EffectView::Nothing)
    } else if key == KeyInput::Up || key == KeyInput::Char('k') {
        (AppView { cursor: dec_sat(v.cursor), ..v }, Action::Continue, EffectView::Nothing)
    } else if key == KeyInput::Down || key == KeyInput::Char('j') {
        (
            AppView { cursor: step_down(v.cursor, v.dir_entries.len()), ..v },
            Action::Continue,
            EffectView::Nothing,
        )
    } else if key == KeyInput::Enter {
        match entry_at_cursor(v) {
            None => (v, Action::Continue, EffectView::Nothing),
            Some(path) => if p.entry_is_dir || std_path_ends_with_parent_dir(path) {
                let dir = if std_path_ends_with_parent_dir(path) {
                    match std_path_parent(v.current_dir) {
                        Some(q) => q,
                        None => v.current_dir,
                    }
                } else {
                    path
                };
                (AppView { current_dir: dir, ..v }, Action::Continue, EffectView::ListDirectory)
            } else if p.entry_is_file {
                (
                    AppView { selected_files: toggled(v.selected_files, path), ..v },
                    Action::Continue,
                    EffectView::Nothing,
                )
            } else {
                (v, Action::Continue, EffectView::Nothing)
            },
        }
    } else if key == KeyInput::Char(' ') {
        match entry_at_cursor(v) {
            Some(path) => if p.entry_is_file {
                (
                    AppView { selected_files: toggled(v.selected_files, path), ..v },
                    Action::Continue,
                    EffectView::Nothing,
                )
            } else {
                (v, Action::Continue, EffectView::Nothing)
            },
            None => (v, Action::Continue, EffectView::Nothing),
        }
    } else if key == KeyInput::Tab {
        (AppView { screen: Screen::Config, ..v }, Action::Continue, EffectView::Nothing)
    } else {
        (v, Action::Continue, EffectView::Nothing)
    }
}

/// Starting background processing: nothing while already processing; an error
/// when no selected path is a file; otherwise the results screen is cleared and
/// the files are handed to the caller.
pub open spec fn start_step(v: AppView, is_file: Seq<bool>) -> (AppView, EffectView) {
    if v.processing {
        (v, EffectView::Nothing)
    } else {
        let files = selected_files_on_disk(v.selected_files, is_file);
        if files.len() == 0 {
            (
                AppView { status: Some(StatusView::Error(no_files_message())), ..v },
                EffectView::Nothing,
            )
        } else {
            (
                AppView {
                    processing: true,
                    chunks: Seq::empty(),
                    status: None,
                    scroll: 0,
                    screen: Screen::Results,
                    awaiting_result: true,
                    ..v
                },
                EffectView::Process(files),
            )
        }
    }
}

/// The state with `pat` toggled in the configuration's pattern list.
pub open spec fn with_pattern_toggled(v: AppView, pat: BuiltInPattern) -> AppView {
    AppView { config: ConfigView { patterns: toggled(v.config.patterns, pat), ..v.config }, ..v }
}

/// The configuration screen's response to a key.
pub open spec fn config_step(v: AppView, key: KeyInput, p: ProbeView) -> (AppView, Action, EffectView) {
    if key == KeyInput::Char('q') || key == KeyInput::Esc {
        (v, Action::Quit, EffectView::Nothing)
    } else if key == KeyInput::BackTab || key == KeyInput::Char('b') {
        (AppView { screen: Screen::FileBrowser, ..v }, Action::Continue, EffectView::Nothing)
    } else if key == KeyInput::Tab {
        (AppView { screen: Screen::Results, ..v }, Action::Continue, EffectView::Nothing)
    } else if key == KeyInput::Char('m') {
        (
            AppView {
                config: ConfigView { max_tokens: next_max_tokens(v.config.max_tokens), ..v.config },
                ..v
            },
            Action::Continue,
            EffectView::Nothing,
        )
    } else if key == KeyInput::Char('t') {
        (
            AppView {
                config: ConfigView { tokenizer: next_tokenizer(v.config.tokenizer), ..v.config },
                ..v
            },
            Action::Continue,
            EffectView::Nothing,
        )
    } else if key == KeyInput::Char('e') {
        (with_pattern_toggled(v, BuiltInPattern::Email), Action::Continue, EffectView::Nothing)
    } else if key == KeyInput::Char('s') {
        (with_pattern_toggled(v, BuiltInPattern::Ssn), Action::Continue, EffectView::Nothing)
    } else if key == KeyInput::Char('a') {
        (with_pattern_toggled(v, BuiltInPattern::AwsKey), Action::Continue, EffectView::Nothing)
    } else if key == KeyInput::Enter && v.selected_files.len() > 0 {
        let (w, e) = start_step(v, p.selected_is_file);
        (w, Action::Continue, e)
    } else {
        (v, Action::Continue, EffectView::Nothing)
    }
}

/// Asking to save: an error when there are no chunks, otherwise the caller is
/// asked to write them to the output path.
pub open spec fn save_step(v: AppView) -> (AppView, EffectView) {
    if v.chunks.len() == 0 {
        (AppView { status: Some(StatusView::Error(nothing_to_save_message())), ..v }, EffectView::Nothing)
    } else {
        (v, EffectView::Save(v.output_path))
    }
}

/// The results screen's response to a key.
pub open spec fn results_step(v: AppView, key: KeyInput) -> (AppView, Action, EffectView) {
    if key == KeyInput::Char('q') || key == KeyInput::Esc {
        (v, Action::Quit, EffectView::Nothing)
    } else if key == KeyInput::Up || key == KeyInput::Char('k') {
        (AppView { scroll: dec_sat(v.scroll), ..v }, Action::Continue, EffectView::Nothing)
    } else if key == KeyInput::Down || key == KeyInput::Char('j') {
        (
            AppView { scroll: step_down(v.scroll, v.chunks.len()), ..v },
            Action::Continue,
            EffectView::Nothing,
        )
    } else if key == KeyInput::Tab {
        (AppView { screen: Screen::Config, ..v }, Action::Continue, EffectView::Nothing)
    } else if key == KeyInput::BackTab || key == KeyInput::Char('b') {
        (AppView { screen: Screen::FileBrowser, ..v }, Action::Continue, EffectView::Nothing)
    } else if key == KeyInput::Char('e') && !v.processing {
        (
            AppView { editing_path: true, saved_path: v.output_path, status: None, ..v },
            Action::Continue,
            EffectView::Nothing,
        )
    } else if key == KeyInput::Char('s') && !v.processing {
        let (w, e) = save_step(v);
        (w, Action::Continue, e)
    } else {
        (v, Action::Continue, EffectView::Nothing)
    }
}

/// Whether `key` moves the browser cursor or the results scroll down from the
/// largest position a `usize` holds (where adding one overflows).
pub open spec fn moves_down_at_limit(v: AppView, key: KeyInput) -> bool {
    &&& !v.editing_path
    &&& key != KeyInput::Char('?')
    &&& (key == KeyInput::Down || key == KeyInput::Char('j'))
    &&& ((v.screen == Screen::FileBrowser && v.cursor == usize::MAX) || (v.screen
        == Screen::Results && v.scroll == usize::MAX))
}

/// Whether a key moves down from the largest position (see [`moves_down_at_limit`]).
pub fn would_overflow(app: &AppState, key: KeyInput) -> (b: bool)
    ensures
        b == moves_down_at_limit(app@, key),
{
    !app.editing_path && key != KeyInput::Char('?') && (key == KeyInput::Down || key
        == KeyInput::Char('j')) && ((app.screen == Screen::FileBrowser && app.cursor == usize::MAX)
        || (app.screen == Screen::Results && app.scroll == usize::MAX))
}

/// The response to a key: path editing takes every key while active; `?` toggles
/// help anywhere; any other key closes help; otherwise the current screen decides.
pub open spec fn key_step(v: AppView, key: KeyInput, p: ProbeView) -> (AppView, Action, EffectView) {
    if v.editing_path {
        (edit_step(v, key), Action::Continue, EffectView::Nothing)
    } else if key == KeyInput::Char('?') {
        (help_toggled(v), Action::Continue, EffectView::Nothing)
    } else if v.screen == Screen::Help {
        (AppView { screen: v.prev_screen, ..v }, Action::Continue, EffectView::Nothing)
    } else {
        match v.screen {
            Screen::FileBrowser => browser_step(v, key, p),
            Screen::Config => config_step(v, key, p),
            Screen::Results => results_step(v, key),
            Screen::Help => (v, Action::Continue, EffectView::Nothing),
        }
    }
}

/// What the background processing delivered, as a view.
pub enum PumpView {
    Pending,
    Finished(Seq<ChunkRecord>, Option<Seq<char>>),
    Disconnected,
}

impl View for PumpEvent {
    type V = PumpView;

    open spec fn view(&self) -> PumpView {
        match self {
            PumpEvent::Pending => PumpView::Pending,
            PumpEvent::Finished(o) => PumpView::Finished(o.chunks@, opt_text(o.error)),
            PumpEvent::Disconnected => PumpView::Disconnected,
        }
    }
}

/// One render tick: the spinner advances (wrapping); while a result is awaited, a
/// delivered result replaces the chunks and reports success or the error, and a
/// vanished worker ends processing with an error.
pub open spec fn pump_step(v: AppView, ev: PumpView) -> AppView {
    let t = AppView { tick: if v.tick == usize::MAX { 0 } else { (v.tick + 1) as usize }, ..v };
    if !v.awaiting_result {
        t
    } else {
        match ev {
            PumpView::Pending => t,
            PumpView::Finished(chunks, err) => AppView {
                processing: false,
                awaiting_result: false,
                chunks,
                scroll: 0,
                status: Some(
                    match err {
                        Some(e) => StatusView::Error(e),
                        None => StatusView::Success(processed_message(chunks.len())),
                    },
                ),
                ..t
            },
            PumpView::Disconnected => AppView {
                processing: false,
                awaiting_result: false,
                status: Some(StatusView::Error(worker_lost_message())),
                ..t
            },
        }
    }
}

/// The status after the caller tried to write the chunks.
pub open spec fn saved_step(v: AppView, result: Result<(), Seq<char>>) -> AppView {
    AppView {
        status: Some(
            match result {
                Ok(_) => StatusView::Success(saved_message(v.chunks.len(), v.output_path)),
                Err(e) => StatusView::Error(save_failed_message(e)),
            },
        ),
        ..v
    }
}

/// The browser entries for a directory: `..` first when the directory has a
/// parent, then the listing in browser order; the cursor goes to the top.
pub open spec fn refreshed(v: AppView, listing: Seq<(Seq<char>, bool)>) -> AppView {
    let up = if std_path_parent(v.current_dir) is Some {
        seq![std_path_join(v.current_dir, ".."@)]
    } else {
        Seq::empty()
    };
    AppView {
        dir_entries: up + browser_order(listing).map_values(|e: (Seq<char>, bool)| e.0),
        cursor: 0,
        ..v
    }
}

/// The configuration and status at start-up: the layered configuration with the
/// command-line flags applied, or the defaults and an error status when either
/// step failed.
pub open spec fn startup(layered: Result<ConfigView, Seq<char>>, o: crate::config::OverridesView) -> (
    ConfigView,
    Option<StatusView>,
) {
    match layered {
        Ok(base) => match crate::config::layered_config(base, o) {
            Ok(c) => (c, None),
            Err(e) => (
                default_config(),
                Some(StatusView::Error(load_failed_message(config_error_message(e)))),
            ),
        },
        Err(m) => (default_config(), Some(StatusView::Error(load_failed_message(m)))),
    }
}

/// The output path used when none is given.
pub open spec fn output_or_default(o: Option<Seq<char>>) -> Seq<char> {
    match o {
        Some(p) => p,
        None => "output.json"@,
    }
}

/// The state before the first directory listing.
pub open spec fn initial_view(
    config: ConfigView,
    status: Option<StatusView>,
    output: Seq<char>,
    cwd: Seq<char>,
) -> AppView {
    AppView {
        screen: Screen::FileBrowser,
        prev_screen: Screen::FileBrowser,
        current_dir: cwd,
        dir_entries: Seq::empty(),
        cursor: 0,
        selected_files: Seq::empty(),
        config,
        chunks: Seq::empty(),
        status,
        scroll: 0,
        processing: false,
        output_path: output,
        editing_path: false,
        tick: 0,
        awaiting_result: false,
        saved_path: output,
    }
}

/// View of a start-up configuration result.
pub open spec fn layered_view(r: Result<PipelineConfig, String>) -> Result<ConfigView, Seq<char>> {
    match r {
        Ok(c) => Ok(c@),
        Err(m) => Err(m@),
    }
}

// ---------------------------------------------------------------------------
// Implementation
// ---------------------------------------------------------------------------

proof fn lemma_texts_push(v: Seq<String>, x: String)
    ensures
        texts(v.push(x)) == texts(v).push(x@),
{
    assert(texts(v.push(x)) =~= texts(v).push(x@));
}

proof fn lemma_texts_remove(v: Seq<String>, i: int)
    requires
        0 <= i < v.len(),
    ensures
        texts(v.remove(i)) == texts(v).remove(i),
{
    assert(texts(v.remove(i)) =~= texts(v).remove(i));
}

/// Toggles `pat` in a pattern list: removes its first occurrence, or appends it.
pub fn toggle_pattern(patterns: &mut Vec<BuiltInPattern>, pat: BuiltInPattern)
    ensures
        final(patterns)@ == toggled(old(patterns)@, pat),
{
    let mut i: usize = 0;
    let ghost orig = patterns@;
    while i < patterns.len() && patterns[i] != pat
        invariant
            patterns@ == orig,
            i <= orig.len(),
            first_index_from(orig, pat, 0) == first_index_from(orig, pat, i as int),
        decreases orig.len() - i,
    {
        i = i + 1;
    }
    if i < patterns.len() {
        patterns.remove(i);
    } else {
        patterns.push(pat);
    }
}

/// The message reporting `count` processed chunks.
fn processed_text(count: usize) -> (m: String)
    ensures
        m@ == processed_message(count as nat),
{
    let mut m = owned("Processed ");
    let d = decimal_text(count);
    m.append(d.as_str());
    m.append(" chunks");
    m
}

impl AppState {
    /// The state the UI starts in: the configuration built from `layered` (what the
    /// TOML file and JSON profile gave, or why they could not be read) and the
    /// command-line flags, falling back to the defaults with an error status; the
    /// output path from `--output` or `output.json`; the browser showing
    /// `current_dir`, whose entries are `listing`.
    pub fn new(
        layered: Result<PipelineConfig, String>,
        overrides: &CliOverrides,
        output: Option<String>,
        current_dir: String,
        listing: Vec<DirListing>,
    ) -> (app: Self)
        ensures
            app@ == refreshed(
                initial_view(
                    startup(layered_view(layered), overrides@).0,
                    startup(layered_view(layered), overrides@).1,
                    output_or_default(opt_text(output)),
                    current_dir@,
                ),
                listing_view(listing@),
            ),
    {
        let (config, status) = match layered {
            Ok(base) => match build_config(base, overrides) {
                Ok(c) => (c, None),
                Err(e) => {
                    let mut m = owned("config load failed (");
                    let em = e.message();
                    m.append(em.as_str());
                    m.append("); using defaults");
                    (PipelineConfig::default(), Some(Status::Error(m)))
                },
            },
            Err(msg) => {
                let mut m = owned("config load failed (");
                m.append(msg.as_str());
                m.append("); using defaults");
                (PipelineConfig::default(), Some(Status::Error(m)))
            },
        };
        let output_path = match output {
            Some(p) => p,
            None => owned("output.json"),
        };
        let saved_path = output_path.clone();
        let mut state = AppState {
            screen: Screen::FileBrowser,
            prev_screen: Screen::FileBrowser,
            current_dir,
            dir_entries: Vec::new(),
            cursor: 0,
            selected_files: Vec::new(),
            config,
            chunks: Vec::new(),
            status,
            scroll: 0,
            processing: false,
            output_path,
            editing_path: false,
            tick: 0,
            awaiting_result: false,
            saved_path,
        };
        assert(texts(state.dir_entries@) =~= Seq::<Seq<char>>::empty());
        assert(texts(state.selected_files@) =~= Seq::<Seq<char>>::empty());
        state.refresh_dir(listing);
        state
    }

    /// Replaces the browser entries by a listing of the current directory (in
    /// browser order, `..` first when there is a parent) and moves the cursor to
    /// the top.
    pub fn refresh_dir(&mut self, listing: Vec<DirListing>)
        ensures
            final(self)@ == refreshed(old(self)@, listing_view(listing@)),
            std_path_parent(old(self)@.current_dir) is Some ==> std_path_ends_with_parent_dir(
                final(self)@.dir_entries[0],
            ),
    {
        let ghost lv = listing_view(listing@);
        let sorted = sort_listing(listing);
        let ghost order = browser_order(lv);
        let mut entries: Vec<String> = Vec::new();
        let ghost up: Seq<Seq<char>> = if std_path_parent(self.current_dir@) is Some {
            seq![std_path_join(self.current_dir@, ".."@)]
        } else {
            Seq::empty()
        };
        if path_parent(self.current_dir.as_str()).is_some() {
            entries.push(path_join(self.current_dir.as_str(), ".."));
        }
        assert(texts(entries@) =~= up);
        let mut i: usize = 0;
        while i < sorted.len()
            invariant
                i <= sorted@.len(),
                crate::listing::listing_view(sorted@) == order,
                texts(entries@) == up + order.take(i as int).map_values(
                    |e: (Seq<char>, bool)| e.0,
                ),
            decreases sorted@.len() - i,
        {
            let ghost prev = entries@;
            entries.push(sorted[i].path.clone());
            proof {
                lemma_texts_push(prev, sorted@[i as int].path);
                assert(order[i as int] == (sorted@[i as int].path@, sorted@[i as int].is_dir));
                assert(order.take(i + 1).map_values(|e: (Seq<char>, bool)| e.0) =~= order.take(
                    i as int,
                ).map_values(|e: (Seq<char>, bool)| e.0).push(sorted@[i as int].path@));
            }
            i = i + 1;
        }
        assert(order.take(sorted@.len() as int) =~= order);
        self.dir_entries = entries;
        self.cursor = 0;
    }

    /// The path under the cursor, if any.
    fn current_entry(&self) -> (e: Option<&String>)
        ensures
            match e {
                Some(p) => entry_at_cursor(self@) == Some(p@),
                None => entry_at_cursor(self@) is None,
            },
    {
        if self.cursor < self.dir_entries.len() {
            Some(&self.dir_entries[self.cursor])
        } else {
            None
        }
    }

    /// Whether `path` is in the selection.
    pub fn is_selected(&self, path: &str) -> (b: bool)
        ensures
            b == self@.selected_files.contains(path@),
    {
        let mut i: usize = 0;
        while i < self.selected_files.len()
            invariant
                i <= self.selected_files@.len(),
                forall|j: int| 0 <= j < i ==> self@.selected_files[j] != path@,
            decreases self.selected_files@.len() - i,
        {
            if same_text(self.selected_files[i].as_str(), path) {
                assert(self@.selected_files[i as int] == path@);
                return true;
            }
            i = i + 1;
        }
        false
    }

    /// Adds `path` to the selection, or removes it when already selected.
    fn toggle_selection(&mut self, path: &String)
        ensures
            final(self)@ == (AppView { selected_files: toggled(old(self)@.selected_files, path@), ..old(self)@ }),
    {
        let ghost orig = self@.selected_files;
        let mut i: usize = 0;
        while i < self.selected_files.len() && self.selected_files[i] != *path
            invariant
                texts(self.selected_files@) == orig,
                i <= orig.len(),
                first_index_from(orig, path@, 0) == first_index_from(orig, path@, i as int),
            decreases orig.len() - i,
        {
            i = i + 1;
        }
        if i < self.selected_files.len() {
            assert(orig[i as int] == path@);
            proof {
                lemma_texts_remove(self.selected_files@, i as int);
            }
            self.selected_files.remove(i);
        } else {
            proof {
                lemma_texts_push(self.selected_files@, *path);
            }
            self.selected_files.push(path.clone());
        }
    }

    /// Starts processing the selected paths that are files (`selected_is_file[i]`
    /// tells whether the i-th selected path is a file): switches to the results
    /// screen and hands the files to the caller, or reports that none is selected.
    /// Does nothing while processing is under way.
    pub fn start_processing(&mut self, selected_is_file: &Vec<bool>) -> (effect: Effect)
        ensures
            (final(self)@, effect@) == start_step(old(self)@, selected_is_file@),
    {
        if self.processing {
            return Effect::Nothing;
        }
        let ghost sel = self@.selected_files;
        let mut files: Vec<String> = Vec::new();
        let mut i: usize = 0;
        assert(sel.take(0) =~= Seq::<Seq<char>>::empty());
        while i < self.selected_files.len()
            invariant
                sel == texts(self.selected_files@),
                i <= sel.len(),
                texts(files@) == selected_files_on_disk(sel.take(i as int), selected_is_file@),
            decreases sel.len() - i,
        {
            assert(sel.take(i + 1).drop_last() =~= sel.take(i as int));
            assert(sel.take(i + 1).last() == self.selected_files@[i as int]@);
            if i < selected_is_file.len() && selected_is_file[i] {
                proof {
                    lemma_texts_push(files@, self.selected_files@[i as int]);
                }
                files.push(self.selected_files[i].clone());
            }
            i = i + 1;
        }
        assert(sel.take(sel.len() as int) =~= sel);
        if files.len() == 0 {
            self.status = Some(Status::Error(owned("no files selected \u{2014} use Space in the file browser first")));
            return Effect::Nothing;
        }
        self.processing = true;
        self.chunks.clear();
        self.status = None;
        self.scroll = 0;
        self.screen = Screen::Results;
        self.awaiting_result = true;
        Effect::Process(files)
    }

    /// Absorbs what the background processing delivered, once per render tick.
    pub fn pump(&mut self, event: PumpEvent)
        ensures
            final(self)@ == pump_step(old(self)@, event@),
    {
        self.tick = if self.tick == usize::MAX {
            0
        } else {
            self.tick + 1
        };
        if !self.awaiting_result {
            return ;
        }
        match event {
            PumpEvent::Pending => {},
            PumpEvent::Finished(outcome) => {
                let count = outcome.chunks.len();
                self.processing = false;
                self.awaiting_result = false;
                self.chunks = outcome.chunks;
                self.scroll = 0;
                self.status = Some(
                    match outcome.error {
                        Some(e) => Status::Error(e),
                        None => Status::Success(processed_text(count)),
                    },
                );
            },
            PumpEvent::Disconnected => {
                self.processing = false;
                self.awaiting_result = false;
                self.status = Some(Status::Error(owned("processing thread terminated unexpectedly")));
            },
        }
    }

    /// Asks to save the chunks: reports an error when there are none, otherwise
    /// asks the caller to write them to the output path.
    pub fn save(&mut self) -> (effect: Effect)
        ensures
            (final(self)@, effect@) == save_step(old(self)@),
    {
        if self.chunks.len() == 0 {
            self.status = Some(Status::Error(owned("nothing to save \u{2014} no chunks")));
            return Effect::Nothing;
        }
        Effect::Save(self.output_path.clone())
    }

    /// Reports how writing the chunks went (`Err` carries the reason).
    pub fn finish_save(&mut self, result: Result<(), String>)
        ensures
            final(self)@ == saved_step(
                old(self)@,
                match result {
                    Ok(_) => Ok(()),
                    Err(e) => Err(e@),
                },
            ),
    {
        match result {
            Ok(_) => {
                let mut m = owned("Saved ");
                let d = decimal_text(self.chunks.len());
                m.append(d.as_str());
                m.append(" chunks to ");
                m.append(self.output_path.as_str());
                self.status = Some(Status::Success(m));
            },
            Err(e) => {
                let mut m = owned("save failed: ");
                m.append(e.as_str());
                self.status = Some(Status::Error(m));
            },
        }
    }

    /// The output format inferred from the output path's extension: the label of
    /// the writer that saving to that path uses.
    pub fn output_format_label(&self) -> (label: &'static str)
        ensures
            label@ == output_label_of(lower_extension(self@.output_path)),
            label@ == writer_label(output_format_of(lower_extension(self@.output_path))),
    {
        proof {
            lemma_label_names_writer(self@.output_path);
        }
        output_label_for_path(self.output_path.as_str())
    }

    fn toggle_help(&mut self)
        ensures
            final(self)@ == help_toggled(old(self)@),
    {
        if self.screen == Screen::Help {
            self.screen = self.prev_screen;
        } else {
            self.prev_screen = self.screen;
            self.screen = Screen::Help;
        }
    }

    fn handle_path_edit_key(&mut self, key: KeyInput) -> (a: Action)
        ensures
            final(self)@ == edit_step(old(self)@, key),
            a == Action::Continue,
    {
        match key {
            KeyInput::Enter => {
                self.editing_path = false;
                self.status = None;
            },
            KeyInput::Esc => {
                self.editing_path = false;
                self.output_path = self.saved_path.clone();
                self.status = None;
            },
            KeyInput::Backspace => {
                pop_char(&mut self.output_path);
            },
            KeyInput::Char(c) => push_char(&mut self.output_path, c),
            _ => {},
        }
        Action::Continue
    }

    fn handle_browser_key(&mut self, key: KeyInput, probe: &KeyProbe) -> (r: (Action, Effect))
        requires
            key == KeyInput::Down || key == KeyInput::Char('j') ==> old(self).cursor < usize::MAX,
        ensures
            (final(self)@, r.0, r.1@) == browser_step(old(self)@, key, probe@),
    {
        if key == KeyInput::Char('q') || key == KeyInput::Esc {
            return (Action::Quit, Effect::Nothing);
        } else if key == KeyInput::Up || key == KeyInput::Char('k') {
            self.cursor = if self.cursor == 0 {
                0
            } else {
                self.cursor - 1
            };
        } else if key == KeyInput::Down || key == KeyInput::Char('j') {
            let n = self.dir_entries.len();
            let last = if n == 0 {
                0
            } else {
                n - 1
            };
            self.cursor = if self.cursor + 1 <= last {
                self.cursor + 1
            } else {
                last
            };
        } else if key == KeyInput::Enter {
            match self.current_entry() {
                None => {},
                Some(entry) => {
                    let path = entry.clone();
                    let up = path_ends_with_parent_dir(path.as_str());
                    if probe.entry_is_dir || up {
                        if up {
                            if let Some(parent) = path_parent(self.current_dir.as_str()) {
                                self.current_dir = parent;
                            }
                        } else {
                            self.current_dir = path;
                        }
                        return (Action::Continue, Effect::ListDirectory);
                    } else if probe.entry_is_file {
                        self.toggle_selection(&path);
                    }
                },
            }
        } else if key == KeyInput::Char(' ') {
            match self.current_entry() {
                Some(entry) => {
                    let path = entry.clone();
                    if probe.entry_is_file {
                        self.toggle_selection(&path);
                    }
                },
                None => {},
            }
        } else if key == KeyInput::Tab {
            self.screen = Screen::Config;
        }
        (Action::Continue, Effect::Nothing)
    }

    fn handle_config_key(&mut self, key: KeyInput, probe: &KeyProbe) -> (r: (Action, Effect))
        ensures
            (final(self)@, r.0, r.1@) == config_step(old(self)@, key, probe@),
    {
        if key == KeyInput::Char('q') || key == KeyInput::Esc {
            return (Action::Quit, Effect::Nothing);
        } else if key == KeyInput::BackTab || key == KeyInput::Char('b') {
            self.screen = Screen::FileBrowser;
        } else if key == KeyInput::Tab {
            self.screen = Screen::Results;
        } else if key == KeyInput::Char('m') {
            let mt = self.config.chunk.max_tokens;
            self.config.chunk.max_tokens = if mt <= 128 {
                256
            } else if mt <= 256 {
                512
            } else if mt <= 512 {
                1024
            } else {
                128
            };
        } else if key == KeyInput::Char('t') {
            self.config.chunk.tokenizer = match self.config.chunk.tokenizer {
                TokenizerKind::Cl100kBase => TokenizerKind::O200kBase,
                TokenizerKind::O200kBase => TokenizerKind::R50kBase,
                TokenizerKind::R50kBase => TokenizerKind::P50kBase,
                TokenizerKind::P50kBase => TokenizerKind::P50kEdit,
                TokenizerKind::P50kEdit => TokenizerKind::O200kHarmony,
                TokenizerKind::O200kHarmony => TokenizerKind::Cl100kBase,
            };
        } else if key == KeyInput::Char('e') {
            toggle_pattern(&mut self.config.scrub.patterns, BuiltInPattern::Email);
        } else if key == KeyInput::Char('s') {
            toggle_pattern(&mut self.config.scrub.patterns, BuiltInPattern::Ssn);
        } else if key == KeyInput::Char('a') {
            toggle_pattern(&mut self.config.scrub.patterns, BuiltInPattern::AwsKey);
        } else if key == KeyInput::Enter && self.selected_files.len() > 0 {
            let e = self.start_processing(&probe.selected_is_file);
            return (Action::Continue, e);
        }
        (Action::Continue, Effect::Nothing)
    }

    fn handle_results_key(&mut self, key: KeyInput) -> (r: (Action, Effect))
        requires
            key == KeyInput::Down || key == KeyInput::Char('j') ==> old(self).scroll < usize::MAX,
        ensures
            (final(self)@, r.0, r.1@) == results_step(old(self)@, key),
    {
        if key == KeyInput::Char('q') || key == KeyInput::Esc {
            return (Action::Quit, Effect::Nothing);
        } else if key == KeyInput::Up || key == KeyInput::Char('k') {
            self.scroll = if self.scroll == 0 {
                0
            } else {
                self.scroll - 1
            };
        } else if key == KeyInput::Down || key == KeyInput::Char('j') {
            let n = self.chunks.len();
            let last = if n == 0 {
                0
            } else {
                n - 1
            };
            self.scroll = if self.scroll + 1 <= last {
                self.scroll + 1
            } else {
                last
            };
        } else if key == KeyInput::Tab {
            self.screen = Screen::Config;
        } else if key == KeyInput::BackTab || key == KeyInput::Char('b') {
            self.screen = Screen::FileBrowser;
        } else if key == KeyInput::Char('e') && !self.processing {
            self.editing_path = true;
            self.saved_path = self.output_path.clone();
            self.status = None;
        } else if key == KeyInput::Char('s') && !self.processing {
            let e = self.save();
            return (Action::Continue, e);
        }
        (Action::Continue, Effect::Nothing)
    }

    /// Handles a key press: returns whether to quit, and the work the caller must
    /// do next. `probe` reports what the file system says of the entry under the
    /// cursor and of each selected path, at the time of the key. Moving down from
    /// the largest possible position overflows, and is left out.
    pub fn handle_key(&mut self, key: KeyInput, probe: &KeyProbe) -> (r: (Action, Effect))
        requires
            moves_down_at_limit(old(self)@, key) == false,
        ensures
            (final(self)@, r.0, r.1@) == key_step(old(self)@, key, probe@),
    {
        if self.editing_path {
            let a = self.handle_path_edit_key(key);
            return (a, Effect::Nothing);
        }
        if key == KeyInput::Char('?') {
            self.toggle_help();
            return (Action::Continue, Effect::Nothing);
        }
        if self.screen == Screen::Help {
            self.screen = self.prev_screen;
            return (Action::Continue, Effect::Nothing);
        }
        match self.screen {
            Screen::FileBrowser => self.handle_browser_key(key, probe),
            Screen::Config => self.handle_config_key(key, probe),
            Screen::Results => self.handle_results_key(key),
            Screen::Help => (Action::Continue, Effect::Nothing),
        }
    }
}

} // verus!
