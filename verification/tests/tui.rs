use bitvanes_cli::chunks::{ChunkRecord, ProcessOutcome};
use bitvanes_cli::config::{
    build_config, BuiltInPattern, CliOverrides, DocumentFormat, PipelineConfig, TokenizerKind,
};
use bitvanes_cli::display::{
    display_name, entry_label, heading_label, pattern_line_text, screen_hints, spinner_frame,
    status_bar_text, status_text, visible_rows,
};
use bitvanes_cli::listing::{sort_listing, DirListing};
use bitvanes_cli::text::truncate_chars;
use bitvanes_cli::tui::{
    toggle_pattern, Action, AppState, Effect, KeyInput, KeyProbe, PumpEvent, Screen, Status,
};

fn app_with(overrides: &CliOverrides) -> AppState {
    AppState::new(Ok(PipelineConfig::default()), overrides, None, "/work".to_string(), vec![])
}

fn listing(entries: &[(&str, bool)]) -> Vec<DirListing> {
    entries.iter().map(|(p, d)| DirListing { path: p.to_string(), is_dir: *d }).collect()
}

fn probe(is_dir: bool, is_file: bool, selected: Vec<bool>) -> KeyProbe {
    KeyProbe { entry_is_dir: is_dir, entry_is_file: is_file, selected_is_file: selected }
}

fn no_probe() -> KeyProbe {
    probe(false, false, vec![])
}

fn chunk(text: &str) -> ChunkRecord {
    ChunkRecord {
        chunk_index: 0,
        chunk_id: "test".to_string(),
        text: text.to_string(),
        token_count: 1,
        source_path: "t.md".to_string(),
        heading_path: vec![],
        section_kind: "paragraph".to_string(),
        char_offset_start: 0,
        char_offset_end: 6,
        pii: vec![],
    }
}

#[test]
fn output_format_label_infers_from_extension() {
    let mut app = app_with(&CliOverrides::none());
    for (path, expected) in [
        ("out.json", "JSON"),
        ("out.csv", "CSV"),
        ("out.arrow", "Arrow IPC"),
        ("out", "JSON"),
        ("out.txt", "JSON"),
    ] {
        app.output_path = path.to_string();
        assert_eq!(app.output_format_label(), expected, "for path {path}");
    }
}

#[test]
fn flags_wire_into_tui_config() {
    let overrides = CliOverrides {
        format: Some("text".to_string()),
        tokenizer: Some("o200k_base".to_string()),
        max_tokens: Some(128),
        scrub: None,
        anchor_window: None,
        exclude_pii: None,
    };
    let app = app_with(&overrides);
    assert_eq!(app.config.format, DocumentFormat::Text);
    assert_eq!(app.config.chunk.max_tokens, 128);
    assert_eq!(app.config.chunk.tokenizer, TokenizerKind::O200kBase);
}

#[test]
fn bad_flags_fall_back_to_defaults_with_error() {
    let mut o = CliOverrides::none();
    o.format = Some("latex".to_string());
    let app = app_with(&o);
    assert_eq!(app.config.format, DocumentFormat::Markdown);
    match &app.status {
        Some(Status::Error(m)) => {
            assert_eq!(m, "config load failed (unknown format: latex); using defaults")
        }
        other => panic!("expected error, got {other:?}"),
    }
    let app = AppState::new(
        Err("bad toml".to_string()),
        &CliOverrides::none(),
        Some("x.csv".to_string()),
        "/".to_string(),
        vec![],
    );
    assert!(matches!(&app.status, Some(Status::Error(m)) if m.contains("bad toml")));
    assert_eq!(app.output_path, "x.csv");
}

#[test]
fn listing_puts_directories_first_then_names() {
    let app = AppState::new(
        Ok(PipelineConfig::default()),
        &CliOverrides::none(),
        None,
        "/work".to_string(),
        listing(&[("/work/zeta.md", false), ("/work/docs", true), ("/work/alpha.md", false), ("/work/Bin", true)]),
    );
    assert_eq!(
        app.dir_entries,
        vec!["/work/..", "/work/Bin", "/work/docs", "/work/alpha.md", "/work/zeta.md"]
    );
    assert_eq!(app.cursor, 0);
    let root = AppState::new(
        Ok(PipelineConfig::default()),
        &CliOverrides::none(),
        None,
        "/".to_string(),
        listing(&[("/b", false), ("/a", false)]),
    );
    assert_eq!(root.dir_entries, vec!["/a", "/b"]);
}

#[test]
fn sorting_is_stable_for_equal_names() {
    let sorted = sort_listing(listing(&[("/x/same", false), ("/y/same", false), ("/x/dir", true)]));
    let paths: Vec<&str> = sorted.iter().map(|e| e.path.as_str()).collect();
    assert_eq!(paths, vec!["/x/dir", "/x/same", "/y/same"]);
}

#[test]
fn browser_navigation_and_selection() {
    let mut app = AppState::new(
        Ok(PipelineConfig::default()),
        &CliOverrides::none(),
        None,
        "/work".to_string(),
        listing(&[("/work/a.md", false), ("/work/sub", true)]),
    );
    // entries: "..", "sub", "a.md"
    assert_eq!(app.handle_key(KeyInput::Up, &no_probe()).0, Action::Continue);
    assert_eq!(app.cursor, 0);
    app.handle_key(KeyInput::Down, &no_probe());
    app.handle_key(KeyInput::Char('j'), &no_probe());
    app.handle_key(KeyInput::Down, &no_probe());
    assert_eq!(app.cursor, 2);
    // Space on a file selects it, again deselects.
    app.handle_key(KeyInput::Char(' '), &probe(false, true, vec![]));
    assert!(app.is_selected("/work/a.md"));
    app.handle_key(KeyInput::Enter, &probe(false, true, vec![true]));
    assert!(!app.is_selected("/work/a.md"));
    app.handle_key(KeyInput::Char(' '), &probe(false, true, vec![]));
    // Enter on a directory changes into it and asks for a listing.
    app.handle_key(KeyInput::Char('k'), &no_probe());
    let (a, e) = app.handle_key(KeyInput::Enter, &probe(true, false, vec![true]));
    assert_eq!(a, Action::Continue);
    assert!(matches!(e, Effect::ListDirectory));
    assert_eq!(app.current_dir, "/work/sub");
    app.refresh_dir(listing(&[]));
    assert_eq!(app.dir_entries, vec!["/work/sub/.."]);
    // Enter on ".." goes to the parent.
    let (_, e) = app.handle_key(KeyInput::Enter, &probe(false, false, vec![true]));
    assert!(matches!(e, Effect::ListDirectory));
    assert_eq!(app.current_dir, "/work");
    // The selection survives navigation.
    assert_eq!(app.selected_files, vec!["/work/a.md".to_string()]);
    assert_eq!(app.handle_key(KeyInput::Char('q'), &no_probe()).0, Action::Quit);
}

#[test]
fn config_screen_cycles_and_toggles() {
    let mut app = app_with(&CliOverrides::none());
    app.handle_key(KeyInput::Tab, &no_probe());
    assert_eq!(app.screen, Screen::Config);
    let mut seen = vec![];
    for _ in 0..4 {
        app.handle_key(KeyInput::Char('m'), &no_probe());
        seen.push(app.config.chunk.max_tokens);
    }
    assert_eq!(seen, vec![1024, 128, 256, 512]);
    for _ in 0..6 {
        app.handle_key(KeyInput::Char('t'), &no_probe());
    }
    assert_eq!(app.config.chunk.tokenizer, TokenizerKind::Cl100kBase);
    app.handle_key(KeyInput::Char('t'), &no_probe());
    assert_eq!(app.config.chunk.tokenizer, TokenizerKind::O200kBase);
    app.handle_key(KeyInput::Char('e'), &no_probe());
    app.handle_key(KeyInput::Char('a'), &no_probe());
    app.handle_key(KeyInput::Char('s'), &no_probe());
    app.handle_key(KeyInput::Char('e'), &no_probe());
    assert_eq!(app.config.scrub.patterns, vec![BuiltInPattern::AwsKey, BuiltInPattern::Ssn]);
    // Enter with nothing selected does nothing.
    let (_, e) = app.handle_key(KeyInput::Enter, &no_probe());
    assert!(matches!(e, Effect::Nothing));
    assert!(app.status.is_none());
    app.handle_key(KeyInput::Char('b'), &no_probe());
    assert_eq!(app.screen, Screen::FileBrowser);
}

#[test]
fn toggle_pattern_twice_restores() {
    let mut p = vec![BuiltInPattern::Email];
    toggle_pattern(&mut p, BuiltInPattern::Jwt);
    assert_eq!(p, vec![BuiltInPattern::Email, BuiltInPattern::Jwt]);
    toggle_pattern(&mut p, BuiltInPattern::Jwt);
    assert_eq!(p, vec![BuiltInPattern::Email]);
}

#[test]
fn processing_lifecycle() {
    let mut app = AppState::new(
        Ok(PipelineConfig::default()),
        &CliOverrides::none(),
        None,
        "/".to_string(),
        listing(&[("/a.md", false), ("/gone.md", false)]),
    );
    app.handle_key(KeyInput::Char(' '), &probe(false, true, vec![]));
    app.handle_key(KeyInput::Down, &no_probe());
    app.handle_key(KeyInput::Char(' '), &probe(false, true, vec![true]));
    app.handle_key(KeyInput::Tab, &no_probe());
    // Only the selected paths that are still files are processed.
    let (_, e) = app.handle_key(KeyInput::Enter, &probe(false, false, vec![true, false]));
    match e {
        Effect::Process(files) => assert_eq!(files, vec!["/a.md".to_string()]),
        other => panic!("expected processing, got {other:?}"),
    }
    assert_eq!(app.screen, Screen::Results);
    assert!(app.processing);
    // Nothing happens while processing is under way.
    let started = app.start_processing(&vec![true, true]);
    assert!(matches!(started, Effect::Nothing));
    app.pump(PumpEvent::Pending);
    assert!(app.processing);
    assert_eq!(app.tick, 1);
    app.pump(PumpEvent::Finished(ProcessOutcome { chunks: vec![chunk("a"), chunk("b")], error: None }));
    assert!(!app.processing);
    assert_eq!(app.chunks.len(), 2);
    assert!(matches!(&app.status, Some(Status::Success(m)) if m == "Processed 2 chunks"));
    // A second result is ignored once nothing is awaited.
    app.pump(PumpEvent::Disconnected);
    assert!(matches!(&app.status, Some(Status::Success(_))));
    assert_eq!(app.tick, 3);
}

#[test]
fn no_selected_files_is_reported() {
    let mut app = app_with(&CliOverrides::none());
    app.selected_files = vec!["/nope".to_string()];
    let e = app.start_processing(&vec![false]);
    assert!(matches!(e, Effect::Nothing));
    assert!(matches!(&app.status, Some(Status::Error(m)) if m.starts_with("no files selected")));
}

#[test]
fn worker_lost_is_reported() {
    let mut app = app_with(&CliOverrides::none());
    app.selected_files = vec!["/a".to_string()];
    app.start_processing(&vec![true]);
    app.pump(PumpEvent::Disconnected);
    assert!(!app.processing);
    assert!(matches!(&app.status, Some(Status::Error(m)) if m == "processing thread terminated unexpectedly"));
}

#[test]
fn save_reports_success_after_write() {
    let mut app = app_with(&CliOverrides::none());
    app.chunks = vec![chunk("sample")];
    app.output_path = "/tmp/out.json".to_string();
    match app.save() {
        Effect::Save(path) => assert_eq!(path, "/tmp/out.json"),
        other => panic!("expected a save request, got {other:?}"),
    }
    app.finish_save(Ok(()));
    match &app.status {
        Some(Status::Success(m)) => assert!(m.contains("Saved 1 chunks"), "{m}"),
        other => panic!("expected success, got {other:?}"),
    }
    app.finish_save(Err("disk full".to_string()));
    assert!(matches!(&app.status, Some(Status::Error(m)) if m == "save failed: disk full"));
    app.chunks.clear();
    assert!(matches!(app.save(), Effect::Nothing));
    assert!(matches!(&app.status, Some(Status::Error(m)) if m.starts_with("nothing to save")));
}

#[test]
fn editing_the_output_path() {
    let mut app = app_with(&CliOverrides::none());
    app.handle_key(KeyInput::Tab, &no_probe());
    app.handle_key(KeyInput::Tab, &no_probe());
    assert_eq!(app.screen, Screen::Results);
    app.handle_key(KeyInput::Char('e'), &no_probe());
    assert!(app.editing_path);
    for _ in 0..4 {
        app.handle_key(KeyInput::Backspace, &no_probe());
    }
    for c in "csv".chars() {
        app.handle_key(KeyInput::Char(c), &no_probe());
    }
    assert_eq!(app.output_path, "output.csv");
    // 'q' is typed, not a quit, while editing.
    assert_eq!(app.handle_key(KeyInput::Char('q'), &no_probe()).0, Action::Continue);
    assert_eq!(app.handle_key(KeyInput::Esc, &no_probe()).0, Action::Continue);
    assert!(!app.editing_path);
    assert!(app.status.is_none());
    assert_eq!(app.output_path, "output.json");
    app.handle_key(KeyInput::Char('e'), &no_probe());
    app.handle_key(KeyInput::Char('x'), &no_probe());
    app.handle_key(KeyInput::Enter, &no_probe());
    assert_eq!(app.output_path, "output.jsonx");
}

#[test]
fn help_toggles_and_any_key_closes() {
    let mut app = app_with(&CliOverrides::none());
    app.handle_key(KeyInput::Tab, &no_probe());
    app.handle_key(KeyInput::Char('?'), &no_probe());
    assert_eq!(app.screen, Screen::Help);
    app.handle_key(KeyInput::Char('?'), &no_probe());
    assert_eq!(app.screen, Screen::Config);
    app.handle_key(KeyInput::Char('?'), &no_probe());
    // Any key closes help; it does not quit.
    assert_eq!(app.handle_key(KeyInput::Char('q'), &no_probe()).0, Action::Continue);
    assert_eq!(app.screen, Screen::Config);
}

#[test]
fn results_scrolling_is_bounded() {
    let mut app = app_with(&CliOverrides::none());
    app.chunks = vec![chunk("a"), chunk("b")];
    app.screen = Screen::Results;
    for _ in 0..5 {
        app.handle_key(KeyInput::Down, &no_probe());
    }
    assert_eq!(app.scroll, 1);
    app.handle_key(KeyInput::Up, &no_probe());
    app.handle_key(KeyInput::Up, &no_probe());
    assert_eq!(app.scroll, 0);
}

#[test]
fn truncate_chars_counts_characters() {
    assert_eq!(truncate_chars("hello", 5), "hello");
    assert_eq!(truncate_chars("hello", 3), "hel\u{2026}");
    assert_eq!(truncate_chars("h\u{e9}llo w\u{f6}rld", 4), "h\u{e9}ll\u{2026}");
    assert_eq!(truncate_chars("", 0), "");
}

#[test]
fn display_texts() {
    assert_eq!(status_text(&Status::Success("ok".to_string())), "\u{2713} ok");
    assert_eq!(status_text(&Status::Error("bad".to_string())), "\u{26a0} bad");
    assert!(screen_hints(Screen::Help).starts_with("any key closes help"));
    assert_eq!(heading_label(&vec![]), "\u{2014}");
    assert_eq!(
        heading_label(&vec!["A".to_string(), "B".to_string(), "C".to_string()]),
        "A \u{203a} B \u{203a} C"
    );
    assert_eq!(entry_label("..", true, false), "  \u{2191} .. ..");
    assert_eq!(entry_label("a.md", false, true), "\u{2713} \u{1f4c4} a.md");
    assert_eq!(entry_label("src", true, false), "  \u{1f4c1} src");
    assert_eq!(display_name("/x/y/report.pdf"), "report.pdf");
    assert_eq!(display_name("/"), "?");
    assert_eq!(spinner_frame(0), "\u{280b}");
    assert_eq!(spinner_frame(13), "\u{2838}");
    assert_eq!(visible_rows(2, 10, 6), (2, 5));
    assert_eq!(visible_rows(9, 10, 20), (9, 10));
    assert_eq!(visible_rows(12, 10, 2), (10, 10));
    assert_eq!(pattern_line_text("Email", true), "  [\u{2713}] Email");
}

#[test]
fn build_config_then_state_agree() {
    let mut o = CliOverrides::none();
    o.scrub = Some("aws_key".to_string());
    let c = build_config(PipelineConfig::default(), &o).unwrap();
    let app = app_with(&o);
    assert_eq!(app.config.scrub.patterns, c.scrub.patterns);
}

#[test]
fn status_bar_prefers_status_on_browser_and_config() {
    let err = Some(Status::Error("x".to_string()));
    assert_eq!(status_bar_text(Screen::Config, &err), " \u{26a0} x");
    assert!(status_bar_text(Screen::Results, &err).starts_with(" \u{2191}\u{2193}/jk scroll"));
    assert_eq!(status_bar_text(Screen::Help, &None), " any key closes help \u{b7} q quit");
}

#[test]
fn tab_and_back_navigation() {
    let mut app = app_with(&CliOverrides::none());
    app.handle_key(KeyInput::Tab, &no_probe());
    assert_eq!(app.screen, Screen::Config);
    app.handle_key(KeyInput::Tab, &no_probe());
    assert_eq!(app.screen, Screen::Results);
    app.handle_key(KeyInput::Tab, &no_probe());
    assert_eq!(app.screen, Screen::Config);
    app.handle_key(KeyInput::BackTab, &no_probe());
    assert_eq!(app.screen, Screen::FileBrowser);
}

#[test]
fn format_flag_applies_to_every_selected_file() {
    let mut o = CliOverrides::none();
    o.format = Some("markdown".to_string());
    let app = app_with(&o);
    assert!(app.config.format_given);
    assert_eq!(bitvanes_cli::batch::file_config(&app.config, "/w/notes.txt").format, DocumentFormat::Markdown);
    let app = app_with(&CliOverrides::none());
    assert_eq!(bitvanes_cli::batch::file_config(&app.config, "/w/notes.txt").format, DocumentFormat::Text);
}
