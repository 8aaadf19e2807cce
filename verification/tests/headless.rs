use bitvanes_cli::batch::{
    dedup_paths, file_config, launch_mode, output_path_or_default, poll_seconds, worker_threads,
    writes_to_stdout, LaunchMode,
};
use bitvanes_cli::chunks::{assemble_outcome, token_stats, tag_with_hashes, ChunkRecord, JsonChunk, PiiRecord};
use bitvanes_cli::config::{
    build_config, parse_format, parse_report_only, parse_scrub, parse_tokenizer, BuiltInPattern,
    CliOverrides, ConfigError, DocumentFormat, PipelineConfig, TokenizerKind,
};
use bitvanes_cli::format::{
    infer_format, is_supported_ext, output_format_for_path, output_label_for_path, walk_keeps,
    OutputFormat,
};
use bitvanes_cli::hashing::hex_hash;
use bitvanes_cli::manifest::{admit_file, admit_run, Admission, Manifest};

fn chunk(index: u32, text: &str, tokens: u16) -> ChunkRecord {
    ChunkRecord {
        chunk_index: index,
        chunk_id: format!("c{index}"),
        text: text.to_string(),
        token_count: tokens,
        source_path: "t.md".to_string(),
        heading_path: vec![],
        section_kind: "paragraph".to_string(),
        char_offset_start: 0,
        char_offset_end: text.len() as u32,
        pii: vec![],
    }
}

#[test]
fn hex_hash_is_stable_and_distinct() {
    let a = hex_hash(b"hello");
    let b = hex_hash(b"hello");
    let c = hex_hash(b"world");
    assert_eq!(a, b);
    assert_ne!(a, c);
    assert_eq!(a.len(), 64); // blake3 hex = 64 chars
}

#[test]
fn hex_hash_of_empty_input_matches_reference_vector() {
    assert_eq!(
        hex_hash(b""),
        "af1349b9f5f9a1a6a0404dea36dcc9499bcb25c9adc112b7cc9a93cae41f3262"
    );
}

#[test]
fn manifest_insert_dedups() {
    let mut m = Manifest::new();
    m.insert("aaa".to_string());
    m.insert("aaa".to_string()); // dup ignored
    m.insert("bbb".to_string());
    assert_eq!(m.len(), 2);
    assert!(m.contains("aaa"));
    assert!(m.contains("bbb"));
    assert!(!m.contains("ccc"));
    let reloaded = Manifest::from_hashes(m.hashes().clone());
    assert_eq!(reloaded.len(), 2);
    assert!(reloaded.contains("bbb"));
}

#[test]
fn admitted_file_is_skipped_on_the_next_run() {
    let mut m = Manifest::new();
    match admit_file(&mut m, b"# hi", false) {
        Admission::Process { hash, size } => {
            assert_eq!(hash, hex_hash(b"# hi"));
            assert_eq!(size, 4);
        }
        Admission::Skip => panic!("a new file must be processed"),
    }
    assert!(matches!(admit_file(&mut m, b"# hi", false), Admission::Skip));
    assert_eq!(m.len(), 1);
    // --force reprocesses but records nothing twice.
    assert!(matches!(admit_file(&mut m, b"# hi", true), Admission::Process { .. }));
    assert_eq!(m.len(), 1);
    assert!(matches!(admit_file(&mut m, b"other", false), Admission::Process { .. }));
    assert_eq!(m.len(), 2);
}

#[test]
fn second_run_over_unchanged_files_processes_nothing() {
    let mut m = Manifest::new();
    m.insert(hex_hash(b"old"));
    let files: Vec<Vec<u8>> = vec![b"a".to_vec(), b"old".to_vec(), b"b".to_vec(), b"a".to_vec()];
    let (first, processed) = admit_run(&mut m, &files, false);
    assert_eq!(processed, 2);
    assert!(matches!(&first[0], Admission::Process { hash, size: 1 } if *hash == hex_hash(b"a")));
    assert!(matches!(first[1], Admission::Skip));
    assert!(matches!(&first[2], Admission::Process { hash, .. } if *hash == hex_hash(b"b")));
    // The same contents twice in one run: the second copy is skipped.
    assert!(matches!(first[3], Admission::Skip));
    assert_eq!(m.hashes(), &vec![hex_hash(b"old"), hex_hash(b"a"), hex_hash(b"b")]);

    let before = m.hashes().clone();
    let (second, processed) = admit_run(&mut m, &files, false);
    assert_eq!(processed, 0);
    assert!(second.iter().all(|a| matches!(a, Admission::Skip)));
    assert_eq!(m.hashes(), &before);

    // Forced, every file is processed again and nothing is recorded twice.
    let (_, processed) = admit_run(&mut m, &files, true);
    assert_eq!(processed, 4);
    assert_eq!(m.hashes(), &before);
    let (none, processed) = admit_run(&mut m, &Vec::new(), false);
    assert!(none.is_empty());
    assert_eq!(processed, 0);
}

#[test]
fn infer_format_covers_all_extensions() {
    assert_eq!(
        infer_format("/x/a.md", PipelineConfig::default()).format,
        DocumentFormat::Markdown
    );
    assert_eq!(
        infer_format("/x/a.json", PipelineConfig::default()).format,
        DocumentFormat::Json
    );
    assert_eq!(
        infer_format("/x/a.pdf", PipelineConfig::default()).format,
        DocumentFormat::Pdf
    );
    assert_eq!(
        infer_format("/x/a.xyz", PipelineConfig::default()).format,
        DocumentFormat::Markdown
    );
}

#[test]
fn infer_format_lowercases_and_keeps_other_settings() {
    let mut base = PipelineConfig::default();
    base.format = DocumentFormat::Text;
    base.chunk.max_tokens = 77;
    let out = infer_format("/docs/Report.DOCX", base);
    assert_eq!(out.format, DocumentFormat::Docx);
    assert_eq!(out.chunk.max_tokens, 77);
    let mut base = PipelineConfig::default();
    base.format = DocumentFormat::Html;
    assert_eq!(infer_format("/docs/README", base).format, DocumentFormat::Html);
    let all = [
        ("a.markdown", DocumentFormat::Markdown),
        ("a.txt", DocumentFormat::Text),
        ("a.html", DocumentFormat::Html),
        ("a.htm", DocumentFormat::Html),
        ("a.docx", DocumentFormat::Docx),
        ("a.pptx", DocumentFormat::Pptx),
        ("a.xlsx", DocumentFormat::Xlsx),
        ("a.epub", DocumentFormat::Epub),
        ("a.rtf", DocumentFormat::Rtf),
    ];
    for (path, expected) in all {
        assert_eq!(infer_format(path, PipelineConfig::default()).format, expected, "{path}");
    }
}

#[test]
fn file_config_labels_and_infers() {
    let base = PipelineConfig::default();
    let cfg = file_config(&base, "/data/notes.txt");
    assert_eq!(cfg.source_label.as_deref(), Some("/data/notes.txt"));
    assert_eq!(cfg.format, DocumentFormat::Text);
    assert_eq!(base.source_label, None);
}

#[test]
fn explicit_format_overrides_extension() {
    let mut o = CliOverrides::none();
    o.format = Some("markdown".to_string());
    let cfg = build_config(PipelineConfig::default(), &o).unwrap();
    assert!(cfg.format_given);
    let per_file = file_config(&cfg, "notes.txt");
    assert_eq!(per_file.format, DocumentFormat::Markdown);
    assert_eq!(per_file.source_label.as_deref(), Some("notes.txt"));
    assert_eq!(infer_format("/x/a.pdf", build_config(PipelineConfig::default(), &o).unwrap()).format, DocumentFormat::Markdown);

    // Without --format, the extension decides.
    let cfg = build_config(PipelineConfig::default(), &CliOverrides::none()).unwrap();
    assert!(!cfg.format_given);
    assert_eq!(file_config(&cfg, "notes.txt").format, DocumentFormat::Text);
}

#[test]
fn parse_scrub_filters_unknowns() {
    let p = parse_scrub("email, garbage ,ssn");
    assert_eq!(p.patterns.len(), 2);
    assert!(p.patterns.contains(&BuiltInPattern::Email));
    assert!(p.patterns.contains(&BuiltInPattern::Ssn));
}

#[test]
fn parse_scrub_keeps_order_and_resets_other_settings() {
    let p = parse_scrub(" jwt,credit_card,,aws_key\t");
    assert_eq!(
        p.patterns,
        vec![BuiltInPattern::Jwt, BuiltInPattern::CreditCard, BuiltInPattern::AwsKey]
    );
    assert_eq!(p.anchor_window, 7);
    assert!(p.report_only.is_empty());
    // Names are case-sensitive, and quotes make no valid JSON string.
    assert!(parse_scrub("EMAIL,\"ssn\"").patterns.is_empty());
}

#[test]
fn parse_format_accepts_aliases_in_any_case() {
    assert_eq!(parse_format("MD").unwrap(), DocumentFormat::Markdown);
    assert_eq!(parse_format("Text").unwrap(), DocumentFormat::Text);
    assert_eq!(parse_format("htm").unwrap(), DocumentFormat::Html);
    match parse_format("DocX") {
        Err(ConfigError::UnknownFormat(name)) => assert_eq!(name, "docx"),
        other => panic!("expected unknown format, got {other:?}"),
    }
}

#[test]
fn parse_tokenizer_reads_serialized_names() {
    assert_eq!(parse_tokenizer("O200K_BASE").unwrap(), TokenizerKind::O200kBase);
    assert_eq!(parse_tokenizer("p50k_edit").unwrap(), TokenizerKind::P50kEdit);
    let e = parse_tokenizer("gpt2").unwrap_err();
    assert_eq!(e.message(), "unknown tokenizer 'gpt2'");
    let e = parse_format("latex").unwrap_err();
    assert_eq!(e.message(), "unknown format: latex");
}

#[test]
fn build_config_applies_flags_in_order() {
    let mut base = PipelineConfig::default();
    base.scrub.anchor_window = 3;
    let overrides = CliOverrides {
        format: Some("pdf".to_string()),
        tokenizer: Some("r50k_base".to_string()),
        max_tokens: Some(300),
        scrub: Some("phone".to_string()),
        anchor_window: Some(2),
        exclude_pii: Some(" email , ssn".to_string()),
    };
    let c = build_config(base, &overrides).unwrap();
    assert_eq!(c.format, DocumentFormat::Pdf);
    assert_eq!(c.chunk.tokenizer, TokenizerKind::R50kBase);
    assert_eq!(c.chunk.max_tokens, 300);
    assert_eq!(c.scrub.patterns, vec![BuiltInPattern::Phone]);
    assert_eq!(c.scrub.anchor_window, 2);
    assert_eq!(c.scrub.report_only, vec!["email".to_string(), "ssn".to_string()]);

    // --scrub resets the anchor window to its default unless it is given too.
    let mut base = PipelineConfig::default();
    base.scrub.anchor_window = 3;
    let mut o = CliOverrides::none();
    o.scrub = Some("email".to_string());
    assert_eq!(build_config(base, &o).unwrap().scrub.anchor_window, 7);

    // The first failing flag is reported.
    let mut o = CliOverrides::none();
    o.format = Some("nope".to_string());
    o.tokenizer = Some("nope".to_string());
    assert!(matches!(
        build_config(PipelineConfig::default(), &o),
        Err(ConfigError::UnknownFormat(_))
    ));
    let mut o = CliOverrides::none();
    o.tokenizer = Some("nope".to_string());
    assert!(matches!(
        build_config(PipelineConfig::default(), &o),
        Err(ConfigError::UnknownTokenizer(_))
    ));
}

#[test]
fn report_only_names_are_trimmed() {
    assert_eq!(parse_report_only("a, b ,"), vec!["a".to_string(), "b".to_string(), String::new()]);
}

#[test]
fn json_chunk_carries_hashes() {
    let spec = ChunkRecord {
        chunk_index: 0,
        chunk_id: "test".to_string(),
        text: "sample text".to_string(),
        token_count: 2,
        source_path: "t.md".to_string(),
        heading_path: vec![],
        section_kind: "paragraph".to_string(),
        char_offset_start: 0,
        char_offset_end: 11,
        pii: vec![],
    };
    let jc = JsonChunk::from_chunk(&spec, "deadbeef");
    assert_eq!(jc.source_hash, "deadbeef");
    assert_eq!(jc.chunk_hash, hex_hash(b"sample text"));
}

#[test]
fn json_chunk_copies_findings() {
    let mut c = chunk(4, "call 555-0100", 3);
    c.heading_path = vec!["Intro".to_string()];
    c.pii = vec![PiiRecord {
        entity: "phone".to_string(),
        offset_start: 5,
        offset_end: 13,
        confidence_bits: 0.5f32.to_bits(),
        anchors_hit: vec!["call".to_string()],
    }];
    let j = JsonChunk::from_chunk(&c, "");
    assert_eq!(j.chunk_index, 4);
    assert_eq!(j.heading_path, vec!["Intro".to_string()]);
    assert_eq!(j.pii.len(), 1);
    assert_eq!(j.pii[0].entity, "phone");
    assert_eq!(f32::from_bits(j.pii[0].confidence_bits), 0.5);
    assert_eq!(j.section_kind, "paragraph");
}

#[test]
fn dedup_keeps_first_occurrence() {
    let paths = vec![
        "/tmp/d/a.md".to_string(),
        "/tmp/d/b.md".to_string(),
        "/tmp/d/a.md".to_string(),
        "/tmp/d/c.md".to_string(),
        "/tmp/d/b.md".to_string(),
    ];
    assert_eq!(
        dedup_paths(paths),
        vec!["/tmp/d/a.md".to_string(), "/tmp/d/b.md".to_string(), "/tmp/d/c.md".to_string()]
    );
}

#[test]
fn walk_and_support_follow_extensions() {
    assert!(is_supported_ext("/x/A.MD"));
    assert!(!is_supported_ext("/x/a.exe"));
    assert!(!is_supported_ext("/x/Makefile"));
    assert!(walk_keeps(Some("md"), true, DocumentFormat::Markdown));
    assert!(walk_keeps(Some("markdown"), true, DocumentFormat::Markdown));
    assert!(!walk_keeps(Some("txt"), true, DocumentFormat::Markdown));
    assert!(walk_keeps(Some("txt"), false, DocumentFormat::Markdown));
    assert!(!walk_keeps(None, false, DocumentFormat::Markdown));
}

#[test]
fn output_writer_follows_extension_in_any_case() {
    assert_eq!(output_format_for_path("out.arrow"), OutputFormat::Arrow);
    assert_eq!(output_format_for_path("out.csv"), OutputFormat::Csv);
    assert_eq!(output_format_for_path("out.json"), OutputFormat::Json);
    assert_eq!(output_format_for_path("-"), OutputFormat::Json);
    assert_eq!(output_format_for_path("OUT.ARROW"), OutputFormat::Arrow);
    assert_eq!(output_label_for_path("OUT.ARROW"), "Arrow IPC");
    assert_eq!(output_format_for_path("/tmp/out.CSV"), OutputFormat::Csv);
    assert_eq!(output_label_for_path("/tmp/out.CSV"), "CSV");
    assert_eq!(output_format_for_path("out.Json"), OutputFormat::Json);
}

#[test]
fn outcome_renumbers_across_files_and_keeps_last_error() {
    let results = vec![
        Ok(vec![chunk(0, "a", 1), chunk(1, "b", 2)]),
        Err("could not read x".to_string()),
        Ok(vec![chunk(0, "c", 3)]),
        Err("failed y".to_string()),
    ];
    let out = assemble_outcome(results);
    let idx: Vec<u32> = out.chunks.iter().map(|c| c.chunk_index).collect();
    let texts: Vec<&str> = out.chunks.iter().map(|c| c.text.as_str()).collect();
    assert_eq!(idx, vec![0, 1, 2]);
    assert_eq!(texts, vec!["a", "b", "c"]);
    assert_eq!(out.error.as_deref(), Some("failed y"));
    assert!(assemble_outcome(vec![Ok(vec![])]).error.is_none());
}

#[test]
fn tagging_pairs_chunks_with_file_hashes() {
    let files = vec![
        ("h1".to_string(), vec![chunk(0, "a", 1), chunk(1, "b", 1)]),
        ("h2".to_string(), vec![]),
        ("h3".to_string(), vec![chunk(0, "c", 1)]),
    ];
    let tagged = tag_with_hashes(files);
    let pairs: Vec<(&str, &str)> =
        tagged.iter().map(|p| (p.source_hash.as_str(), p.chunk.text.as_str())).collect();
    assert_eq!(pairs, vec![("h1", "a"), ("h1", "b"), ("h3", "c")]);
}

#[test]
fn token_stats_sum_and_average() {
    let chunks = vec![chunk(0, "a", 10), chunk(1, "b", 5), chunk(2, "c", 6)];
    assert_eq!(token_stats(&chunks), (21, 7));
    assert_eq!(token_stats(&vec![]), (0, 0));
}

#[test]
fn launch_and_limits() {
    assert_eq!(launch_mode(false, 0, false), LaunchMode::Tui);
    assert_eq!(launch_mode(false, 0, true), LaunchMode::Help);
    assert_eq!(launch_mode(true, 0, false), LaunchMode::Headless);
    assert_eq!(launch_mode(false, 2, false), LaunchMode::Headless);
    assert_eq!(worker_threads(0), 1);
    assert_eq!(worker_threads(4), 4);
    assert_eq!(poll_seconds(0), 1);
    assert_eq!(poll_seconds(5), 5);
    assert!(writes_to_stdout("-"));
    assert!(!writes_to_stdout("out.json"));
    assert_eq!(output_path_or_default(None), "output.json");
    assert_eq!(output_path_or_default(Some("x.csv")), "x.csv");
}

#[test]
fn scrub_names_are_read_as_json_strings() {
    // A JSON escape in a name is decoded before the name is looked up.
    assert_eq!(parse_scrub("\\u0065mail").patterns, vec![BuiltInPattern::Email]);
    assert_eq!(parse_tokenizer("r50k\\u005fbase").unwrap(), TokenizerKind::R50kBase);
}
