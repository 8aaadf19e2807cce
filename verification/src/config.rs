//! Pipeline configuration: document formats, tokenizers and PII patterns, and the
//! layering of command-line flags over a base configuration.

use vstd::prelude::*;
use crate::text::{
    ascii_lowered, ascii_text, comma_pieces, lowercase, owned, same_text, split_commas,
    std_lowercase, texts, trim, trimmed,
};

verus! {

/// Document formats the pipeline can parse.
#[derive(Debug, Clone, Copy, PartialEq, Eq, Structural)]
pub enum DocumentFormat {
    Markdown,
    Text,
    Html,
    Json,
    Pdf,
    Docx,
    Pptx,
    Xlsx,
    Epub,
    Rtf,
}

/// BPE tokenizers used to measure chunk sizes.
#[derive(Debug, Clone, Copy, PartialEq, Eq, Structural)]
pub enum TokenizerKind {
    Cl100kBase,
    O200kBase,
    R50kBase,
    P50kBase,
    P50kEdit,
    O200kHarmony,
}

/// Built-in PII patterns that scrubbing can remove.
#[derive(Debug, Clone, Copy, PartialEq, Eq, Structural)]
pub enum BuiltInPattern {
    Email,
    Ssn,
    Phone,
    CreditCard,
    RoutingNumber,
    AwsKey,
    GithubPat,
    Jwt,
}

/// Chunking settings.
#[derive(Debug, Clone, Copy, PartialEq, Eq, Structural)]
pub struct ChunkSettings {
    pub tokenizer: TokenizerKind,
    pub max_tokens: u32,
}

/// Scrubbing settings (the minimum-confidence threshold, a float, is kept by the
/// caller).
#[derive(Debug)]
pub struct ScrubSettings {
    pub patterns: Vec<BuiltInPattern>,
    pub anchor_window: u8,
    pub report_only: Vec<String>,
}

/// The parts of a pipeline configuration that this tool reads or changes.
#[derive(Debug)]
pub struct PipelineConfig {
    pub format: DocumentFormat,
    /// Whether the format was given on the command line (`--format`). A given
    /// format is used for every file; otherwise each file's format is inferred
    /// from its extension.
    pub format_given: bool,
    pub chunk: ChunkSettings,
    pub scrub: ScrubSettings,
    pub source_label: Option<String>,
}

/// Mathematical view of a [`PipelineConfig`].
#[verifier::ext_equal]
pub struct ConfigView {
    pub format: DocumentFormat,
    pub format_given: bool,
    pub tokenizer: TokenizerKind,
    pub max_tokens: u32,
    pub patterns: Seq<BuiltInPattern>,
    pub anchor_window: u8,
    pub report_only: Seq<Seq<char>>,
    pub source_label: Option<Seq<char>>,
}

/// View of an optional string.
pub open spec fn opt_text(o: Option<String>) -> Option<Seq<char>> {
    match o {
        Some(s) => Some(s@),
        None => None,
    }
}

impl View for PipelineConfig {
    type V = ConfigView;

    open spec fn view(&self) -> ConfigView {
        ConfigView {
            format: self.format,
            format_given: self.format_given,
            tokenizer: self.chunk.tokenizer,
            max_tokens: self.chunk.max_tokens,
            patterns: self.scrub.patterns@,
            anchor_window: self.scrub.anchor_window,
            report_only: texts(self.scrub.report_only@),
            source_label: opt_text(self.source_label),
        }
    }
}

/// Half-window, in words, of the contextual anchor scan when none is configured.
pub open spec fn default_anchor_window() -> u8 {
    7
}

/// The built-in default configuration: Markdown (not given on the command line, so
/// inferred per file), `cl100k_base`, 512-token chunks,
/// no scrubbing patterns, anchor window 7, nothing report-only, no source label.
pub open spec fn default_config() -> ConfigView {
    ConfigView {
        format: DocumentFormat::Markdown,
        format_given: false,
        tokenizer: TokenizerKind::Cl100kBase,
        max_tokens: 512,
        patterns: Seq::empty(),
        anchor_window: default_anchor_window(),
        report_only: Seq::empty(),
        source_label: None,
    }
}

impl ScrubSettings {
    /// Scrub settings with the given patterns and every other field at its default.
    pub fn with_patterns(patterns: Vec<BuiltInPattern>) -> (s: Self)
        ensures
            s.patterns@ == patterns@,
            s.anchor_window == default_anchor_window(),
            s.report_only@.len() == 0,
    {
        ScrubSettings { patterns, anchor_window: 7, report_only: Vec::new() }
    }
}

impl Default for PipelineConfig {
    fn default() -> (c: Self)
        ensures
            c@ == default_config(),
    {
        let c = PipelineConfig {
            format: DocumentFormat::Markdown,
            format_given: false,
            chunk: ChunkSettings { tokenizer: TokenizerKind::Cl100kBase, max_tokens: 512 },
            scrub: ScrubSettings::with_patterns(Vec::new()),
            source_label: None,
        };
        assert(c@.report_only =~= Seq::<Seq<char>>::empty());
        c
    }
}

/// A copy of a vector of strings.
pub fn copy_texts(v: &Vec<String>) -> (c: Vec<String>)
    ensures
        c@ == v@,
{
    let mut c: Vec<String> = Vec::new();
    let mut i: usize = 0;
    while i < v.len()
        invariant
            i <= v@.len(),
            c@ == v@.take(i as int),
        decreases v@.len() - i,
    {
        c.push(v[i].clone());
        assert(c@ =~= v@.take(i + 1));
        i = i + 1;
    }
    assert(v@.take(v@.len() as int) =~= v@);
    c
}

/// A copy of a vector of patterns.
pub fn copy_patterns(v: &Vec<BuiltInPattern>) -> (c: Vec<BuiltInPattern>)
    ensures
        c@ == v@,
{
    let mut c: Vec<BuiltInPattern> = Vec::new();
    let mut i: usize = 0;
    while i < v.len()
        invariant
            i <= v@.len(),
            c@ == v@.take(i as int),
        decreases v@.len() - i,
    {
        c.push(v[i]);
        assert(c@ =~= v@.take(i + 1));
        i = i + 1;
    }
    assert(v@.take(v@.len() as int) =~= v@);
    c
}

impl PipelineConfig {
    /// A field-for-field copy of the configuration.
    pub fn duplicate(&self) -> (c: Self)
        ensures
            c@ == self@,
    {
        let label = match &self.source_label {
            Some(s) => Some(s.clone()),
            None => None,
        };
        PipelineConfig {
            format: self.format,
            format_given: self.format_given,
            chunk: self.chunk,
            scrub: ScrubSettings {
                patterns: copy_patterns(&self.scrub.patterns),
                anchor_window: self.scrub.anchor_window,
                report_only: copy_texts(&self.scrub.report_only),
            },
            source_label: label,
        }
    }
}

// ---------------------------------------------------------------------------
// Names
// ---------------------------------------------------------------------------

/// Format named on the command line (already lower-cased).
pub open spec fn format_named(name: Seq<char>) -> Option<DocumentFormat> {
    if name == "markdown"@ || name == "md"@ {
        Some(DocumentFormat::Markdown)
    } else if name == "text"@ || name == "txt"@ {
        Some(DocumentFormat::Text)
    } else if name == "html"@ || name == "htm"@ {
        Some(DocumentFormat::Html)
    } else if name == "json"@ {
        Some(DocumentFormat::Json)
    } else if name == "pdf"@ {
        Some(DocumentFormat::Pdf)
    } else {
        None
    }
}

/// Tokenizer by its serialized name.
pub open spec fn tokenizer_named(name: Seq<char>) -> Option<TokenizerKind> {
    if name == "cl100k_base"@ {
        Some(TokenizerKind::Cl100kBase)
    } else if name == "o200k_base"@ {
        Some(TokenizerKind::O200kBase)
    } else if name == "r50k_base"@ {
        Some(TokenizerKind::R50kBase)
    } else if name == "p50k_base"@ {
        Some(TokenizerKind::P50kBase)
    } else if name == "p50k_edit"@ {
        Some(TokenizerKind::P50kEdit)
    } else if name == "o200k_harmony"@ {
        Some(TokenizerKind::O200kHarmony)
    } else {
        None
    }
}

/// PII pattern by its serialized name.
pub open spec fn pattern_named(name: Seq<char>) -> Option<BuiltInPattern> {
    if name == "email"@ {
        Some(BuiltInPattern::Email)
    } else if name == "ssn"@ {
        Some(BuiltInPattern::Ssn)
    } else if name == "phone"@ {
        Some(BuiltInPattern::Phone)
    } else if name == "credit_card"@ {
        Some(BuiltInPattern::CreditCard)
    } else if name == "routing_number"@ {
        Some(BuiltInPattern::RoutingNumber)
    } else if name == "aws_key"@ {
        Some(BuiltInPattern::AwsKey)
    } else if name == "github_pat"@ {
        Some(BuiltInPattern::GithubPat)
    } else if name == "jwt"@ {
        Some(BuiltInPattern::Jwt)
    } else {
        None
    }
}

/// The serialized names of the built-in PII patterns, in the order the
/// command-line help lists them.
pub open spec fn pattern_names() -> Seq<Seq<char>> {
    seq![
        "email"@,
        "ssn"@,
        "phone"@,
        "credit_card"@,
        "routing_number"@,
        "aws_key"@,
        "github_pat"@,
        "jwt"@,
    ]
}

/// The built-in PII patterns, in the order they are declared (the same order as
/// their documented names).
pub open spec fn all_patterns() -> Seq<BuiltInPattern> {
    seq![
        BuiltInPattern::Email,
        BuiltInPattern::Ssn,
        BuiltInPattern::Phone,
        BuiltInPattern::CreditCard,
        BuiltInPattern::RoutingNumber,
        BuiltInPattern::AwsKey,
        BuiltInPattern::GithubPat,
        BuiltInPattern::Jwt,
    ]
}

/// The serialized names of the tokenizers, in the order the documentation lists
/// them.
pub open spec fn tokenizer_names() -> Seq<Seq<char>> {
    seq![
        "cl100k_base"@,
        "o200k_base"@,
        "r50k_base"@,
        "p50k_base"@,
        "p50k_edit"@,
        "o200k_harmony"@,
    ]
}

/// The tokenizers, in the order they are declared (the same order as their
/// documented names).
pub open spec fn all_tokenizers() -> Seq<TokenizerKind> {
    seq![
        TokenizerKind::Cl100kBase,
        TokenizerKind::O200kBase,
        TokenizerKind::R50kBase,
        TokenizerKind::P50kBase,
        TokenizerKind::P50kEdit,
        TokenizerKind::O200kHarmony,
    ]
}

/// Law: the names `--scrub` reads are exactly the eight documented ones, each
/// naming its own pattern (the `i`-th documented name the `i`-th pattern), and
/// every pattern has a name; no other name is read as a pattern.
pub proof fn lemma_pattern_names()
    ensures
        pattern_names().len() == 8,
        all_patterns().len() == 8,
        forall|p: BuiltInPattern| all_patterns().contains(p),
        forall|i: int, j: int| 0 <= i < j < 8 ==> all_patterns()[i] != all_patterns()[j],
        forall|i: int| 0 <= i < 8 ==> pattern_named(#[trigger] pattern_names()[i]) == Some(all_patterns()[i]),
        forall|n: Seq<char>| #[trigger] pattern_named(n) is Some ==> pattern_names().contains(n),
{
    reveal_strlit("email");
    reveal_strlit("ssn");
    reveal_strlit("phone");
    reveal_strlit("credit_card");
    reveal_strlit("routing_number");
    reveal_strlit("aws_key");
    reveal_strlit("github_pat");
    reveal_strlit("jwt");
    let names = pattern_names();
    let all = all_patterns();
    assert(names[0][0] == 'e' && names[1][0] == 's' && names[2][0] == 'p' && names[3][0] == 'c');
    assert(names[4][0] == 'r' && names[5][0] == 'a' && names[6][0] == 'g' && names[7][0] == 'j');
    assert forall|p: BuiltInPattern| all.contains(p) by {
        match p {
            BuiltInPattern::Email => assert(all[0] == p),
            BuiltInPattern::Ssn => assert(all[1] == p),
            BuiltInPattern::Phone => assert(all[2] == p),
            BuiltInPattern::CreditCard => assert(all[3] == p),
            BuiltInPattern::RoutingNumber => assert(all[4] == p),
            BuiltInPattern::AwsKey => assert(all[5] == p),
            BuiltInPattern::GithubPat => assert(all[6] == p),
            BuiltInPattern::Jwt => assert(all[7] == p),
        }
    }
    assert forall|n: Seq<char>| #[trigger] pattern_named(n) is Some implies names.contains(n) by {
        if n == names[0] {
        } else if n == names[1] {
        } else if n == names[2] {
        } else if n == names[3] {
        } else if n == names[4] {
        } else if n == names[5] {
        } else if n == names[6] {
        } else {
            assert(n == names[7]);
        }
    }
}

/// Law: the names `--tokenizer` reads (after lower-casing) are exactly the six
/// documented ones, each naming its own tokenizer (the `i`-th documented name the
/// `i`-th tokenizer), and every tokenizer has a name; no other name is read as a
/// tokenizer.
pub proof fn lemma_tokenizer_names()
    ensures
        tokenizer_names().len() == 6,
        all_tokenizers().len() == 6,
        forall|t: TokenizerKind| all_tokenizers().contains(t),
        forall|i: int, j: int| 0 <= i < j < 6 ==> all_tokenizers()[i] != all_tokenizers()[j],
        forall|i: int| 0 <= i < 6 ==> tokenizer_named(#[trigger] tokenizer_names()[i]) == Some(all_tokenizers()[i]),
        forall|n: Seq<char>| #[trigger] tokenizer_named(n) is Some ==> tokenizer_names().contains(n),
{
    reveal_strlit("cl100k_base");
    reveal_strlit("o200k_base");
    reveal_strlit("r50k_base");
    reveal_strlit("p50k_base");
    reveal_strlit("p50k_edit");
    reveal_strlit("o200k_harmony");
    let names = tokenizer_names();
    let all = all_tokenizers();
    assert(names[0][0] == 'c' && names[1][0] == 'o' && names[2][0] == 'r' && names[3][0] == 'p');
    assert(names[4][0] == 'p' && names[5][0] == 'o');
    assert(names[1].len() == 10 && names[5].len() == 13);
    assert(names[3][5] == 'b' && names[4][5] == 'e');
    assert forall|t: TokenizerKind| all.contains(t) by {
        match t {
            TokenizerKind::Cl100kBase => assert(all[0] == t),
            TokenizerKind::O200kBase => assert(all[1] == t),
            TokenizerKind::R50kBase => assert(all[2] == t),
            TokenizerKind::P50kBase => assert(all[3] == t),
            TokenizerKind::P50kEdit => assert(all[4] == t),
            TokenizerKind::O200kHarmony => assert(all[5] == t),
        }
    }
    assert forall|n: Seq<char>| #[trigger] tokenizer_named(n) is Some implies names.contains(n) by {
        if n == names[0] {
        } else if n == names[1] {
        } else if n == names[2] {
        } else if n == names[3] {
        } else if n == names[4] {
        } else {
            assert(n == names[5]);
        }
    }
}

/// The names `--format` accepts (lower-cased), each with the format it selects, as
/// the command-line help documents them.
pub open spec fn format_name_table() -> Seq<(Seq<char>, DocumentFormat)> {
    seq![
        ("markdown"@, DocumentFormat::Markdown),
        ("md"@, DocumentFormat::Markdown),
        ("text"@, DocumentFormat::Text),
        ("txt"@, DocumentFormat::Text),
        ("html"@, DocumentFormat::Html),
        ("htm"@, DocumentFormat::Html),
        ("json"@, DocumentFormat::Json),
        ("pdf"@, DocumentFormat::Pdf),
    ]
}

/// Law: `--format` accepts exactly the documented names, each selecting its
/// documented format; any other name is refused.
pub proof fn lemma_format_names()
    ensures
        forall|i: int|
            0 <= i < format_name_table().len() ==> format_named(#[trigger] format_name_table()[i].0)
                == Some(format_name_table()[i].1),
        forall|n: Seq<char>|
            #[trigger] format_named(n) is Some ==> exists|i: int|
                0 <= i < format_name_table().len() && #[trigger] format_name_table()[i].0 == n,
{
    reveal_strlit("markdown");
    reveal_strlit("md");
    reveal_strlit("text");
    reveal_strlit("txt");
    reveal_strlit("html");
    reveal_strlit("htm");
    reveal_strlit("json");
    reveal_strlit("pdf");
    let t = format_name_table();
    assert(t[0].0.len() == 8 && t[1].0.len() == 2 && t[0].0[0] == 'm' && t[1].0[0] == 'm');
    assert(t[2].0.len() == 4 && t[3].0.len() == 3 && t[2].0[0] == 't' && t[3].0[0] == 't');
    assert(t[4].0.len() == 4 && t[5].0.len() == 3 && t[4].0[0] == 'h' && t[5].0[0] == 'h');
    assert(t[6].0[0] == 'j' && t[7].0[0] == 'p');
    assert forall|n: Seq<char>| #[trigger] format_named(n) is Some implies exists|i: int|
        0 <= i < t.len() && #[trigger] t[i].0 == n by {
        if n == t[0].0 {
            assert(t[0].0 == n);
        } else if n == t[1].0 {
            assert(t[1].0 == n);
        } else if n == t[2].0 {
            assert(t[2].0 == n);
        } else if n == t[3].0 {
            assert(t[3].0 == n);
        } else if n == t[4].0 {
            assert(t[4].0 == n);
        } else if n == t[5].0 {
            assert(t[5].0 == n);
        } else if n == t[6].0 {
            assert(t[6].0 == n);
        } else {
            assert(t[7].0 == n);
        }
    }
}

/// The format a lower-cased command-line name stands for.
pub fn format_for_name(name: &str) -> (f: Option<DocumentFormat>)
    ensures
        f == format_named(name@),
{
    if same_text(name, "markdown") || same_text(name, "md") {
        Some(DocumentFormat::Markdown)
    } else if same_text(name, "text") || same_text(name, "txt") {
        Some(DocumentFormat::Text)
    } else if same_text(name, "html") || same_text(name, "htm") {
        Some(DocumentFormat::Html)
    } else if same_text(name, "json") {
        Some(DocumentFormat::Json)
    } else if same_text(name, "pdf") {
        Some(DocumentFormat::Pdf)
    } else {
        None
    }
}

/// The tokenizer a serialized name stands for.
pub fn tokenizer_for_name(name: &str) -> (t: Option<TokenizerKind>)
    ensures
        t == tokenizer_named(name@),
{
    if same_text(name, "cl100k_base") {
        Some(TokenizerKind::Cl100kBase)
    } else if same_text(name, "o200k_base") {
        Some(TokenizerKind::O200kBase)
    } else if same_text(name, "r50k_base") {
        Some(TokenizerKind::R50kBase)
    } else if same_text(name, "p50k_base") {
        Some(TokenizerKind::P50kBase)
    } else if same_text(name, "p50k_edit") {
        Some(TokenizerKind::P50kEdit)
    } else if same_text(name, "o200k_harmony") {
        Some(TokenizerKind::O200kHarmony)
    } else {
        None
    }
}

/// The PII pattern a serialized name stands for.
pub fn pattern_for_name(name: &str) -> (p: Option<BuiltInPattern>)
    ensures
        p == pattern_named(name@),
{
    if same_text(name, "email") {
        Some(BuiltInPattern::Email)
    } else if same_text(name, "ssn") {
        Some(BuiltInPattern::Ssn)
    } else if same_text(name, "phone") {
        Some(BuiltInPattern::Phone)
    } else if same_text(name, "credit_card") {
        Some(BuiltInPattern::CreditCard)
    } else if same_text(name, "routing_number") {
        Some(BuiltInPattern::RoutingNumber)
    } else if same_text(name, "aws_key") {
        Some(BuiltInPattern::AwsKey)
    } else if same_text(name, "github_pat") {
        Some(BuiltInPattern::GithubPat)
    } else if same_text(name, "jwt") {
        Some(BuiltInPattern::Jwt)
    } else {
        None
    }
}

// ---------------------------------------------------------------------------
// JSON string literals
// ---------------------------------------------------------------------------

/// The string `serde_json` reads from the JSON text `"` + `text` + `"`, or `None`
/// when that is not a valid JSON string.
pub uninterp spec fn json_string_value(text: Seq<char>) -> Option<Seq<char>>;

/// Characters that stand for themselves inside a JSON string: anything but the
/// quotation mark, the backslash and the control characters U+0000 to U+001F.
pub open spec fn json_plain(text: Seq<char>) -> bool {
    forall|i: int|
        0 <= i < text.len() ==> #[trigger] text[i] != '"' && text[i] != '\\' && (text[i] as u32)
            >= 0x20
}

/// Reads `text` wrapped in double quotes as a JSON string with
/// `serde_json::from_str::<String>`.
/// Trusted: the result is `json_string_value(text)`; when the text holds only
/// characters that JSON lets stand for themselves (RFC 8259, section 7), the
/// decoded string is the text itself.
#[verifier::external_body]
fn json_string(text: &str) -> (v: Option<String>)
    ensures
        opt_text(v) == json_string_value(text@),
        json_plain(text@) ==> opt_text(v) == Some(text@),
{
    serde_json::from_str::<String>(&format!("\"{}\"", text)).ok()
}

/// The tokenizer selected by `--tokenizer`: the flag's text, lower-cased, read as a
/// serialized tokenizer name.
pub open spec fn tokenizer_from_flag(flag: Seq<char>) -> Option<TokenizerKind> {
    match json_string_value(std_lowercase(flag)) {
        Some(name) => tokenizer_named(name),
        None => None,
    }
}

/// The pattern one trimmed piece of `--scrub` names, if any.
pub open spec fn pattern_from_piece(piece: Seq<char>) -> Option<BuiltInPattern> {
    match json_string_value(trimmed(piece)) {
        Some(name) => pattern_named(name),
        None => None,
    }
}

/// The patterns named by a sequence of pieces, unknown names skipped, order kept.
pub open spec fn patterns_from_pieces(pieces: Seq<Seq<char>>) -> Seq<BuiltInPattern>
    decreases pieces.len(),
{
    if pieces.len() == 0 {
        Seq::empty()
    } else {
        let r = patterns_from_pieces(pieces.drop_last());
        match pattern_from_piece(pieces.last()) {
            Some(p) => r.push(p),
            None => r,
        }
    }
}

/// The patterns named by pieces that are plain JSON string text: each trimmed piece
/// read as itself, unknown names skipped, order kept.
pub open spec fn plain_patterns(pieces: Seq<Seq<char>>) -> Seq<BuiltInPattern>
    decreases pieces.len(),
{
    if pieces.len() == 0 {
        Seq::empty()
    } else {
        let r = plain_patterns(pieces.drop_last());
        match pattern_named(trimmed(pieces.last())) {
            Some(p) => r.push(p),
            None => r,
        }
    }
}

proof fn lemma_plain_patterns(pieces: Seq<Seq<char>>)
    requires
        forall|j: int|
            0 <= j < pieces.len() ==> json_string_value(trimmed(#[trigger] pieces[j])) == Some(
                trimmed(pieces[j]),
            ),
    ensures
        patterns_from_pieces(pieces) == plain_patterns(pieces),
    decreases pieces.len(),
{
    if pieces.len() > 0 {
        let d = pieces.drop_last();
        assert forall|j: int| 0 <= j < d.len() implies json_string_value(trimmed(#[trigger] d[j]))
            == Some(trimmed(d[j])) by {
            assert(d[j] == pieces[j]);
        }
        lemma_plain_patterns(d);
        assert(json_string_value(trimmed(pieces[pieces.len() - 1])) == Some(
            trimmed(pieces[pieces.len() - 1]),
        ));
    }
}

/// Errors in command-line configuration.
#[derive(Debug)]
pub enum ConfigError {
    /// `--format` named no known format (the lower-cased name).
    UnknownFormat(String),
    /// `--tokenizer` named no known tokenizer (the name as given).
    UnknownTokenizer(String),
}

/// View of a [`ConfigError`].
pub enum ConfigErrorView {
    UnknownFormat(Seq<char>),
    UnknownTokenizer(Seq<char>),
}

impl View for ConfigError {
    type V = ConfigErrorView;

    open spec fn view(&self) -> ConfigErrorView {
        match self {
            ConfigError::UnknownFormat(s) => ConfigErrorView::UnknownFormat(s@),
            ConfigError::UnknownTokenizer(s) => ConfigErrorView::UnknownTokenizer(s@),
        }
    }
}

/// The message a configuration error is reported with.
pub open spec fn config_error_message(e: ConfigErrorView) -> Seq<char> {
    match e {
        ConfigErrorView::UnknownFormat(name) => "unknown format: "@ + name,
        ConfigErrorView::UnknownTokenizer(name) => "unknown tokenizer '"@ + name + "'"@,
    }
}

impl ConfigError {
    /// The message this error is reported with.
    pub fn message(&self) -> (m: String)
        ensures
            m@ == config_error_message(self@),
    {
        match self {
            ConfigError::UnknownFormat(name) => {
                let mut m = owned("unknown format: ");
                m.append(name.as_str());
                m
            },
            ConfigError::UnknownTokenizer(name) => {
                let mut m = owned("unknown tokenizer '");
                m.append(name.as_str());
                m.append("'");
                m
            },
        }
    }
}

/// `--format`: the name, lower-cased, must be one of the five command-line
/// formats; otherwise the error carries the lower-cased name.
pub fn parse_format(s: &str) -> (r: Result<DocumentFormat, ConfigError>)
    ensures
        match r {
            Ok(f) => format_named(std_lowercase(s@)) == Some(f),
            Err(e) => format_named(std_lowercase(s@)) is None && e@ == ConfigErrorView::UnknownFormat(
                std_lowercase(s@),
            ),
        },
        ascii_text(s@) ==> match r {
            Ok(f) => format_named(ascii_lowered(s@)) == Some(f),
            Err(e) => format_named(ascii_lowered(s@)) is None && e@ == ConfigErrorView::UnknownFormat(
                ascii_lowered(s@),
            ),
        },
{
    let lower = lowercase(s);
    match format_for_name(lower.as_str()) {
        Some(f) => Ok(f),
        None => Err(ConfigError::UnknownFormat(lower)),
    }
}

/// `--tokenizer`: the name, lower-cased, read as a serialized tokenizer name;
/// otherwise the error carries the name as given.
pub fn parse_tokenizer(s: &str) -> (r: Result<TokenizerKind, ConfigError>)
    ensures
        match r {
            Ok(t) => tokenizer_from_flag(s@) == Some(t),
            Err(e) => tokenizer_from_flag(s@) is None && e@ == ConfigErrorView::UnknownTokenizer(s@),
        },
        json_plain(std_lowercase(s@)) ==> match r {
            Ok(t) => tokenizer_named(std_lowercase(s@)) == Some(t),
            Err(_) => tokenizer_named(std_lowercase(s@)) is None,
        },
        ascii_text(s@) && json_plain(ascii_lowered(s@)) ==> match r {
            Ok(t) => tokenizer_named(ascii_lowered(s@)) == Some(t),
            Err(_) => tokenizer_named(ascii_lowered(s@)) is None,
        },
{
    let lower = lowercase(s);
    let found = match json_string(lower.as_str()) {
        Some(name) => tokenizer_for_name(name.as_str()),
        None => None,
    };
    match found {
        Some(t) => Ok(t),
        None => Err(ConfigError::UnknownTokenizer(owned(s))),
    }
}

/// `--scrub`: the comma-separated names, each trimmed and read as a serialized
/// pattern name; unknown names are dropped. Every other scrub setting is reset to
/// its default.
pub fn parse_scrub(s: &str) -> (p: ScrubSettings)
    ensures
        p.patterns@ == patterns_from_pieces(comma_pieces(s@)),
        (forall|i: int|
            0 <= i < comma_pieces(s@).len() ==> json_plain(trimmed(#[trigger] comma_pieces(s@)[i])))
            ==> p.patterns@ == plain_patterns(comma_pieces(s@)),
        p.anchor_window == default_anchor_window(),
        p.report_only@.len() == 0,
{
    let pieces = split_commas(s);
    let mut patterns: Vec<BuiltInPattern> = Vec::new();
    let mut i: usize = 0;
    assert(texts(pieces@).take(0) =~= Seq::<Seq<char>>::empty());
    while i < pieces.len()
        invariant
            i <= pieces@.len(),
            texts(pieces@) == comma_pieces(s@),
            patterns@ == patterns_from_pieces(texts(pieces@).take(i as int)),
            forall|j: int|
                0 <= j < i ==> json_plain(trimmed(#[trigger] texts(pieces@)[j])) ==> json_string_value(
                    trimmed(texts(pieces@)[j]),
                ) == Some(trimmed(texts(pieces@)[j])),
        decreases pieces@.len() - i,
    {
        assert(texts(pieces@)[i as int] == pieces@[i as int]@);
        let piece = trim(pieces[i].as_str());
        let found = match json_string(piece.as_str()) {
            Some(name) => pattern_for_name(name.as_str()),
            None => None,
        };
        assert(texts(pieces@).take(i + 1).drop_last() =~= texts(pieces@).take(i as int));
        if let Some(p) = found {
            patterns.push(p);
        }
        i = i + 1;
    }
    assert(texts(pieces@).take(pieces@.len() as int) =~= texts(pieces@));
    proof {
        if forall|k: int|
            0 <= k < comma_pieces(s@).len() ==> json_plain(trimmed(#[trigger] comma_pieces(s@)[k])) {
            lemma_plain_patterns(comma_pieces(s@));
        }
    }
    ScrubSettings::with_patterns(patterns)
}

/// `--exclude-pii`: the comma-separated entity names, each trimmed.
pub fn parse_report_only(s: &str) -> (names: Vec<String>)
    ensures
        texts(names@) == comma_pieces(s@).map_values(|p: Seq<char>| trimmed(p)),
{
    let pieces = split_commas(s);
    let mut names: Vec<String> = Vec::new();
    let mut i: usize = 0;
    while i < pieces.len()
        invariant
            i <= pieces@.len(),
            texts(pieces@) == comma_pieces(s@),
            names@.len() == i,
            forall|j: int| 0 <= j < i ==> #[trigger] names@[j]@ == trimmed(pieces@[j]@),
        decreases pieces@.len() - i,
    {
        let t = trim(pieces[i].as_str());
        names.push(t);
        i = i + 1;
    }
    assert(texts(names@) =~= comma_pieces(s@).map_values(|p: Seq<char>| trimmed(p))) by {
        assert forall|j: int| 0 <= j < names@.len() implies texts(names@)[j] == comma_pieces(
            s@,
        ).map_values(|p: Seq<char>| trimmed(p))[j] by {
            assert(texts(pieces@)[j] == pieces@[j]@);
        }
    }
    names
}

/// Command-line flags that override the base configuration (the minimum-confidence
/// threshold, a float, is applied by the caller).
#[derive(Debug)]
pub struct CliOverrides {
    pub format: Option<String>,
    pub tokenizer: Option<String>,
    pub max_tokens: Option<u32>,
    pub scrub: Option<String>,
    pub anchor_window: Option<u8>,
    pub exclude_pii: Option<String>,
}

/// View of [`CliOverrides`].
pub struct OverridesView {
    pub format: Option<Seq<char>>,
    pub tokenizer: Option<Seq<char>>,
    pub max_tokens: Option<u32>,
    pub scrub: Option<Seq<char>>,
    pub anchor_window: Option<u8>,
    pub exclude_pii: Option<Seq<char>>,
}

impl View for CliOverrides {
    type V = OverridesView;

    open spec fn view(&self) -> OverridesView {
        OverridesView {
            format: opt_text(self.format),
            tokenizer: opt_text(self.tokenizer),
            max_tokens: self.max_tokens,
            scrub: opt_text(self.scrub),
            anchor_window: self.anchor_window,
            exclude_pii: opt_text(self.exclude_pii),
        }
    }
}

impl CliOverrides {
    /// No flag given.
    pub fn none() -> (o: Self)
        ensures
            o.format is None,
            o.tokenizer is None,
            o.max_tokens is None,
            o.scrub is None,
            o.anchor_window is None,
            o.exclude_pii is None,
    {
        CliOverrides {
            format: None,
            tokenizer: None,
            max_tokens: None,
            scrub: None,
            anchor_window: None,
            exclude_pii: None,
        }
    }
}

/// `--format`, applied to a configuration.
pub open spec fn with_format_flag(c: ConfigView, flag: Option<Seq<char>>) -> Result<
    ConfigView,
    ConfigErrorView,
> {
    match flag {
        None => Ok(c),
        Some(f) => match format_named(std_lowercase(f)) {
            Some(format) => Ok(ConfigView { format, format_given: true, ..c }),
            None => Err(ConfigErrorView::UnknownFormat(std_lowercase(f))),
        },
    }
}

/// `--tokenizer`, applied to a configuration.
pub open spec fn with_tokenizer_flag(c: ConfigView, flag: Option<Seq<char>>) -> Result<
    ConfigView,
    ConfigErrorView,
> {
    match flag {
        None => Ok(c),
        Some(t) => match tokenizer_from_flag(t) {
            Some(tokenizer) => Ok(ConfigView { tokenizer, ..c }),
            None => Err(ConfigErrorView::UnknownTokenizer(t)),
        },
    }
}

/// The flags that cannot fail, applied in order: `--max-tokens`, `--scrub` (which
/// resets the other scrub settings), `--anchor-window`, `--exclude-pii`.
pub open spec fn with_plain_flags(c: ConfigView, o: OverridesView) -> ConfigView {
    let c1 = match o.max_tokens {
        Some(m) => ConfigView { max_tokens: m, ..c },
        None => c,
    };
    let c2 = match o.scrub {
        Some(s) => ConfigView {
            patterns: patterns_from_pieces(comma_pieces(s)),
            anchor_window: default_anchor_window(),
            report_only: Seq::empty(),
            ..c1
        },
        None => c1,
    };
    let c3 = match o.anchor_window {
        Some(a) => ConfigView { anchor_window: a, ..c2 },
        None => c2,
    };
    match o.exclude_pii {
        Some(e) => ConfigView {
            report_only: comma_pieces(e).map_values(|p: Seq<char>| trimmed(p)),
            ..c3
        },
        None => c3,
    }
}

/// The configuration the command-line flags make of `base`, or the first error:
/// format, then tokenizer, then the flags that cannot fail.
pub open spec fn layered_config(base: ConfigView, o: OverridesView) -> Result<
    ConfigView,
    ConfigErrorView,
> {
    match with_format_flag(base, o.format) {
        Err(e) => Err(e),
        Ok(c1) => match with_tokenizer_flag(c1, o.tokenizer) {
            Err(e) => Err(e),
            Ok(c2) => Ok(with_plain_flags(c2, o)),
        },
    }
}

/// Lays the command-line flags over a base configuration (the defaults, or what a
/// TOML file and a JSON profile gave). CLI flags take precedence.
pub fn build_config(base: PipelineConfig, o: &CliOverrides) -> (r: Result<
    PipelineConfig,
    ConfigError,
>)
    ensures
        match r {
            Ok(c) => layered_config(base@, o@) == Ok::<ConfigView, ConfigErrorView>(c@),
            Err(e) => layered_config(base@, o@) == Err::<ConfigView, ConfigErrorView>(e@),
        },
{
    let mut config = base;
    if let Some(fmt) = &o.format {
        match parse_format(fmt.as_str()) {
            Ok(f) => {
                config.format = f;
                config.format_given = true;
            },
            Err(e) => {
                return Err(e);
            },
        }
    }
    let ghost c1 = config@;
    if let Some(tok) = &o.tokenizer {
        match parse_tokenizer(tok.as_str()) {
            Ok(t) => {
                config.chunk.tokenizer = t;
            },
            Err(e) => {
                return Err(e);
            },
        }
    }
    if let Some(mt) = o.max_tokens {
        config.chunk.max_tokens = mt;
    }
    if let Some(scrub) = &o.scrub {
        config.scrub = parse_scrub(scrub.as_str());
        assert(texts(config.scrub.report_only@) =~= Seq::<Seq<char>>::empty());
    }
    if let Some(aw) = o.anchor_window {
        config.scrub.anchor_window = aw;
    }
    if let Some(exclude) = &o.exclude_pii {
        config.scrub.report_only = parse_report_only(exclude.as_str());
    }
    Ok(config)
}

/// Law: command-line flags take precedence over the configuration files. A valid
/// `--format`, `--tokenizer`, `--max-tokens` or `--anchor-window` is what the
/// configuration ends up with, `--scrub` decides the pattern list, and with no
/// flag at all the base configuration is kept as it is.
pub proof fn lemma_flags_take_precedence(base: ConfigView, o: OverridesView)
    ensures
        layered_config(base, o) is Err <==> (match o.format {
            Some(f) => format_named(std_lowercase(f)) is None,
            None => false,
        } || match o.tokenizer {
            Some(t) => tokenizer_from_flag(t) is None,
            None => false,
        }),
        layered_config(base, o) matches Ok(c) ==> {
            &&& (o.format matches Some(f) ==> Some(c.format) == format_named(std_lowercase(f)))
            &&& (o.format is None ==> c.format == base.format)
            &&& c.format_given == (o.format is Some || base.format_given)
            &&& (o.tokenizer matches Some(t) ==> Some(c.tokenizer) == tokenizer_from_flag(t))
            &&& (o.tokenizer is None ==> c.tokenizer == base.tokenizer)
            &&& (o.max_tokens matches Some(m) ==> c.max_tokens == m)
            &&& (o.max_tokens is None ==> c.max_tokens == base.max_tokens)
            &&& (o.anchor_window matches Some(a) ==> c.anchor_window == a)
            &&& (o.scrub matches Some(s) ==> c.patterns == patterns_from_pieces(comma_pieces(s)))
            &&& (o.scrub is None ==> c.patterns == base.patterns)
            &&& c.source_label == base.source_label
        },
        (o.format is None && o.tokenizer is None && o.max_tokens is None && o.scrub is None
            && o.anchor_window is None && o.exclude_pii is None) ==> layered_config(base, o) == Ok::<
            ConfigView,
            ConfigErrorView,
        >(base),
{
}

} // verus!
