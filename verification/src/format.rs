//! Which parser a file gets, which files a directory walk picks up, and which
//! writer an output path selects; all decided from file extensions.

use vstd::prelude::*;
use crate::config::{
    format_named, layered_config, lemma_flags_take_precedence, opt_text, ConfigView, DocumentFormat,
    OverridesView, PipelineConfig,
};
use crate::paths::{path_extension, std_path_extension};
use crate::text::{lowercase, same_text, std_lowercase};

verus! {

/// The format a (lower-case) file extension stands for.
pub open spec fn extension_format(ext: Seq<char>) -> Option<DocumentFormat> {
    if ext == "md"@ || ext == "markdown"@ {
        Some(DocumentFormat::Markdown)
    } else if ext == "txt"@ {
        Some(DocumentFormat::Text)
    } else if ext == "html"@ || ext == "htm"@ {
        Some(DocumentFormat::Html)
    } else if ext == "pdf"@ {
        Some(DocumentFormat::Pdf)
    } else if ext == "json"@ {
        Some(DocumentFormat::Json)
    } else if ext == "docx"@ {
        Some(DocumentFormat::Docx)
    } else if ext == "pptx"@ {
        Some(DocumentFormat::Pptx)
    } else if ext == "xlsx"@ {
        Some(DocumentFormat::Xlsx)
    } else if ext == "epub"@ {
        Some(DocumentFormat::Epub)
    } else if ext == "rtf"@ {
        Some(DocumentFormat::Rtf)
    } else {
        None
    }
}

/// The format a lower-case file extension stands for.
pub fn format_for_extension(ext: &str) -> (f: Option<DocumentFormat>)
    ensures
        f == extension_format(ext@),
{
    if same_text(ext, "md") || same_text(ext, "markdown") {
        Some(DocumentFormat::Markdown)
    } else if same_text(ext, "txt") {
        Some(DocumentFormat::Text)
    } else if same_text(ext, "html") || same_text(ext, "htm") {
        Some(DocumentFormat::Html)
    } else if same_text(ext, "pdf") {
        Some(DocumentFormat::Pdf)
    } else if same_text(ext, "json") {
        Some(DocumentFormat::Json)
    } else if same_text(ext, "docx") {
        Some(DocumentFormat::Docx)
    } else if same_text(ext, "pptx") {
        Some(DocumentFormat::Pptx)
    } else if same_text(ext, "xlsx") {
        Some(DocumentFormat::Xlsx)
    } else if same_text(ext, "epub") {
        Some(DocumentFormat::Epub)
    } else if same_text(ext, "rtf") {
        Some(DocumentFormat::Rtf)
    } else {
        None
    }
}

/// A path's extension, lower-cased.
pub open spec fn lower_extension(path: Seq<char>) -> Option<Seq<char>> {
    match std_path_extension(path) {
        Some(e) => Some(std_lowercase(e)),
        None => None,
    }
}

/// The extension of `path`, lower-cased.
pub fn lowercase_extension(path: &str) -> (ext: Option<String>)
    ensures
        opt_text(ext) == lower_extension(path@),
{
    match path_extension(path) {
        Some(e) => Some(lowercase(e.as_str())),
        None => None,
    }
}

/// The format a file is parsed as: the one its (lower-cased) extension names, or
/// `fallback` when the extension names none.
pub open spec fn format_for_file(ext: Option<Seq<char>>, fallback: DocumentFormat) -> DocumentFormat {
    match ext {
        Some(e) => match extension_format(e) {
            Some(f) => f,
            None => fallback,
        },
        None => fallback,
    }
}

/// The format chosen for a file from its lower-cased extension (as
/// [`lowercase_extension`] gives it), falling back to `fallback`.
pub fn choose_format(ext: Option<&str>, fallback: DocumentFormat) -> (f: DocumentFormat)
    ensures
        f == format_for_file(
            match ext {
                Some(e) => Some(e@),
                None => None,
            },
            fallback,
        ),
{
    match ext {
        Some(e) => match format_for_extension(e) {
            Some(f) => f,
            None => fallback,
        },
        None => fallback,
    }
}

/// The format a file is parsed with: the configured one when `--format` was
/// given; otherwise the one its lower-cased extension names, falling back to the
/// configured one for unknown or missing extensions.
pub open spec fn file_format(c: ConfigView, path: Seq<char>) -> DocumentFormat {
    if c.format_given {
        c.format
    } else {
        format_for_file(lower_extension(path), c.format)
    }
}

/// Sets the configured format to the one the file is parsed with (see
/// [`file_format`]): an explicit `--format` is kept, otherwise the file's
/// extension decides, so each file is parsed by the parser matching its type.
/// Nothing else changes.
pub fn infer_format(path: &str, cfg: PipelineConfig) -> (out: PipelineConfig)
    ensures
        out@ == (ConfigView { format: file_format(cfg@, path@), ..cfg@ }),
{
    if cfg.format_given {
        return cfg;
    }
    let ext = lowercase_extension(path);
    let mut cfg = cfg;
    let f = match &ext {
        Some(e) => choose_format(Some(e.as_str()), cfg.format),
        None => choose_format(None, cfg.format),
    };
    cfg.format = f;
    cfg
}

// ---------------------------------------------------------------------------
// Directory walks
// ---------------------------------------------------------------------------

/// Every extension the tool processes.
pub open spec fn supported_extensions() -> Seq<Seq<char>> {
    seq![
        "md"@,
        "markdown"@,
        "txt"@,
        "html"@,
        "htm"@,
        "pdf"@,
        "json"@,
        "docx"@,
        "pptx"@,
        "xlsx"@,
        "epub"@,
        "rtf"@,
    ]
}

/// The extensions a format is read from.
pub open spec fn format_extensions(f: DocumentFormat) -> Seq<Seq<char>> {
    match f {
        DocumentFormat::Markdown => seq!["md"@, "markdown"@],
        DocumentFormat::Text => seq!["txt"@],
        DocumentFormat::Html => seq!["html"@, "htm"@],
        DocumentFormat::Pdf => seq!["pdf"@],
        DocumentFormat::Json => seq!["json"@],
        DocumentFormat::Docx => seq!["docx"@],
        DocumentFormat::Pptx => seq!["pptx"@],
        DocumentFormat::Xlsx => seq!["xlsx"@],
        DocumentFormat::Epub => seq!["epub"@],
        DocumentFormat::Rtf => seq!["rtf"@],
    }
}

/// Extensions a directory walk keeps: those of the configured format when
/// `--format` was given, every supported one otherwise.
pub open spec fn walk_extensions(format_given: bool, format: DocumentFormat) -> Seq<Seq<char>> {
    if format_given {
        format_extensions(format)
    } else {
        supported_extensions()
    }
}

/// Whether a lower-case extension is one the tool processes.
pub fn is_supported_extension(ext: &str) -> (b: bool)
    ensures
        b == supported_extensions().contains(ext@),
{
    let b = format_for_extension(ext).is_some();
    proof {
        lemma_supported_extensions_are_formats(ext@);
    }
    b
}

/// Whether a file is of a supported type, judged by its lower-cased extension.
pub fn is_supported_ext(path: &str) -> (b: bool)
    ensures
        b == match lower_extension(path@) {
            Some(e) => supported_extensions().contains(e),
            None => false,
        },
{
    match lowercase_extension(path) {
        Some(e) => is_supported_extension(e.as_str()),
        None => false,
    }
}

/// Whether a directory walk keeps a file with this lower-cased extension.
pub fn walk_keeps(ext: Option<&str>, format_given: bool, format: DocumentFormat) -> (b: bool)
    ensures
        b == match ext {
            Some(e) => walk_extensions(format_given, format).contains(e@),
            None => false,
        },
{
    match ext {
        None => false,
        Some(e) => {
            if format_given {
                let b = match format_for_extension(e) {
                    Some(g) => g == format,
                    None => false,
                };
                proof {
                    lemma_format_extensions_exact(format, e@);
                }
                b
            } else {
                is_supported_extension(e)
            }
        },
    }
}

/// Law: inferring the format twice changes nothing more than inferring it once.
pub proof fn lemma_infer_format_idempotent(c: ConfigView, path: Seq<char>)
    ensures
        file_format(ConfigView { format: file_format(c, path), ..c }, path) == file_format(c, path),
{
}

/// Law: a format given on the command line is the format of every file, whatever
/// its extension; with none given, a file whose extension names a format is parsed
/// as that format.
pub proof fn lemma_given_format_overrides(c: ConfigView, path: Seq<char>)
    ensures
        c.format_given ==> file_format(c, path) == c.format,
        !c.format_given ==> match lower_extension(path) {
            Some(e) => match extension_format(e) {
                Some(f) => file_format(c, path) == f,
                None => file_format(c, path) == c.format,
            },
            None => file_format(c, path) == c.format,
        },
{
}

/// Law: `--format` overrides detection from the extension. When the flags name a
/// format and the configuration builds, every file is parsed with the format the
/// flag names, whatever its extension.
pub proof fn lemma_format_flag_overrides_detection(base: ConfigView, o: OverridesView, path: Seq<char>)
    requires
        o.format is Some,
    ensures
        layered_config(base, o) matches Ok(c) ==> Some(file_format(c, path)) == format_named(
            std_lowercase(o.format->0),
        ),
{
    lemma_flags_take_precedence(base, o);
}

/// Law: the supported extensions are exactly those that name a format.
pub proof fn lemma_supported_extensions_are_formats(ext: Seq<char>)
    ensures
        supported_extensions().contains(ext) <==> extension_format(ext) is Some,
{
    let s = supported_extensions();
    if extension_format(ext) is Some {
        if ext == "md"@ { assert(s[0] == ext); }
        else if ext == "markdown"@ { assert(s[1] == ext); }
        else if ext == "txt"@ { assert(s[2] == ext); }
        else if ext == "html"@ { assert(s[3] == ext); }
        else if ext == "htm"@ { assert(s[4] == ext); }
        else if ext == "pdf"@ { assert(s[5] == ext); }
        else if ext == "json"@ { assert(s[6] == ext); }
        else if ext == "docx"@ { assert(s[7] == ext); }
        else if ext == "pptx"@ { assert(s[8] == ext); }
        else if ext == "xlsx"@ { assert(s[9] == ext); }
        else if ext == "epub"@ { assert(s[10] == ext); }
        else { assert(s[11] == ext); }
    }
}

/// The format each supported extension names.
proof fn lemma_extension_table()
    ensures
        extension_format("md"@) == Some(DocumentFormat::Markdown),
        extension_format("markdown"@) == Some(DocumentFormat::Markdown),
        extension_format("txt"@) == Some(DocumentFormat::Text),
        extension_format("html"@) == Some(DocumentFormat::Html),
        extension_format("htm"@) == Some(DocumentFormat::Html),
        extension_format("pdf"@) == Some(DocumentFormat::Pdf),
        extension_format("json"@) == Some(DocumentFormat::Json),
        extension_format("docx"@) == Some(DocumentFormat::Docx),
        extension_format("pptx"@) == Some(DocumentFormat::Pptx),
        extension_format("xlsx"@) == Some(DocumentFormat::Xlsx),
        extension_format("epub"@) == Some(DocumentFormat::Epub),
        extension_format("rtf"@) == Some(DocumentFormat::Rtf),
{
    reveal_strlit("md");
    reveal_strlit("markdown");
    reveal_strlit("txt");
    reveal_strlit("html");
    reveal_strlit("htm");
    reveal_strlit("pdf");
    reveal_strlit("json");
    reveal_strlit("docx");
    reveal_strlit("pptx");
    reveal_strlit("xlsx");
    reveal_strlit("epub");
    reveal_strlit("rtf");
    assert("md"@.len() == 2 && "md"@[0] == 'm');
    assert("markdown"@.len() == 8 && "markdown"@[0] == 'm');
    assert("txt"@.len() == 3 && "txt"@[0] == 't');
    assert("html"@.len() == 4 && "html"@[0] == 'h');
    assert("htm"@.len() == 3 && "htm"@[0] == 'h');
    assert("pdf"@.len() == 3 && "pdf"@[0] == 'p');
    assert("json"@.len() == 4 && "json"@[0] == 'j');
    assert("docx"@.len() == 4 && "docx"@[0] == 'd');
    assert("pptx"@.len() == 4 && "pptx"@[0] == 'p');
    assert("xlsx"@.len() == 4 && "xlsx"@[0] == 'x');
    assert("epub"@.len() == 4 && "epub"@[0] == 'e');
    assert("rtf"@.len() == 3 && "rtf"@[0] == 'r');
}

/// Law: a directory walk restricted to a format keeps exactly the files whose
/// extension the format is inferred from, so the walk and per-file format
/// inference agree.
pub proof fn lemma_format_extensions_exact(format: DocumentFormat, ext: Seq<char>)
    ensures
        format_extensions(format).contains(ext) <==> extension_format(ext) == Some(format),
{
    lemma_extension_table();
    let s = format_extensions(format);
    if extension_format(ext) == Some(format) {
        match format {
            DocumentFormat::Markdown => {
                if ext == "md"@ {
                    assert(s[0] == ext);
                } else {
                    assert(s[1] == ext);
                }
            },
            DocumentFormat::Html => {
                if ext == "html"@ {
                    assert(s[0] == ext);
                } else {
                    assert(s[1] == ext);
                }
            },
            _ => {
                assert(s[0] == ext);
            },
        }
    }
    if s.contains(ext) {
        let i = choose|i: int| 0 <= i < s.len() && s[i] == ext;
        assert(s[i] == ext);
    }
}

// ---------------------------------------------------------------------------
// Output formats
// ---------------------------------------------------------------------------

/// The writers an output path can select.
#[derive(Debug, Clone, Copy, PartialEq, Eq, Structural)]
pub enum OutputFormat {
    /// Arrow IPC stream.
    Arrow,
    /// Comma-separated values.
    Csv,
    /// Pretty-printed JSON (the default).
    Json,
}

/// The writer chosen by an output path's lower-cased extension: `arrow`, `csv`,
/// anything else or none gives JSON.
pub open spec fn output_format_of(ext: Option<Seq<char>>) -> OutputFormat {
    match ext {
        Some(e) => if e == "arrow"@ {
            OutputFormat::Arrow
        } else if e == "csv"@ {
            OutputFormat::Csv
        } else {
            OutputFormat::Json
        },
        None => OutputFormat::Json,
    }
}

/// The writer a lower-cased output extension selects.
pub fn output_format_for_extension(ext: Option<&str>) -> (f: OutputFormat)
    ensures
        f == output_format_of(
            match ext {
                Some(e) => Some(e@),
                None => None,
            },
        ),
{
    match ext {
        Some(e) => if same_text(e, "arrow") {
            OutputFormat::Arrow
        } else if same_text(e, "csv") {
            OutputFormat::Csv
        } else {
            OutputFormat::Json
        },
        None => OutputFormat::Json,
    }
}

/// The writer an output path selects, by its extension in any case (`out.CSV` is
/// written as CSV).
pub fn output_format_for_path(output: &str) -> (f: OutputFormat)
    ensures
        f == output_format_of(lower_extension(output@)),
{
    match lowercase_extension(output) {
        Some(e) => output_format_for_extension(Some(e.as_str())),
        None => output_format_for_extension(None),
    }
}

/// The label shown for an output path: its lower-cased extension `arrow` gives
/// "Arrow IPC", `csv` gives "CSV", anything else "JSON".
pub open spec fn output_label_of(lower_ext: Option<Seq<char>>) -> Seq<char> {
    match lower_ext {
        Some(e) => if e == "arrow"@ {
            "Arrow IPC"@
        } else if e == "csv"@ {
            "CSV"@
        } else {
            "JSON"@
        },
        None => "JSON"@,
    }
}

/// The label for a lower-cased output extension.
pub fn output_label_for_extension(lower_ext: Option<&str>) -> (label: &'static str)
    ensures
        label@ == output_label_of(
            match lower_ext {
                Some(e) => Some(e@),
                None => None,
            },
        ),
{
    match lower_ext {
        Some(e) => if same_text(e, "arrow") {
            "Arrow IPC"
        } else if same_text(e, "csv") {
            "CSV"
        } else {
            "JSON"
        },
        None => "JSON",
    }
}

/// The output format label for a path.
pub fn output_label_for_path(output: &str) -> (label: &'static str)
    ensures
        label@ == output_label_of(lower_extension(output@)),
{
    match lowercase_extension(output) {
        Some(e) => output_label_for_extension(Some(e.as_str())),
        None => output_label_for_extension(None),
    }
}

/// The label of each writer.
pub open spec fn writer_label(f: OutputFormat) -> Seq<char> {
    match f {
        OutputFormat::Arrow => "Arrow IPC"@,
        OutputFormat::Csv => "CSV"@,
        OutputFormat::Json => "JSON"@,
    }
}

/// Law: the label shown for an output path names the writer that saving uses.
pub proof fn lemma_label_names_writer(output: Seq<char>)
    ensures
        output_label_of(lower_extension(output)) == writer_label(
            output_format_of(lower_extension(output)),
        ),
{
}

} // verus!
