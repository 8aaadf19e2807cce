//! The text the terminal UI shows: status lines, key hints, entry labels, heading
//! trails, spinner frames and which rows of the chunk table are visible.

use vstd::prelude::*;
use crate::paths::{path_file_name, std_path_file_name};
use crate::text::{owned, same_text, texts};
use crate::tui::{Screen, Status, StatusView};

verus! {

/// A status message with its mark: a check for success, a warning sign for
/// errors.
pub open spec fn status_line(s: StatusView) -> Seq<char> {
    match s {
        StatusView::Success(m) => "\u{2713} "@ + m,
        StatusView::Error(m) => "\u{26a0} "@ + m,
    }
}

/// The text of a status message, with its mark.
pub fn status_text(s: &Status) -> (t: String)
    ensures
        t@ == status_line(s@),
{
    match s {
        Status::Success(m) => {
            let mut t = owned("\u{2713} ");
            t.append(m.as_str());
            t
        },
        Status::Error(m) => {
            let mut t = owned("\u{26a0} ");
            t.append(m.as_str());
            t
        },
    }
}

/// The key hints shown in the status bar of each screen.
pub open spec fn hints_for(screen: Screen) -> Seq<char> {
    match screen {
        Screen::FileBrowser => "\u{2191}\u{2193}/jk navigate \u{b7} Enter open/select \u{b7} Space select \u{b7} Tab config \u{b7} ? help \u{b7} q quit"@,
        Screen::Config => "m tokens \u{b7} t tokenizer \u{b7} e email \u{b7} s ssn \u{b7} a aws \u{b7} Enter process \u{b7} Tab results \u{b7} ? help \u{b7} q quit"@,
        Screen::Results => "\u{2191}\u{2193}/jk scroll \u{b7} s save \u{b7} e edit output \u{b7} Tab config \u{b7} b browser \u{b7} ? help \u{b7} q quit"@,
        Screen::Help => "any key closes help \u{b7} q quit"@,
    }
}

/// The key hints for a screen.
pub fn screen_hints(screen: Screen) -> (h: &'static str)
    ensures
        h@ == hints_for(screen),
{
    match screen {
        Screen::FileBrowser => "\u{2191}\u{2193}/jk navigate \u{b7} Enter open/select \u{b7} Space select \u{b7} Tab config \u{b7} ? help \u{b7} q quit",
        Screen::Config => "m tokens \u{b7} t tokenizer \u{b7} e email \u{b7} s ssn \u{b7} a aws \u{b7} Enter process \u{b7} Tab results \u{b7} ? help \u{b7} q quit",
        Screen::Results => "\u{2191}\u{2193}/jk scroll \u{b7} s save \u{b7} e edit output \u{b7} Tab config \u{b7} b browser \u{b7} ? help \u{b7} q quit",
        Screen::Help => "any key closes help \u{b7} q quit",
    }
}

/// Parts joined by a separator.
pub open spec fn joined(parts: Seq<Seq<char>>, sep: Seq<char>) -> Seq<char>
    decreases parts.len(),
{
    if parts.len() == 0 {
        Seq::empty()
    } else if parts.len() == 1 {
        parts[0]
    } else {
        joined(parts.drop_last(), sep) + sep + parts.last()
    }
}

/// The heading trail of a chunk: the headings joined by " › ", or a dash when the
/// chunk is under no heading.
pub open spec fn heading_trail(path: Seq<Seq<char>>) -> Seq<char> {
    if path.len() == 0 {
        "\u{2014}"@
    } else {
        joined(path, " \u{203a} "@)
    }
}

/// The heading trail shown for a chunk.
pub fn heading_label(path: &Vec<String>) -> (t: String)
    ensures
        t@ == heading_trail(texts(path@)),
{
    if path.len() == 0 {
        return owned("\u{2014}");
    }
    let ghost parts = texts(path@);
    let mut t = path[0].clone();
    let mut i: usize = 1;
    assert(parts.take(1).drop_last() =~= Seq::<Seq<char>>::empty());
    assert(joined(parts.take(1), " \u{203a} "@) == parts[0]);
    while i < path.len()
        invariant
            parts == texts(path@),
            1 <= i <= path@.len(),
            t@ == joined(parts.take(i as int), " \u{203a} "@),
        decreases path@.len() - i,
    {
        assert(parts.take(i + 1).drop_last() =~= parts.take(i as int));
        assert(parts.take(i + 1).last() == path@[i as int]@);
        t.append(" \u{203a} ");
        t.append(path[i].as_str());
        i = i + 1;
    }
    assert(parts.take(path@.len() as int) =~= parts);
    t
}

/// The label of a browser entry: a check mark when selected, an icon (up arrow
/// for `..`, folder, or page), a space and the name.
pub open spec fn entry_text(name: Seq<char>, is_dir: bool, selected: bool) -> Seq<char> {
    let prefix = if selected {
        "\u{2713} "@
    } else {
        "  "@
    };
    let icon = if name == ".."@ {
        "\u{2191} .."@
    } else if is_dir {
        "\u{1f4c1}"@
    } else {
        "\u{1f4c4}"@
    };
    prefix + icon + " "@ + name
}

/// The label of a browser entry.
pub fn entry_label(name: &str, is_dir: bool, selected: bool) -> (t: String)
    ensures
        t@ == entry_text(name@, is_dir, selected),
{
    let mut t = if selected {
        owned("\u{2713} ")
    } else {
        owned("  ")
    };
    if same_text(name, "..") {
        t.append("\u{2191} ..");
    } else if is_dir {
        t.append("\u{1f4c1}");
    } else {
        t.append("\u{1f4c4}");
    }
    t.append(" ");
    t.append(name);
    t
}

/// The name shown for a path: its file name, or `?` when it has none.
pub fn display_name(path: &str) -> (n: String)
    ensures
        n@ == match std_path_file_name(path@) {
            Some(f) => f,
            None => "?"@,
        },
{
    match path_file_name(path) {
        Some(f) => f,
        None => owned("?"),
    }
}

/// The spinner's frames.
pub open spec fn spinner_frames() -> Seq<Seq<char>> {
    seq![
        "\u{280b}"@,
        "\u{2819}"@,
        "\u{2839}"@,
        "\u{2838}"@,
        "\u{283c}"@,
        "\u{2834}"@,
        "\u{2826}"@,
        "\u{2827}"@,
        "\u{2807}"@,
        "\u{280f}"@,
    ]
}

/// The spinner frame for a render tick.
pub fn spinner_frame(tick: usize) -> (f: &'static str)
    ensures
        f@ == spinner_frames()[(tick % 10) as int],
{
    let i = tick % 10;
    if i == 0 {
        "\u{280b}"
    } else if i == 1 {
        "\u{2819}"
    } else if i == 2 {
        "\u{2839}"
    } else if i == 3 {
        "\u{2838}"
    } else if i == 4 {
        "\u{283c}"
    } else if i == 5 {
        "\u{2834}"
    } else if i == 6 {
        "\u{2826}"
    } else if i == 7 {
        "\u{2827}"
    } else if i == 8 {
        "\u{2807}"
    } else {
        "\u{280f}"
    }
}

/// The chunk rows visible in a table of `height` lines (three go to borders and
/// the header), starting at the scroll position: `(first, end)` with `end`
/// exclusive.
pub open spec fn visible_window(scroll: nat, len: nat, height: nat) -> (nat, nat) {
    let rows: nat = if height >= 3 {
        (height - 3) as nat
    } else {
        0
    };
    let first = if scroll <= len {
        scroll
    } else {
        len
    };
    (first, if first + rows <= len {
        first + rows
    } else {
        len
    })
}

/// The rows of the chunk table to draw.
pub fn visible_rows(scroll: usize, len: usize, height: u16) -> (w: (usize, usize))
    ensures
        (w.0 as nat, w.1 as nat) == visible_window(scroll as nat, len as nat, height as nat),
{
    let rows: usize = if height >= 3 {
        (height - 3) as usize
    } else {
        0
    };
    let first = if scroll <= len {
        scroll
    } else {
        len
    };
    let end = if rows <= len - first {
        first + rows
    } else {
        len
    };
    (first, end)
}

/// The line of the configuration screen for a PII pattern: a check or a cross,
/// then the pattern's name.
pub fn pattern_line_text(name: &str, enabled: bool) -> (t: String)
    ensures
        t@ == (if enabled {
            "  [\u{2713}] "@
        } else {
            "  [\u{2717}] "@
        }) + name@,
{
    let mut t = if enabled {
        owned("  [\u{2713}] ")
    } else {
        owned("  [\u{2717}] ")
    };
    t.append(name);
    t
}

/// What the status bar shows: on the browser and configuration screens a status
/// message takes the place of the key hints; elsewhere the hints are shown (the
/// results screen shows its status in its own footer).
pub open spec fn status_bar_of(screen: Screen, status: Option<StatusView>) -> Seq<char> {
    match status {
        Some(st) => if screen == Screen::FileBrowser || screen == Screen::Config {
            " "@ + status_line(st)
        } else {
            " "@ + hints_for(screen)
        },
        None => " "@ + hints_for(screen),
    }
}

/// The text of the status bar.
pub fn status_bar_text(screen: Screen, status: &Option<Status>) -> (t: String)
    ensures
        t@ == status_bar_of(
            screen,
            match status {
                Some(st) => Some(st@),
                None => None,
            },
        ),
{
    let mut t = owned(" ");
    match status {
        Some(st) => {
            if screen == Screen::FileBrowser || screen == Screen::Config {
                let line = status_text(st);
                t.append(line.as_str());
            } else {
                t.append(screen_hints(screen));
            }
        },
        None => {
            t.append(screen_hints(screen));
        },
    }
    t
}

} // verus!
