//! String operations on which the rest of the library builds: character-wise
//! comparison, trimming of Unicode white space, splitting at commas, decimal
//! rendering of counts and truncation for display.

use vstd::prelude::*;

verus! {

/// Appends one character to a `String` (`String::push`).
/// Trusted: the new contents are the old contents followed by `c`.
#[verifier::external_body]
pub fn push_char(s: &mut String, c: char)
    ensures
        final(s)@ == old(s)@.push(c),
{
    s.push(c);
}

/// Removes the last character of a `String` (`String::pop`).
/// Trusted: an empty string stays empty and `None` comes back; otherwise the last
/// character is removed and returned.
#[verifier::external_body]
pub fn pop_char(s: &mut String) -> (c: Option<char>)
    ensures
        old(s)@.len() == 0 ==> c is None && final(s)@ == old(s)@,
        old(s)@.len() > 0 ==> c == Some(old(s)@.last()) && final(s)@ == old(s)@.drop_last(),
{
    s.pop()
}

/// What `str::to_lowercase` returns for a string (Unicode lower-case mapping).
pub uninterp spec fn std_lowercase(s: Seq<char>) -> Seq<char>;

/// Whether every character is ASCII.
pub open spec fn ascii_text(s: Seq<char>) -> bool {
    forall|i: int| 0 <= i < s.len() ==> (#[trigger] s[i] as u32) < 0x80
}

/// ASCII lower-casing: `A` to `Z` become `a` to `z`, every other character stays.
pub open spec fn ascii_lowered(s: Seq<char>) -> Seq<char> {
    s.map_values(
        |c: char|
            if 'A' <= c && c <= 'Z' {
                ((c as u32) + 32) as char
            } else {
                c
            },
    )
}

/// Calls `str::to_lowercase`.
/// Trusted: the result is `std_lowercase` of the argument, and for ASCII text the
/// lower-case equivalent of each character, `A` to `Z` mapped to `a` to `z` (the
/// Unicode lower-case mapping agrees with ASCII lower-casing on ASCII); nothing more
/// is claimed of the Unicode case mapping.
#[verifier::external_body]
pub fn lowercase(s: &str) -> (lower: String)
    ensures
        lower@ == std_lowercase(s@),
        ascii_text(s@) ==> lower@ == ascii_lowered(s@),
{
    s.to_lowercase()
}

/// A `String` holding the characters of `s`.
pub fn owned(s: &str) -> (o: String)
    ensures
        o@ == s@,
{
    String::from_str(s)
}

/// Whether two string slices hold the same characters.
pub fn same_text(a: &str, b: &str) -> (eq: bool)
    ensures
        eq == (a@ == b@),
{
    let n = a.unicode_len();
    let m = b.unicode_len();
    if n != m {
        return false;
    }
    let mut i: usize = 0;
    while i < n
        invariant
            n == a@.len(),
            m == b@.len(),
            n == m,
            i <= n,
            forall|j: int| 0 <= j < i ==> a@[j] == b@[j],
        decreases n - i,
    {
        if a.get_char(i) != b.get_char(i) {
            return false;
        }
        i = i + 1;
    }
    assert(a@ =~= b@);
    true
}

/// Lexicographic order on character sequences, by code point (for UTF-8 text this
/// is the order of the encoded bytes). `text_lt(a, b)` is a strict "comes before".
pub open spec fn text_lt(a: Seq<char>, b: Seq<char>) -> bool
    decreases a.len(),
{
    if b.len() == 0 {
        false
    } else if a.len() == 0 {
        true
    } else if a[0] != b[0] {
        (a[0] as u32) < (b[0] as u32)
    } else {
        text_lt(a.drop_first(), b.drop_first())
    }
}

proof fn lemma_text_lt_skip(a: Seq<char>, b: Seq<char>, i: int)
    requires
        0 <= i <= a.len(),
        i <= b.len(),
        forall|j: int| 0 <= j < i ==> a[j] == b[j],
    ensures
        text_lt(a, b) == text_lt(a.skip(i), b.skip(i)),
    decreases i,
{
    if i > 0 {
        assert(a.drop_first().skip(i - 1) =~= a.skip(i));
        assert(b.drop_first().skip(i - 1) =~= b.skip(i));
        lemma_text_lt_skip(a.drop_first(), b.drop_first(), i - 1);
    } else {
        assert(a.skip(0) =~= a);
        assert(b.skip(0) =~= b);
    }
}

/// Whether `a` comes strictly before `b` in `text_lt` order.
pub fn text_less(a: &str, b: &str) -> (lt: bool)
    ensures
        lt == text_lt(a@, b@),
{
    let n = a.unicode_len();
    let m = b.unicode_len();
    let mut i: usize = 0;
    while i < n && i < m
        invariant
            n == a@.len(),
            m == b@.len(),
            i <= n,
            i <= m,
            forall|j: int| 0 <= j < i ==> a@[j] == b@[j],
        decreases n - i,
    {
        let x = a.get_char(i);
        let y = b.get_char(i);
        if x != y {
            proof {
                lemma_text_lt_skip(a@, b@, i as int);
            }
            return (x as u32) < (y as u32);
        }
        i = i + 1;
    }
    proof {
        lemma_text_lt_skip(a@, b@, i as int);
    }
    i < m
}

/// Unicode `White_Space` characters, the set `char::is_whitespace` and `str::trim`
/// work with.
pub open spec fn is_white_space(c: char) -> bool {
    let u = c as u32;
    ||| 0x09 <= u <= 0x0D
    ||| u == 0x20
    ||| u == 0x85
    ||| u == 0xA0
    ||| u == 0x1680
    ||| 0x2000 <= u <= 0x200A
    ||| u == 0x2028
    ||| u == 0x2029
    ||| u == 0x202F
    ||| u == 0x205F
    ||| u == 0x3000
}

/// Whether `c` is Unicode white space.
pub fn white_space(c: char) -> (w: bool)
    ensures
        w == is_white_space(c),
{
    let u = c as u32;
    (0x09 <= u && u <= 0x0D) || u == 0x20 || u == 0x85 || u == 0xA0 || u == 0x1680 || (0x2000
        <= u && u <= 0x200A) || u == 0x2028 || u == 0x2029 || u == 0x202F || u == 0x205F || u
        == 0x3000
}

/// Index of the first character at or after `i` that is not white space
/// (`s.len()` if there is none).
pub open spec fn first_non_ws_from(s: Seq<char>, i: int) -> int
    decreases s.len() - i,
{
    if i < 0 || i >= s.len() {
        s.len() as int
    } else if is_white_space(s[i]) {
        first_non_ws_from(s, i + 1)
    } else {
        i
    }
}

/// End (exclusive) of the text in `s[lo..j]` once trailing white space is dropped.
pub open spec fn end_non_ws_before(s: Seq<char>, j: int, lo: int) -> int
    decreases j - lo,
{
    if j <= lo || j > s.len() {
        lo
    } else if is_white_space(s[j - 1]) {
        end_non_ws_before(s, j - 1, lo)
    } else {
        j
    }
}

/// `str::trim`: the text with leading and trailing white space removed.
pub open spec fn trimmed(s: Seq<char>) -> Seq<char> {
    let a = first_non_ws_from(s, 0);
    s.subrange(a, end_non_ws_before(s, s.len() as int, a))
}

proof fn lemma_first_non_ws_bounds(s: Seq<char>, i: int)
    requires
        0 <= i <= s.len(),
    ensures
        i <= first_non_ws_from(s, i) <= s.len(),
    decreases s.len() - i,
{
    if i < s.len() && is_white_space(s[i]) {
        lemma_first_non_ws_bounds(s, i + 1);
    }
}

/// The text of `s` with leading and trailing Unicode white space removed.
pub fn trim(s: &str) -> (t: String)
    ensures
        t@ == trimmed(s@),
{
    let n = s.unicode_len();
    let mut a: usize = 0;
    while a < n && white_space(s.get_char(a))
        invariant
            n == s@.len(),
            a <= n,
            first_non_ws_from(s@, 0) == first_non_ws_from(s@, a as int),
        decreases n - a,
    {
        a = a + 1;
    }
    let mut b: usize = n;
    proof {
        lemma_first_non_ws_bounds(s@, a as int);
    }
    while b > a && white_space(s.get_char(b - 1))
        invariant
            n == s@.len(),
            a <= b <= n,
            a == first_non_ws_from(s@, 0),
            end_non_ws_before(s@, n as int, a as int) == end_non_ws_before(s@, b as int, a as int),
        decreases b - a,
    {
        b = b - 1;
    }
    owned(s.substring_char(a, b))
}

/// `str::split(',')`: the pieces between commas, in order; `n` commas give
/// `n + 1` pieces, empty ones included.
pub open spec fn comma_pieces(s: Seq<char>) -> Seq<Seq<char>>
    decreases s.len(),
{
    if s.len() == 0 {
        seq![Seq::<char>::empty()]
    } else {
        let r = comma_pieces(s.drop_last());
        if s.last() == ',' {
            r.push(Seq::<char>::empty())
        } else {
            r.update(r.len() - 1, r.last().push(s.last()))
        }
    }
}

/// Views of a vector of strings.
pub open spec fn texts(v: Seq<String>) -> Seq<Seq<char>> {
    v.map_values(|x: String| x@)
}

/// The pieces of `s` between commas.
pub fn split_commas(s: &str) -> (pieces: Vec<String>)
    ensures
        texts(pieces@) == comma_pieces(s@),
{
    let n = s.unicode_len();
    let mut done: Vec<String> = Vec::new();
    let mut cur = String::new();
    let mut i: usize = 0;
    assert(s@.take(0) =~= Seq::<char>::empty());
    assert(texts(done@).push(cur@) =~= comma_pieces(s@.take(0)));
    while i < n
        invariant
            n == s@.len(),
            i <= n,
            texts(done@).push(cur@) == comma_pieces(s@.take(i as int)),
        decreases n - i,
    {
        let c = s.get_char(i);
        assert(s@.take(i + 1).drop_last() =~= s@.take(i as int));
        assert(s@.take(i + 1).last() == c);
        if c == ',' {
            let finished = cur;
            done.push(finished);
            cur = String::new();
            assert(texts(done@).push(cur@) =~= comma_pieces(s@.take(i + 1)));
        } else {
            push_char(&mut cur, c);
            assert(texts(done@).push(cur@) =~= comma_pieces(s@.take(i + 1)));
        }
        i = i + 1;
    }
    assert(s@.take(n as int) =~= s@);
    done.push(cur);
    assert(texts(done@) =~= comma_pieces(s@));
    done
}

/// Decimal digits of a natural number, most significant first, without leading zeros
/// ("0" for zero).
pub open spec fn decimal(n: nat) -> Seq<char>
    decreases n,
{
    if n < 10 {
        seq![(48 + n) as char]
    } else {
        decimal(n / 10).push((48 + n % 10) as char)
    }
}

/// Decimal rendering of a count, as `format!("{}", n)` writes it.
pub fn decimal_text(n: usize) -> (d: String)
    ensures
        d@ == decimal(n as nat),
    decreases n,
{
    if n < 10 {
        let mut d = String::new();
        push_char(&mut d, ((48 + n) as u8) as char);
        assert(d@ =~= decimal(n as nat));
        d
    } else {
        let mut d = decimal_text(n / 10);
        push_char(&mut d, ((48 + n % 10) as u8) as char);
        d
    }
}

/// The horizontal ellipsis that marks truncated display text.
pub open spec fn ellipsis() -> char {
    '\u{2026}'
}

/// `truncate_chars`: at most `max_chars` characters of `s`, followed by an ellipsis
/// when something was cut off.
pub open spec fn truncated(s: Seq<char>, max_chars: nat) -> Seq<char> {
    if s.len() <= max_chars {
        s
    } else {
        s.take(max_chars as int).push(ellipsis())
    }
}

/// Truncates `s` to at most `max_chars` characters and appends an ellipsis when
/// anything was dropped. Works on characters, never splitting one.
pub fn truncate_chars(s: &str, max_chars: usize) -> (out: String)
    ensures
        out@ == truncated(s@, max_chars as nat),
{
    let n = s.unicode_len();
    if n <= max_chars {
        return owned(s);
    }
    let mut out = owned(s.substring_char(0, max_chars));
    push_char(&mut out, '\u{2026}');
    out
}

/// `text_lt` is a strict order: never both ways.
pub proof fn lemma_text_lt_asymmetric(a: Seq<char>, b: Seq<char>)
    ensures
        !(text_lt(a, b) && text_lt(b, a)),
    decreases a.len(),
{
    if a.len() > 0 && b.len() > 0 && a[0] == b[0] {
        lemma_text_lt_asymmetric(a.drop_first(), b.drop_first());
    }
}

/// `text_lt` is transitive.
pub proof fn lemma_text_lt_transitive(a: Seq<char>, b: Seq<char>, c: Seq<char>)
    requires
        text_lt(a, b),
        text_lt(b, c),
    ensures
        text_lt(a, c),
    decreases a.len(),
{
    if a.len() > 0 && b.len() > 0 && c.len() > 0 && a[0] == b[0] && b[0] == c[0] {
        lemma_text_lt_transitive(a.drop_first(), b.drop_first(), c.drop_first());
    }
}

} // verus!
