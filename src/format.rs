//! Text formatters: case changes, dropping vowels or spaces, reversing,
//! slugs, and rendering records as a table.
use vstd::prelude::*;
use crate::message::{argument_of, command_of, opt_view, space_from};
use crate::text::{chars_of, push_char, same_text};

verus! {

/// A formatter name that names no formatter.
#[derive(Debug, Clone, PartialEq, Eq)]
pub struct InvalidFormatType(pub String);

impl InvalidFormatType {
    /// The message that reports the error.
    pub fn describe(&self) -> (r: String)
        ensures
            r@ == "invalid formatting type: "@ + self.0@,
    {
        let mut r = String::from_str("invalid formatting type: ");
        r.append(self.0.as_str());
        r
    }
}

/// A request that named no formatter at all.
#[derive(Debug, Clone, Copy, PartialEq, Eq)]
pub struct NoFormatPassed;

impl NoFormatPassed {
    /// The message that reports the error.
    pub fn describe(&self) -> (r: String)
        ensures
            r@ == "no formatting passed"@,
    {
        String::from_str("no formatting passed")
    }
}

/// What `str::to_lowercase` makes of a text.
pub uninterp spec fn lower_of(s: Seq<char>) -> Seq<char>;

/// What `str::to_uppercase` makes of a text.
pub uninterp spec fn upper_of(s: Seq<char>) -> Seq<char>;

/// What `slug::slugify` makes of a text.
pub uninterp spec fn slug_of(s: Seq<char>) -> Seq<char>;

/// Whether `is_vowel`'s `is_romance_vowel` holds of a character.
pub uninterp spec fn romance_vowel(c: char) -> bool;

/// The plain Latin vowels, in both cases.
pub open spec fn ascii_vowel(c: char) -> bool {
    c == 'a' || c == 'e' || c == 'i' || c == 'o' || c == 'u' || c == 'A' || c == 'E' || c == 'I'
        || c == 'O' || c == 'U'
}

/// Relies on `str::to_lowercase`: the result depends on the characters alone.
#[verifier::external_body]
fn to_lower(s: &str) -> (r: String)
    ensures
        r@ == lower_of(s@),
{
    s.to_lowercase()
}

/// Relies on `str::to_uppercase`: the result depends on the characters alone.
#[verifier::external_body]
fn to_upper(s: &str) -> (r: String)
    ensures
        r@ == upper_of(s@),
{
    s.to_uppercase()
}

/// The characters a slug is made of: `a`-`z`, `0`-`9` and `-`.
pub open spec fn slug_chars(s: Seq<char>) -> bool {
    forall|i: int| 0 <= i < s.len() ==> (('a' <= #[trigger] s[i] <= 'z') || ('0' <= s[i] <= '9') || s[i]
        == '-')
}

/// Relies on `slug::slugify`. Its documentation promises a result made of
/// `a`-`z`, `0`-`9` and `-` only, never with two `-` in a row, nor starting
/// or ending with `-`; its source keeps such a text as it is, so a slug is
/// its own slug.
#[verifier::external_body]
fn to_slug(s: &str) -> (r: String)
    ensures
        r@ == slug_of(s@),
        slug_chars(r@),
        slug_of(r@) == r@,
{
    slug::slugify(s)
}

/// Relies on `is_vowel::IsRomanceVowel::is_romance_vowel`. Its
/// documentation: a character is a vowel when the first code point of its
/// NFKD decomposition is one of `aeiouAEIOU`; an ASCII character decomposes
/// to itself.
#[verifier::external_body]
fn is_romance_vowel(c: char) -> (r: bool)
    ensures
        r == romance_vowel(c),
        (c as u32) < 128 ==> (r == ascii_vowel(c)),
{
    is_vowel::IsRomanceVowel::is_romance_vowel(c)
}

/// The text in lower case.
pub fn lowercase(input: &str) -> (r: String)
    ensures
        r@ == lower_of(input@),
{
    to_lower(input)
}

/// The text in upper case.
pub fn uppercase(input: &str) -> (r: String)
    ensures
        r@ == upper_of(input@),
{
    to_upper(input)
}

/// The text as a slug: lower-case letters, digits and single dashes,
/// which slugifying again leaves unchanged.
pub fn slugify(input: &str) -> (r: String)
    ensures
        r@ == slug_of(input@),
        slug_chars(r@),
        slug_of(r@) == r@,
{
    to_slug(input)
}

/// The characters of `s` that are not vowels, in order.
pub open spec fn consonants_spec(s: Seq<char>) -> Seq<char>
    decreases s.len(),
{
    if s.len() == 0 {
        s
    } else if romance_vowel(s.last()) {
        consonants_spec(s.drop_last())
    } else {
        consonants_spec(s.drop_last()).push(s.last())
    }
}

/// The characters of `s` other than spaces, in order.
pub open spec fn no_spaces_spec(s: Seq<char>) -> Seq<char>
    decreases s.len(),
{
    if s.len() == 0 {
        s
    } else if s.last() == ' ' {
        no_spaces_spec(s.drop_last())
    } else {
        no_spaces_spec(s.drop_last()).push(s.last())
    }
}

/// The text without its vowels.
pub fn consonants(input: &str) -> (r: String)
    ensures
        r@ == consonants_spec(input@),
{
    let cs = chars_of(input);
    let mut out = String::new();
    let mut i: usize = 0;
    while i < cs.len()
        invariant
            i <= cs@.len(),
            cs@ == input@,
            out@ == consonants_spec(cs@.subrange(0, i as int)),
        decreases cs@.len() - i,
    {
        let c = cs[i];
        assert(cs@.subrange(0, i as int + 1).drop_last() =~= cs@.subrange(0, i as int));
        if !is_romance_vowel(c) {
            push_char(&mut out, c);
        }
        i = i + 1;
    }
    assert(cs@.subrange(0, cs@.len() as int) =~= cs@);
    out
}

/// The text without its spaces.
pub fn no_spaces(input: &str) -> (r: String)
    ensures
        r@ == no_spaces_spec(input@),
{
    let cs = chars_of(input);
    let mut out = String::new();
    let mut i: usize = 0;
    while i < cs.len()
        invariant
            i <= cs@.len(),
            cs@ == input@,
            out@ == no_spaces_spec(cs@.subrange(0, i as int)),
        decreases cs@.len() - i,
    {
        let c = cs[i];
        assert(cs@.subrange(0, i as int + 1).drop_last() =~= cs@.subrange(0, i as int));
        if c != ' ' {
            push_char(&mut out, c);
        }
        i = i + 1;
    }
    assert(cs@.subrange(0, cs@.len() as int) =~= cs@);
    out
}

/// The characters of `s` in reverse order.
pub open spec fn reversed(s: Seq<char>) -> Seq<char> {
    Seq::new(s.len(), |i: int| s[s.len() - 1 - i])
}

/// The text with its characters in reverse order.
pub fn reverse(input: &str) -> (r: String)
    ensures
        r@ == reversed(input@),
{
    let cs = chars_of(input);
    let mut out = String::new();
    let mut i: usize = cs.len();
    while i > 0
        invariant
            i <= cs@.len(),
            cs@ == input@,
            out@.len() == cs@.len() - i,
            forall|j: int| 0 <= j < out@.len() ==> #[trigger] out@[j] == cs@[cs@.len() - 1 - j],
        decreases i,
    {
        i = i - 1;
        push_char(&mut out, cs[i]);
    }
    assert(out@ =~= reversed(input@));
    out
}

/// The formatters that can be asked for by name.
#[derive(Debug, Clone, Copy, PartialEq, Eq, Structural)]
pub enum FormattingFunction {
    Lowercase,
    Uppercase,
    Consonants,
    Reverse,
    NoSpaces,
    Slugify,
    Csv,
}

/// What formatter `f` makes of `s`. A table is rendered from a file's
/// records instead (see `table`), so it has no result here.
pub open spec fn formatted(f: FormattingFunction, s: Seq<char>) -> Option<Seq<char>> {
    match f {
        FormattingFunction::Lowercase => Some(lower_of(s)),
        FormattingFunction::Uppercase => Some(upper_of(s)),
        FormattingFunction::Consonants => Some(consonants_spec(s)),
        FormattingFunction::Reverse => Some(reversed(s)),
        FormattingFunction::NoSpaces => Some(no_spaces_spec(s)),
        FormattingFunction::Slugify => Some(slug_of(s)),
        FormattingFunction::Csv => None,
    }
}

impl FormattingFunction {
    /// The formatter a name stands for.
    pub open spec fn named(name: Seq<char>) -> Option<FormattingFunction> {
        if name == "lowercase"@ {
            Some(FormattingFunction::Lowercase)
        } else if name == "uppercase"@ {
            Some(FormattingFunction::Uppercase)
        } else if name == "consonants"@ {
            Some(FormattingFunction::Consonants)
        } else if name == "reverse"@ {
            Some(FormattingFunction::Reverse)
        } else if name == "no_spaces"@ {
            Some(FormattingFunction::NoSpaces)
        } else if name == "slugify"@ {
            Some(FormattingFunction::Slugify)
        } else if name == "csv"@ {
            Some(FormattingFunction::Csv)
        } else {
            None
        }
    }

    /// The formatter named `s`, or `InvalidFormatType` with the name.
    pub fn from_str(s: &str) -> (r: Result<FormattingFunction, InvalidFormatType>)
        ensures
            match FormattingFunction::named(s@) {
                Some(f) => r == Ok::<FormattingFunction, InvalidFormatType>(f),
                None => r matches Err(e) && e.0@ == s@,
            },
    {
        if same_text(s, "lowercase") {
            Ok(FormattingFunction::Lowercase)
        } else if same_text(s, "uppercase") {
            Ok(FormattingFunction::Uppercase)
        } else if same_text(s, "consonants") {
            Ok(FormattingFunction::Consonants)
        } else if same_text(s, "reverse") {
            Ok(FormattingFunction::Reverse)
        } else if same_text(s, "no_spaces") {
            Ok(FormattingFunction::NoSpaces)
        } else if same_text(s, "slugify") {
            Ok(FormattingFunction::Slugify)
        } else if same_text(s, "csv") {
            Ok(FormattingFunction::Csv)
        } else {
            Err(InvalidFormatType(s.to_string()))
        }
    }

    /// Applies this formatter to `input`; `None` for `Csv`, whose table is
    /// rendered from a file's records by `table`.
    pub fn format(&self, input: &str) -> (r: Option<String>)
        ensures
            opt_view(r) == formatted(*self, input@),
    {
        match self {
            FormattingFunction::Lowercase => Some(lowercase(input)),
            FormattingFunction::Uppercase => Some(uppercase(input)),
            FormattingFunction::Consonants => Some(consonants(input)),
            FormattingFunction::Reverse => Some(reverse(input)),
            FormattingFunction::NoSpaces => Some(no_spaces(input)),
            FormattingFunction::Slugify => Some(slugify(input)),
            FormattingFunction::Csv => None,
        }
    }
}

/// Applies the formatter named `name` to `input` (see
/// `FormattingFunction::named` and `formatted`).
pub fn format(name: &str, input: &str) -> (r: Result<Option<String>, InvalidFormatType>)
    ensures
        match FormattingFunction::named(name@) {
            Some(f) => r matches Ok(o) && opt_view(o) == formatted(f, input@),
            None => r matches Err(e) && e.0@ == name@,
        },
{
    match FormattingFunction::from_str(name) {
        Ok(f) => Ok(f.format(input)),
        Err(e) => Err(e),
    }
}

/// The formatter that a name passed on the command line stands for; these
/// names spell `no-spaces` with a dash and offer no table.
pub open spec fn command_line_format(name: Seq<char>) -> Option<FormattingFunction> {
    if name == "no-spaces"@ {
        Some(FormattingFunction::NoSpaces)
    } else if name == "no_spaces"@ || name == "csv"@ {
        None
    } else {
        FormattingFunction::named(name)
    }
}

/// Applies the formatter named `name` on the command line to `input`.
pub fn format_string(name: &str, input: &str) -> (r: Result<String, InvalidFormatType>)
    ensures
        match command_line_format(name@) {
            Some(f) => r matches Ok(s) && formatted(f, input@) == Some(s@),
            None => r matches Err(e) && e.0@ == name@,
        },
{
    if same_text(name, "no-spaces") {
        return Ok(no_spaces(input));
    }
    if same_text(name, "no_spaces") || same_text(name, "csv") {
        return Err(InvalidFormatType(name.to_string()));
    }
    match FormattingFunction::from_str(name) {
        Ok(f) => match f.format(input) {
            Some(s) => Ok(s),
            None => Err(InvalidFormatType(name.to_string())),
        },
        Err(e) => Err(e),
    }
}

/// The texts of a list of records.
pub open spec fn rows_view(v: Seq<Vec<String>>) -> Seq<Seq<Seq<char>>> {
    v.map_values(|r: Vec<String>| r@.map_values(|c: String| c@))
}

/// The widest cell of column `j` over `rows`.
pub open spec fn column_width(rows: Seq<Seq<Seq<char>>>, j: int) -> nat
    decreases rows.len(),
{
    if rows.len() == 0 {
        0
    } else {
        let w = column_width(rows.drop_last(), j);
        if rows.last()[j].len() > w {
            rows.last()[j].len()
        } else {
            w
        }
    }
}

/// The spaces that fill a cell of `len` characters to `width`.
pub open spec fn padding(width: nat, len: nat) -> nat {
    if width > len {
        (width - len) as nat
    } else {
        0
    }
}

/// `n` copies of `c`.
pub open spec fn repeat(c: char, n: nat) -> Seq<char> {
    Seq::new(n, |i: int| c)
}

/// The cells of a row, each left-aligned in its column's width and closed
/// by ` |`.
pub open spec fn cells_line(row: Seq<Seq<char>>, widths: Seq<nat>) -> Seq<char>
    decreases row.len(),
{
    if row.len() == 0 {
        Seq::empty()
    } else {
        let j = row.len() - 1;
        cells_line(row.drop_last(), widths) + " "@ + row[j] + repeat(' ', padding(widths[j], row[j].len()))
            + " |"@
    }
}

/// The separator under a row: a run of dashes as wide as each column.
pub open spec fn rule_line(widths: Seq<nat>) -> Seq<char>
    decreases widths.len(),
{
    if widths.len() == 0 {
        Seq::empty()
    } else {
        rule_line(widths.drop_last()) + "-"@ + repeat('-', widths.last()) + "-|"@
    }
}

/// One row of the table followed by its separator line.
pub open spec fn row_block(row: Seq<Seq<char>>, widths: Seq<nat>) -> Seq<char> {
    "|"@ + cells_line(row, widths) + "\n|"@ + rule_line(widths) + "\n"@
}

/// Each row's block, in order.
pub open spec fn blocks(rows: Seq<Seq<Seq<char>>>, widths: Seq<nat>) -> Seq<char>
    decreases rows.len(),
{
    if rows.len() == 0 {
        Seq::empty()
    } else {
        blocks(rows.drop_last(), widths) + row_block(rows.last(), widths)
    }
}

/// The rows of a table: the headers without their spaces, then the records.
pub open spec fn table_rows(headers: Seq<Seq<char>>, records: Seq<Seq<Seq<char>>>) -> Seq<Seq<Seq<char>>> {
    seq![headers.map_values(|h: Seq<char>| no_spaces_spec(h))] + records
}

/// The rendered table: every row, each followed by a separator, with each
/// column as wide as its widest cell.
pub open spec fn table_spec(headers: Seq<Seq<char>>, records: Seq<Seq<Seq<char>>>) -> Seq<char> {
    let rows = table_rows(headers, records);
    blocks(rows, Seq::new(headers.len(), |j: int| column_width(rows, j)))
}

fn push_repeat(out: &mut String, c: char, n: usize)
    ensures
        final(out)@ == old(out)@ + repeat(c, n as nat),
{
    let mut k: usize = 0;
    while k < n
        invariant
            k <= n,
            out@ == old(out)@ + repeat(c, k as nat),
        decreases n - k,
    {
        push_char(out, c);
        k = k + 1;
        assert(out@ =~= old(out)@ + repeat(c, k as nat));
    }
}

/// Column widths as numbers.
pub open spec fn widths_view(w: Seq<usize>) -> Seq<nat> {
    w.map_values(|x: usize| x as nat)
}

fn push_row(out: &mut String, row: &Vec<String>, widths: &Vec<usize>)
    requires
        row@.len() == widths@.len(),
    ensures
        final(out)@ == old(out)@ + row_block(row@.map_values(|c: String| c@), widths_view(widths@)),
{
    let ghost cells = row@.map_values(|c: String| c@);
    let ghost w = widths_view(widths@);
    out.append("|");
    let ghost base = out@;
    let mut j: usize = 0;
    while j < row.len()
        invariant
            j <= row@.len(),
            row@.len() == widths@.len(),
            cells == row@.map_values(|c: String| c@),
            w == widths_view(widths@),
            out@ == base + cells_line(cells.subrange(0, j as int), w),
        decreases row@.len() - j,
    {
        let len = row[j].as_str().unicode_len();
        let pad: usize = if widths[j] > len { widths[j] - len } else { 0 };
        out.append(" ");
        out.append(row[j].as_str());
        push_repeat(out, ' ', pad);
        out.append(" |");
        proof {
            let pre = cells.subrange(0, j as int + 1);
            assert(pre.drop_last() =~= cells.subrange(0, j as int));
            assert(pre[j as int] == row@[j as int]@);
            assert(pad as nat == padding(w[j as int], pre[j as int].len()));
        }
        j = j + 1;
        assert(out@ =~= base + cells_line(cells.subrange(0, j as int), w));
    }
    assert(cells.subrange(0, row@.len() as int) =~= cells);
    out.append("\n|");
    let ghost mid = out@;
    let mut k: usize = 0;
    while k < widths.len()
        invariant
            k <= widths@.len(),
            w == widths_view(widths@),
            out@ == mid + rule_line(w.subrange(0, k as int)),
        decreases widths@.len() - k,
    {
        out.append("-");
        push_repeat(out, '-', widths[k]);
        out.append("-|");
        proof {
            let pre = w.subrange(0, k as int + 1);
            assert(pre.drop_last() =~= w.subrange(0, k as int));
        }
        k = k + 1;
        assert(out@ =~= mid + rule_line(w.subrange(0, k as int)));
    }
    assert(w.subrange(0, widths@.len() as int) =~= w);
    out.append("\n");
    assert(out@ =~= old(out)@ + row_block(cells, w));
}

fn widen(widths: &mut Vec<usize>, row: &Vec<String>)
    requires
        row@.len() == old(widths)@.len(),
    ensures
        final(widths)@.len() == old(widths)@.len(),
        forall|d: int| 0 <= d < old(widths)@.len() ==> #[trigger] final(widths)@[d] as nat == if row@[d]@.len()
            > old(widths)@[d] {
            row@[d]@.len()
        } else {
            old(widths)@[d] as nat
        },
{
    let mut c: usize = 0;
    while c < widths.len()
        invariant
            c <= widths@.len(),
            widths@.len() == old(widths)@.len(),
            row@.len() == widths@.len(),
            forall|d: int| 0 <= d < c ==> #[trigger] widths@[d] as nat == if row@[d]@.len() > old(widths)@[d] {
                row@[d]@.len()
            } else {
                old(widths)@[d] as nat
            },
            forall|d: int| c <= d < widths@.len() ==> #[trigger] widths@[d] == old(widths)@[d],
        decreases widths@.len() - c,
    {
        let len = row[c].as_str().unicode_len();
        if len > widths[c] {
            widths.set(c, len);
        }
        c = c + 1;
    }
}

/// Renders records as a table. The first row holds the headers with their
/// spaces removed; every row is followed by a separator line; each column is
/// as wide, in characters, as its widest cell. Every record has one cell per
/// header, as a CSV reader that is not flexible guarantees.
pub fn table(headers: &Vec<String>, records: &Vec<Vec<String>>) -> (r: String)
    requires
        forall|i: int| 0 <= i < records@.len() ==> #[trigger] records@[i]@.len() == headers@.len(),
    ensures
        r@ == table_spec(headers@.map_values(|h: String| h@), rows_view(records@)),
{
    let ghost hs = headers@.map_values(|h: String| h@);
    let ghost recs = rows_view(records@);
    let mut head: Vec<String> = Vec::new();
    let mut i: usize = 0;
    while i < headers.len()
        invariant
            i <= headers@.len(),
            hs == headers@.map_values(|h: String| h@),
            head@.len() == i,
            forall|j: int| 0 <= j < i ==> #[trigger] head@[j]@ == no_spaces_spec(hs[j]),
        decreases headers@.len() - i,
    {
        head.push(no_spaces(headers[i].as_str()));
        i = i + 1;
    }
    let ghost rows = table_rows(hs, recs);
    assert(head@.map_values(|c: String| c@) =~= rows[0]);
    assert forall|k: int| 1 <= k < rows.len() implies #[trigger] rows[k] == records@[k - 1]@.map_values(
        |c: String| c@,
    ) by {
        assert(rows[k] == recs[k - 1]);
    }
    let n = headers.len();
    let mut widths: Vec<usize> = Vec::new();
    let mut j: usize = 0;
    while j < n
        invariant
            j <= n,
            n == headers@.len(),
            widths@.len() == j,
            rows[0] == head@.map_values(|c: String| c@),
            head@.len() == n,
            forall|c: int| 0 <= c < j ==> #[trigger] widths@[c] == 0,
        decreases n - j,
    {
        widths.push(0);
        j = j + 1;
    }
    assert forall|c: int| 0 <= c < n implies #[trigger] widths@[c] as nat == column_width(rows.subrange(0, 0), c) by {}
    // the header row, then each record: rows[k + 1] is records[k]
    widen(&mut widths, &head);
    assert(rows.subrange(0, 1).drop_last() =~= rows.subrange(0, 0));
    let mut k: usize = 0;
    while k < records.len()
        invariant
            k <= records@.len(),
            n == headers@.len(),
            rows == table_rows(hs, recs),
            rows.len() == records@.len() + 1,
            rows[0] == head@.map_values(|c: String| c@),
            head@.len() == n,
            forall|q: int| 1 <= q < rows.len() ==> #[trigger] rows[q] == records@[q - 1]@.map_values(|c: String| c@),
            forall|q: int| 0 <= q < records@.len() ==> #[trigger] records@[q]@.len() == n,
            widths@.len() == n,
            forall|c: int| 0 <= c < n ==> #[trigger] widths@[c] as nat == column_width(rows.subrange(0, k as int + 1), c),
        decreases records@.len() - k,
    {
        let ghost pre = rows.subrange(0, k as int + 2);
        assert(pre.drop_last() =~= rows.subrange(0, k as int + 1));
        assert(pre.last() == rows[k as int + 1]);
        assert forall|c: int| 0 <= c < n implies #[trigger] pre.last()[c] == records@[k as int]@[c]@ by {}
        widen(&mut widths, &records[k]);
        k = k + 1;
    }
    assert(rows.subrange(0, rows.len() as int) =~= rows);
    let ghost w = Seq::new(hs.len(), |c: int| column_width(rows, c));
    assert(widths_view(widths@) =~= w);
    let mut out = String::new();
    push_row(&mut out, &head, &widths);
    proof {
        let first = rows.subrange(0, 1);
        assert(first.drop_last() =~= rows.subrange(0, 0));
        assert(first.last() == rows[0]);
        assert(blocks(rows.subrange(0, 0), w) =~= Seq::<char>::empty());
        assert(out@ =~= blocks(first, w));
    }
    let mut k: usize = 0;
    while k < records.len()
        invariant
            k <= records@.len(),
            n == headers@.len(),
            widths@.len() == n,
            widths_view(widths@) == w,
            rows.len() == records@.len() + 1,
            forall|q: int| 1 <= q < rows.len() ==> #[trigger] rows[q] == records@[q - 1]@.map_values(|c: String| c@),
            forall|q: int| 0 <= q < records@.len() ==> #[trigger] records@[q]@.len() == n,
            out@ == blocks(rows.subrange(0, k as int + 1), w),
        decreases records@.len() - k,
    {
        push_row(&mut out, &records[k], &widths);
        proof {
            let pre = rows.subrange(0, k as int + 2);
            assert(pre.drop_last() =~= rows.subrange(0, k as int + 1));
            assert(pre.last() == rows[k as int + 1]);
        }
        k = k + 1;
    }
    out
}

/// Why a request line could not be served.
#[derive(Debug, Clone, PartialEq, Eq)]
pub enum RequestError {
    /// The first word names no formatter.
    InvalidFormat(InvalidFormatType),
    /// The line holds no space, so no text to format follows the name.
    InvalidInput,
}

/// Serves a request line `<format> <data>`: the first word names the
/// formatter, and all that follows the first space is the text. The result
/// is `None` for `csv`, whose data is the path of a file to render with
/// `table`.
pub fn handle_request(line: &str) -> (r: Result<Option<String>, RequestError>)
    ensures
        argument_of(line@) is None ==> r == Err::<Option<String>, RequestError>(RequestError::InvalidInput),
        argument_of(line@) matches Some(data) ==> match FormattingFunction::named(command_of(line@)) {
            Some(f) => r matches Ok(o) && opt_view(o) == formatted(f, data),
            None => r matches Err(RequestError::InvalidFormat(e)) && e.0@ == command_of(line@),
        },
{
    let cs = chars_of(line);
    let mut end: usize = 0;
    while end < cs.len() && cs[end] != ' '
        invariant
            end <= cs@.len(),
            cs@ == line@,
            space_from(line@, 0) == space_from(line@, end as int),
        decreases cs@.len() - end,
    {
        end = end + 1;
    }
    if end == cs.len() {
        return Err(RequestError::InvalidInput);
    }
    let name = line.substring_char(0, end);
    let data = line.substring_char(end + 1, cs.len());
    match format(name, data) {
        Ok(o) => Ok(o),
        Err(e) => Err(RequestError::InvalidFormat(e)),
    }
}

} // verus!
