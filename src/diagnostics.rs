//! The diagnostic classifier: one line of `rustc`'s error stream at a time,
//! with no state carried from line to line.

use vstd::prelude::*;
use crate::text::{is_decimal_digit, is_decimal_digit_char, is_space, is_space_char, slice_string};

verus! {

// ---------------------------------------------------------------------------
// Character-level grammar.

/// The number of white-space characters that `s` starts with.
pub open spec fn space_prefix(s: Seq<char>) -> nat
    decreases s.len(),
{
    if s.len() > 0 && is_space(s[0]) {
        1 + space_prefix(s.drop_first())
    } else {
        0
    }
}

/// The number of white-space characters that `s` ends with.
pub open spec fn space_suffix(s: Seq<char>) -> nat
    decreases s.len(),
{
    if s.len() > 0 && is_space(s.last()) {
        1 + space_suffix(s.drop_last())
    } else {
        0
    }
}

pub open spec fn trim_start(s: Seq<char>) -> Seq<char> {
    s.skip(space_prefix(s) as int)
}

pub open spec fn trim(s: Seq<char>) -> Seq<char> {
    let t = trim_start(s);
    t.subrange(0, t.len() - space_suffix(t))
}

/// The number of decimal digits that `s` starts with.
pub open spec fn digit_run(s: Seq<char>) -> nat
    decreases s.len(),
{
    if s.len() > 0 && is_decimal_digit(s[0]) {
        1 + digit_run(s.drop_first())
    } else {
        0
    }
}

pub open spec fn starts_with(s: Seq<char>, p: Seq<char>) -> bool {
    p.len() <= s.len() && s.subrange(0, p.len() as int) == p
}

/// `s` with every occurrence of `p` taken out, scanning from the left.
pub open spec fn remove_all(s: Seq<char>, p: Seq<char>) -> Seq<char>
    decreases s.len(),
{
    if s.len() == 0 {
        seq![]
    } else if p.len() > 0 && starts_with(s, p) {
        remove_all(s.skip(p.len() as int), p)
    } else {
        seq![s[0]] + remove_all(s.drop_first(), p)
    }
}

/// `r` reads `file:row:col` with the file part ending at `i`: `file` is not
/// empty and holds no line feed, `row` and `col` are runs of digits.
pub open spec fn splits_location(r: Seq<char>, i: int) -> bool {
    &&& 1 <= i < r.len()
    &&& forall|j: int| 0 <= j < i ==> r[j] != '\n'
    &&& r[i] == ':'
    &&& digit_run(r.skip(i + 1)) >= 1
    &&& i + 1 + digit_run(r.skip(i + 1)) < r.len()
    &&& r[i + 1 + digit_run(r.skip(i + 1))] == ':'
    &&& digit_run(r.skip(i + 2 + digit_run(r.skip(i + 1)))) >= 1
}

/// The last position at or below `k` where `r` splits into a location, or
/// -1: the file part takes as much as it can.
pub open spec fn last_split(r: Seq<char>, k: int) -> int
    decreases k,
{
    if k < 1 {
        -1
    } else if splits_location(r, k) {
        k
    } else {
        last_split(r, k - 1)
    }
}

proof fn lemma_last_split(r: Seq<char>, k: int)
    ensures
        last_split(r, k) >= 1 ==> last_split(r, k) <= k,
        last_split(r, k) >= 1 ==> splits_location(r, last_split(r, k)),
        last_split(r, k) < 1 ==> last_split(r, k) == -1,
    decreases k,
{
    if k >= 1 && !splits_location(r, k) {
        lemma_last_split(r, k - 1);
    }
}

/// The text after the `-->` marker of a location line, if `line` has one.
pub open spec fn location_text(line: Seq<char>) -> Option<Seq<char>> {
    let t = trim_start(line);
    if starts_with(t, "--> "@) {
        Some(t.skip(4))
    } else {
        None
    }
}

pub open spec fn is_location(line: Seq<char>) -> bool {
    match location_text(line) {
        Some(r) => last_split(r, r.len() - 1) >= 1,
        None => false,
    }
}

/// The length of the bracketed code after `error`, where `line` starts with
/// an error marker: `error:` or `error[E<digits>]:`.
pub open spec fn error_code_len(line: Seq<char>) -> Option<int> {
    if !starts_with(line, "error"@) {
        None
    } else {
        let s = line.skip(5);
        let d = digit_run(s.skip(2)) as int;
        if s.len() > 0 && s[0] == ':' {
            Some(0)
        } else if starts_with(s, "[E"@) && d >= 1 && 3 + d < s.len() && s[2 + d] == ']' && s[3
            + d] == ':' {
            Some(3 + d)
        } else {
            None
        }
    }
}

pub open spec fn is_code_context(line: Seq<char>) -> bool {
    trim_start(line).len() > 0 && trim_start(line)[0] == '|'
}

// ---------------------------------------------------------------------------
// Records.

/// One classified line, as plain text.
#[derive(Debug)]
pub enum Diagnostic {
    /// `--> file:row:col`: where the diagnostic before it points.
    Location { file: String, row: String, col: String },
    /// An error; the message keeps its bracketed code, if any.
    Error { message: String },
    Warning { message: String },
    Note { message: String },
    Help { message: String },
    /// A line of the source excerpt; `pointer` marks the line with carets.
    Code { line: String, pointer: bool },
    Plain { line: String },
}

pub ghost enum DiagnosticModel {
    Location { file: Seq<char>, row: Seq<char>, col: Seq<char> },
    Error { message: Seq<char> },
    Warning { message: Seq<char> },
    Note { message: Seq<char> },
    Help { message: Seq<char> },
    Code { line: Seq<char>, pointer: bool },
    Plain { line: Seq<char> },
}

impl View for Diagnostic {
    type V = DiagnosticModel;

    open spec fn view(&self) -> DiagnosticModel {
        match self {
            Diagnostic::Location { file, row, col } => DiagnosticModel::Location {
                file: file@,
                row: row@,
                col: col@,
            },
            Diagnostic::Error { message } => DiagnosticModel::Error { message: message@ },
            Diagnostic::Warning { message } => DiagnosticModel::Warning { message: message@ },
            Diagnostic::Note { message } => DiagnosticModel::Note { message: message@ },
            Diagnostic::Help { message } => DiagnosticModel::Help { message: message@ },
            Diagnostic::Code { line, pointer } => DiagnosticModel::Code {
                line: line@,
                pointer: *pointer,
            },
            Diagnostic::Plain { line } => DiagnosticModel::Plain { line: line@ },
        }
    }
}

/// The record a line becomes; the first kind that matches wins, in the
/// order location, error, warning, note, help, code, plain.
pub open spec fn classified(line: Seq<char>) -> DiagnosticModel {
    if is_location(line) {
        let r = location_text(line)->0;
        let i = last_split(r, r.len() - 1);
        let d = digit_run(r.skip(i + 1));
        let e = digit_run(r.skip(i + 2 + d));
        DiagnosticModel::Location {
            file: r.subrange(0, i),
            row: r.subrange(i + 1, i + 1 + d),
            col: r.subrange(i + 2 + d, i + 2 + d + e),
        }
    } else if error_code_len(line) is Some {
        let c = error_code_len(line)->0;
        DiagnosticModel::Error { message: line.subrange(5, 5 + c) + line.skip(6 + c) }
    } else if starts_with(line, "warning:"@) {
        DiagnosticModel::Warning { message: line.skip(8) }
    } else if starts_with(trim_start(line), "= note:"@) {
        DiagnosticModel::Note { message: trim(remove_all(line, "= note:"@)) }
    } else if starts_with(trim_start(line), "= help:"@) {
        DiagnosticModel::Help { message: trim(remove_all(line, "= help:"@)) }
    } else if is_code_context(line) {
        DiagnosticModel::Code { line, pointer: line.contains('^') }
    } else {
        DiagnosticModel::Plain { line }
    }
}

/// What a record adds to the (warnings, errors) counters.
pub open spec fn counter_delta(d: DiagnosticModel) -> (u32, u32) {
    match d {
        DiagnosticModel::Error { .. } => (0, 1),
        DiagnosticModel::Warning { .. } => (1, 0),
        _ => (0, 0),
    }
}

// ---------------------------------------------------------------------------
// Scanning.

fn count_space_prefix(s: &str) -> (r: usize)
    ensures
        r == space_prefix(s@),
        r <= s@.len(),
{
    let n = s.unicode_len();
    let mut i: usize = 0;
    assert(s@.skip(0) =~= s@);
    while i < n && is_space_char(s.get_char(i))
        invariant
            n == s@.len(),
            i <= n,
            space_prefix(s@) == i + space_prefix(s@.skip(i as int)),
        decreases n - i,
    {
        assert(s@.skip(i as int).drop_first() =~= s@.skip(i + 1));
        i = i + 1;
    }
    i
}

fn count_space_suffix(s: &str) -> (r: usize)
    ensures
        r == space_suffix(s@),
        r <= s@.len(),
{
    let n = s.unicode_len();
    let mut i: usize = n;
    assert(s@.subrange(0, n as int) =~= s@);
    while i > 0 && is_space_char(s.get_char(i - 1))
        invariant
            n == s@.len(),
            i <= n,
            space_suffix(s@) == (n - i) + space_suffix(s@.subrange(0, i as int)),
        decreases i,
    {
        assert(s@.subrange(0, i as int).drop_last() =~= s@.subrange(0, i - 1));
        i = i - 1;
    }
    n - i
}

/// `s` without leading and trailing white space.
pub fn trim_text(s: &str) -> (r: String)
    ensures
        r@ == trim(s@),
{
    let n = s.unicode_len();
    let a = count_space_prefix(s);
    let t = slice_string(s, a, n);
    assert(t@ =~= trim_start(s@));
    let b = count_space_suffix(t.as_str());
    slice_string(t.as_str(), 0, (n - a) - b)
}

fn count_digits(s: &str, from: usize) -> (r: usize)
    requires
        from <= s@.len(),
    ensures
        r == digit_run(s@.skip(from as int)),
        from + r <= s@.len(),
{
    let n = s.unicode_len();
    let mut i: usize = from;
    while i < n && is_decimal_digit_char(s.get_char(i))
        invariant
            n == s@.len(),
            from <= i <= n,
            digit_run(s@.skip(from as int)) == (i - from) + digit_run(s@.skip(i as int)),
        decreases n - i,
    {
        assert(s@.skip(i as int).drop_first() =~= s@.skip(i + 1));
        i = i + 1;
    }
    i - from
}

fn has_prefix_at(s: &str, from: usize, p: &str) -> (r: bool)
    requires
        from <= s@.len(),
    ensures
        r == starts_with(s@.skip(from as int), p@),
        r ==> from + p@.len() <= s@.len(),
{
    let n = s.unicode_len();
    let m = p.unicode_len();
    if m > n - from {
        return false;
    }
    let mut j: usize = 0;
    while j < m
        invariant
            n == s@.len(),
            m == p@.len(),
            from + m <= n,
            j <= m,
            forall|k: int| 0 <= k < j ==> s@[from + k] == p@[k],
        decreases m - j,
    {
        if s.get_char(from + j) != p.get_char(j) {
            assert(s@.skip(from as int).subrange(0, m as int)[j as int] != p@[j as int]);
            return false;
        }
        j = j + 1;
    }
    assert(s@.skip(from as int).subrange(0, m as int) =~= p@);
    true
}

/// `s` with every occurrence of `p` taken out.
pub fn remove_text(s: &str, p: &str) -> (r: String)
    ensures
        r@ == remove_all(s@, p@),
{
    let n = s.unicode_len();
    let m = p.unicode_len();
    let mut out = String::new();
    let mut i: usize = 0;
    assert(s@.skip(0) =~= s@);
    assert(out@ + remove_all(s@, p@) =~= remove_all(s@, p@));
    while i < n
        invariant
            n == s@.len(),
            m == p@.len(),
            i <= n,
            out@ + remove_all(s@.skip(i as int), p@) == remove_all(s@, p@),
        decreases n - i,
    {
        let ghost rest = s@.skip(i as int);
        if m > 0 && has_prefix_at(s, i, p) {
            assert(rest.skip(m as int) =~= s@.skip(i + m));
            i = i + m;
        } else {
            let c = s.substring_char(i, i + 1);
            let ghost before = out@;
            out.append(c);
            assert(rest.drop_first() =~= s@.skip(i + 1));
            assert(c@ =~= seq![rest[0]]);
            assert(out@ + remove_all(s@.skip(i + 1), p@) =~= before + (seq![rest[0]] + remove_all(
                rest.drop_first(),
                p@,
            )));
            i = i + 1;
        }
    }
    assert(s@.skip(n as int) =~= Seq::<char>::empty());
    assert(out@ + remove_all(s@.skip(n as int), p@) =~= out@);
    out
}

/// Whether `r` splits into a location with the file part ending at `i`;
/// `nl` is the position of the first line feed in `r`, or its length.
fn splits_at(r: &str, i: usize, nl: usize) -> (b: bool)
    requires
        1 <= i < r@.len(),
        nl <= r@.len(),
        forall|j: int| 0 <= j < nl ==> r@[j] != '\n',
        nl < r@.len() ==> r@[nl as int] == '\n',
    ensures
        b == splits_location(r@, i as int),
{
    let n = r.unicode_len();
    if i > nl {
        assert(r@[nl as int] == '\n');
        return false;
    }
    if r.get_char(i) != ':' {
        return false;
    }
    let d = count_digits(r, i + 1);
    if d == 0 || i + 1 + d >= n || r.get_char(i + 1 + d) != ':' {
        return false;
    }
    let e = count_digits(r, i + 2 + d);
    e >= 1
}

/// One more than the position where the file part of a location ends, or 0.
fn split_location(r: &str) -> (k: usize)
    ensures
        k == last_split(r@, r@.len() - 1) + 1,
{
    let n = r.unicode_len();
    let mut nl: usize = 0;
    while nl < n && r.get_char(nl) != '\n'
        invariant
            n == r@.len(),
            nl <= n,
            forall|j: int| 0 <= j < nl ==> r@[j] != '\n',
        decreases n - nl,
    {
        nl = nl + 1;
    }
    let mut k: usize = n;
    while k >= 2
        invariant
            n == r@.len(),
            k <= n,
            nl <= n,
            forall|j: int| 0 <= j < nl ==> r@[j] != '\n',
            nl < n ==> r@[nl as int] == '\n',
            last_split(r@, k - 1) == last_split(r@, n - 1),
        decreases k,
    {
        if splits_at(r, k - 1, nl) {
            return k;
        }
        k = k - 1;
    }
    0
}

/// The length of the bracketed code after an error marker, if `line` has one.
fn error_marker(line: &str) -> (r: Option<usize>)
    ensures
        match r {
            Some(c) => error_code_len(line@) == Some(c as int) && 6 + c <= line@.len(),
            None => error_code_len(line@) is None,
        },
{
    let n = line.unicode_len();
    proof {
        reveal_strlit("error");
        reveal_strlit("[E");
    }
    assert(line@.skip(0) =~= line@);
    if !has_prefix_at(line, 0, "error") {
        return None;
    }
    let ghost s = line@.skip(5);
    if n > 5 && line.get_char(5) == ':' {
        return Some(0);
    }
    if !has_prefix_at(line, 5, "[E") {
        return None;
    }
    let d = count_digits(line, 7);
    assert(s.skip(2) =~= line@.skip(7));
    if d >= 1 && n - 7 - d >= 2 && line.get_char(7 + d) == ']' && line.get_char(8 + d) == ':' {
        Some(3 + d)
    } else {
        None
    }
}

/// Removes `marker` from `line` and trims what is left.
fn marker_message(line: &str, marker: &str) -> (r: String)
    ensures
        r@ == trim(remove_all(line@, marker@)),
{
    let removed = remove_text(line, marker);
    trim_text(removed.as_str())
}

/// Classifies one line of diagnostic output.
pub fn classify_line(line: &str) -> (r: Diagnostic)
    ensures
        r@ == classified(line@),
{
    let n = line.unicode_len();
    proof {
        reveal_strlit("--> ");
        reveal_strlit("warning:");
    }
    let lead = count_space_prefix(line);
    if has_prefix_at(line, lead, "--> ") {
        let rest = slice_string(line, lead + 4, n);
        assert(rest@ =~= trim_start(line@).skip(4));
        let k = split_location(rest.as_str());
        if k >= 2 {
            let i = k - 1;
            proof {
                lemma_last_split(rest@, rest@.len() - 1);
            }
            let m = rest.unicode_len();
            let d = count_digits(rest.as_str(), i + 1);
            let e = count_digits(rest.as_str(), i + 2 + d);
            return Diagnostic::Location {
                file: slice_string(rest.as_str(), 0, i),
                row: slice_string(rest.as_str(), i + 1, i + 1 + d),
                col: slice_string(rest.as_str(), i + 2 + d, i + 2 + d + e),
            };
        }
    }
    match error_marker(line) {
        Some(c) => {
            let message = slice_string(line, 5, 5 + c).concat(
                slice_string(line, 6 + c, n).as_str(),
            );
            assert(line@.subrange(6 + c, n as int) =~= line@.skip(6 + c));
            return Diagnostic::Error { message };
        },
        None => {},
    }
    assert(line@.skip(0) =~= line@);
    if has_prefix_at(line, 0, "warning:") {
        let message = slice_string(line, 8, n);
        assert(message@ =~= line@.skip(8));
        return Diagnostic::Warning { message };
    }
    if has_prefix_at(line, lead, "= note:") {
        return Diagnostic::Note { message: marker_message(line, "= note:") };
    }
    if has_prefix_at(line, lead, "= help:") {
        return Diagnostic::Help { message: marker_message(line, "= help:") };
    }
    if lead < n && line.get_char(lead) == '|' {
        let pointer = crate::text::contains_char(line, '^');
        return Diagnostic::Code { line: String::from_str(line), pointer };
    }
    Diagnostic::Plain { line: String::from_str(line) }
}

impl Diagnostic {
    /// What this record adds to the (warnings, errors) counters.
    pub fn counts(&self) -> (r: (u32, u32))
        ensures
            r == counter_delta(self@),
    {
        match self {
            Diagnostic::Error { .. } => (0, 1),
            Diagnostic::Warning { .. } => (1, 0),
            _ => (0, 0),
        }
    }
}

/// Classifies the lines of a diagnostic stream, one at a time.
pub struct DiagnosticReporter {}

impl DiagnosticReporter {
    pub fn new() -> (r: Self) {
        DiagnosticReporter {  }
    }

    /// The record for one line; it depends on that line alone.
    pub fn classify(&self, line: &str) -> (r: Diagnostic)
        ensures
            r@ == classified(line@),
    {
        classify_line(line)
    }
}

/// Running totals of warnings and errors over a stream.
pub struct DiagnosticTotals {
    pub warnings: u64,
    pub errors: u64,
}

impl DiagnosticTotals {
    pub fn new() -> (r: Self)
        ensures
            r.warnings == 0,
            r.errors == 0,
    {
        DiagnosticTotals { warnings: 0, errors: 0 }
    }

    /// Adds the (warnings, errors) deltas of one record; the totals stop at
    /// `u64::MAX`.
    pub fn record(&mut self, delta: (u32, u32))
        ensures
            final(self).warnings == if old(self).warnings + delta.0 > u64::MAX {
                u64::MAX as int
            } else {
                old(self).warnings + delta.0
            },
            final(self).errors == if old(self).errors + delta.1 > u64::MAX {
                u64::MAX as int
            } else {
                old(self).errors + delta.1
            },
    {
        self.warnings = self.warnings.saturating_add(delta.0 as u64);
        self.errors = self.errors.saturating_add(delta.1 as u64);
    }
}

// ---------------------------------------------------------------------------
// Laws.

/// Classification holds no state: equal lines always give the same record
/// and the same counter deltas.
pub proof fn law_classification_is_stateless(a: Seq<char>, b: Seq<char>)
    requires
        a == b,
    ensures
        classified(a) == classified(b),
        counter_delta(classified(a)) == counter_delta(classified(b)),
{
}

pub open spec fn all_digits(s: Seq<char>) -> bool {
    forall|j: int| 0 <= j < s.len() ==> is_decimal_digit(#[trigger] s[j])
}

proof fn lemma_digit_run_of_digits(d: Seq<char>, rest: Seq<char>)
    requires
        all_digits(d),
        rest.len() == 0 || !is_decimal_digit(rest[0]),
    ensures
        digit_run(d + rest) == d.len(),
    decreases d.len(),
{
    if d.len() > 0 {
        assert((d + rest).drop_first() =~= d.drop_first() + rest);
        lemma_digit_run_of_digits(d.drop_first(), rest);
    } else {
        assert(d + rest =~= rest);
    }
}

proof fn lemma_space_prefix_of_spaces(w: Seq<char>, t: Seq<char>)
    requires
        forall|j: int| 0 <= j < w.len() ==> is_space(#[trigger] w[j]),
        t.len() > 0 && !is_space(t[0]),
    ensures
        space_prefix(w + t) == w.len(),
    decreases w.len(),
{
    if w.len() > 0 {
        assert((w + t).drop_first() =~= w.drop_first() + t);
        lemma_space_prefix_of_spaces(w.drop_first(), t);
    } else {
        assert(w + t =~= t);
    }
}

/// Past the file part, no position of `f:row:col` splits it.
proof fn lemma_no_later_split(r: Seq<char>, f: Seq<char>, row: Seq<char>, col: Seq<char>, k: int)
    requires
        r == f + seq![':'] + row + seq![':'] + col,
        all_digits(row),
        all_digits(col),
        f.len() <= k < r.len(),
    ensures
        last_split(r, k) == last_split(r, f.len() as int),
    decreases k - f.len(),
{
    if k > f.len() {
        let second = f.len() + 1 + row.len();
        if k == second {
            assert(r.skip(k + 1) =~= col + Seq::<char>::empty());
            lemma_digit_run_of_digits(col, Seq::<char>::empty());
        } else if k < second {
            assert(r[k] == row[k - f.len() - 1]);
        } else {
            assert(r[k] == col[k - second - 1]);
        }
        assert(!splits_location(r, k));
        lemma_no_later_split(r, f, row, col, k - 1);
    }
}

/// A location line reads back as what it was written from: leading white
/// space, the `-->` marker, then `file:row:col` with a file part free of line
/// feeds and runs of digits for the row and the column. It counts nothing.
pub proof fn law_location_round_trip(
    w: Seq<char>,
    file: Seq<char>,
    row: Seq<char>,
    col: Seq<char>,
)
    requires
        forall|j: int| 0 <= j < w.len() ==> is_space(#[trigger] w[j]),
        file.len() > 0,
        forall|j: int| 0 <= j < file.len() ==> #[trigger] file[j] != '\n',
        row.len() > 0,
        col.len() > 0,
        all_digits(row),
        all_digits(col),
    ensures
        classified(w + "--> "@ + file + ":"@ + row + ":"@ + col) == (DiagnosticModel::Location {
            file,
            row,
            col,
        }),
        counter_delta(classified(w + "--> "@ + file + ":"@ + row + ":"@ + col)) == (0u32, 0u32),
{
    reveal_strlit("--> ");
    reveal_strlit(":");
    let line = w + "--> "@ + file + ":"@ + row + ":"@ + col;
    let r = file + seq![':'] + row + seq![':'] + col;
    let t = "--> "@ + r;
    assert(line =~= w + t);
    lemma_space_prefix_of_spaces(w, t);
    assert(trim_start(line) =~= t);
    assert(t.subrange(0, 4) =~= "--> "@);
    assert(t.skip(4) =~= r);
    let i = file.len() as int;
    assert(r.skip(i + 1) =~= row + (seq![':'] + col));
    lemma_digit_run_of_digits(row, seq![':'] + col);
    let d = row.len() as int;
    assert(r.skip(i + 2 + d) =~= col + Seq::<char>::empty());
    lemma_digit_run_of_digits(col, Seq::<char>::empty());
    assert(r[i] == ':');
    assert(r[i + 1 + d] == ':');
    assert(forall|j: int| 0 <= j < i ==> r[j] == file[j]);
    assert(splits_location(r, i));
    lemma_no_later_split(r, file, row, col, r.len() - 1);
    assert(last_split(r, r.len() - 1) == i);
    assert(r.subrange(0, i) =~= file);
    assert(r.subrange(i + 1, i + 1 + d) =~= row);
    assert(r.subrange(i + 2 + d, i + 2 + d + col.len()) =~= col);
}

/// A line that opens with `error[E<digits>]:` is an error whose message keeps
/// the bracketed code followed by the rest of the line; it counts one error.
pub proof fn law_coded_error_line(code: Seq<char>, rest: Seq<char>)
    requires
        code.len() > 0,
        all_digits(code),
    ensures
        classified("error[E"@ + code + "]:"@ + rest) == (DiagnosticModel::Error {
            message: "[E"@ + code + "]"@ + rest,
        }),
        counter_delta(classified("error[E"@ + code + "]:"@ + rest)) == (0u32, 1u32),
{
    reveal_strlit("error[E");
    reveal_strlit("]:");
    reveal_strlit("[E");
    reveal_strlit("]");
    reveal_strlit("--> ");
    reveal_strlit("error");
    let line = "error[E"@ + code + "]:"@ + rest;
    lemma_space_prefix_of_spaces(Seq::<char>::empty(), line);
    assert(Seq::<char>::empty() + line =~= line);
    assert(trim_start(line) =~= line);
    assert(line[0] == 'e');
    assert(!starts_with(line, "--> "@));
    assert(!is_location(line));
    assert(line.subrange(0, 5) =~= "error"@);
    let s = line.skip(5);
    assert(s.skip(2) =~= code + ("]:"@ + rest));
    lemma_digit_run_of_digits(code, "]:"@ + rest);
    assert(s.subrange(0, 2) =~= "[E"@);
    let d = code.len() as int;
    assert(s[2 + d] == ']');
    assert(s[3 + d] == ':');
    assert(error_code_len(line) == Some(3 + d));
    assert(line.subrange(5, 8 + d) =~= "[E"@ + code + "]"@);
    assert(line.skip(9 + d) =~= rest);
}

/// A line that opens with `warning:` is a warning carrying the rest of the
/// line; it counts one warning.
pub proof fn law_warning_line(rest: Seq<char>)
    ensures
        classified("warning:"@ + rest) == (DiagnosticModel::Warning { message: rest }),
        counter_delta(classified("warning:"@ + rest)) == (1u32, 0u32),
{
    reveal_strlit("warning:");
    reveal_strlit("--> ");
    reveal_strlit("error");
    let line = "warning:"@ + rest;
    lemma_space_prefix_of_spaces(Seq::<char>::empty(), line);
    assert(Seq::<char>::empty() + line =~= line);
    assert(trim_start(line) =~= line);
    assert(line[0] == 'w');
    assert(!starts_with(line, "--> "@));
    assert(!starts_with(line, "error"@));
    assert(line.subrange(0, 8) =~= "warning:"@);
    assert(line.skip(8) =~= rest);
}

} // verus!
