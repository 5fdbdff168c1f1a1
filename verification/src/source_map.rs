use vstd::prelude::*;

use crate::text::{append_str, chars_of, decimal, digit_char, push_char, push_repeated, repeat_char, usize_to_decimal};

verus! {

/// Index at which each line of `src` starts, for the lines that begin within
/// the first `n` chars: 0, then one past each newline.
pub open spec fn line_starts_upto(src: Seq<char>, n: nat) -> Seq<nat>
    decreases n,
{
    if n == 0 {
        seq![0nat]
    } else if src[n - 1] == '\n' {
        line_starts_upto(src, (n - 1) as nat).push(n)
    } else {
        line_starts_upto(src, (n - 1) as nat)
    }
}

/// Index at which each line of `src` starts.
pub open spec fn line_starts(src: Seq<char>) -> Seq<nat> {
    line_starts_upto(src, src.len())
}

/// `s` with every trailing char `c` removed.
pub open spec fn trim_end(s: Seq<char>, c: char) -> Seq<char>
    decreases s.len(),
{
    if s.len() > 0 && s.last() == c {
        trim_end(s.drop_last(), c)
    } else {
        s
    }
}

/// The text of line `line` (1-based) of `src`, without its line break and
/// without the carriage returns that end it; empty when there is no such line.
pub open spec fn spec_line_text(src: Seq<char>, line: int) -> Seq<char> {
    let starts = line_starts(src);
    if line < 1 || line > starts.len() {
        Seq::empty()
    } else {
        let start = starts[line - 1] as int;
        let end = if line < starts.len() {
            starts[line] as int
        } else {
            src.len() as int
        };
        trim_end(trim_end(src.subrange(start, end), '\n'), '\r')
    }
}

/// The first lines of a diagnostic: the message, the location and a
/// separator.
pub open spec fn spec_diagnostic_top(file: Seq<char>, line: nat, col: nat, message: Seq<char>) -> Seq<char> {
    let w = decimal(line).len();
    "error: "@ + message + "\n"@ + repeat_char(' ', w + 1) + "--> "@ + file + ":"@ + decimal(line)
        + ":"@ + decimal(col) + "\n"@ + repeat_char(' ', w + 1) + " |\n"@
}

/// The header lines of a caret diagnostic, down to the quoted source line,
/// whose gutter is one column wider than the line number.
pub open spec fn spec_diagnostic_head(
    file: Seq<char>,
    src: Seq<char>,
    line: nat,
    col: nat,
    message: Seq<char>,
) -> Seq<char> {
    spec_diagnostic_top(file, line, col, message) + " "@ + decimal(line) + " | "@ + spec_line_text(src, line as int)
        + "\n"@
}

/// A diagnostic that points at one column with a caret.
pub open spec fn spec_render_error(
    file: Seq<char>,
    src: Seq<char>,
    line: nat,
    col: nat,
    message: Seq<char>,
) -> Seq<char> {
    let w = decimal(line).len();
    let pad: nat = if col >= 1 {
        (col - 1) as nat
    } else {
        0
    };
    spec_diagnostic_head(file, src, line, col, message) + repeat_char(' ', w + 1) + " | "@ + repeat_char(
        ' ',
        pad,
    ) + "^\n"@
}

/// A diagnostic that underlines the columns from `col_start` up to, not
/// including, `col_end` (at least one column).
pub open spec fn spec_render_error_span(
    file: Seq<char>,
    src: Seq<char>,
    line: nat,
    col_start: nat,
    col_end: nat,
    message: Seq<char>,
) -> Seq<char> {
    let w = decimal(line).len();
    let span_len: nat = if col_end > col_start {
        (col_end - col_start) as nat
    } else {
        1
    };
    spec_diagnostic_top(file, line, col_start, message) + decimal(line) + " | "@ + spec_line_text(src, line as int)
        + "\n"@ + repeat_char(' ', w) + " | "@ + repeat_char(' ', (col_start - 1) as nat) + repeat_char('^', span_len)
        + "\n"@
}

/// Maps line/column pairs of one source file to the text around them, to
/// render diagnostics.
pub struct SourceMap {
    file_name: String,
    source: String,
    chars: Vec<char>,
    /// Index (in chars) at which each line starts; the first is always 0.
    line_starts: Vec<usize>,
}

/// A resolved location: file, line and column (both 1-based).
#[derive(Debug, Clone, PartialEq)]
pub struct LocInfo {
    pub file: String,
    pub line: usize,
    pub col: usize,
}

impl SourceMap {
    pub closed spec fn spec_file(&self) -> Seq<char> {
        self.file_name@
    }

    pub closed spec fn spec_source(&self) -> Seq<char> {
        self.source@
    }

    /// The table agrees with the source text.
    pub closed spec fn wf(&self) -> bool {
        &&& self.chars@ == self.source@
        &&& self.line_starts@.map_values(|x: usize| x as nat) == line_starts(self.source@)
    }

    /// Builds the table by scanning the source for line breaks.
    pub fn new(file_name: &str, source: &str) -> (r: Self)
        ensures
            r.wf(),
            r.spec_file() == file_name@,
            r.spec_source() == source@,
    {
        let chars = chars_of(source);
        let mut line_starts: Vec<usize> = Vec::new();
        line_starts.push(0);
        let mut i: usize = 0;
        while i < chars.len()
            invariant
                i <= chars@.len(),
                line_starts@.map_values(|x: usize| x as nat) == line_starts_upto(chars@, i as nat),
            decreases chars@.len() - i,
        {
            let ghost l0 = line_starts@;
            if chars[i] == '\n' {
                line_starts.push(i + 1);
                assert(line_starts@.map_values(|x: usize| x as nat) =~= l0.map_values(|x: usize| x as nat).push(
                    (i + 1) as nat,
                ));
            }
            i = i + 1;
        }
        SourceMap { file_name: file_name.to_owned(), source: source.to_owned(), chars, line_starts }
    }

    /// The location of a (line, column) pair in this file.
    pub fn loc(&self, line: usize, col: usize) -> (r: LocInfo)
        ensures
            r.file@ == self.spec_file(),
            r.line == line,
            r.col == col,
    {
        LocInfo { file: self.file_name.clone(), line, col }
    }

    /// The text of line `line` (1-based), without its line break; empty when
    /// the line is out of range.
    pub fn line_text(&self, line: usize) -> (r: &str)
        requires
            self.wf(),
        ensures
            r@ == spec_line_text(self.spec_source(), line as int),
    {
        let n_chars = self.chars.len();
        proof {
            lemma_line_starts_bounds(self.chars@, n_chars as nat);
        }
        if line == 0 || line > self.line_starts.len() {
            proof {
                reveal_strlit("");
            }
            return "";
        }
        let start = self.line_starts[line - 1];
        let end = if line < self.line_starts.len() {
            self.line_starts[line]
        } else {
            self.chars.len()
        };
        proof {
            let m = self.line_starts@.map_values(|x: usize| x as nat);
            assert(m[line - 1] == start as nat);
            if line < self.line_starts@.len() {
                assert(m[line as int] == end as nat);
            }
            assert(m.len() == self.line_starts@.len());
        }
        let ghost seg = self.chars@.subrange(start as int, end as int);
        let mut e = end;
        while e > start && self.chars[e - 1] == '\n'
            invariant
                start <= e <= end <= self.chars@.len(),
                trim_end(seg, '\n') == trim_end(self.chars@.subrange(start as int, e as int), '\n'),
            decreases e,
        {
            assert(self.chars@.subrange(start as int, e as int).drop_last() =~= self.chars@.subrange(
                start as int,
                e - 1,
            ));
            e = e - 1;
        }
        assert(trim_end(seg, '\n') == self.chars@.subrange(start as int, e as int));
        let ghost seg2 = self.chars@.subrange(start as int, e as int);
        while e > start && self.chars[e - 1] == '\r'
            invariant
                start <= e <= end <= self.chars@.len(),
                trim_end(seg2, '\r') == trim_end(self.chars@.subrange(start as int, e as int), '\r'),
            decreases e,
        {
            assert(self.chars@.subrange(start as int, e as int).drop_last() =~= self.chars@.subrange(
                start as int,
                e - 1,
            ));
            e = e - 1;
        }
        assert(trim_end(seg2, '\r') == self.chars@.subrange(start as int, e as int));
        self.source.as_str().substring_char(start, e)
    }

    /// Appends the first lines of a diagnostic: message, location, separator.
    fn push_top(&self, out: &mut String, line: usize, col: usize, message: &str)
        requires
            self.wf(),
        ensures
            final(out)@ == old(out)@ + spec_diagnostic_top(self.spec_file(), line as nat, col as nat, message@),
    {
        let line_num = usize_to_decimal(line);
        let width = line_num.as_str().unicode_len();
        let col_num = usize_to_decimal(col);
        append_str(out, "error: ");
        append_str(out, message);
        append_str(out, "\n");
        push_repeated(out, ' ', width);
        push_char(out, ' ');
        append_str(out, "--> ");
        append_str(out, self.file_name.as_str());
        append_str(out, ":");
        append_str(out, line_num.as_str());
        append_str(out, ":");
        append_str(out, col_num.as_str());
        append_str(out, "\n");
        push_repeated(out, ' ', width);
        push_char(out, ' ');
        append_str(out, " |\n");
        proof {
            assert(repeat_char(' ', width as nat).push(' ') =~= repeat_char(' ', width as nat + 1));
            reveal_strlit("error: ");
            reveal_strlit("\n");
            reveal_strlit("--> ");
            reveal_strlit(":");
            reveal_strlit(" |\n");
        }
        assert(out@ =~= old(out)@ + spec_diagnostic_top(self.spec_file(), line as nat, col as nat, message@));
    }

    /// Appends the header of a caret diagnostic, down to the quoted source
    /// line.
    fn push_head(&self, out: &mut String, line: usize, col: usize, message: &str)
        requires
            self.wf(),
        ensures
            final(out)@ == old(out)@ + spec_diagnostic_head(
                self.spec_file(),
                self.spec_source(),
                line as nat,
                col as nat,
                message@,
            ),
    {
        self.push_top(out, line, col, message);
        let line_num = usize_to_decimal(line);
        let text = self.line_text(line);
        push_char(out, ' ');
        append_str(out, line_num.as_str());
        append_str(out, " | ");
        append_str(out, text);
        append_str(out, "\n");
        proof {
            reveal_strlit("\n");
            reveal_strlit(" | ");
            reveal_strlit(" ");
        }
        assert(out@ =~= old(out)@ + spec_diagnostic_head(
            self.spec_file(),
            self.spec_source(),
            line as nat,
            col as nat,
            message@,
        ));
    }

    /// A diagnostic for `message` with the source line quoted and a caret
    /// under column `col`.
    pub fn render_error(&self, line: usize, col: usize, message: &str) -> (r: String)
        requires
            self.wf(),
        ensures
            r@ == spec_render_error(self.spec_file(), self.spec_source(), line as nat, col as nat, message@),
    {
        let mut out = String::new();
        self.push_head(&mut out, line, col, message);
        let line_num = usize_to_decimal(line);
        let width = line_num.as_str().unicode_len();
        push_repeated(&mut out, ' ', width);
        push_char(&mut out, ' ');
        append_str(&mut out, " | ");
        let pad = if col >= 1 {
            col - 1
        } else {
            0
        };
        push_repeated(&mut out, ' ', pad);
        append_str(&mut out, "^\n");
        proof {
            assert(repeat_char(' ', width as nat).push(' ') =~= repeat_char(' ', width as nat + 1));
            reveal_strlit(" | ");
            reveal_strlit("^\n");
        }
        assert(out@ =~= spec_render_error(self.spec_file(), self.spec_source(), line as nat, col as nat, message@));
        out
    }

    /// A diagnostic for `message` with the source line quoted and the columns
    /// from `col_start` up to `col_end` underlined.
    pub fn render_error_span(&self, line: usize, col_start: usize, col_end: usize, message: &str) -> (r: String)
        requires
            self.wf(),
            col_start >= 1,
        ensures
            r@ == spec_render_error_span(
                self.spec_file(),
                self.spec_source(),
                line as nat,
                col_start as nat,
                col_end as nat,
                message@,
            ),
    {
        let mut out = String::new();
        self.push_top(&mut out, line, col_start, message);
        let line_num = usize_to_decimal(line);
        let width = line_num.as_str().unicode_len();
        let text = self.line_text(line);
        append_str(&mut out, line_num.as_str());
        append_str(&mut out, " | ");
        append_str(&mut out, text);
        append_str(&mut out, "\n");
        let span_len = if col_end > col_start {
            col_end - col_start
        } else {
            1
        };
        push_repeated(&mut out, ' ', width);
        append_str(&mut out, " | ");
        push_repeated(&mut out, ' ', col_start - 1);
        push_repeated(&mut out, '^', span_len);
        append_str(&mut out, "\n");
        proof {
            reveal_strlit(" | ");
            reveal_strlit("\n");
        }
        assert(out@ =~= spec_render_error_span(
            self.spec_file(),
            self.spec_source(),
            line as nat,
            col_start as nat,
            col_end as nat,
            message@,
        ));
        out
    }
}

/// Line starts are increasing indices within the text.
proof fn lemma_line_starts_bounds(src: Seq<char>, n: nat)
    requires
        n <= src.len(),
    ensures
        line_starts_upto(src, n).len() >= 1,
        line_starts_upto(src, n)[0] == 0,
        forall|i: int| 0 <= i < line_starts_upto(src, n).len() ==> line_starts_upto(src, n)[i] <= n,
        forall|i: int, j: int|
            0 <= i <= j < line_starts_upto(src, n).len() ==> line_starts_upto(src, n)[i]
                <= line_starts_upto(src, n)[j],
    decreases n,
{
    if n > 0 {
        lemma_line_starts_bounds(src, (n - 1) as nat);
        let prev = line_starts_upto(src, (n - 1) as nat);
        let cur = line_starts_upto(src, n);
        if src[n - 1] == '\n' {
            assert forall|i: int, j: int| 0 <= i <= j < cur.len() implies cur[i] <= cur[j] by {
                if j < prev.len() {
                    assert(cur[i] == prev[i] && cur[j] == prev[j]);
                } else {
                    assert(cur[j] == n);
                    if i < prev.len() {
                        assert(cur[i] == prev[i]);
                    }
                }
            }
        }
    }
}

/// Each line start after the first follows a line break, and no line
/// break stands inside a line.
proof fn lemma_line_breaks(src: Seq<char>, n: nat)
    requires
        n <= src.len(),
    ensures
        ({
            let s = line_starts_upto(src, n);
            &&& forall|k: int| 1 <= k < s.len() ==> #[trigger] s[k] >= 1 && src[s[k] - 1] == '\n'
            &&& forall|k: int, j: int|
                0 <= k < s.len() - 1 && s[k] <= j < s[k + 1] - 1 ==> #[trigger] src[j] != '\n'
                    || j < #[trigger] s[k]
            &&& forall|j: int| s[s.len() - 1] <= j < n ==> #[trigger] src[j] != '\n'
        }),
    decreases n,
{
    lemma_line_starts_bounds(src, n);
    if n > 0 {
        lemma_line_breaks(src, (n - 1) as nat);
        lemma_line_starts_bounds(src, (n - 1) as nat);
        let prev = line_starts_upto(src, (n - 1) as nat);
        let cur = line_starts_upto(src, n);
        if src[n - 1] == '\n' {
            assert forall|k: int| 1 <= k < cur.len() implies #[trigger] cur[k] >= 1 && src[cur[k] - 1]
                == '\n' by {
                if k < prev.len() {
                    assert(cur[k] == prev[k]);
                }
            }
            assert forall|k: int, j: int|
                0 <= k < cur.len() - 1 && cur[k] <= j < cur[k + 1] - 1 implies #[trigger] src[j] != '\n'
                || j < #[trigger] cur[k] by {
                assert(cur[k] == prev[k]);
                if k + 1 < prev.len() {
                    assert(cur[k + 1] == prev[k + 1]);
                }
            }
        }
    }
}

/// `trim_end` keeps a prefix of its argument.
proof fn lemma_trim_end_prefix(s: Seq<char>, c: char)
    ensures
        trim_end(s, c).len() <= s.len(),
        forall|i: int| 0 <= i < trim_end(s, c).len() ==> #[trigger] trim_end(s, c)[i] == s[i],
        s.len() > 0 && s.last() == c ==> trim_end(s, c).len() < s.len(),
    decreases s.len(),
{
    if s.len() > 0 && s.last() == c {
        lemma_trim_end_prefix(s.drop_last(), c);
    }
}

/// The text of a line never holds a line break.
#[verifier::rlimit(80)]
#[verifier::spinoff_prover]
pub proof fn law_line_text_has_no_line_break(src: Seq<char>, line: int)
    requires
    ensures
        !spec_line_text(src, line).contains('\n'),
{
    let starts = line_starts(src);
    lemma_line_starts_bounds(src, src.len());
    lemma_line_breaks(src, src.len());
    if 1 <= line <= starts.len() {
        let start = starts[line - 1] as int;
        let end = if line < starts.len() {
            starts[line] as int
        } else {
            src.len() as int
        };
        let seg = src.subrange(start, end);
        let t1 = trim_end(seg, '\n');
        let t2 = trim_end(t1, '\r');
        lemma_trim_end_prefix(seg, '\n');
        lemma_trim_end_prefix(t1, '\r');
        assert forall|i: int| 0 <= i < t1.len() implies #[trigger] t1[i] != '\n' by {
            assert(t1[i] == seg[i]);
            assert(seg[i] == src[start + i]);
            if line < starts.len() {
                if start + i == end - 1 {
                    assert(seg.last() == '\n');
                    assert(false);
                }
                assert(src[start + i] != '\n' || start + i < starts[line - 1]);
            }
        }
        assert forall|i: int| 0 <= i < t2.len() implies #[trigger] t2[i] != '\n' by {
            assert(t2[i] == t1[i]);
        }
    }
}

// ---------------------------------------------------------------------------
// Lines as the pieces between line breaks
// ---------------------------------------------------------------------------

/// The pieces of the first `n` chars of `s` between line breaks (the breaks
/// themselves left out): one piece to start with, a new one after each
/// break.
pub open spec fn split_upto(s: Seq<char>, n: nat) -> Seq<Seq<char>>
    decreases n,
{
    if n == 0 || n > s.len() {
        seq![Seq::empty()]
    } else {
        let p = split_upto(s, (n - 1) as nat);
        if s[n - 1] == '\n' {
            p.push(Seq::empty())
        } else {
            p.update(p.len() - 1, p.last().push(s[n - 1]))
        }
    }
}

/// The pieces of `s` between line breaks, as splitting on `'\n'` gives them.
pub open spec fn split_lines(s: Seq<char>) -> Seq<Seq<char>> {
    split_upto(s, s.len())
}

/// The pieces joined back with a line break between each two.
pub open spec fn join_lines(ps: Seq<Seq<char>>) -> Seq<char>
    decreases ps.len(),
{
    if ps.len() == 0 {
        Seq::empty()
    } else if ps.len() == 1 {
        ps[0]
    } else {
        join_lines(ps.drop_last()) + seq!['\n'] + ps.last()
    }
}

proof fn lemma_join_extend_last(ps: Seq<Seq<char>>, c: char)
    requires
        ps.len() >= 1,
    ensures
        join_lines(ps.update(ps.len() - 1, ps.last().push(c))) == join_lines(ps).push(c),
{
    let qs = ps.update(ps.len() - 1, ps.last().push(c));
    if ps.len() > 1 {
        assert(qs.drop_last() =~= ps.drop_last());
        assert(join_lines(qs) =~= join_lines(ps).push(c));
    } else {
        assert(join_lines(qs) =~= join_lines(ps).push(c));
    }
}

proof fn lemma_split_upto(s: Seq<char>, n: nat)
    requires
        n <= s.len(),
    ensures
        split_upto(s, n).len() == line_starts_upto(s, n).len(),
        join_lines(split_upto(s, n)) == s.take(n as int),
        forall|k: int|
            0 <= k < split_upto(s, n).len() ==> #[trigger] split_upto(s, n)[k] == s.subrange(
                line_starts_upto(s, n)[k] as int,
                if k + 1 < line_starts_upto(s, n).len() {
                    line_starts_upto(s, n)[k + 1] - 1
                } else {
                    n as int
                },
            ),
    decreases n,
{
    lemma_line_starts_bounds(s, n);
    if n == 0 {
        assert(join_lines(split_upto(s, 0)) =~= s.take(0));
        assert(split_upto(s, 0)[0] =~= s.subrange(0, 0));
    } else {
        let m = (n - 1) as nat;
        lemma_split_upto(s, m);
        lemma_line_starts_bounds(s, m);
        let p = split_upto(s, m);
        let st = line_starts_upto(s, m);
        let q = split_upto(s, n);
        let st2 = line_starts_upto(s, n);
        if s[m as int] == '\n' {
            assert(join_lines(q) =~= s.take(n as int)) by {
                assert(q.drop_last() =~= p);
                assert(s.take(n as int) =~= s.take(m as int) + seq!['\n'] + Seq::<char>::empty());
            }
            assert forall|k: int| 0 <= k < q.len() implies #[trigger] q[k] == s.subrange(
                st2[k] as int,
                if k + 1 < st2.len() { st2[k + 1] - 1 } else { n as int },
            ) by {
                if k < p.len() {
                    assert(q[k] == p[k]);
                    assert(st2[k] == st[k]);
                    if k + 1 < p.len() {
                        assert(st2[k + 1] == st[k + 1]);
                    } else {
                        assert(st2[k + 1] == n);
                    }
                } else {
                    assert(q[k] =~= s.subrange(n as int, n as int));
                }
            }
        } else {
            lemma_join_extend_last(p, s[m as int]);
            assert(s.take(n as int) =~= s.take(m as int).push(s[m as int]));
            assert forall|k: int| 0 <= k < q.len() implies #[trigger] q[k] == s.subrange(
                st2[k] as int,
                if k + 1 < st2.len() { st2[k + 1] - 1 } else { n as int },
            ) by {
                if k < p.len() - 1 {
                    assert(q[k] == p[k]);
                } else {
                    assert(q[k] == p[k].push(s[m as int]));
                    assert(q[k] =~= s.subrange(st2[k] as int, n as int));
                }
            }
        }
    }
}

proof fn lemma_starts_strict(src: Seq<char>, n: nat)
    requires
        n <= src.len(),
    ensures
        forall|i: int, j: int|
            0 <= i < j < line_starts_upto(src, n).len() ==> line_starts_upto(src, n)[i]
                < line_starts_upto(src, n)[j],
    decreases n,
{
    lemma_line_starts_bounds(src, n);
    if n > 0 {
        lemma_starts_strict(src, (n - 1) as nat);
        lemma_line_starts_bounds(src, (n - 1) as nat);
        let prev = line_starts_upto(src, (n - 1) as nat);
        let cur = line_starts_upto(src, n);
        if src[n - 1] == '\n' {
            assert forall|i: int, j: int| 0 <= i < j < cur.len() implies cur[i] < cur[j] by {
                assert(cur[i] == prev[i]);
                if j < prev.len() {
                    assert(cur[j] == prev[j]);
                }
            }
        }
    }
}

proof fn lemma_trim_end_free(x: Seq<char>, c: char)
    requires
        !x.contains(c),
    ensures
        trim_end(x, c) == x,
{
    if x.len() > 0 {
        assert(x[x.len() - 1] == x.last());
    }
}

/// The text of line `k` is the `k`-th piece of the source between line
/// breaks, with the carriage returns that end it removed; there are as many
/// lines as pieces, and out of range the text is empty.
pub proof fn law_line_text_is_split_piece(src: Seq<char>, k: int)
    requires
    ensures
        line_starts(src).len() == split_lines(src).len(),
        1 <= k <= split_lines(src).len() ==> spec_line_text(src, k) == trim_end(split_lines(src)[k - 1], '\r'),
        !(1 <= k <= split_lines(src).len()) ==> spec_line_text(src, k) == Seq::<char>::empty(),
{
    lemma_split_upto(src, src.len());
    lemma_line_starts_bounds(src, src.len());
    lemma_starts_strict(src, src.len());
    lemma_line_breaks(src, src.len());
    let starts = line_starts(src);
    if 1 <= k <= starts.len() {
        let start = starts[k - 1] as int;
        let piece = split_lines(src)[k - 1];
        let e: int = if k < starts.len() { starts[k] - 1 } else { src.len() as int };
        if k < starts.len() {
            assert(starts[k - 1] < starts[k]);
            assert(src[starts[k] - 1] == '\n');
        }
        assert(piece == split_upto(src, src.len())[k - 1]);
        assert(piece == src.subrange(start, e));
        assert(!piece.contains('\n')) by {
            if piece.contains('\n') {
                let j = choose|j: int| 0 <= j < piece.len() && piece[j] == '\n';
                assert(piece[j] == src[start + j]);
                assert(src[start + j] == '\n');
                if k < starts.len() {
                    assert(starts[k - 1] <= start + j < starts[k] - 1);
                }
            }
        }
        lemma_trim_end_free(piece, '\n');
        if k < starts.len() {
            let end = starts[k] as int;
            assert(src.subrange(start, end) =~= piece.push('\n'));
            assert(piece.push('\n').drop_last() =~= piece);
        } else {
            assert(src.subrange(start, src.len() as int) =~= piece);
        }
    }
}

/// When the source holds no carriage return, its lines joined with line
/// breaks give back the whole source.
pub proof fn law_lines_join_to_source(src: Seq<char>)
    requires
        !src.contains('\r'),
    ensures
        join_lines(Seq::new(line_starts(src).len(), |i: int| spec_line_text(src, i + 1))) == src,
{
    lemma_split_upto(src, src.len());
    let ps = split_lines(src);
    let ls = Seq::new(line_starts(src).len(), |i: int| spec_line_text(src, i + 1));
    assert forall|i: int| 0 <= i < ls.len() implies ls[i] == ps[i] by {
        law_line_text_is_split_piece(src, i + 1);
        lemma_line_starts_bounds(src, src.len());
        lemma_starts_strict(src, src.len());
        lemma_line_breaks(src, src.len());
        let st = line_starts(src);
        let e: int = if i + 1 < st.len() { st[i + 1] - 1 } else { src.len() as int };
        if i + 1 < st.len() {
            assert(st[i] < st[i + 1]);
            assert(src[st[i + 1] - 1] == '\n');
        }
        assert(ps[i] == split_upto(src, src.len())[i]);
        assert(ps[i] == src.subrange(st[i] as int, e));
        assert(!ps[i].contains('\r')) by {
            if ps[i].contains('\r') {
                let j = choose|j: int| 0 <= j < ps[i].len() && ps[i][j] == '\r';
                assert(ps[i][j] == src[st[i] + j]);
                assert(src.contains('\r'));
            }
        }
        lemma_trim_end_free(ps[i], '\r');
    }
    assert(ls =~= ps);
    assert(src.take(src.len() as int) =~= src);
}

proof fn lemma_decimal_has_no_line_break(n: nat)
    ensures
        !decimal(n).contains('\n'),
    decreases n,
{
    if n >= 10 {
        lemma_decimal_has_no_line_break(n / 10);
        let d = decimal(n);
        assert forall|i: int| 0 <= i < d.len() implies d[i] != '\n' by {
            if i < d.len() - 1 {
                assert(d[i] == decimal(n / 10)[i]);
            } else {
                assert(d[i] == digit_char(n % 10));
            }
        }
    } else {
        assert(decimal(n)[0] == digit_char(n));
    }
}

proof fn lemma_concat_no_line_break(a: Seq<char>, b: Seq<char>)
    requires
        !a.contains('\n'),
        !b.contains('\n'),
    ensures
        !(a + b).contains('\n'),
{
    if (a + b).contains('\n') {
        let j = choose|j: int| 0 <= j < (a + b).len() && (a + b)[j] == '\n';
        if j < a.len() {
            assert(a[j] == '\n');
        } else {
            assert(b[j - a.len()] == '\n');
        }
    }
}

proof fn lemma_repeat_no_line_break(c: char, n: nat)
    requires
        c != '\n',
    ensures
        !repeat_char(c, n).contains('\n'),
{
}

/// A diagnostic with an underline has exactly five lines, each ended by a
/// line break: the message, the location, a separator, the quoted source
/// line, and the underline of at least one caret, starting under column
/// `col_start`.
#[verifier::rlimit(40)]
pub proof fn law_render_error_span_lines(
    file: Seq<char>,
    src: Seq<char>,
    line: nat,
    col_start: nat,
    col_end: nat,
    message: Seq<char>,
)
    requires
        col_start >= 1,
        !file.contains('\n'),
        !message.contains('\n'),
    ensures
        ({
            let w = decimal(line).len();
            let n: nat = if col_end > col_start {
                (col_end - col_start) as nat
            } else {
                1
            };
            let l0 = "error: "@ + message;
            let l1 = repeat_char(' ', w + 1) + "--> "@ + file + ":"@ + decimal(line) + ":"@ + decimal(col_start);
            let l2 = repeat_char(' ', w + 1) + " |"@;
            let l3 = decimal(line) + " | "@ + spec_line_text(src, line as int);
            let l4 = repeat_char(' ', w) + " | "@ + repeat_char(' ', (col_start - 1) as nat) + repeat_char('^', n);
            &&& n >= 1
            &&& spec_render_error_span(file, src, line, col_start, col_end, message) == l0 + "\n"@ + l1 + "\n"@
                + l2 + "\n"@ + l3 + "\n"@ + l4 + "\n"@
            &&& !l0.contains('\n') && !l1.contains('\n') && !l2.contains('\n') && !l3.contains('\n')
                && !l4.contains('\n')
        }),
{
    reveal_strlit("error: ");
    reveal_strlit("--> ");
    reveal_strlit(":");
    reveal_strlit(" |");
    reveal_strlit(" |\n");
    reveal_strlit(" | ");
    reveal_strlit(" ");
    reveal_strlit("\n");
    lemma_decimal_has_no_line_break(line);
    lemma_decimal_has_no_line_break(col_start);
    law_line_text_has_no_line_break(src, line as int);
    let w = decimal(line).len();
    let n: nat = if col_end > col_start {
        (col_end - col_start) as nat
    } else {
        1
    };
    let sp = repeat_char(' ', w + 1);
    lemma_repeat_no_line_break(' ', w + 1);
    lemma_repeat_no_line_break(' ', (col_start - 1) as nat);
    lemma_repeat_no_line_break('^', n);
    assert(!"error: "@.contains('\n'));
    assert(!"--> "@.contains('\n'));
    assert(!":"@.contains('\n'));
    assert(!" |"@.contains('\n'));
    assert(!" | "@.contains('\n'));
    assert(!" "@.contains('\n'));
    lemma_concat_no_line_break("error: "@, message);
    lemma_concat_no_line_break(sp, "--> "@);
    lemma_concat_no_line_break(sp + "--> "@, file);
    lemma_concat_no_line_break(sp + "--> "@ + file, ":"@);
    lemma_concat_no_line_break(sp + "--> "@ + file + ":"@, decimal(line));
    lemma_concat_no_line_break(sp + "--> "@ + file + ":"@ + decimal(line), ":"@);
    lemma_concat_no_line_break(sp + "--> "@ + file + ":"@ + decimal(line) + ":"@, decimal(col_start));
    lemma_concat_no_line_break(sp, " |"@);
    let sw = repeat_char(' ', w);
    lemma_repeat_no_line_break(' ', w);
    lemma_concat_no_line_break(decimal(line), " | "@);
    lemma_concat_no_line_break(decimal(line) + " | "@, spec_line_text(src, line as int));
    lemma_concat_no_line_break(sw, " | "@);
    lemma_concat_no_line_break(sw + " | "@, repeat_char(' ', (col_start - 1) as nat));
    lemma_concat_no_line_break(sw + " | "@ + repeat_char(' ', (col_start - 1) as nat), repeat_char('^', n));
    let l0 = "error: "@ + message;
    let l1 = sp + "--> "@ + file + ":"@ + decimal(line) + ":"@ + decimal(col_start);
    let l2 = sp + " |"@;
    let l3 = decimal(line) + " | "@ + spec_line_text(src, line as int);
    let l4 = sw + " | "@ + repeat_char(' ', (col_start - 1) as nat) + repeat_char('^', n);
    assert(spec_render_error_span(file, src, line, col_start, col_end, message) =~= l0 + "\n"@ + l1 + "\n"@ + l2
        + "\n"@ + l3 + "\n"@ + l4 + "\n"@);
}

} // verus!
