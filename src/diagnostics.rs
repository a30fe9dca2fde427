use vstd::prelude::*;
use crate::geometry::{Rect, min};
use crate::highlight::Span;
use crate::render::{CellView, Surface, text_spec};
use crate::style::Style;

verus! {

/// How serious a diagnostic is.
#[derive(Clone, Copy, Debug, PartialEq, Eq, Structural)]
pub enum Severity {
    Error,
    Warning,
    Info,
    Hint,
}

/// A message about the character range `[start, end]` of a document.
pub struct Diagnostic {
    pub start: usize,
    pub end: usize,
    pub severity: Option<Severity>,
    pub message: String,
}

/// The severity a diagnostic is shown with: one without is a warning.
pub open spec fn shown_severity(s: Option<Severity>) -> Severity {
    match s {
        Some(v) => v,
        None => Severity::Warning,
    }
}

/// The first scope that the theme has among `diagnostic`, `ui.cursor` and
/// `ui.selection`.
pub open spec fn diagnostic_scope_spec(diagnostic: Option<usize>, cursor: Option<usize>, selection: Option<usize>) -> Option<usize> {
    if diagnostic.is_some() {
        diagnostic
    } else if cursor.is_some() {
        cursor
    } else {
        selection
    }
}

/// Highlight spans for a document's diagnostics, in order, all in the
/// first of the scopes `diagnostic`, `ui.cursor` and `ui.selection` that
/// the theme has; a theme needs at least one of them.
pub fn doc_diagnostics_highlights(
    diagnostics: &Vec<Diagnostic>,
    diagnostic: Option<usize>,
    cursor: Option<usize>,
    selection: Option<usize>,
) -> (r: Vec<Span>)
    requires
        diagnostic_scope_spec(diagnostic, cursor, selection).is_some(),
    ensures
        r@.len() == diagnostics@.len(),
        forall|i: int| 0 <= i < r@.len() ==> #[trigger] r@[i] == (Span {
            scope: diagnostic_scope_spec(diagnostic, cursor, selection).unwrap(),
            start: diagnostics@[i].start,
            end: diagnostics@[i].end,
        }),
{
    let s: usize = match diagnostic {
        Some(d) => d,
        None => match cursor {
            Some(c) => c,
            None => selection.unwrap(),
        },
    };
    let mut spans: Vec<Span> = Vec::new();
    let mut i: usize = 0;
    while i < diagnostics.len()
        invariant
            i <= diagnostics@.len(),
            spans@.len() == i,
            s == diagnostic_scope_spec(diagnostic, cursor, selection).unwrap(),
            forall|k: int| 0 <= k < i ==> #[trigger] spans@[k] == (Span { scope: s, start: diagnostics@[k].start, end: diagnostics@[k].end }),
        decreases diagnostics@.len() - i,
    {
        spans.push(Span { scope: s, start: diagnostics[i].start, end: diagnostics[i].end });
        i = i + 1;
    }
    spans
}

/// The diagnostics whose range holds `cursor`, each as its index and the
/// severity it is shown with, in order.
pub open spec fn at_cursor_spec(d: Seq<Diagnostic>, cursor: int) -> Seq<(usize, Severity)>
    decreases d.len(),
{
    if d.len() == 0 {
        seq![]
    } else {
        let rest = at_cursor_spec(d.drop_last(), cursor);
        let last = d.last();
        if last.start <= cursor && cursor <= last.end {
            rest.push(((d.len() - 1) as usize, shown_severity(last.severity)))
        } else {
            rest
        }
    }
}

/// See [`at_cursor_spec`]: the lines of the diagnostics panel.
pub fn diagnostics_at_cursor(diagnostics: &Vec<Diagnostic>, cursor: usize) -> (r: Vec<(usize, Severity)>)
    ensures
        r@ == at_cursor_spec(diagnostics@, cursor as int),
{
    let mut out: Vec<(usize, Severity)> = Vec::new();
    let mut i: usize = 0;
    while i < diagnostics.len()
        invariant
            i <= diagnostics@.len(),
            out@ == at_cursor_spec(diagnostics@.take(i as int), cursor as int),
        decreases diagnostics@.len() - i,
    {
        let d = &diagnostics[i];
        let ghost tk = diagnostics@.take(i as int + 1);
        assert(tk.drop_last() =~= diagnostics@.take(i as int));
        if d.start <= cursor && cursor <= d.end {
            let sev = match d.severity {
                Some(s) => s,
                None => Severity::Warning,
            };
            out.push((i, sev));
        }
        i = i + 1;
    }
    assert(diagnostics@.take(i as int) =~= diagnostics@);
    out
}

/// The warnings and the errors among the diagnostics; one without a
/// severity counts as an error.
pub open spec fn counts_spec(d: Seq<Diagnostic>) -> (int, int)
    decreases d.len(),
{
    if d.len() == 0 {
        (0, 0)
    } else {
        let (w, e) = counts_spec(d.drop_last());
        match d.last().severity {
            Some(Severity::Warning) => (w + 1, e),
            Some(Severity::Error) | None => (w, e + 1),
            _ => (w, e),
        }
    }
}

proof fn lemma_counts_bounded(d: Seq<Diagnostic>)
    ensures
        0 <= counts_spec(d).0 && 0 <= counts_spec(d).1,
        counts_spec(d).0 + counts_spec(d).1 <= d.len(),
    decreases d.len(),
{
    if d.len() > 0 {
        lemma_counts_bounded(d.drop_last());
    }
}

/// See [`counts_spec`].
pub fn severity_counts(diagnostics: &Vec<Diagnostic>) -> (r: (usize, usize))
    ensures
        r.0 == counts_spec(diagnostics@).0,
        r.1 == counts_spec(diagnostics@).1,
{
    let mut w: usize = 0;
    let mut e: usize = 0;
    let mut i: usize = 0;
    while i < diagnostics.len()
        invariant
            i <= diagnostics@.len(),
            w == counts_spec(diagnostics@.take(i as int)).0,
            e == counts_spec(diagnostics@.take(i as int)).1,
        decreases diagnostics@.len() - i,
    {
        let ghost tk = diagnostics@.take(i as int + 1);
        assert(tk.drop_last() =~= diagnostics@.take(i as int));
        proof { lemma_counts_bounded(tk); }
        match diagnostics[i].severity {
            Some(Severity::Warning) => {
                w = w + 1;
            },
            Some(Severity::Error) | None => {
                e = e + 1;
            },
            _ => {},
        }
        i = i + 1;
    }
    assert(diagnostics@.take(i as int) =~= diagnostics@);
    (w, e)
}

/// Where the diagnostics panel goes: the top right of the view, one row
/// down, at most 100 columns wide and 15 rows high.
pub fn diagnostics_area(viewport: Rect) -> (r: Rect)
    ensures
        r.width == min(100, viewport.width as int),
        r.height == min(15, viewport.height as int),
        r.x == viewport.right_spec() - r.width,
        r.y == crate::geometry::sat_add(viewport.y as int, 1),
{
    let width: u16 = if viewport.width <= 100 { viewport.width } else { 100 };
    let height: u16 = if viewport.height <= 15 { viewport.height } else { 15 };
    let right = viewport.right();
    Rect { x: right - width, y: viewport.y.saturating_add(1), width, height }
}

/// The largest `k` in `1..=j` with a space at `t[k]`, or 0 if none.
pub open spec fn last_space(t: Seq<char>, j: int) -> int
    decreases j,
{
    if j <= 0 {
        0
    } else if t[j] == ' ' {
        j
    } else {
        last_space(t, j - 1)
    }
}

/// Where a line longer than `width` is broken: at its last space that
/// leaves at most `width` characters before it, or after `width`
/// characters when a word is longer than the line.
pub open spec fn break_at(s: Seq<char>, width: int) -> int {
    let k = last_space(s, width);
    if 0 < k && k <= width { k } else { width }
}

/// One line of text wrapped at word boundaries into pieces of at most
/// `width` characters; spaces at the start of a piece are dropped.
pub open spec fn wrap_rest(s: Seq<char>, width: int) -> Seq<Seq<char>>
    decreases s.len(),
{
    if width <= 0 || s.len() == 0 {
        seq![]
    } else if s[0] == ' ' {
        wrap_rest(s.skip(1), width)
    } else if s.len() <= width {
        seq![s]
    } else {
        seq![s.take(break_at(s, width))] + wrap_rest(s.skip(break_at(s, width)), width)
    }
}

/// A line wrapped as [`wrap_rest`] says; a blank line still takes a row.
pub open spec fn wrap_line(s: Seq<char>, width: int) -> Seq<Seq<char>> {
    if wrap_rest(s, width).len() == 0 { seq![seq![]] } else { wrap_rest(s, width) }
}

/// The lines of `m` from the one starting at `start`, scanning from `i`:
/// the text between line feeds.
pub open spec fn lines_from(m: Seq<char>, start: int, i: int) -> Seq<Seq<char>>
    decreases m.len() - i,
{
    if i >= m.len() {
        seq![m.subrange(start, m.len() as int)]
    } else if m[i] == '\n' {
        seq![m.subrange(start, i)] + lines_from(m, i + 1, i + 1)
    } else {
        lines_from(m, start, i + 1)
    }
}

/// Each line wrapped, one after the other.
pub open spec fn wrapped(ls: Seq<Seq<char>>, width: int) -> Seq<Seq<char>>
    decreases ls.len(),
{
    if ls.len() == 0 {
        seq![]
    } else {
        wrap_line(ls[0], width) + wrapped(ls.skip(1), width)
    }
}

/// The rows a message takes in a panel `width` wide: its lines, each
/// wrapped at word boundaries.
pub open spec fn message_rows(m: Seq<char>, width: int) -> Seq<Seq<char>> {
    wrapped(lines_from(m, 0, 0), width)
}

/// The styles of the severities.
#[derive(Clone, Copy, Debug, PartialEq, Eq, Structural)]
pub struct SeverityStyles {
    pub error: Style,
    pub warning: Style,
    pub info: Style,
    pub hint: Style,
}

pub open spec fn style_of(s: Severity, st: SeverityStyles) -> Style {
    match s {
        Severity::Error => st.error,
        Severity::Warning => st.warning,
        Severity::Info => st.info,
        Severity::Hint => st.hint,
    }
}

/// Each piece with the same style.
pub open spec fn styled(cs: Seq<Seq<char>>, style: Style) -> Seq<(Seq<char>, Style)> {
    Seq::new(cs.len(), |i: int| (cs[i], style))
}

/// Lines as sequences.
pub open spec fn lines_view(s: Seq<(Vec<char>, Style)>) -> Seq<(Seq<char>, Style)> {
    Seq::new(s.len(), |i: int| (s[i].0@, s[i].1))
}

/// The lines of the diagnostics panel: the messages of the diagnostics at
/// the cursor, in order, each wrapped at `width`, in its severity's style.
pub open spec fn panel_lines(d: Seq<Diagnostic>, at: Seq<(usize, Severity)>, width: int, st: SeverityStyles) -> Seq<(Seq<char>, Style)>
    decreases at.len(),
{
    if at.len() == 0 {
        seq![]
    } else {
        let (i, sev) = at.last();
        panel_lines(d, at.drop_last(), width, st) + styled(message_rows(d[i as int].message@, width), style_of(sev, st))
    }
}

/// The panel's lines drawn from the `i`-th on, line `k` in row `y + k`,
/// flush with the column `right`, while rows remain.
pub open spec fn panel_spec(cells: Seq<CellView>, w: int, h: int, right: int, y: int, rows: int, lines: Seq<(Seq<char>, Style)>, i: int) -> Seq<CellView>
    decreases lines.len() - i,
{
    if i < 0 || i >= lines.len() || i >= rows {
        cells
    } else {
        panel_spec(text_spec(cells, w, h, right - lines[i].0.len(), y + i, lines[i].0, lines[i].1), w, h, right, y, rows, lines, i + 1)
    }
}

proof fn lemma_wrap_rest_short(s: Seq<char>, width: int)
    ensures
        forall|j: int| 0 <= j < wrap_rest(s, width).len() ==> (#[trigger] wrap_rest(s, width)[j]).len() <= width,
    decreases s.len(),
{
    if width > 0 && s.len() > 0 {
        if s[0] == ' ' {
            lemma_wrap_rest_short(s.skip(1), width);
            assert(wrap_rest(s, width) == wrap_rest(s.skip(1), width));
        } else if s.len() <= width {
            assert(wrap_rest(s, width) == seq![s]);
        } else {
            let c = break_at(s, width);
            lemma_wrap_rest_short(s.skip(c), width);
            let r = wrap_rest(s, width);
            let rest = wrap_rest(s.skip(c), width);
            assert(r == seq![s.take(c)] + rest);
            assert forall|j: int| 0 <= j < r.len() implies (#[trigger] r[j]).len() <= width by {
                if j == 0 {
                    assert(r[0] == s.take(c));
                } else {
                    assert(r[j] == rest[j - 1]);
                }
            }
        }
    }
}

proof fn lemma_wrapped_short(ls: Seq<Seq<char>>, width: int)
    requires
        width >= 0,
    ensures
        forall|j: int| 0 <= j < wrapped(ls, width).len() ==> (#[trigger] wrapped(ls, width)[j]).len() <= width,
    decreases ls.len(),
{
    if ls.len() > 0 {
        lemma_wrap_rest_short(ls[0], width);
        lemma_wrapped_short(ls.skip(1), width);
        let a = wrap_line(ls[0], width);
        let b = wrapped(ls.skip(1), width);
        assert forall|j: int| 0 <= j < wrapped(ls, width).len() implies (#[trigger] wrapped(ls, width)[j]).len() <= width by {
            if j < a.len() {
                assert(wrapped(ls, width)[j] == a[j]);
            } else {
                assert(wrapped(ls, width)[j] == b[j - a.len()]);
            }
        }
    }
}

proof fn lemma_panel_short(d: Seq<Diagnostic>, at: Seq<(usize, Severity)>, width: int, st: SeverityStyles)
    requires
        width >= 0,
    ensures
        forall|j: int| 0 <= j < panel_lines(d, at, width, st).len() ==> (#[trigger] panel_lines(d, at, width, st)[j]).0.len() <= width,
    decreases at.len(),
{
    if at.len() > 0 {
        let (i, sev) = at.last();
        lemma_panel_short(d, at.drop_last(), width, st);
        lemma_wrapped_short(lines_from(d[i as int].message@, 0, 0), width);
        let pre = panel_lines(d, at.drop_last(), width, st);
        let add = styled(message_rows(d[i as int].message@, width), style_of(sev, st));
        assert forall|j: int| 0 <= j < panel_lines(d, at, width, st).len() implies (#[trigger] panel_lines(d, at, width, st)[j]).0.len() <= width by {
            if j >= pre.len() {
                assert(panel_lines(d, at, width, st)[j] == add[j - pre.len()]);
            } else {
                assert(panel_lines(d, at, width, st)[j] == pre[j]);
            }
        }
    }
}

proof fn lemma_at_cursor_indices(d: Seq<Diagnostic>, cursor: int)
    ensures
        forall|k: int| 0 <= k < at_cursor_spec(d, cursor).len() ==> (#[trigger] at_cursor_spec(d, cursor)[k]).0 < d.len(),
    decreases d.len(),
{
    if d.len() > 0 {
        let pre = d.drop_last();
        lemma_at_cursor_indices(pre, cursor);
        let a = at_cursor_spec(d, cursor);
        let b = at_cursor_spec(pre, cursor);
        assert forall|k: int| 0 <= k < a.len() implies (#[trigger] a[k]).0 < d.len() by {
            if k < b.len() {
                assert(a[k] == b[k]);
            }
        }
    }
}

fn message_chars(m: &String) -> (r: Vec<char>)
    ensures
        r@ == m@,
{
    let s = m.as_str();
    let n = s.unicode_len();
    let mut v: Vec<char> = Vec::new();
    let mut i: usize = 0;
    while i < n
        invariant
            i <= n,
            n == s@.len(),
            s@ == m@,
            v@ == s@.take(i as int),
        decreases n - i,
    {
        v.push(s.get_char(i));
        assert(s@.take(i as int + 1) =~= s@.take(i as int).push(s@[i as int]));
        i = i + 1;
    }
    assert(s@.take(i as int) =~= s@);
    v
}

proof fn lemma_styled_append(a: Seq<Seq<char>>, b: Seq<Seq<char>>, style: Style)
    ensures
        styled(a + b, style) == styled(a, style) + styled(b, style),
{
    assert(styled(a + b, style) =~= styled(a, style) + styled(b, style));
}

fn copy_range(m: &Vec<char>, from: usize, to: usize) -> (r: Vec<char>)
    requires
        from <= to <= m@.len(),
    ensures
        r@ == m@.subrange(from as int, to as int),
{
    let mut v: Vec<char> = Vec::new();
    let mut k: usize = from;
    while k < to
        invariant
            from <= k <= to <= m@.len(),
            v@ == m@.subrange(from as int, k as int),
        decreases to - k,
    {
        v.push(m[k]);
        assert(m@.subrange(from as int, k as int + 1) =~= m@.subrange(from as int, k as int).push(m@[k as int]));
        k = k + 1;
    }
    v
}

/// Appends the rows of one wrapped line, in `style`.
fn wrap_line_into(out: &mut Vec<(Vec<char>, Style)>, line: &Vec<char>, width: usize, style: Style)
    ensures
        lines_view(final(out)@) == lines_view(old(out)@) + styled(wrap_line(line@, width as int), style),
{
    let ghost base = lines_view(out@);
    let ghost w = width as int;
    let n0 = out.len();
    let mut pos: usize = 0;
    assert(line@.skip(0) =~= line@);
    assert(base =~= base + styled(seq![], style));
    while pos < line.len() && width > 0
        invariant
            pos <= line@.len(),
            n0 == base.len(),
            w == width as int,
            lines_view(out@) + styled(wrap_rest(line@.skip(pos as int), w), style) == base + styled(wrap_rest(line@, w), style),
        decreases line@.len() - pos,
    {
        let ghost s = line@.skip(pos as int);
        let ghost before = lines_view(out@);
        assert(s.len() > 0 && s[0] == line@[pos as int]);
        if line[pos] == ' ' {
            assert(s.skip(1) =~= line@.skip(pos as int + 1));
            pos = pos + 1;
        } else if line.len() - pos <= width {
            let piece = copy_range(line, pos, line.len());
            assert(piece@ =~= s);
            out.push((piece, style));
            proof {
                assert(lines_view(out@) =~= before.push((s, style)));
                assert(line@.skip(line@.len() as int) =~= Seq::<char>::empty());
                assert(s.len() == line@.len() - pos);
                assert(wrap_rest(s, w) == seq![s]);
                assert(styled(wrap_rest(s, w), style) =~= seq![(s, style)]);
                assert(styled(wrap_rest(Seq::<char>::empty(), w), style) =~= Seq::<(Seq<char>, Style)>::empty());
                assert(lines_view(out@) + styled(wrap_rest(line@.skip(line@.len() as int), w), style) =~= lines_view(out@));
            }
            pos = line.len();
        } else {
            let mut j: usize = width;
            let n: usize = line.len();
            assert(pos + width < n);
            while j > 0 && line[pos + j] != ' '
                invariant
                    j <= width,
                    w == width as int,
                    n == line@.len(),
                    pos + width < n,
                    s == line@.skip(pos as int),
                    last_space(s, j as int) == last_space(s, w),
                decreases j,
            {
                assert(s[j as int] == line@[pos + j]);
                j = j - 1;
            }
            proof {
                if j > 0 {
                    assert(s[j as int] == line@[pos + j]);
                }
            }
            let c: usize = if j > 0 { j } else { width };
            assert(c == break_at(s, w));
            let piece = copy_range(line, pos, pos + c);
            assert(piece@ =~= s.take(c as int));
            out.push((piece, style));
            proof {
                assert(lines_view(out@) =~= before.push((s.take(c as int), style)));
                assert(s.skip(c as int) =~= line@.skip(pos + c));
                lemma_styled_append(seq![s.take(c as int)], wrap_rest(s.skip(c as int), w), style);
                assert(styled(seq![s.take(c as int)], style) =~= seq![(s.take(c as int), style)]);
                assert(lines_view(out@) + styled(wrap_rest(line@.skip(pos + c), w), style)
                    =~= before + styled(wrap_rest(s, w), style));
            }
            pos = pos + c;
        }
    }
    proof {
        assert(wrap_rest(line@.skip(pos as int), w) == Seq::<Seq<char>>::empty()) by {
            if width > 0 {
                assert(line@.skip(pos as int).len() == 0);
            }
        }
        assert(styled(Seq::<Seq<char>>::empty(), style) =~= Seq::<(Seq<char>, Style)>::empty());
        assert(lines_view(out@) =~= lines_view(out@) + Seq::<(Seq<char>, Style)>::empty());
    }
    if out.len() == n0 {
        let ghost before = lines_view(out@);
        out.push((Vec::new(), style));
        proof {
            assert(wrap_rest(line@, w).len() == 0);
            assert(lines_view(out@) =~= before + styled(seq![seq![]], style));
        }
    } else {
        proof {
            assert(wrap_rest(line@, w).len() != 0);
        }
    }
}

/// Appends the rows of a message: each of its lines wrapped, in `style`.
fn message_into(out: &mut Vec<(Vec<char>, Style)>, m: &Vec<char>, width: usize, style: Style)
    ensures
        lines_view(final(out)@) == lines_view(old(out)@) + styled(message_rows(m@, width as int), style),
{
    let ghost base = lines_view(out@);
    let ghost w = width as int;
    let mut start: usize = 0;
    let mut i: usize = 0;
    assert(base =~= base + styled(seq![], style));
    while i < m.len()
        invariant
            start <= i <= m@.len(),
            w == width as int,
            lines_view(out@) + styled(wrapped(lines_from(m@, start as int, i as int), w), style)
                == base + styled(wrapped(lines_from(m@, 0, 0), w), style),
        decreases m@.len() - i,
    {
        if m[i] == '\n' {
            let line = copy_range(m, start, i);
            let ghost before = lines_view(out@);
            let ghost ls = lines_from(m@, start as int, i as int);
            let ghost rest = lines_from(m@, i as int + 1, i as int + 1);
            assert(m@[i as int] == '\n');
            assert(line@ == m@.subrange(start as int, i as int));
            assert(ls == seq![line@] + rest);
            assert(ls[0] == line@);
            assert(ls.skip(1) =~= rest);
            wrap_line_into(out, &line, width, style);
            proof {
                assert(wrapped(ls, w) == wrap_line(line@, w) + wrapped(rest, w));
                lemma_styled_append(wrap_line(line@, w), wrapped(rest, w), style);
                assert(lines_view(out@) + styled(wrapped(rest, w), style)
                    =~= before + styled(wrapped(ls, w), style));
            }
            start = i + 1;
        } else {
            assert(lines_from(m@, start as int, i as int) == lines_from(m@, start as int, i as int + 1));
        }
        i = i + 1;
    }
    let line = copy_range(m, start, m.len());
    let ghost ls = lines_from(m@, start as int, i as int);
    assert(ls == seq![line@]);
    assert(ls[0] == line@);
    assert(ls.skip(1) =~= Seq::<Seq<char>>::empty());
    assert(wrapped(Seq::<Seq<char>>::empty(), w) == Seq::<Seq<char>>::empty());
    assert(wrapped(ls, w) == wrap_line(line@, w) + wrapped(ls.skip(1), w));
    assert(wrapped(ls, w) =~= wrap_line(line@, w));
    wrap_line_into(out, &line, width, style);
}

/// See [`panel_lines`].
pub fn diagnostic_lines(diagnostics: &Vec<Diagnostic>, cursor: usize, width: usize, st: SeverityStyles) -> (r: Vec<(Vec<char>, Style)>)
    ensures
        lines_view(r@) == panel_lines(diagnostics@, at_cursor_spec(diagnostics@, cursor as int), width as int, st),
{
    let at = diagnostics_at_cursor(diagnostics, cursor);
    proof { lemma_at_cursor_indices(diagnostics@, cursor as int); }
    let mut out: Vec<(Vec<char>, Style)> = Vec::new();
    let mut i: usize = 0;
    assert(lines_view(out@) =~= panel_lines(diagnostics@, at@.take(0), width as int, st));
    while i < at.len()
        invariant
            i <= at@.len(),
            at@ == at_cursor_spec(diagnostics@, cursor as int),
            forall|k: int| 0 <= k < at@.len() ==> (#[trigger] at@[k]).0 < diagnostics@.len(),
            lines_view(out@) == panel_lines(diagnostics@, at@.take(i as int), width as int, st),
        decreases at@.len() - i,
    {
        let (di, sev) = at[i];
        assert(at@[i as int].0 < diagnostics@.len());
        let style = match sev {
            Severity::Error => st.error,
            Severity::Warning => st.warning,
            Severity::Info => st.info,
            Severity::Hint => st.hint,
        };
        let m = message_chars(&diagnostics[di].message);
        message_into(&mut out, &m, width, style);
        proof {
            let tk = at@.take(i as int + 1);
            assert(tk.drop_last() =~= at@.take(i as int));
            assert(tk.last() == at@[i as int]);
        }
        i = i + 1;
    }
    assert(at@.take(i as int) =~= at@);
    out
}

/// Draws the messages of the diagnostics at the cursor in the panel's
/// area (see [`diagnostics_area`]), right-aligned, broken at line feeds
/// and wrapped at word boundaries to its width.
pub fn render_diagnostics(surface: &mut Surface, viewport: Rect, diagnostics: &Vec<Diagnostic>, cursor: usize, st: SeverityStyles)
    requires
        old(surface).wf(),
    ensures
        final(surface).wf(),
        final(surface).width == old(surface).width,
        final(surface).height == old(surface).height,
        ({
            let area = viewport_area(viewport);
            final(surface).view() == panel_spec(old(surface).view(), old(surface).w(), old(surface).h(),
                area.right_spec(), area.y as int, area.height as int,
                panel_lines(diagnostics@, at_cursor_spec(diagnostics@, cursor as int), area.width as int, st), 0)
        }),
{
    let area = diagnostics_area(viewport);
    let lines = diagnostic_lines(diagnostics, cursor, area.width as usize, st);
    let ghost lv = lines_view(lines@);
    proof { lemma_panel_short(diagnostics@, at_cursor_spec(diagnostics@, cursor as int), area.width as int, st); }
    let ghost c0 = surface.view();
    let right: usize = area.right() as usize;
    let mut i: usize = 0;
    while i < lines.len() && i < area.height as usize
        invariant
            i <= lines@.len(),
            surface.wf(),
            surface.width == old(surface).width,
            surface.height == old(surface).height,
            lv == lines_view(lines@),
            right == area.right_spec(),
            right >= area.width,
            forall|k: int| 0 <= k < lv.len() ==> (#[trigger] lv[k]).0.len() <= area.width,
            panel_spec(surface.view(), old(surface).w(), old(surface).h(), right as int, area.y as int, area.height as int, lv, i as int)
                == panel_spec(c0, old(surface).w(), old(surface).h(), right as int, area.y as int, area.height as int, lv, 0),
        decreases lines@.len() - i,
    {
        assert(lv[i as int] == (lines@[i as int].0@, lines@[i as int].1));
        let x: usize = right - lines[i].0.len();
        surface.put_text(x, area.y as usize + i, &lines[i].0, lines[i].1);
        i = i + 1;
    }
}

/// See [`diagnostics_area`].
pub open spec fn viewport_area(viewport: Rect) -> Rect {
    let width = min(100, viewport.width as int);
    Rect {
        x: (viewport.right_spec() - width) as u16,
        y: crate::geometry::sat_add(viewport.y as int, 1) as u16,
        width: width as u16,
        height: min(15, viewport.height as int) as u16,
    }
}

} // verus!
