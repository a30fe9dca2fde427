use vstd::prelude::*;
use crate::diagnostics::Severity;
use crate::geometry::Rect;
use crate::render::{CellView, Surface, sat_usize, text_spec};
use crate::statusline::{decimal, decimal_chars};
use crate::style::Style;

verus! {

/// A gutter column: markers for lines with diagnostics, or line numbers.
#[derive(Clone, Copy, Debug, PartialEq, Eq, Structural)]
pub enum GutterKind {
    Diagnostics,
    LineNumbers,
}

/// The styles the gutters use.
#[derive(Clone, Copy, Debug, PartialEq, Eq, Structural)]
pub struct GutterStyles {
    pub gutter: Style,
    pub warning: Style,
    pub error: Style,
    pub info: Style,
    pub hint: Style,
    pub line_number: Style,
    pub line_number_selected: Style,
}

pub open spec fn severity_style(s: Severity, st: GutterStyles) -> Style {
    match s {
        Severity::Error => st.error,
        Severity::Warning => st.warning,
        Severity::Info => st.info,
        Severity::Hint => st.hint,
    }
}

/// The severity of the first diagnostic on `line`, if any.
pub open spec fn first_on_line(d: Seq<(usize, Severity)>, line: usize, i: int) -> Option<Severity>
    decreases d.len() - i,
{
    if i < 0 || i >= d.len() {
        None
    } else if d[i].0 == line {
        Some(d[i].1)
    } else {
        first_on_line(d, line, i + 1)
    }
}

/// `s` padded with spaces on the left to `width` characters.
pub open spec fn pad_left(s: Seq<char>, width: int) -> Seq<char> {
    if s.len() >= width { s } else { Seq::new((width - s.len()) as nat, |i: int| ' ') + s }
}

/// What a gutter shows on a line, and in what style; `None` leaves the
/// gutter background. The diagnostics gutter marks a line that has a
/// diagnostic in its severity's color; the line number gutter shows the
/// 1-based number right-aligned in all but the last column, highlighted on
/// lines with a cursor.
pub open spec fn gutter_spec(kind: GutterKind, line: usize, selected: bool, width: int, diag_lines: Seq<(usize, Severity)>, st: GutterStyles) -> Option<(Seq<char>, Style)> {
    match kind {
        GutterKind::Diagnostics => match first_on_line(diag_lines, line, 0) {
            Some(s) => Some((seq!['●'], severity_style(s, st))),
            None => None,
        },
        GutterKind::LineNumbers => Some((
            pad_left(decimal((line + 1) as nat), width - 1),
            if selected { st.line_number_selected } else { st.line_number },
        )),
    }
}

/// See [`gutter_spec`].
pub fn gutter_cell(kind: GutterKind, line: usize, selected: bool, width: u16, diag_lines: &Vec<(usize, Severity)>, st: GutterStyles) -> (r: Option<(Vec<char>, Style)>)
    requires
        line < usize::MAX,
    ensures
        match r {
            Some((t, s)) => gutter_spec(kind, line, selected, width as int, diag_lines@, st) == Some((t@, s)),
            None => gutter_spec(kind, line, selected, width as int, diag_lines@, st).is_none(),
        },
{
    match kind {
        GutterKind::Diagnostics => {
            let mut i: usize = 0;
            while i < diag_lines.len()
                invariant
                    i <= diag_lines@.len(),
                    first_on_line(diag_lines@, line, i as int) == first_on_line(diag_lines@, line, 0),
                    kind == GutterKind::Diagnostics,
                decreases diag_lines@.len() - i,
            {
                if diag_lines[i].0 == line {
                    let s = diag_lines[i].1;
                    assert(first_on_line(diag_lines@, line, i as int) == Some(s));
                    let style = match s {
                        Severity::Error => st.error,
                        Severity::Warning => st.warning,
                        Severity::Info => st.info,
                        Severity::Hint => st.hint,
                    };
                    let mut t: Vec<char> = Vec::new();
                    t.push('●');
                    assert(t@ =~= seq!['●']);
                    return Some((t, style));
                }
                i = i + 1;
            }
            None
        },
        GutterKind::LineNumbers => {
            let digits = decimal_chars(line + 1);
            let target: usize = if width >= 1 { (width - 1) as usize } else { 0 };
            let mut t: Vec<char> = Vec::new();
            if digits.len() < target {
                let pad = target - digits.len();
                let mut k: usize = 0;
                while k < pad
                    invariant
                        k <= pad,
                        t@ == Seq::new(k as nat, |i: int| ' '),
                    decreases pad - k,
                {
                    t.push(' ');
                    assert(t@ =~= Seq::new((k + 1) as nat, |i: int| ' '));
                    k = k + 1;
                }
            }
            let ghost pre = t@;
            let mut k: usize = 0;
            while k < digits.len()
                invariant
                    k <= digits@.len(),
                    t@ == pre + digits@.take(k as int),
                decreases digits@.len() - k,
            {
                t.push(digits[k]);
                assert(digits@.take(k as int + 1) =~= digits@.take(k as int).push(digits@[k as int]));
                k = k + 1;
            }
            assert(digits@.take(k as int) =~= digits@);
            assert(t@ =~= pad_left(decimal((line + 1) as nat), width as int - 1));
            let style = if selected { st.line_number_selected } else { st.line_number };
            Some((t, style))
        },
    }
}

/// What a gutter shows on a line, cut to its width.
pub open spec fn shown_spec(t: Seq<char>, width: int) -> Seq<char> {
    if t.len() <= width { t } else { t.take(width) }
}

/// One gutter column drawn for the lines from `line` to `last`, the first
/// of them in row `y`, at column `x`.
pub open spec fn column_spec(
    cells: Seq<CellView>, w: int, h: int, x: int, y: int, line: int, last: int,
    cursor_lines: Seq<usize>, kind: GutterKind, width: u16, diag: Seq<(usize, Severity)>, st: GutterStyles,
) -> Seq<CellView>
    decreases last + 1 - line,
{
    if line > last || line < 0 {
        cells
    } else {
        let selected = cursor_lines.contains(line as usize);
        let c2 = match gutter_spec(kind, line as usize, selected, width as int, diag, st) {
            Some((t, style)) => text_spec(cells, w, h, x, y, shown_spec(t, width as int), st.gutter.patch_spec(style)),
            None => cells,
        };
        column_spec(c2, w, h, x, sat_usize(y + 1), line + 1, last, cursor_lines, kind, width, diag, st)
    }
}

/// The gutter columns from the `g`-th on, side by side from column `x`.
pub open spec fn gutters_spec(
    cells: Seq<CellView>, w: int, h: int, x: int, y: int, first: int, last: int, cursor_lines: Seq<usize>,
    gutters: Seq<(GutterKind, u16)>, g: int, diag: Seq<(usize, Severity)>, st: GutterStyles,
) -> Seq<CellView>
    decreases gutters.len() - g,
{
    if g < 0 || g >= gutters.len() {
        cells
    } else {
        let c2 = column_spec(cells, w, h, x, y, first, last, cursor_lines, gutters[g].0, gutters[g].1, diag, st);
        gutters_spec(c2, w, h, sat_usize(x + gutters[g].1), y, first, last, cursor_lines, gutters, g + 1, diag, st)
    }
}

/// Draws the gutters of the lines `first..=last` at the left of `viewport`,
/// side by side at their widths, one row per line; a line with a cursor
/// (in `cursor_lines`) is selected.
pub fn render_gutter(
    surface: &mut Surface,
    viewport: Rect,
    first: usize,
    last: usize,
    cursor_lines: &Vec<usize>,
    gutters: &Vec<(GutterKind, u16)>,
    diag_lines: &Vec<(usize, Severity)>,
    st: GutterStyles,
)
    requires
        old(surface).wf(),
        last < usize::MAX,
    ensures
        final(surface).wf(),
        final(surface).width == old(surface).width,
        final(surface).height == old(surface).height,
        final(surface).view() == gutters_spec(old(surface).view(), old(surface).w(), old(surface).h(), viewport.x as int,
            viewport.y as int, first as int, last as int, cursor_lines@, gutters@, 0, diag_lines@, st),
{
    let ghost w = surface.w();
    let ghost h = surface.h();
    let ghost c0 = surface.view();
    let mut offset: usize = viewport.x as usize;
    let mut g: usize = 0;
    while g < gutters.len()
        invariant
            g <= gutters@.len(),
            last < usize::MAX,
            surface.wf(),
            surface.width == old(surface).width,
            surface.height == old(surface).height,
            surface.w() == w,
            surface.h() == h,
            gutters_spec(surface.view(), w, h, offset as int, viewport.y as int, first as int, last as int, cursor_lines@, gutters@, g as int, diag_lines@, st)
                == gutters_spec(c0, w, h, viewport.x as int, viewport.y as int, first as int, last as int, cursor_lines@, gutters@, 0, diag_lines@, st),
        decreases gutters@.len() - g,
    {
        let (kind, width) = gutters[g];
        let ghost cg = surface.view();
        let mut line: usize = first;
        let mut y: usize = viewport.y as usize;
        while line <= last
            invariant
                line <= last + 1 || line == first,
                last < usize::MAX,
                surface.wf(),
                surface.width == old(surface).width,
                surface.height == old(surface).height,
                surface.w() == w,
                surface.h() == h,
                column_spec(surface.view(), w, h, offset as int, y as int, line as int, last as int, cursor_lines@, kind, width, diag_lines@, st)
                    == column_spec(cg, w, h, offset as int, viewport.y as int, first as int, last as int, cursor_lines@, kind, width, diag_lines@, st),
            decreases last + 1 - line,
        {
            let mut selected = false;
            let mut k: usize = 0;
            while k < cursor_lines.len()
                invariant
                    k <= cursor_lines@.len(),
                    selected == exists|j: int| 0 <= j < k && cursor_lines@[j] == line,
                decreases cursor_lines@.len() - k,
            {
                if cursor_lines[k] == line {
                    selected = true;
                }
                k = k + 1;
            }
            assert(selected == cursor_lines@.contains(line)) by {
                if selected {
                    let j = choose|j: int| 0 <= j < k && cursor_lines@[j] == line;
                    assert(cursor_lines@[j] == line);
                }
            }
            match gutter_cell(kind, line, selected, width, diag_lines, st) {
                Some((t, style)) => {
                    let mut shown: Vec<char> = Vec::new();
                    let mut j: usize = 0;
                    while j < t.len() && j < width as usize
                        invariant
                            j <= t@.len(),
                            j <= width,
                            shown@ == t@.take(j as int),
                        decreases t@.len() - j,
                    {
                        shown.push(t[j]);
                        assert(t@.take(j as int + 1) =~= t@.take(j as int).push(t@[j as int]));
                        j = j + 1;
                    }
                    assert(shown@ =~= shown_spec(t@, width as int));
                    surface.put_text(offset, y, &shown, st.gutter.patch(style));
                },
                None => {},
            }
            line = line + 1;
            y = y.saturating_add(1);
        }
        offset = offset.saturating_add(width as usize);
        g = g + 1;
    }
}

} // verus!
