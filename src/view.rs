use vstd::prelude::*;
use crate::geometry::{Position, Rect};
use crate::highlight::{Span, merge_highlights, merged, spans_ordered, spans_wf, views_of};
use crate::render::{Surface, TextLayout, put_spec, render_spec, render_text_highlights, text_spec};
use crate::input::{KeyEvent, pending_display_spec, pending_keys_display};
use crate::geometry::sat_sub;
use crate::selection::CursorKind;
use crate::style::{Style, Theme};
use crate::text::Text;

verus! {

/// Where the terminal is to draw its cursor: nowhere for a block cursor,
/// since block cursors are drawn into the grid with the text.
pub fn cursor(pos: Option<Position>, kind: CursorKind) -> (r: (Option<Position>, CursorKind))
    ensures
        kind == CursorKind::Block ==> r == (pos, CursorKind::Hidden),
        kind != CursorKind::Block ==> r == (pos, kind),
{
    match kind {
        CursorKind::Block => (pos, CursorKind::Hidden),
        _ => (pos, kind),
    }
}

/// Marks the bracket matching the one at the cursor, at screen position
/// `matched` within `viewport`, by restyling its cell; nothing when there
/// is no match or it is outside the viewport.
pub fn render_focused_view_elements(surface: &mut Surface, viewport: Rect, matched: Option<Position>, style: Style)
    requires
        old(surface).wf(),
    ensures
        final(surface).wf(),
        final(surface).width == old(surface).width,
        final(surface).height == old(surface).height,
        (matched matches Some(p) && p.col < viewport.width && p.row < viewport.height) ==> ({
            let p = matched.unwrap();
            let x = viewport.x + p.col;
            let y = viewport.y + p.row;
            final(surface).view() == if 0 <= x < old(surface).w() && 0 <= y < old(surface).h() {
                put_spec(old(surface).view(), old(surface).w(), old(surface).h(), x, y,
                    (old(surface).view()[y * old(surface).w() + x].0, style))
            } else {
                old(surface).view()
            }
        }),
        !(matched matches Some(p) && p.col < viewport.width && p.row < viewport.height) ==> final(surface).view() == old(surface).view(),
{
    match matched {
        Some(p) => {
            if p.col < viewport.width as usize && p.row < viewport.height as usize {
                let x: usize = viewport.x as usize + p.col;
                let y: usize = viewport.y as usize + p.row;
                if x < surface.width as usize && y < surface.height as usize {
                    let sym = surface.get(x as u16, y as u16).symbol.clone();
                    surface.put(x, y, sym, style);
                }
            }
        },
        None => {},
    }
}

/// The end of the range `[lo, hi)`, empty when `hi` comes first.
pub open spec fn range_end(lo: usize, hi: usize) -> int {
    if lo <= hi { hi as int } else { lo as int }
}

pub open spec fn opt_view(o: Option<Vec<Span>>) -> Option<Seq<Span>> {
    match o {
        Some(v) => Some(v@),
        None => None,
    }
}

/// The sources that are in order, in the order syntax, diagnostics, selection.
pub open spec fn kept_sources(syntax: Seq<Span>, diagnostics: Seq<Span>, selection: Option<Seq<Span>>) -> Seq<Seq<Span>> {
    let a: Seq<Seq<Span>> = if spans_wf(syntax) { seq![syntax] } else { seq![] };
    let b: Seq<Seq<Span>> = if spans_wf(diagnostics) { seq![diagnostics] } else { seq![] };
    let c: Seq<Seq<Span>> = match selection {
        Some(s) => if spans_wf(s) { seq![s] } else { seq![] },
        None => seq![],
    };
    a + b + c
}

/// Paints a view's text: merges the syntax, diagnostic and (for the
/// focused view) selection spans over the char range `[lo, hi)` and draws
/// the result as `layout` says. A source whose spans are out of order is
/// left out. Returns the number of lines finished.
pub fn render_view(
    surface: &mut Surface,
    text: &Text,
    layout: TextLayout,
    theme: &Theme,
    lo: usize,
    hi: usize,
    syntax: Vec<Span>,
    diagnostics: Vec<Span>,
    selection: Option<Vec<Span>>,
) -> (lines: usize)
    requires
        old(surface).wf(),
        text.wf(),
    ensures
        final(surface).wf(),
        final(surface).width == old(surface).width,
        final(surface).height == old(surface).height,
        lines <= layout.viewport.height,
        exists|ev: Seq<crate::highlight::HighlightEvent>| {
            let fin = render_spec((old(surface).view(), 0, 0, seq![]), ev, *text, *theme, old(surface).w(), old(surface).h(), layout);
            &&& #[trigger] merged(kept_sources(syntax@, diagnostics@, opt_view(selection)),
                ev, lo as int, range_end(lo, hi))
            &&& final(surface).view() == fin.0
            &&& lines == fin.2
        },
{
    let ghost syntax_v = syntax@;
    let ghost diagnostics_v = diagnostics@;
    let ghost sel_v = opt_view(selection);
    let ghost ks = kept_sources(syntax@, diagnostics@, opt_view(selection));
    let mut sources: Vec<Vec<Span>> = Vec::new();
    if spans_ordered(&syntax) {
        sources.push(syntax);
    }
    if spans_ordered(&diagnostics) {
        sources.push(diagnostics);
    }
    match selection {
        Some(sel) => {
            if spans_ordered(&sel) {
                sources.push(sel);
            }
        },
        None => {},
    }
    let hi2 = if lo <= hi { hi } else { lo };
    assert(views_of(sources@) =~= ks);
    let events = merge_highlights(&sources, lo, hi2);
    let lines = render_text_highlights(text, layout, surface, theme, &events);
    assert(merged(kept_sources(syntax_v, diagnostics_v, sel_v), events@, lo as int, range_end(lo, hi)));
    lines
}

/// Columns kept for the pending keys in the corner of the screen.
pub const KEY_WIDTH: u16 = 15;

/// The styles of the bottom line.
#[derive(Clone, Copy, Debug, PartialEq, Eq, Structural)]
pub struct BottomStyles {
    pub text: Style,
    pub error: Style,
    pub recording: Style,
}

/// The bottom line of the screen drawn over `cells`: the status message
/// at its left, in the error style for an error; and, where the message's
/// display width leaves more than the pending keys' columns, the count and pending keys
/// right-aligned before the "[r]" of a macro being recorded into register r.
pub open spec fn bottom_line_spec(
    cells: Seq<crate::render::CellView>, w: int, h: int, area: Rect, message: Option<(Seq<char>, bool)>,
    count: Option<usize>, pending: Seq<KeyEvent>, recording: Option<char>, st: BottomStyles,
) -> Seq<crate::render::CellView> {
    let y = area.y + sat_sub(area.height as int, 1);
    let (c1, msg_width) = match message {
        Some((m, is_error)) => (text_spec(cells, w, h, area.x as int, y, m, if is_error { st.error } else { st.text }),
            crate::text::str_width_of(m) as int),
        None => (cells, 0),
    };
    if sat_sub(area.width as int, msg_width) > KEY_WIDTH {
        let macro_width: int = if recording.is_some() { 3 } else { 0 };
        let disp = pending_display_spec(count, pending, KEY_WIDTH as int);
        let c2 = text_spec(c1, w, h, area.x + sat_sub(area.width as int, KEY_WIDTH + macro_width), y, disp, st.text);
        match recording {
            Some(r) => text_spec(c2, w, h, area.x + sat_sub(area.width as int, 3), y, seq!['[', r, ']'], st.recording),
            None => c2,
        }
    } else {
        c1
    }
}

/// See [`bottom_line_spec`].
pub fn render_bottom_line(
    surface: &mut Surface,
    area: Rect,
    message: Option<(Vec<char>, bool)>,
    count: Option<usize>,
    pending: &Vec<KeyEvent>,
    recording: Option<char>,
    st: BottomStyles,
)
    requires
        old(surface).wf(),
    ensures
        final(surface).wf(),
        final(surface).width == old(surface).width,
        final(surface).height == old(surface).height,
        final(surface).view() == bottom_line_spec(old(surface).view(), old(surface).w(), old(surface).h(), area,
            match message { Some((m, e)) => Some((m@, e)), None => None }, count, pending@, recording, st),
{
    let y: usize = area.y as usize + area.height.saturating_sub(1) as usize;
    let x: usize = area.x as usize;
    let mut msg_width: usize = 0;
    match &message {
        Some((m, is_error)) => {
            let style = if *is_error { st.error } else { st.text };
            surface.put_text(x, y, m, style);
            msg_width = crate::text::str_width(m);
        },
        None => {},
    }
    let left: usize = if (area.width as usize) >= msg_width { area.width as usize - msg_width } else { 0 };
    if left > KEY_WIDTH as usize {
        let macro_width: usize = match recording {
            Some(_) => 3,
            None => 0,
        };
        let disp = pending_keys_display(count, pending, KEY_WIDTH as usize);
        let start: usize = x + (area.width as usize).saturating_sub(KEY_WIDTH as usize + macro_width);
        surface.put_text(start, y, &disp, st.text);
        match recording {
            Some(r) => {
                let mut tag: Vec<char> = Vec::new();
                tag.push('[');
                tag.push(r);
                tag.push(']');
                assert(tag@ =~= seq!['[', r, ']']);
                surface.put_text(x + (area.width as usize).saturating_sub(3), y, &tag, st.recording);
            },
            None => {},
        }
    }
}

/// The column right of the view drawn as a vertical border, in every row
/// of the view, unless the view reaches the right edge of the screen.
pub open spec fn border_spec(cells: Seq<crate::render::CellView>, w: int, h: int, screen: Rect, area: Rect, style: Style, n: int) -> Seq<crate::render::CellView>
    decreases n,
{
    if screen.right_spec() == area.right_spec() || n <= 0 {
        cells
    } else {
        put_spec(border_spec(cells, w, h, screen, area, style, n - 1), w, h, area.right_spec(), area.y + n - 1, (seq!['│'], style))
    }
}

/// See [`border_spec`]: draws the border of a view with area `area` on a
/// screen `screen`.
pub fn render_border(surface: &mut Surface, screen: Rect, area: Rect, style: Style)
    requires
        old(surface).wf(),
    ensures
        final(surface).wf(),
        final(surface).width == old(surface).width,
        final(surface).height == old(surface).height,
        final(surface).view() == border_spec(old(surface).view(), old(surface).w(), old(surface).h(), screen, area, style, area.height as int),
{
    if screen.right() == area.right() {
        return;
    }
    let x: usize = area.right() as usize;
    let mut i: u16 = 0;
    while i < area.height
        invariant
            i <= area.height,
            screen.right_spec() != area.right_spec(),
            x == area.right_spec(),
            surface.wf(),
            surface.width == old(surface).width,
            surface.height == old(surface).height,
            surface.view() == border_spec(old(surface).view(), old(surface).w(), old(surface).h(), screen, area, style, i as int),
        decreases area.height - i,
    {
        let mut sym: Vec<char> = Vec::new();
        sym.push('│');
        assert(sym@ =~= seq!['│']);
        surface.put(x, area.y as usize + i as usize, sym, style);
        i = i + 1;
    }
}

} // verus!
