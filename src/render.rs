use vstd::prelude::*;
use crate::geometry::{Position, Rect};
use crate::highlight::HighlightEvent;
use crate::style::{Style, Theme};
use crate::text::{Text, grapheme_width, grapheme_width_spec, is_line_ending};

verus! {

/// One cell of the terminal grid: what it shows and how. The cells that a
/// wide cluster covers after its first show nothing.
#[derive(Clone, Debug, PartialEq, Eq)]
pub struct Cell {
    pub symbol: Vec<char>,
    pub style: Style,
}

/// The terminal grid, row by row.
pub struct Surface {
    pub width: u16,
    pub height: u16,
    pub cells: Vec<Cell>,
}

/// What a cell shows, and its style.
pub type CellView = (Seq<char>, Style);

pub open spec fn cell_view(c: Cell) -> CellView {
    (c.symbol@, c.style)
}

/// `c` put at column `x` of row `y` of a `w`-wide, `h`-high grid, if it is there.
pub open spec fn put_spec(cells: Seq<CellView>, w: int, h: int, x: int, y: int, c: CellView) -> Seq<CellView> {
    if 0 <= x < w && 0 <= y < h {
        cells.update(y * w + x, c)
    } else {
        cells
    }
}

/// `c` put in the `n` cells of row `y` from column `x`, where they are on the grid.
pub open spec fn fill_spec(cells: Seq<CellView>, w: int, h: int, x: int, y: int, n: int, c: CellView) -> Seq<CellView>
    decreases n,
{
    if n <= 0 {
        cells
    } else {
        put_spec(fill_spec(cells, w, h, x, y, n - 1, c), w, h, x + n - 1, y, c)
    }
}

pub open spec fn space() -> Seq<char> {
    seq![' ']
}

pub open spec fn sat_usize(a: int) -> int {
    if a > usize::MAX { usize::MAX as int } else { a }
}

proof fn lemma_index_bound(w: int, h: int, x: int, y: int)
    requires
        0 <= x < w,
        0 <= y < h,
    ensures
        0 <= y * w + x < w * h,
{
    assert(y * w + x < w * h) by (nonlinear_arith)
        requires 0 <= x < w, 0 <= y < h;
    assert(0 <= y * w) by (nonlinear_arith)
        requires 0 <= y, 0 <= w;
}

proof fn lemma_index_rows(w: int, x1: int, y1: int, x2: int, y2: int)
    requires
        0 <= x1 < w,
        0 <= x2 < w,
        y1 != y2,
        0 <= y1,
        0 <= y2,
    ensures
        y1 * w + x1 != y2 * w + x2,
{
    if y1 < y2 {
        assert(y1 * w + w <= y2 * w) by (nonlinear_arith)
            requires y1 < y2, 0 <= w;
    } else {
        assert(y2 * w + w <= y1 * w) by (nonlinear_arith)
            requires y2 < y1, 0 <= w;
    }
}

proof fn lemma_fill_other_rows(cells: Seq<CellView>, w: int, h: int, x: int, y: int, n: int, c: CellView, x2: int, y2: int)
    requires
        0 <= x2 < w,
        0 <= y2 < h,
        y2 != y,
        cells.len() == w * h,
    ensures
        fill_spec(cells, w, h, x, y, n, c).len() == cells.len(),
        fill_spec(cells, w, h, x, y, n, c)[y2 * w + x2] == cells[y2 * w + x2],
    decreases n,
{
    lemma_index_bound(w, h, x2, y2);
    if n > 0 {
        lemma_fill_other_rows(cells, w, h, x, y, n - 1, c, x2, y2);
        let xx = x + n - 1;
        if 0 <= xx < w && 0 <= y < h {
            lemma_index_rows(w, xx, y, x2, y2);
            lemma_index_bound(w, h, xx, y);
        }
    }
}

proof fn lemma_fill_off_grid(cells: Seq<CellView>, w: int, h: int, x: int, y: int, n: int, c: CellView)
    requires
        y >= h,
    ensures
        fill_spec(cells, w, h, x, y, n, c) == cells,
    decreases n,
{
    if n > 0 {
        lemma_fill_off_grid(cells, w, h, x, y, n - 1, c);
    }
}

/// The characters of `t` put one per cell in row `y` from column `x`,
/// where they are on the grid.
pub open spec fn text_spec(cells: Seq<CellView>, w: int, h: int, x: int, y: int, t: Seq<char>, style: Style) -> Seq<CellView>
    decreases t.len(),
{
    if t.len() == 0 {
        cells
    } else {
        put_spec(text_spec(cells, w, h, x, y, t.drop_last(), style), w, h, x + t.len() - 1, y, (seq![t.last()], style))
    }
}

impl Surface {
    pub open spec fn wf(&self) -> bool {
        self.cells@.len() == self.width as int * self.height as int
    }

    pub open spec fn view(&self) -> Seq<CellView> {
        self.cells@.map_values(|c: Cell| cell_view(c))
    }

    pub open spec fn w(&self) -> int {
        self.width as int
    }

    pub open spec fn h(&self) -> int {
        self.height as int
    }

    /// A grid of blank cells in `style`.
    pub fn new(width: u16, height: u16, style: Style) -> (r: Surface)
        ensures
            r.wf(),
            r.width == width,
            r.height == height,
            forall|i: int| 0 <= i < r.view().len() ==> #[trigger] r.view()[i] == (space(), style),
    {
        assert((width as int) * (height as int) <= 0xFFFF * 0xFFFF) by (nonlinear_arith)
            requires width <= 0xFFFF, height <= 0xFFFF, 0 <= width, 0 <= height;
        let total: usize = (width as usize) * (height as usize);
        let mut cells: Vec<Cell> = Vec::new();
        let mut i: usize = 0;
        while i < total
            invariant
                i <= total,
                cells@.len() == i,
                forall|k: int| 0 <= k < i ==> #[trigger] cell_view(cells@[k]) == (space(), style),
            decreases total - i,
        {
            let mut sym: Vec<char> = Vec::new();
            sym.push(' ');
            assert(sym@ =~= space());
            cells.push(Cell { symbol: sym, style });
            i = i + 1;
        }
        Surface { width, height, cells }
    }

    /// The cell at column `x` of row `y`.
    pub fn get(&self, x: u16, y: u16) -> (r: &Cell)
        requires
            self.wf(),
            x < self.width,
            y < self.height,
        ensures
            cell_view(*r) == self.view()[y as int * self.w() + x as int],
    {
        proof { lemma_index_bound(self.w(), self.h(), x as int, y as int); }
        let n: usize = self.cells.len();
        assert(y as int * self.w() <= y as int * self.w() + x as int);
        let i: usize = (y as usize) * (self.width as usize) + (x as usize);
        &self.cells[i]
    }

    /// Puts a cell at column `x` of row `y`, if that is on the grid.
    pub fn put(&mut self, x: usize, y: usize, symbol: Vec<char>, style: Style)
        requires
            old(self).wf(),
        ensures
            final(self).wf(),
            final(self).width == old(self).width,
            final(self).height == old(self).height,
            final(self).view() == put_spec(old(self).view(), old(self).w(), old(self).h(), x as int, y as int, (symbol@, style)),
    {
        if x < self.width as usize && y < self.height as usize {
            proof { lemma_index_bound(self.w(), self.h(), x as int, y as int); }
            let n: usize = self.cells.len();
            assert(y as int * self.w() <= y as int * self.w() + x as int);
            let i: usize = y * (self.width as usize) + x;
            let ghost before = self.cells@;
            let sym = symbol;
            self.cells.set(i, Cell { symbol: sym, style });
            assert(self.view() =~= before.map_values(|c: Cell| cell_view(c)).update(i as int, (symbol@, style)));
        }
    }

    /// Puts the characters of `t` one per cell in row `y` from column `x`,
    /// where they are on the grid.
    pub fn put_text(&mut self, x: usize, y: usize, t: &Vec<char>, style: Style)
        requires
            old(self).wf(),
        ensures
            final(self).wf(),
            final(self).width == old(self).width,
            final(self).height == old(self).height,
            final(self).view() == text_spec(old(self).view(), old(self).w(), old(self).h(), x as int, y as int, t@, style),
    {
        let mut k: usize = 0;
        while k < t.len()
            invariant
                k <= t@.len(),
                self.wf(),
                self.width == old(self).width,
                self.height == old(self).height,
                self.view() == text_spec(old(self).view(), old(self).w(), old(self).h(), x as int, y as int, t@.take(k as int), style),
            decreases t@.len() - k,
        {
            let ghost tk = t@.take(k as int + 1);
            assert(tk.drop_last() =~= t@.take(k as int));
            let mut sym: Vec<char> = Vec::new();
            sym.push(t[k]);
            assert(sym@ =~= seq![tk.last()]);
            if x < usize::MAX - k {
                self.put(x + k, y, sym, style);
            } else {
                assert(x as int + k as int >= self.w());
            }
            k = k + 1;
        }
        assert(t@.take(k as int) =~= t@);
    }

    /// Puts `n` copies of a cell in row `y` from column `x`, where they are on the grid.
    pub fn fill(&mut self, x: usize, y: usize, n: usize, symbol: &Vec<char>, style: Style)
        requires
            old(self).wf(),
        ensures
            final(self).wf(),
            final(self).width == old(self).width,
            final(self).height == old(self).height,
            final(self).view() == fill_spec(old(self).view(), old(self).w(), old(self).h(), x as int, y as int, n as int, (symbol@, style)),
    {
        let mut k: usize = 0;
        while k < n
            invariant
                k <= n,
                self.wf(),
                self.width == old(self).width,
                self.height == old(self).height,
                self.view() == fill_spec(old(self).view(), old(self).w(), old(self).h(), x as int, y as int, k as int, (symbol@, style)),
            decreases n - k,
        {
            if x < usize::MAX - k {
                self.put(x + k, y, symbol.clone(), style);
            } else {
                assert(x as int + k as int >= self.w());
            }
            k = k + 1;
        }
    }
}

/// The columns that a cluster takes: `tab_width` for a tab.
pub open spec fn cluster_width(g: Seq<char>, tab_width: int) -> int {
    if g == seq!['\t'] { tab_width } else { grapheme_width_spec(g) as int }
}

/// A cluster drawn at visual column `vx` of visual line `line` is on
/// screen when `vx` lies in `[offset_col, offset_col + viewport.width)`.
pub open spec fn on_screen(vx: int, offset_col: int, viewport: Rect) -> bool {
    offset_col <= vx < offset_col + viewport.width
}

/// The grid after drawing cluster `g` (not a line ending) at visual column
/// `vx` of visual line `line`: nothing when it is off screen; a tab as
/// `tab_width` blanks; any other cluster in its first cell, the rest of its
/// width left empty.
pub open spec fn draw_spec(
    cells: Seq<CellView>, w: int, h: int, g: Seq<char>, style: Style, vx: int, line: int,
    offset_col: int, viewport: Rect, tab_width: int,
) -> Seq<CellView> {
    let col = viewport.x + vx - offset_col;
    let row = viewport.y + line;
    if !on_screen(vx, offset_col, viewport) {
        cells
    } else if g == seq!['\t'] {
        fill_spec(cells, w, h, col, row, tab_width, (space(), style))
    } else {
        fill_spec(put_spec(cells, w, h, col, row, (g, style)), w, h, col + 1, row, grapheme_width_spec(g) - 1, (seq![], style))
    }
}

/// A tab takes exactly `tab_width` columns, filled with blanks when on
/// screen; a cluster off screen writes no cell, though the column still
/// moves past it.
pub proof fn lemma_tab_and_clipping(
    cells: Seq<CellView>, w: int, h: int, g: Seq<char>, style: Style, vx: int, line: int,
    offset_col: int, viewport: Rect, tab_width: int,
)
    ensures
        cluster_width(seq!['\t'], tab_width) == tab_width,
        on_screen(vx, offset_col, viewport) ==> draw_spec(cells, w, h, seq!['\t'], style, vx, line, offset_col, viewport, tab_width)
            == fill_spec(cells, w, h, viewport.x + vx - offset_col, viewport.y + line, tab_width, (space(), style)),
        !on_screen(vx, offset_col, viewport) ==> draw_spec(cells, w, h, g, style, vx, line, offset_col, viewport, tab_width) == cells,
{
}

/// Draws one cluster that is not a line ending and returns the visual
/// column after it, which moves by the cluster's width whether or not it
/// was on screen.
pub fn draw_grapheme(
    surface: &mut Surface, g: &Vec<char>, style: Style, vx: usize, line: usize,
    offset_col: usize, viewport: Rect, tab_width: usize,
) -> (r: usize)
    requires
        old(surface).wf(),
    ensures
        final(surface).wf(),
        final(surface).width == old(surface).width,
        final(surface).height == old(surface).height,
        r == sat_usize(vx + cluster_width(g@, tab_width as int)),
        final(surface).view() == draw_spec(old(surface).view(), old(surface).w(), old(surface).h(), g@, style,
            vx as int, line as int, offset_col as int, viewport, tab_width as int),
{
    let is_tab = g.len() == 1 && g[0] == '\t';
    assert(is_tab == (g@ == seq!['\t'])) by {
        if g@ == seq!['\t'] {
            assert(g@[0] == '\t');
        }
        if is_tab {
            assert(g@ =~= seq!['\t']);
        }
    }
    let width: usize = if is_tab { tab_width } else { grapheme_width(g) };
    let visible = vx >= offset_col && vx - offset_col < viewport.width as usize;
    if visible {
        let col: usize = viewport.x as usize + (vx - offset_col);
        if line <= usize::MAX - viewport.y as usize {
            let row: usize = viewport.y as usize + line;
            if is_tab {
                let mut sym: Vec<char> = Vec::new();
                sym.push(' ');
                assert(sym@ =~= space());
                surface.fill(col, row, tab_width, &sym, style);
            } else {
                surface.put(col, row, g.clone(), style);
                let empty: Vec<char> = Vec::new();
                assert(empty@ =~= seq![]);
                surface.fill(col + 1, row, width - 1, &empty, style);
            }
        } else {
            proof {
                let old_view = surface.view();
                let row = viewport.y + line;
                lemma_fill_off_grid(old_view, surface.w(), surface.h(), col as int, row, tab_width as int, (space(), style));
                lemma_fill_off_grid(old_view, surface.w(), surface.h(), col + 1, row, grapheme_width_spec(g@) - 1, (seq![], style));
            }
        }
    }
    vx.saturating_add(width)
}

/// The cell at column `x` of row `y` of a `w`-wide grid.
pub open spec fn cell_of(cells: Seq<CellView>, w: int, x: int, y: int) -> CellView {
    cells[y * w + x]
}

/// Every row of the grid outside the viewport's rows is as it was.
pub open spec fn rows_kept(before: Seq<CellView>, after: Seq<CellView>, w: int, h: int, viewport: Rect) -> bool {
    &&& after.len() == before.len()
    &&& forall|x: int, y: int|
        0 <= x < w && 0 <= y < h && (y < viewport.y || y >= viewport.y + viewport.height)
            ==> #[trigger] cell_of(after, w, x, y) == cell_of(before, w, x, y)
}

proof fn lemma_put_other_rows(cells: Seq<CellView>, w: int, h: int, x: int, y: int, c: CellView, x2: int, y2: int)
    requires
        0 <= x2 < w,
        0 <= y2 < h,
        y2 != y,
        cells.len() == w * h,
    ensures
        put_spec(cells, w, h, x, y, c).len() == cells.len(),
        put_spec(cells, w, h, x, y, c)[y2 * w + x2] == cells[y2 * w + x2],
{
    lemma_index_bound(w, h, x2, y2);
    if 0 <= x < w && 0 <= y < h {
        lemma_index_rows(w, x, y, x2, y2);
        lemma_index_bound(w, h, x, y);
    }
}

/// The line a cluster is drawn on is the only one it changes.
proof fn lemma_draw_other_rows(
    cells: Seq<CellView>, w: int, h: int, g: Seq<char>, style: Style, vx: int, line: int,
    offset_col: int, viewport: Rect, tab_width: int, x2: int, y2: int,
)
    requires
        0 <= x2 < w,
        0 <= y2 < h,
        y2 != viewport.y + line,
        cells.len() == w * h,
    ensures
        draw_spec(cells, w, h, g, style, vx, line, offset_col, viewport, tab_width).len() == cells.len(),
        draw_spec(cells, w, h, g, style, vx, line, offset_col, viewport, tab_width)[y2 * w + x2] == cells[y2 * w + x2],
{
    let col = viewport.x + vx - offset_col;
    let row = viewport.y + line;
    lemma_fill_other_rows(cells, w, h, col, row, tab_width, (space(), style), x2, y2);
    lemma_put_other_rows(cells, w, h, col, row, (g, style), x2, y2);
    let p = put_spec(cells, w, h, col, row, (g, style));
    lemma_fill_other_rows(p, w, h, col + 1, row, grapheme_width_spec(g) - 1, (seq![], style), x2, y2);
}

/// Draws one cluster at visual column `vx` of visual line `line` and
/// returns the position after it. A line ending paints one blank cell,
/// when on screen, and moves to the start of the next line; any other
/// cluster is drawn as [`draw_grapheme`] says.
pub fn draw_cluster(
    surface: &mut Surface, g: &Vec<char>, style: Style, vx: usize, line: usize,
    offset_col: usize, viewport: Rect, tab_width: usize,
) -> (r: (usize, usize))
    requires
        old(surface).wf(),
        line < usize::MAX,
    ensures
        final(surface).wf(),
        final(surface).width == old(surface).width,
        final(surface).height == old(surface).height,
        crate::text::is_line_ending_spec(g@) ==> r == (0usize, (line + 1) as usize) && final(surface).view() == (
            if on_screen(vx as int, offset_col as int, viewport) {
                put_spec(old(surface).view(), old(surface).w(), old(surface).h(), viewport.x + vx - offset_col,
                    viewport.y + line, (space(), style))
            } else {
                old(surface).view()
            }),
        !crate::text::is_line_ending_spec(g@) ==> r.1 == line && r.0 == sat_usize(vx + cluster_width(g@, tab_width as int))
            && final(surface).view() == draw_spec(old(surface).view(), old(surface).w(), old(surface).h(), g@, style,
                vx as int, line as int, offset_col as int, viewport, tab_width as int),
        forall|x2: int, y2: int| 0 <= x2 < old(surface).w() && 0 <= y2 < old(surface).h() && y2 != viewport.y + line
            ==> #[trigger] cell_of(final(surface).view(), old(surface).w(), x2, y2) == cell_of(old(surface).view(), old(surface).w(), x2, y2),
{
    let ghost before = surface.view();
    let ghost w = surface.w();
    let ghost h = surface.h();
    if is_line_ending(g) {
        let visible = vx >= offset_col && vx - offset_col < viewport.width as usize;
        if visible && line <= usize::MAX - viewport.y as usize {
            let mut sym: Vec<char> = Vec::new();
            sym.push(' ');
            assert(sym@ =~= space());
            surface.put(viewport.x as usize + (vx - offset_col), viewport.y as usize + line, sym, style);
        }
        assert forall|x2: int, y2: int| 0 <= x2 < w && 0 <= y2 < h && y2 != viewport.y + line
            implies #[trigger] cell_of(surface.view(), w, x2, y2) == cell_of(before, w, x2, y2) by {
            lemma_put_other_rows(before, w, h, viewport.x + vx - offset_col, viewport.y + line, (space(), style), x2, y2);
        }
        (0, line + 1)
    } else {
        let nx = draw_grapheme(surface, g, style, vx, line, offset_col, viewport, tab_width);
        assert forall|x2: int, y2: int| 0 <= x2 < w && 0 <= y2 < h && y2 != viewport.y + line
            implies #[trigger] cell_of(surface.view(), w, x2, y2) == cell_of(before, w, x2, y2) by {
            lemma_draw_other_rows(before, w, h, g@, style, vx as int, line as int, offset_col as int, viewport,
                tab_width as int, x2, y2);
        }
        (nx, line)
    }
}

/// Where and how text is drawn: the viewport, the horizontal scroll, the
/// tab width and the style under all scopes.
#[derive(Clone, Copy, Debug, PartialEq, Eq, Structural)]
pub struct TextLayout {
    pub viewport: Rect,
    pub offset_col: usize,
    pub tab_width: usize,
    pub text_style: Style,
}

/// The drawing state: the grid, the visual column and line, and the open scopes.
pub type RenderState = (Seq<CellView>, int, int, Seq<usize>);

/// The state after drawing one cluster in `style`; see [`draw_cluster`].
pub open spec fn cluster_step(st: RenderState, g: Seq<char>, style: Style, w: int, h: int, l: TextLayout) -> RenderState {
    let (cells, vx, line, stack) = st;
    if crate::text::is_line_ending_spec(g) {
        let c2 = if on_screen(vx, l.offset_col as int, l.viewport) {
            put_spec(cells, w, h, l.viewport.x + vx - l.offset_col, l.viewport.y + line, (space(), style))
        } else {
            cells
        };
        (c2, 0, line + 1, stack)
    } else {
        (draw_spec(cells, w, h, g, style, vx, line, l.offset_col as int, l.viewport, l.tab_width as int),
            sat_usize(vx + cluster_width(g, l.tab_width as int)), line, stack)
    }
}

/// The state after drawing the clusters of `text` from `pos` up to `end`
/// in `style`, stopping once the viewport's lines are used up; a cluster
/// that runs past `end` is cut there.
pub open spec fn run_spec(st: RenderState, text: Text, pos: int, end: int, style: Style, w: int, h: int, l: TextLayout) -> RenderState
    decreases end - pos,
{
    if pos >= end || st.2 >= l.viewport.height {
        st
    } else {
        let nb0 = text.next_boundary_spec(pos);
        let nb = if nb0 <= end { nb0 } else { end };
        if nb <= pos {
            st
        } else {
            run_spec(cluster_step(st, text.chars@.subrange(pos, nb), style, w, h, l), text, nb, end, style, w, h, l)
        }
    }
}

/// The state after one event: a scope opens or closes, or a run is drawn
/// in the style of the open scopes (a run outside the text as one blank).
/// Nothing happens once the viewport's lines are used up.
pub open spec fn event_step(st: RenderState, e: HighlightEvent, text: Text, theme: Theme, w: int, h: int, l: TextLayout) -> RenderState {
    if st.2 >= l.viewport.height {
        st
    } else {
        match e {
            HighlightEvent::HighlightStart(s) => (st.0, st.1, st.2, st.3.push(s)),
            HighlightEvent::HighlightEnd => (st.0, st.1, st.2, if st.3.len() > 0 { st.3.drop_last() } else { st.3 }),
            HighlightEvent::Source { start, end } => {
                let style = theme.stack_style_spec(l.text_style, st.3);
                if start <= end && end <= text.len_spec() {
                    run_spec(st, text, start as int, end as int, style, w, h, l)
                } else {
                    cluster_step(st, seq![' '], style, w, h, l)
                }
            },
        }
    }
}

/// The state after a stream of events.
pub open spec fn render_spec(init: RenderState, events: Seq<HighlightEvent>, text: Text, theme: Theme, w: int, h: int, l: TextLayout) -> RenderState
    decreases events.len(),
{
    if events.len() == 0 {
        init
    } else {
        event_step(render_spec(init, events.drop_last(), text, theme, w, h, l), events.last(), text, theme, w, h, l)
    }
}

/// Paints a highlight stream over `text` into the viewport, scrolled
/// horizontally by `offset_col`: each cluster of each run in the style of
/// the open scopes laid over the text style, tabs as `tab_width` blanks, a
/// blank cell at each line end. A run past the end of the text is drawn as
/// one blank. Drawing stops once the viewport's lines are used up; the
/// result is the number of lines finished, and no row outside the
/// viewport's rows changes.
pub fn render_text_highlights(
    text: &Text,
    layout: TextLayout,
    surface: &mut Surface,
    theme: &Theme,
    events: &Vec<HighlightEvent>,
) -> (lines: usize)
    requires
        text.wf(),
        old(surface).wf(),
    ensures
        final(surface).wf(),
        final(surface).width == old(surface).width,
        final(surface).height == old(surface).height,
        ({
            let fin = render_spec((old(surface).view(), 0, 0, seq![]), events@, *text, *theme,
                old(surface).w(), old(surface).h(), layout);
            final(surface).view() == fin.0 && lines == fin.2
        }),
        lines <= layout.viewport.height,
        rows_kept(old(surface).view(), final(surface).view(), old(surface).w(), old(surface).h(), layout.viewport),
{
    let ghost before = surface.view();
    let ghost w = surface.w();
    let ghost h = surface.h();
    let ghost init: RenderState = (before, 0, 0, seq![]);
    let viewport = layout.viewport;
    let mut stack: Vec<usize> = Vec::new();
    let mut vx: usize = 0;
    let mut line: usize = 0;
    let mut e: usize = 0;
    while e < events.len()
        invariant
            e <= events@.len(),
            text.wf(),
            surface.wf(),
            surface.w() == w,
            surface.h() == h,
            before.len() == w * h,
            viewport == layout.viewport,
            line <= viewport.height,
            (surface.view(), vx as int, line as int, stack@) == render_spec(init, events@.take(e as int), *text, *theme, w, h, layout),
            rows_kept(before, surface.view(), w, h, viewport),
        decreases events@.len() - e,
    {
        let ghost st0: RenderState = (surface.view(), vx as int, line as int, stack@);
        let ghost tk = events@.take(e as int + 1);
        assert(tk.drop_last() =~= events@.take(e as int));
        assert(tk.last() == events@[e as int]);
        if line < viewport.height as usize {
            match events[e] {
                HighlightEvent::HighlightStart(s) => {
                    stack.push(s);
                },
                HighlightEvent::HighlightEnd => {
                    if stack.len() > 0 {
                        stack.pop();
                    }
                },
                HighlightEvent::Source { start, end } => {
                    let style = theme.stack_style(layout.text_style, &stack);
                    let len = text.len_chars();
                    if start <= end && end <= len {
                        let mut pos: usize = start;
                        while pos < end && line < viewport.height as usize
                            invariant
                                text.wf(),
                                surface.wf(),
                                surface.w() == w,
                                surface.h() == h,
                                before.len() == w * h,
                                viewport == layout.viewport,
                                end <= text.chars@.len(),
                                start <= pos,
                                line <= viewport.height,
                                stack@ == st0.3,
                                run_spec((surface.view(), vx as int, line as int, stack@), *text, pos as int, end as int, style, w, h, layout)
                                    == run_spec(st0, *text, start as int, end as int, style, w, h, layout),
                                rows_kept(before, surface.view(), w, h, viewport),
                            decreases end - pos,
                        {
                            let nb0 = text.next_grapheme_boundary(pos);
                            let nb = if nb0 <= end { nb0 } else { end };
                            let mut g: Vec<char> = Vec::new();
                            let mut k: usize = pos;
                            while k < nb
                                invariant
                                    pos <= k <= nb,
                                    nb <= text.chars@.len(),
                                    g@ == text.chars@.subrange(pos as int, k as int),
                                decreases nb - k,
                            {
                                g.push(text.chars[k]);
                                assert(text.chars@.subrange(pos as int, k as int + 1) =~= text.chars@.subrange(pos as int, k as int).push(text.chars@[k as int]));
                                k = k + 1;
                            }
                            let ghost mid = surface.view();
                            let (nx, nl) = draw_cluster(surface, &g, style, vx, line, layout.offset_col, viewport, layout.tab_width);
                            assert(rows_kept(before, surface.view(), w, h, viewport)) by {
                                assert forall|x: int, y: int|
                                    0 <= x < w && 0 <= y < h && (y < viewport.y || y >= viewport.y + viewport.height)
                                    implies #[trigger] cell_of(surface.view(), w, x, y) == cell_of(before, w, x, y) by {
                                    assert(cell_of(surface.view(), w, x, y) == cell_of(mid, w, x, y));
                                }
                            }
                            vx = nx;
                            line = nl;
                            pos = nb;
                        }
                    } else {
                        let mut g: Vec<char> = Vec::new();
                        g.push(' ');
                        assert(g@ =~= seq![' ']);
                        let ghost mid = surface.view();
                        let (nx, nl) = draw_cluster(surface, &g, style, vx, line, layout.offset_col, viewport, layout.tab_width);
                        assert(rows_kept(before, surface.view(), w, h, viewport)) by {
                            assert forall|x: int, y: int|
                                0 <= x < w && 0 <= y < h && (y < viewport.y || y >= viewport.y + viewport.height)
                                implies #[trigger] cell_of(surface.view(), w, x, y) == cell_of(before, w, x, y) by {
                                assert(cell_of(surface.view(), w, x, y) == cell_of(mid, w, x, y));
                            }
                        }
                        vx = nx;
                        line = nl;
                    }
                },
            }
        }
        e = e + 1;
    }
    assert(events@.take(e as int) =~= events@);
    line
}

} // verus!
