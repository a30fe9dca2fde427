use vstd::prelude::*;
use crate::highlight::Span;
use crate::text::Text;

verus! {

/// The editing mode of a document.
#[derive(Clone, Copy, Debug, PartialEq, Eq, Structural)]
pub enum Mode {
    Normal,
    Insert,
    Select,
}

/// How a cursor is drawn.
#[derive(Clone, Copy, Debug, PartialEq, Eq, Structural)]
pub enum CursorKind {
    Block,
    Bar,
    Underline,
    Hidden,
}

/// The cursor kind to use in each mode.
#[derive(Clone, Copy, Debug, PartialEq, Eq, Structural)]
pub struct CursorShapeConfig {
    pub normal: CursorKind,
    pub insert: CursorKind,
    pub select: CursorKind,
}

impl CursorShapeConfig {
    pub open spec fn from_mode_spec(self, mode: Mode) -> CursorKind {
        match mode {
            Mode::Normal => self.normal,
            Mode::Insert => self.insert,
            Mode::Select => self.select,
        }
    }

    pub fn from_mode(&self, mode: Mode) -> (r: CursorKind)
        ensures
            r == self.from_mode_spec(mode),
    {
        match mode {
            Mode::Normal => self.normal,
            Mode::Insert => self.insert,
            Mode::Select => self.select,
        }
    }
}

/// A selected range: it stays at `anchor` and moves with `head`.
#[derive(Clone, Copy, Debug, PartialEq, Eq, Structural)]
pub struct SelRange {
    pub anchor: usize,
    pub head: usize,
}

/// The scope ids used to draw cursors and selections.
#[derive(Clone, Copy, Debug, PartialEq, Eq, Structural)]
pub struct SelectionScopes {
    pub cursor: usize,
    pub selection: usize,
    pub primary_cursor: usize,
    pub primary_selection: usize,
}

/// The theme's optional cursor and selection scopes, as found by name.
#[derive(Clone, Copy, Debug, PartialEq, Eq, Structural)]
pub struct ThemeScopes {
    pub selection: usize,
    pub cursor: Option<usize>,
    pub cursor_insert: Option<usize>,
    pub cursor_select: Option<usize>,
    pub cursor_primary: Option<usize>,
    pub selection_primary: Option<usize>,
}

pub open spec fn or_else(o: Option<usize>, d: usize) -> usize {
    match o {
        Some(v) => v,
        None => d,
    }
}

fn unwrap_or(o: Option<usize>, d: usize) -> (r: usize)
    ensures
        r == or_else(o, d),
{
    match o {
        Some(v) => v,
        None => d,
    }
}

/// The scopes for a mode with their fallbacks: the cursor scope falls
/// back to the selection scope, a mode's own cursor scope to the cursor
/// scope, and the primary scopes to the ordinary ones.
pub open spec fn resolve_scopes_spec(t: ThemeScopes, mode: Mode) -> SelectionScopes {
    let base_cursor = or_else(t.cursor, t.selection);
    let cursor = match mode {
        Mode::Insert => or_else(t.cursor_insert, base_cursor),
        Mode::Select => or_else(t.cursor_select, base_cursor),
        Mode::Normal => base_cursor,
    };
    SelectionScopes {
        cursor,
        selection: t.selection,
        primary_cursor: or_else(t.cursor_primary, cursor),
        primary_selection: or_else(t.selection_primary, t.selection),
    }
}

/// See [`resolve_scopes_spec`].
pub fn resolve_scopes(t: &ThemeScopes, mode: Mode) -> (r: SelectionScopes)
    ensures
        r == resolve_scopes_spec(*t, mode),
{
    let base_cursor = unwrap_or(t.cursor, t.selection);
    let cursor = match mode {
        Mode::Insert => unwrap_or(t.cursor_insert, base_cursor),
        Mode::Select => unwrap_or(t.cursor_select, base_cursor),
        Mode::Normal => base_cursor,
    };
    SelectionScopes {
        cursor,
        selection: t.selection,
        primary_cursor: unwrap_or(t.cursor_primary, cursor),
        primary_selection: unwrap_or(t.selection_primary, t.selection),
    }
}

/// The spans that draw one range. A point at the very end of the text is
/// one cursor cell past it. Otherwise a point is widened to its cluster;
/// a forward range is its selection then a cursor on the cluster before
/// the head, and a backward range a cursor on the cluster at the head then
/// the selection. The primary cursor is only drawn here when it is a block
/// (the terminal draws the others).
pub open spec fn range_spans(t: Text, r: SelRange, primary: bool, block: bool, sc: SelectionScopes) -> Seq<Span> {
    let cs = if primary { sc.primary_cursor } else { sc.cursor };
    let ss = if primary { sc.primary_selection } else { sc.selection };
    let show = !primary || block;
    if r.head == r.anchor && r.head == t.len_spec() {
        if show { seq![Span { scope: cs, start: r.head, end: (r.head + 1) as usize }] } else { seq![] }
    } else {
        let head = if r.anchor == r.head { t.next_boundary_spec(r.head as int) as usize } else { r.head };
        if head > r.anchor {
            let cstart = t.prev_boundary_spec(head as int) as usize;
            seq![Span { scope: ss, start: r.anchor, end: cstart }]
                + if show { seq![Span { scope: cs, start: cstart, end: head }] } else { seq![] }
        } else {
            let cend = t.next_boundary_spec(head as int) as usize;
            (if show { seq![Span { scope: cs, start: head, end: cend }] } else { seq![] })
                + seq![Span { scope: ss, start: cend, end: r.anchor }]
        }
    }
}

/// The spans of all ranges, in order.
pub open spec fn selection_spans(t: Text, ranges: Seq<SelRange>, primary: int, block: bool, sc: SelectionScopes) -> Seq<Span>
    decreases ranges.len(),
{
    if ranges.len() == 0 {
        seq![]
    } else {
        selection_spans(t, ranges.drop_last(), primary, block, sc)
            + range_spans(t, ranges.last(), ranges.len() - 1 == primary, block, sc)
    }
}

/// A point at the end of the text gives exactly one cursor span of
/// length one, and none for the primary point unless cursors are blocks.
pub proof fn lemma_end_of_text_cursor(t: Text, r: SelRange, primary: bool, block: bool, sc: SelectionScopes)
    requires
        r.head == r.anchor,
        r.head == t.len_spec(),
        r.head < usize::MAX,
    ensures
        (!primary || block) ==> range_spans(t, r, primary, block, sc).len() == 1
            && range_spans(t, r, primary, block, sc)[0].start == r.head
            && range_spans(t, r, primary, block, sc)[0].end == r.head + 1
            && range_spans(t, r, primary, block, sc)[0].scope == (if primary { sc.primary_cursor } else { sc.cursor }),
        (primary && !block) ==> range_spans(t, r, primary, block, sc).len() == 0,
{
}

/// The spans that draw a document's selection in a mode: selections and
/// cursors, primary or not, with the scopes `sc`.
pub fn doc_selection_highlights(
    text: &Text,
    ranges: &Vec<SelRange>,
    primary_index: usize,
    mode: Mode,
    shapes: &CursorShapeConfig,
    sc: &SelectionScopes,
) -> (r: Vec<Span>)
    requires
        text.wf(),
        text.chars@.len() < usize::MAX,
    ensures
        r@ == selection_spans(*text, ranges@, primary_index as int, shapes.from_mode_spec(mode) == CursorKind::Block, *sc),
{
    let block = match shapes.from_mode(mode) {
        CursorKind::Block => true,
        _ => false,
    };
    let len = text.len_chars();
    let mut out: Vec<Span> = Vec::new();
    let mut i: usize = 0;
    while i < ranges.len()
        invariant
            i <= ranges@.len(),
            text.wf(),
            len == text.chars@.len(),
            len < usize::MAX,
            block == (shapes.from_mode_spec(mode) == CursorKind::Block),
            out@ == selection_spans(*text, ranges@.take(i as int), primary_index as int, block, *sc),
        decreases ranges@.len() - i,
    {
        let r = ranges[i];
        let primary = i == primary_index;
        let (cs, ss) = if primary { (sc.primary_cursor, sc.primary_selection) } else { (sc.cursor, sc.selection) };
        let show = !primary || block;
        let ghost before = out@;
        if r.head == r.anchor && r.head == len {
            if show {
                out.push(Span { scope: cs, start: r.head, end: r.head + 1 });
            }
        } else {
            let head = if r.anchor == r.head { text.next_grapheme_boundary(r.head) } else { r.head };
            if head > r.anchor {
                let cstart = text.prev_grapheme_boundary(head);
                out.push(Span { scope: ss, start: r.anchor, end: cstart });
                if show {
                    out.push(Span { scope: cs, start: cstart, end: head });
                }
            } else {
                let cend = text.next_grapheme_boundary(head);
                if show {
                    out.push(Span { scope: cs, start: head, end: cend });
                }
                out.push(Span { scope: ss, start: cend, end: r.anchor });
            }
        }
        proof {
            let tk = ranges@.take(i as int + 1);
            assert(tk.drop_last() =~= ranges@.take(i as int));
            assert(tk.last() == r);
            assert(out@ =~= before + range_spans(*text, r, primary, block, *sc));
        }
        i = i + 1;
    }
    assert(ranges@.take(i as int) =~= ranges@);
    out
}

} // verus!
