use vstd::prelude::*;
use crate::selection::Mode;
use crate::style::Style;
use crate::geometry::Rect;
use crate::render::{CellView, Surface, fill_spec, space, sat_usize, text_spec};

verus! {

pub open spec fn digits() -> Seq<char> {
    seq!['0', '1', '2', '3', '4', '5', '6', '7', '8', '9']
}

/// The decimal digits of `n`, most significant first.
pub open spec fn decimal(n: nat) -> Seq<char>
    decreases n,
{
    if n < 10 {
        seq![digits()[n as int]]
    } else {
        decimal(n / 10).push(digits()[(n % 10) as int])
    }
}

fn digit_char(d: usize) -> (r: char)
    requires
        d < 10,
    ensures
        r == digits()[d as int],
{
    if d == 0 { '0' } else if d == 1 { '1' } else if d == 2 { '2' } else if d == 3 { '3' } else if d == 4 { '4' }
    else if d == 5 { '5' } else if d == 6 { '6' } else if d == 7 { '7' } else if d == 8 { '8' } else { '9' }
}

/// See [`decimal`].
pub fn decimal_chars(n: usize) -> (r: Vec<char>)
    ensures
        r@ == decimal(n as nat),
    decreases n,
{
    if n < 10 {
        let mut v: Vec<char> = Vec::new();
        v.push(digit_char(n));
        assert(v@ =~= seq![digits()[n as int]]);
        v
    } else {
        let mut v = decimal_chars(n / 10);
        v.push(digit_char(n % 10));
        v
    }
}

/// The mode's abbreviation.
pub open spec fn mode_name_spec(m: Mode) -> Seq<char> {
    match m {
        Mode::Insert => seq!['I', 'N', 'S'],
        Mode::Select => seq!['S', 'E', 'L'],
        Mode::Normal => seq!['N', 'O', 'R'],
    }
}

/// See [`mode_name_spec`].
pub fn mode_name(m: Mode) -> (r: Vec<char>)
    ensures
        r@ == mode_name_spec(m),
{
    let v: Vec<char> = match m {
        Mode::Insert => vec!['I', 'N', 'S'],
        Mode::Select => vec!['S', 'E', 'L'],
        Mode::Normal => vec!['N', 'O', 'R'],
    };
    assert(v@ =~= mode_name_spec(m));
    v
}

/// A piece of styled statusline text.
pub struct StyledText {
    pub text: Vec<char>,
    pub style: Style,
}

pub open spec fn styled_view(t: StyledText) -> (Seq<char>, Style) {
    (t.text@, t.style)
}

/// What the right side of the statusline tells.
#[derive(Clone, Copy, Debug, PartialEq, Eq, Structural)]
pub struct StatusCounts {
    pub warnings: usize,
    pub errors: usize,
    pub selections: usize,
    /// Zero-based line of the primary cursor.
    pub row: usize,
    /// Zero-based column of the primary cursor.
    pub col: usize,
}

pub open spec fn space_around(s: Seq<char>) -> Seq<char> {
    seq![' '] + s + seq![' ']
}

/// The right side of the statusline: a marker and count for warnings
/// and for errors (left out when zero), the selection count with
/// "sel"/"sels", the cursor's 1-based line and column, and the encoding's
/// name unless the text is UTF-8 (`encoding` is then `None`).
pub open spec fn right_side_spec(c: StatusCounts, encoding: Option<Seq<char>>, base: Style, warning: Style, error: Style) -> Seq<(Seq<char>, Style)> {
    let w = if c.warnings == 0 { seq![] } else {
        seq![(seq!['●'], base.patch_spec(warning)), (space_around(decimal(c.warnings as nat)), base)]
    };
    let e = if c.errors == 0 { seq![] } else {
        seq![(seq!['●'], base.patch_spec(error)), (space_around(decimal(c.errors as nat)), base)]
    };
    let sels = (seq![' '] + decimal(c.selections as nat) + seq![' ', 's', 'e', 'l'] + (if c.selections == 1 { seq![] } else { seq!['s'] }) + seq![' '], base);
    let pos = (seq![' '] + decimal((c.row + 1) as nat) + seq![':'] + decimal((c.col + 1) as nat) + seq![' '], base);
    let enc = match encoding {
        Some(name) => seq![(space_around(name), base)],
        None => seq![],
    };
    w + e + seq![sels, pos] + enc
}

fn around(s: &Vec<char>) -> (r: Vec<char>)
    ensures
        r@ == space_around(s@),
{
    let mut v: Vec<char> = Vec::new();
    v.push(' ');
    let mut i: usize = 0;
    while i < s.len()
        invariant
            i <= s@.len(),
            v@ == seq![' '] + s@.take(i as int),
        decreases s@.len() - i,
    {
        v.push(s[i]);
        assert(s@.take(i as int + 1) =~= s@.take(i as int).push(s@[i as int]));
        i = i + 1;
    }
    v.push(' ');
    assert(s@.take(i as int) =~= s@);
    assert(v@ =~= space_around(s@));
    v
}

fn one(c: char) -> (r: Vec<char>)
    ensures
        r@ == seq![c],
{
    let mut v: Vec<char> = Vec::new();
    v.push(c);
    assert(v@ =~= seq![c]);
    v
}

fn append(v: &mut Vec<char>, s: &Vec<char>)
    ensures
        final(v)@ == old(v)@ + s@,
{
    let mut i: usize = 0;
    while i < s.len()
        invariant
            i <= s@.len(),
            v@ == old(v)@ + s@.take(i as int),
        decreases s@.len() - i,
    {
        v.push(s[i]);
        assert(s@.take(i as int + 1) =~= s@.take(i as int).push(s@[i as int]));
        i = i + 1;
    }
    assert(s@.take(i as int) =~= s@);
}

/// See [`right_side_spec`].
pub fn statusline_right(c: StatusCounts, encoding: Option<Vec<char>>, base: Style, warning: Style, error: Style) -> (r: Vec<StyledText>)
    requires
        c.row < usize::MAX,
        c.col < usize::MAX,
    ensures
        r@.map_values(|t: StyledText| styled_view(t)) == right_side_spec(c, match encoding {
            Some(e) => Some(e@),
            None => None,
        }, base, warning, error),
{
    let ghost enc = match &encoding {
        Some(e) => Some(e@),
        None => None,
    };
    let mut out: Vec<StyledText> = Vec::new();
    if c.warnings > 0 {
        out.push(StyledText { text: one('●'), style: base.patch(warning) });
        out.push(StyledText { text: around(&decimal_chars(c.warnings)), style: base });
    }
    let ghost after_w = out@.map_values(|t: StyledText| styled_view(t));
    if c.errors > 0 {
        out.push(StyledText { text: one('●'), style: base.patch(error) });
        out.push(StyledText { text: around(&decimal_chars(c.errors)), style: base });
    }
    let ghost after_e = out@.map_values(|t: StyledText| styled_view(t));
    let mut sels: Vec<char> = one(' ');
    append(&mut sels, &decimal_chars(c.selections));
    sels.push(' ');
    sels.push('s');
    sels.push('e');
    sels.push('l');
    if c.selections != 1 {
        sels.push('s');
    }
    sels.push(' ');
    let ghost d = decimal(c.selections as nat);
    assert(sels@ =~= seq![' '] + d + seq![' ', 's', 'e', 'l'] + (if c.selections == 1 { seq![] } else { seq!['s'] }) + seq![' ']);
    let ghost sels_v = sels@;
    out.push(StyledText { text: sels, style: base });
    let mut pos: Vec<char> = one(' ');
    append(&mut pos, &decimal_chars(c.row + 1));
    pos.push(':');
    append(&mut pos, &decimal_chars(c.col + 1));
    pos.push(' ');
    assert(pos@ =~= seq![' '] + decimal((c.row + 1) as nat) + seq![':'] + decimal((c.col + 1) as nat) + seq![' ']);
    let ghost pos_v = pos@;
    out.push(StyledText { text: pos, style: base });
    let ghost after_p = out@.map_values(|t: StyledText| styled_view(t));
    assert(after_p =~= after_e + seq![(sels_v, base), (pos_v, base)]);
    match &encoding {
        Some(e) => {
            out.push(StyledText { text: around(e), style: base });
        },
        None => {},
    }
    proof {
        let w = if c.warnings == 0 { seq![] } else {
            seq![(seq!['●'], base.patch_spec(warning)), (space_around(decimal(c.warnings as nat)), base)]
        };
        let e = if c.errors == 0 { seq![] } else {
            seq![(seq!['●'], base.patch_spec(error)), (space_around(decimal(c.errors as nat)), base)]
        };
        assert(after_w =~= w);
        assert(after_e =~= w + e);
        assert(out@.map_values(|t: StyledText| styled_view(t)) =~= right_side_spec(c, enc, base, warning, error));
    }
    out
}

/// The title of the statusline: the document's path, or "[scratch]"
/// without one, and "[+]" when it has unsaved changes.
pub open spec fn title_spec(path: Option<Seq<char>>, modified: bool) -> Seq<char> {
    (match path {
        Some(p) => p,
        None => seq!['[', 's', 'c', 'r', 'a', 't', 'c', 'h', ']'],
    }) + if modified { seq!['[', '+', ']'] } else { seq![] }
}

/// See [`title_spec`].
pub fn statusline_title(path: Option<Vec<char>>, modified: bool) -> (r: Vec<char>)
    ensures
        r@ == title_spec(match path {
            Some(p) => Some(p@),
            None => None,
        }, modified),
{
    let mut t: Vec<char> = match path {
        Some(p) => p,
        None => {
            let mut v = one('[');
            v.push('s');
            v.push('c');
            v.push('r');
            v.push('a');
            v.push('t');
            v.push('c');
            v.push('h');
            v.push(']');
            assert(v@ =~= seq!['[', 's', 'c', 'r', 'a', 't', 'c', 'h', ']']);
            v
        },
    };
    let ghost base = t@;
    if modified {
        t.push('[');
        t.push('+');
        t.push(']');
        assert(t@ =~= base + seq!['[', '+', ']']);
    } else {
        assert(t@ =~= base + seq![]);
    }
    t
}

/// The total length of the pieces, saturating at the largest `usize`.
pub open spec fn pieces_width(p: Seq<(Seq<char>, Style)>) -> int
    decreases p.len(),
{
    if p.len() == 0 { 0 } else { sat_usize(pieces_width(p.drop_last()) + p.last().0.len()) }
}

/// The pieces from the `i`-th on written one after the other in row `y`
/// from column `x`.
pub open spec fn pieces_from(cells: Seq<CellView>, w: int, h: int, x: int, y: int, p: Seq<(Seq<char>, Style)>, i: int) -> Seq<CellView>
    decreases p.len() - i,
{
    if i < 0 || i >= p.len() {
        cells
    } else {
        pieces_from(text_spec(cells, w, h, x, y, p[i].0, p[i].1), w, h, sat_usize(x + p[i].0.len()), y, p, i + 1)
    }
}

/// The statusline drawn over `cells`: the row blanked in the base style,
/// the mode's abbreviation from the second column when focused, the
/// progress text from the sixth, the right side ending at the right edge,
/// and the title from the ninth column, cut to the room left.
pub open spec fn statusline_spec(
    cells: Seq<CellView>, w: int, h: int, viewport: Rect, focused: bool, mode: Mode, progress: Seq<char>,
    right: Seq<(Seq<char>, Style)>, title: Seq<char>, base: Style,
) -> Seq<CellView> {
    let x = viewport.x as int;
    let y = viewport.y as int;
    let c1 = fill_spec(cells, w, h, x, y, viewport.width as int, (space(), base));
    let c2 = if focused { text_spec(c1, w, h, x + 1, y, mode_name_spec(mode), base) } else { c1 };
    let c3 = text_spec(c2, w, h, x + 5, y, progress, base);
    let rw = pieces_width(right);
    let c4 = pieces_from(c3, w, h, x + crate::geometry::sat_sub(viewport.width as int, rw), y, right, 0);
    text_spec(c4, w, h, x + 8, y, truncate_spec(title, title_room_spec(viewport.width as int, rw)), base)
}

/// The columns left for the title: the width less the six columns of the
/// mode and progress, less the right side and one space before it.
pub open spec fn title_room_spec(width: int, right_width: int) -> int {
    crate::geometry::sat_sub(crate::geometry::sat_sub(width, 6), right_width + 1)
}

/// See [`title_room_spec`].
pub fn title_room(width: u16, right_width: usize) -> (r: usize)
    ensures
        r == title_room_spec(width as int, right_width as int),
{
    let w: usize = width.saturating_sub(6) as usize;
    if right_width < w { w - right_width - 1 } else { 0 }
}

/// The title cut to its last `room` characters, the first of them
/// replaced by "…" when anything was cut: the end of a path says most.
pub open spec fn truncate_spec(t: Seq<char>, room: int) -> Seq<char> {
    if t.len() <= room {
        t
    } else if room <= 0 {
        seq![]
    } else {
        seq!['…'] + t.skip(t.len() - room + 1)
    }
}

/// See [`truncate_spec`].
pub fn truncate_title(t: &Vec<char>, room: usize) -> (r: Vec<char>)
    ensures
        r@ == truncate_spec(t@, room as int),
{
    if t.len() <= room {
        let mut v: Vec<char> = Vec::new();
        append(&mut v, t);
        assert(v@ =~= t@);
        v
    } else if room == 0 {
        let v: Vec<char> = Vec::new();
        assert(v@ =~= seq![]);
        v
    } else {
        let mut v: Vec<char> = Vec::new();
        v.push('…');
        let start: usize = t.len() - room + 1;
        let mut i: usize = start;
        while i < t.len()
            invariant
                start <= i <= t@.len(),
                v@ == seq!['…'] + t@.subrange(start as int, i as int),
            decreases t@.len() - i,
        {
            v.push(t[i]);
            assert(t@.subrange(start as int, i as int + 1) =~= t@.subrange(start as int, i as int).push(t@[i as int]));
            i = i + 1;
        }
        assert(t@.subrange(start as int, i as int) =~= t@.skip(start as int));
        v
    }
}

/// The styles the statusline is drawn with.
#[derive(Clone, Copy, Debug, PartialEq, Eq, Structural)]
pub struct StatusStyles {
    pub active: Style,
    pub inactive: Style,
    pub warning: Style,
    pub error: Style,
}

/// Draws a view's statusline in the first row of `viewport`: the mode's
/// abbreviation when focused, the progress text, the right side flush
/// with the right edge, and the title between them, cut to the room left.
pub fn render_statusline(
    surface: &mut Surface,
    viewport: Rect,
    focused: bool,
    mode: Mode,
    progress: &Vec<char>,
    counts: StatusCounts,
    encoding: Option<Vec<char>>,
    path: Option<Vec<char>>,
    modified: bool,
    styles: StatusStyles,
)
    requires
        old(surface).wf(),
        counts.row < usize::MAX,
        counts.col < usize::MAX,
    ensures
        final(surface).wf(),
        final(surface).width == old(surface).width,
        final(surface).height == old(surface).height,
        ({
            let base = if focused { styles.active } else { styles.inactive };
            let enc = match encoding { Some(e) => Some(e@), None => None };
            let p = match path { Some(v) => Some(v@), None => None };
            final(surface).view() == statusline_spec(old(surface).view(), old(surface).w(), old(surface).h(), viewport,
                focused, mode, progress@, right_side_spec(counts, enc, base, styles.warning, styles.error),
                title_spec(p, modified), base)
        }),
{
    let ghost enc = match &encoding { Some(e) => Some(e@), None => None };
    let ghost pv = match &path { Some(v) => Some(v@), None => None };
    let ghost w = surface.w();
    let ghost h = surface.h();
    let base = if focused { styles.active } else { styles.inactive };
    let x = viewport.x as usize;
    let y = viewport.y as usize;
    let blank = one(' ');
    surface.fill(x, y, viewport.width as usize, &blank, base);
    if focused {
        surface.put_text(x + 1, y, &mode_name(mode), base);
    }
    surface.put_text(x + 5, y, progress, base);
    let ghost c3 = surface.view();
    let right = statusline_right(counts, encoding, base, styles.warning, styles.error);
    let ghost rv = right@.map_values(|t: StyledText| styled_view(t));
    let mut right_width: usize = 0;
    let mut i: usize = 0;
    while i < right.len()
        invariant
            i <= right@.len(),
            rv == right@.map_values(|t: StyledText| styled_view(t)),
            right_width == pieces_width(rv.take(i as int)),
        decreases right@.len() - i,
    {
        proof {
            let tk = rv.take(i as int + 1);
            assert(tk.drop_last() =~= rv.take(i as int));
            assert(tk.last() == rv[i as int]);
        }
        right_width = right_width.saturating_add(right[i].text.len());
        i = i + 1;
    }
    assert(rv.take(i as int) =~= rv);
    let rx0: usize = x + (viewport.width as usize).saturating_sub(right_width);
    let mut rx: usize = rx0;
    let mut i: usize = 0;
    while i < right.len()
        invariant
            i <= right@.len(),
            surface.wf(),
            surface.width == old(surface).width,
            surface.height == old(surface).height,
            surface.w() == w,
            surface.h() == h,
            rv == right@.map_values(|t: StyledText| styled_view(t)),
            pieces_from(surface.view(), w, h, rx as int, y as int, rv, i as int) == pieces_from(c3, w, h, rx0 as int, y as int, rv, 0),
        decreases right@.len() - i,
    {
        assert(rv[i as int] == styled_view(right@[i as int]));
        surface.put_text(rx, y, &right[i].text, right[i].style);
        rx = rx.saturating_add(right[i].text.len());
        i = i + 1;
    }
    let title = statusline_title(path, modified);
    let room = title_room(viewport.width, right_width);
    surface.put_text(x + 8, y, &truncate_title(&title, room), base);
    proof {
        assert(right_side_spec(counts, enc, base, styles.warning, styles.error) == rv);
    }
}

} // verus!
