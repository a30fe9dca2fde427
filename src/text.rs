use vstd::prelude::*;
use unicode_segmentation::UnicodeSegmentation;
use unicode_width::UnicodeWidthStr;

verus! {

/// The extended grapheme clusters of a string, in order.
pub uninterp spec fn graphemes_of(s: Seq<char>) -> Seq<Seq<char>>;

/// The display width of a string in terminal columns.
pub uninterp spec fn str_width_of(s: Seq<char>) -> nat;

/// The characters of a sequence of strings, one after the other.
pub open spec fn concat(gs: Seq<Seq<char>>) -> Seq<char>
    decreases gs.len(),
{
    if gs.len() == 0 {
        Seq::empty()
    } else {
        concat(gs.drop_last()) + gs.last()
    }
}

/// Relies on unicode_segmentation's `graphemes(true)`: it walks the string
/// from its start to its end in non-empty slices, one per extended
/// grapheme cluster.
#[verifier::external_body]
fn split_graphemes(s: &str) -> (r: Vec<Vec<char>>)
    ensures
        r@.len() == graphemes_of(s@).len(),
        forall|i: int| 0 <= i < r@.len() ==> #[trigger] r@[i]@ == graphemes_of(s@)[i],
        forall|i: int| 0 <= i < r@.len() ==> #[trigger] r@[i]@.len() > 0,
        concat(r@.map_values(|v: Vec<char>| v@)) == s@,
{
    s.graphemes(true).map(|g| g.chars().collect()).collect()
}

/// Relies on unicode_width's `UnicodeWidthStr::width`: the columns that
/// the characters take on a terminal.
#[verifier::external_body]
pub(crate) fn str_width(g: &Vec<char>) -> (r: usize)
    ensures
        r == str_width_of(g@),
{
    let s: String = g.iter().collect();
    UnicodeWidthStr::width(s.as_str())
}

/// The columns that one grapheme cluster takes: one for a cluster that
/// starts with an ASCII character, else its display width, at least one.
pub open spec fn grapheme_width_spec(g: Seq<char>) -> nat {
    if g.len() == 0 || (g[0] as u32) < 128 {
        1
    } else if str_width_of(g) == 0 {
        1
    } else {
        str_width_of(g)
    }
}

/// The columns of a cluster whose display width is `w`: one for a
/// cluster that starts with an ASCII character, else `w`, at least one.
pub open spec fn width_with_spec(g: Seq<char>, w: int) -> int {
    if g.len() == 0 || (g[0] as u32) < 128 {
        1
    } else if w == 0 {
        1
    } else {
        w
    }
}

/// See [`width_with_spec`].
pub fn grapheme_width_with(g: &Vec<char>, w: usize) -> (r: usize)
    ensures
        r == width_with_spec(g@, w as int),
{
    if g.len() == 0 || (g[0] as u32) < 128 {
        1
    } else if w == 0 {
        1
    } else {
        w
    }
}

/// See [`grapheme_width_spec`].
pub fn grapheme_width(g: &Vec<char>) -> (r: usize)
    ensures
        r == grapheme_width_spec(g@),
        r == width_with_spec(g@, str_width_of(g@) as int),
{
    if g.len() == 0 || (g[0] as u32) < 128 {
        1
    } else {
        grapheme_width_with(g, str_width(g))
    }
}

/// A line ending on its own: LF, CRLF, CR, VT, FF, NEL, LS or PS.
pub open spec fn is_line_ending_spec(g: Seq<char>) -> bool {
    ||| g == seq!['\n']
    ||| g == seq!['\r', '\n']
    ||| g == seq!['\r']
    ||| g == seq!['\u{0B}']
    ||| g == seq!['\u{0C}']
    ||| g == seq!['\u{85}']
    ||| g == seq!['\u{2028}']
    ||| g == seq!['\u{2029}']
}

/// See [`is_line_ending_spec`].
pub fn is_line_ending(g: &Vec<char>) -> (r: bool)
    ensures
        r == is_line_ending_spec(g@),
{
    if g.len() == 1 {
        let c = g[0];
        let r = c == '\n' || c == '\r' || c == '\u{0B}' || c == '\u{0C}' || c == '\u{85}' || c == '\u{2028}'
            || c == '\u{2029}';
        proof {
            if !r {
                assert(g@ != seq!['\n']);
                assert(g@ != seq!['\r']);
                assert(g@ != seq!['\u{0B}']);
                assert(g@ != seq!['\u{0C}']);
                assert(g@ != seq!['\u{85}']);
                assert(g@ != seq!['\u{2028}']);
                assert(g@ != seq!['\u{2029}']);
            } else {
                assert(g@ =~= seq![c]);
            }
        }
        r
    } else if g.len() == 2 {
        let r = g[0] == '\r' && g[1] == '\n';
        proof {
            if r {
                assert(g@ =~= seq!['\r', '\n']);
            } else {
                assert(g@ != seq!['\r', '\n']);
            }
        }
        r
    } else {
        false
    }
}

/// A document's characters together with its grapheme cluster boundaries.
pub struct Text {
    pub chars: Vec<char>,
    /// Char offsets where clusters start, and the text's length last.
    pub bounds: Vec<usize>,
}

/// The largest boundary among the first `n` that lies before `pos`, or 0.
pub open spec fn prev_bound(b: Seq<usize>, pos: int, n: int) -> int
    decreases n,
{
    if n <= 0 {
        0
    } else if b[n - 1] < pos {
        b[n - 1] as int
    } else {
        prev_bound(b, pos, n - 1)
    }
}

/// The smallest boundary from index `i` on that lies after `pos`, or the
/// text's length.
pub open spec fn next_bound(b: Seq<usize>, pos: int, i: int) -> int
    decreases b.len() - i,
{
    if i >= b.len() {
        b.last() as int
    } else if b[i] > pos {
        b[i] as int
    } else {
        next_bound(b, pos, i + 1)
    }
}

impl Text {
    pub open spec fn wf(&self) -> bool {
        &&& self.bounds@.len() >= 1
        &&& self.bounds@[0] == 0
        &&& self.bounds@.last() == self.chars@.len()
        &&& forall|i: int, j: int| 0 <= i < j < self.bounds@.len() ==> #[trigger] self.bounds@[i] < #[trigger] self.bounds@[j]
    }

    pub open spec fn len_spec(&self) -> int {
        self.chars@.len() as int
    }

    /// The start of the cluster before `pos` (0 at the start).
    pub open spec fn prev_boundary_spec(&self, pos: int) -> int {
        prev_bound(self.bounds@, pos, self.bounds@.len() as int)
    }

    /// The end of the cluster after `pos` (the length at the end).
    pub open spec fn next_boundary_spec(&self, pos: int) -> int {
        next_bound(self.bounds@, pos, 0)
    }

    /// Splits a string into its grapheme clusters.
    pub fn new(s: &str) -> (r: Text)
        ensures
            r.wf(),
            r.chars@ == s@,
            r.bounds@.len() == graphemes_of(s@).len() + 1,
            forall|k: int| 0 <= k < r.bounds@.len() ==> #[trigger] r.bounds@[k] == concat(graphemes_of(s@).take(k)).len(),
    {
        let gs = split_graphemes(s);
        assert(gs@.map_values(|v: Vec<char>| v@) =~= graphemes_of(s@));
        Text::from_graphemes(&gs)
    }

    /// A text made of the given clusters, one after the other.
    pub fn from_graphemes(gs: &Vec<Vec<char>>) -> (r: Text)
        requires
            forall|k: int| 0 <= k < gs@.len() ==> #[trigger] gs@[k]@.len() > 0,
        ensures
            r.wf(),
            r.chars@ == concat(gs@.map_values(|v: Vec<char>| v@)),
            r.bounds@.len() == gs@.len() + 1,
            forall|k: int| 0 <= k < r.bounds@.len() ==> #[trigger] r.bounds@[k] == concat(gs@.map_values(|v: Vec<char>| v@).take(k)).len(),
    {
        let ghost g = gs@.map_values(|v: Vec<char>| v@);
        let mut chars: Vec<char> = Vec::new();
        let mut bounds: Vec<usize> = Vec::new();
        bounds.push(0);
        assert(g.take(0) =~= Seq::<Seq<char>>::empty());
        let mut i: usize = 0;
        while i < gs.len()
            invariant
                i <= gs@.len(),
                gs@.len() == g.len(),
                g == gs@.map_values(|v: Vec<char>| v@),
                forall|k: int| 0 <= k < gs@.len() ==> #[trigger] gs@[k]@.len() > 0,
                chars@ == concat(g.take(i as int)),
                bounds@.len() == i + 1,
                forall|k: int| 0 <= k <= i ==> #[trigger] bounds@[k] == concat(g.take(k)).len(),
                forall|a: int, b: int| 0 <= a < b <= i ==> #[trigger] bounds@[a] < #[trigger] bounds@[b],
                bounds@[i as int] == chars@.len(),
            decreases gs@.len() - i,
        {
            let gr = &gs[i];
            assert(gr@ == g[i as int]);
            let ghost before = chars@;
            let mut j: usize = 0;
            while j < gr.len()
                invariant
                    j <= gr@.len(),
                    chars@ == before + gr@.take(j as int),
                decreases gr@.len() - j,
            {
                chars.push(gr[j]);
                assert(gr@.take(j as int + 1) =~= gr@.take(j as int).push(gr@[j as int]));
                j = j + 1;
            }
            assert(gr@.take(j as int) =~= gr@);
            assert(g.take(i as int + 1).drop_last() =~= g.take(i as int));
            assert(g.take(i as int + 1).last() == g[i as int]);
            bounds.push(chars.len());
            i = i + 1;
        }
        assert(g.take(i as int) =~= g);
        Text { chars, bounds }
    }

    pub fn len_chars(&self) -> (r: usize)
        ensures
            r == self.chars@.len(),
    {
        self.chars.len()
    }

    /// The start of the grapheme cluster before `pos`; 0 at the start.
    pub fn prev_grapheme_boundary(&self, pos: usize) -> (r: usize)
        requires
            self.wf(),
        ensures
            r == self.prev_boundary_spec(pos as int),
            r <= pos,
    {
        let mut i: usize = self.bounds.len();
        while i > 0 && self.bounds[i - 1] >= pos
            invariant
                i <= self.bounds@.len(),
                prev_bound(self.bounds@, pos as int, i as int) == prev_bound(self.bounds@, pos as int, self.bounds@.len() as int),
            decreases i,
        {
            i = i - 1;
        }
        if i == 0 { 0 } else { self.bounds[i - 1] }
    }

    /// The end of the grapheme cluster after `pos`; the text's length at
    /// or past the end.
    pub fn next_grapheme_boundary(&self, pos: usize) -> (r: usize)
        requires
            self.wf(),
        ensures
            r == self.next_boundary_spec(pos as int),
            r <= self.chars@.len(),
            pos < self.chars@.len() ==> r > pos,
    {
        let mut i: usize = 0;
        while i < self.bounds.len() && self.bounds[i] <= pos
            invariant
                i <= self.bounds@.len(),
                forall|k: int| 0 <= k < i ==> #[trigger] self.bounds@[k] <= pos,
                next_bound(self.bounds@, pos as int, i as int) == next_bound(self.bounds@, pos as int, 0),
                forall|k: int| 0 <= k < self.bounds@.len() ==> #[trigger] self.bounds@[k] <= self.chars@.len(),
            decreases self.bounds@.len() - i,
        {
            i = i + 1;
        }
        if i == self.bounds.len() {
            assert(self.bounds@[i - 1] == self.bounds@.last());
            self.bounds[i - 1]
        } else {
            self.bounds[i]
        }
    }
}

/// Where line `line` starts when scanning from `i`: just after the
/// `line`-th line feed from there, or the text's end if there are fewer.
pub open spec fn line_start_from(c: Seq<char>, line: nat, i: int) -> int
    decreases c.len() - i, line,
{
    if line == 0 {
        i
    } else if i >= c.len() {
        c.len() as int
    } else if c[i] == '\n' {
        line_start_from(c, (line - 1) as nat, i + 1)
    } else {
        line_start_from(c, line, i + 1)
    }
}

/// The line feeds in a text.
pub open spec fn count_nl(c: Seq<char>) -> nat
    decreases c.len(),
{
    if c.len() == 0 {
        0
    } else {
        count_nl(c.drop_last()) + if c.last() == '\n' { 1nat } else { 0nat }
    }
}

proof fn lemma_line_start_bounds(c: Seq<char>, line: nat, i: int)
    requires
        0 <= i <= c.len(),
    ensures
        i <= line_start_from(c, line, i) <= c.len(),
    decreases c.len() - i, line,
{
    if line > 0 && i < c.len() {
        if c[i] == '\n' {
            lemma_line_start_bounds(c, (line - 1) as nat, i + 1);
        } else {
            lemma_line_start_bounds(c, line, i + 1);
        }
    }
}

impl Text {
    /// The char offset where line `line` starts (the text's end past the last line).
    pub fn line_to_char(&self, line: usize) -> (r: usize)
        ensures
            r == line_start_from(self.chars@, line as nat, 0),
            r <= self.chars@.len(),
    {
        proof { lemma_line_start_bounds(self.chars@, line as nat, 0); }
        let mut i: usize = 0;
        let mut l: usize = line;
        while l > 0 && i < self.chars.len()
            invariant
                i <= self.chars@.len(),
                line_start_from(self.chars@, l as nat, i as int) == line_start_from(self.chars@, line as nat, 0),
            decreases self.chars@.len() - i,
        {
            if self.chars[i] == '\n' {
                l = l - 1;
            }
            i = i + 1;
        }
        if l == 0 { i } else { self.chars.len() }
    }

    /// The number of lines: one more than the line feeds.
    pub fn len_lines(&self) -> (r: usize)
        requires
            self.chars@.len() < usize::MAX,
        ensures
            r == count_nl(self.chars@) + 1,
    {
        let mut n: usize = 0;
        let mut i: usize = 0;
        while i < self.chars.len()
            invariant
                i <= self.chars@.len() < usize::MAX,
                n == count_nl(self.chars@.take(i as int)),
                n <= i,
            decreases self.chars@.len() - i,
        {
            let ghost tk = self.chars@.take(i as int + 1);
            assert(tk.drop_last() =~= self.chars@.take(i as int));
            if self.chars[i] == '\n' {
                n = n + 1;
            }
            i = i + 1;
        }
        assert(self.chars@.take(i as int) =~= self.chars@);
        n + 1
    }
}

/// The char range that a view shows: from the start of its first line
/// `offset.row` to the end of its last line, `height` lines down or the
/// text's last line, whichever comes first. A syntax highlighter is asked
/// for this range, and without one the range is drawn as a single run.
pub open spec fn view_range_spec(c: Seq<char>, first: int, height: int) -> (int, int) {
    let last_line = crate::geometry::min(
        crate::geometry::sat_sub(first + height, 1),
        count_nl(c) as int,
    );
    (line_start_from(c, first as nat, 0), line_start_from(c, (last_line + 1) as nat, 0))
}

/// See [`view_range_spec`].
pub fn doc_syntax_highlights(text: &Text, offset: crate::geometry::Position, height: u16) -> (r: (usize, usize))
    requires
        text.chars@.len() < usize::MAX,
        offset.row + height < usize::MAX,
    ensures
        r.0 == view_range_spec(text.chars@, offset.row as int, height as int).0,
        r.1 == view_range_spec(text.chars@, offset.row as int, height as int).1,
{
    let a: usize = (offset.row + height as usize).saturating_sub(1);
    let b: usize = text.len_lines() - 1;
    let last_line = if a <= b { a } else { b };
    (text.line_to_char(offset.row), text.line_to_char(last_line + 1))
}

} // verus!
