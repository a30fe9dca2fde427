use vstd::prelude::*;
use crate::geometry::{Margin, Position, Rect, sat_sub, min, max};
use crate::render::{CellView, Surface, fill_spec, space};
use crate::style::Style;

verus! {

/// Largest popup width, in columns.
pub const MAX_POPUP_WIDTH: u16 = 120;
/// Largest popup height, in rows.
pub const MAX_POPUP_HEIGHT: u16 = 26;

/// Content that can be embedded in a popup: it reports the size it needs
/// within a given maximum each time the popup is laid out.
pub trait Component {
    fn required_size(&mut self, viewport: (u16, u16)) -> Option<(u16, u16)>;
}

/// What a key press did to a popup.
#[derive(Clone, Copy, Debug, PartialEq, Eq, Structural)]
pub enum PopupKeyOutcome {
    /// The popup is to be closed.
    Close,
    /// The popup scrolled its content.
    Scrolled,
    /// The key is for the popup's content.
    Forward,
}

/// A floating box around embedded content, anchored at a screen position.
pub struct Popup<T> {
    pub contents: T,
    pub position: Option<Position>,
    pub margin: Margin,
    pub size: (u16, u16),
    pub child_size: (u16, u16),
    pub scroll: usize,
    pub id: String,
}

/// The largest scroll offset for content of height `child` in a box of height `boxh`.
pub open spec fn max_scroll(child: u16, boxh: u16) -> int {
    sat_sub(child as int, boxh as int)
}

/// The horizontal placement of a box of width `w` anchored at column `c`
/// in a viewport of width `vw`: shifted left just enough to fit.
pub open spec fn rel_x_spec(vw: int, c: int, w: int) -> int {
    if vw <= c + w { sat_sub(c, sat_sub(c + w, vw)) } else { c }
}

/// The vertical placement: below the anchor row when there is room, else above.
pub open spec fn rel_y_spec(vh: int, r: int, h: int) -> int {
    if vh > r + h { r + 1 } else { sat_sub(r, h) }
}

/// The size limits that a popup gives itself in a viewport.
pub open spec fn max_box(viewport: (u16, u16)) -> (int, int) {
    (min(MAX_POPUP_WIDTH as int, viewport.0 as int), min(MAX_POPUP_HEIGHT as int, sat_sub(viewport.1 as int, 2)))
}

/// The first `n` rows of a `width`-wide area at (`x`, `y`) blanked in `style`.
pub open spec fn clear_rows(cells: Seq<CellView>, w: int, h: int, x: int, y: int, width: int, n: int, style: Style) -> Seq<CellView>
    decreases n,
{
    if n <= 0 {
        cells
    } else {
        fill_spec(clear_rows(cells, w, h, x, y, width, n - 1, style), w, h, x, y + n - 1, width, (space(), style))
    }
}

/// The box of a popup in a viewport: placed by [`rel_x_spec`] and
/// [`rel_y_spec`] from its anchor, at its negotiated size, clipped to the
/// viewport.
pub open spec fn placed_box(viewport: Rect, anchor: Position, size: (u16, u16)) -> Rect {
    viewport.intersection_spec(Rect {
        x: rel_x_spec(viewport.width as int, anchor.col as u16 as int, size.0 as int) as u16,
        y: rel_y_spec(viewport.height as int, anchor.row as u16 as int, size.1 as int) as u16,
        width: size.0,
        height: size.1,
    })
}

impl<T> Popup<T> {
    /// The popup's name.
    pub fn id(&self) -> (r: &String)
        ensures
            r@ == self.id@,
    {
        &self.id
    }

    /// Every popup state keeps its scroll offset within its content.
    pub open spec fn wf(&self) -> bool {
        self.scroll <= max_scroll(self.child_size.1, self.size.1)
    }

    pub fn new(id: String, contents: T) -> (r: Self)
        ensures
            r.wf(),
            r.position.is_none(),
            r.margin == (Margin { vertical: 0, horizontal: 0 }),
            r.size == (0u16, 0u16),
            r.child_size == (0u16, 0u16),
            r.scroll == 0,
            r.id@ == id@,
            r.contents == contents,
    {
        Popup {
            contents,
            position: None,
            margin: Margin { vertical: 0, horizontal: 0 },
            size: (0, 0),
            child_size: (0, 0),
            scroll: 0,
            id,
        }
    }

    pub fn set_position(&mut self, pos: Option<Position>)
        ensures
            final(self).position == pos,
            final(self).margin == old(self).margin,
            final(self).size == old(self).size,
            final(self).child_size == old(self).child_size,
            final(self).scroll == old(self).scroll,
    {
        self.position = pos;
    }

    pub fn margin(self, margin: Margin) -> (r: Self)
        ensures
            r.margin == margin,
            r.position == self.position,
            r.size == self.size,
            r.child_size == self.child_size,
            r.scroll == self.scroll,
    {
        let mut s = self;
        s.margin = margin;
        s
    }

    pub fn get_size(&self) -> (r: (u16, u16))
        ensures
            r == self.size,
    {
        self.size
    }

    pub fn contents(&self) -> (r: &T)
        ensures
            r == &self.contents,
    {
        &self.contents
    }

    pub fn contents_mut(&mut self) -> (r: &mut T)
        ensures
            *r == old(self).contents,
            final(self).contents == *final(r),
            final(self).position == old(self).position,
            final(self).size == old(self).size,
            final(self).child_size == old(self).child_size,
            final(self).scroll == old(self).scroll,
    {
        &mut self.contents
    }

    /// Anchors the popup (at `cursor`, or the origin without one) unless it
    /// is anchored already, and returns its top-left corner relative to the
    /// viewport.
    pub fn get_rel_position(&mut self, viewport: Rect, cursor: Option<Position>) -> (r: (u16, u16))
        ensures
            old(self).position.is_some() ==> final(self).position == old(self).position,
            old(self).position.is_none() ==> final(self).position == Some(
                match cursor { Some(p) => p, None => Position { row: 0, col: 0 } },
            ),
            final(self).size == old(self).size,
            final(self).child_size == old(self).child_size,
            final(self).scroll == old(self).scroll,
            final(self).margin == old(self).margin,
            ({
                let p = final(self).position.unwrap();
                &&& r.0 == rel_x_spec(viewport.width as int, p.col as u16 as int, old(self).size.0 as int)
                &&& r.1 == rel_y_spec(viewport.height as int, p.row as u16 as int, old(self).size.1 as int)
            }),
            ({
                let c = final(self).position.unwrap().col as u16 as int;
                let w = old(self).size.0 as int;
                let vw = viewport.width as int;
                c + w > vw ==> r.0 == max(0, c - (c + w - vw))
            }),
    {
        let position = match self.position {
            Some(p) => p,
            None => {
                let p = match cursor {
                    Some(p) => p,
                    None => Position { row: 0, col: 0 },
                };
                self.position = Some(p);
                p
            },
        };
        let (width, height) = self.size;
        let mut rel_x: u16 = position.col as u16;
        let mut rel_y: u16 = position.row as u16;
        if (viewport.width as u32) <= (rel_x as u32) + (width as u32) {
            let over: u32 = (rel_x as u32) + (width as u32) - (viewport.width as u32);
            rel_x = if (rel_x as u32) >= over { ((rel_x as u32) - over) as u16 } else { 0 };
        }
        if (viewport.height as u32) > (rel_y as u32) + (height as u32) {
            rel_y = rel_y + 1;
        } else {
            rel_y = rel_y.saturating_sub(height);
        }
        (rel_x, rel_y)
    }

    /// Scrolls forward (`direction`) or backward by `offset` rows, keeping
    /// the offset within the content.
    pub fn scroll(&mut self, offset: usize, direction: bool)
        ensures
            final(self).wf(),
            final(self).scroll == min(
                if direction { old(self).scroll + offset } else { sat_sub(old(self).scroll as int, offset as int) },
                max_scroll(old(self).child_size.1, old(self).size.1),
            ),
            0 <= final(self).scroll <= max(0, old(self).child_size.1 - old(self).size.1),
            final(self).position == old(self).position,
            final(self).size == old(self).size,
            final(self).child_size == old(self).child_size,
            final(self).margin == old(self).margin,
    {
        let max_offset: usize = self.child_size.1.saturating_sub(self.size.1) as usize;
        let moved: usize = if direction {
            self.scroll.saturating_add(offset)
        } else {
            self.scroll.saturating_sub(offset)
        };
        self.scroll = if moved <= max_offset { moved } else { max_offset };
    }

    /// Records the content's natural size and negotiates the box size for
    /// a viewport, re-clamping the scroll offset.
    pub fn fit(&mut self, viewport: (u16, u16), child: (u16, u16)) -> (r: (u16, u16))
        ensures
            final(self).wf(),
            final(self).child_size == child,
            r == final(self).size,
            r.0 == min(child.0 + 2 * old(self).margin.horizontal, max_box(viewport).0),
            r.1 == min(child.1 + 2 * old(self).margin.vertical, max_box(viewport).1),
            final(self).scroll == min(old(self).scroll as int, max_scroll(child.1, r.1)),
            final(self).position == old(self).position,
            final(self).margin == old(self).margin,
    {
        let max_width: u16 = if MAX_POPUP_WIDTH <= viewport.0 { MAX_POPUP_WIDTH } else { viewport.0 };
        let avail: u16 = viewport.1.saturating_sub(2);
        let max_height: u16 = if MAX_POPUP_HEIGHT <= avail { MAX_POPUP_HEIGHT } else { avail };
        let w: u32 = (child.0 as u32) + 2 * (self.margin.horizontal as u32);
        let h: u32 = (child.1 as u32) + 2 * (self.margin.vertical as u32);
        let bw: u16 = if w <= max_width as u32 { w as u16 } else { max_width };
        let bh: u16 = if h <= max_height as u32 { h as u16 } else { max_height };
        self.child_size = child;
        self.size = (bw, bh);
        let max_offset: usize = child.1.saturating_sub(bh) as usize;
        if self.scroll > max_offset {
            self.scroll = max_offset;
        }
        (bw, bh)
    }

    /// The largest size the content may take inside the popup in a viewport.
    pub fn child_limits(&self, viewport: (u16, u16)) -> (r: (u16, u16))
        ensures
            r == (Rect { x: 0, y: 0, width: max_box(viewport).0 as u16, height: max_box(viewport).1 as u16 }).inner_spec(self.margin).width_height(),
    {
        let max_width: u16 = if MAX_POPUP_WIDTH <= viewport.0 { MAX_POPUP_WIDTH } else { viewport.0 };
        let avail: u16 = viewport.1.saturating_sub(2);
        let max_height: u16 = if MAX_POPUP_HEIGHT <= avail { MAX_POPUP_HEIGHT } else { avail };
        let inner = Rect::new(0, 0, max_width, max_height).inner(&self.margin);
        (inner.width, inner.height)
    }

    /// The popup's reaction to a key: escape and ctrl-c close it, ctrl-d
    /// and ctrl-u scroll by half its height, anything else is for the content.
    pub fn handle_key(&mut self, key: crate::input::KeyEvent) -> (r: PopupKeyOutcome)
        ensures
            key.is_esc() || key.is_ctrl_char('c') ==> r == PopupKeyOutcome::Close && *final(self) == *old(self),
            !(key.is_esc() || key.is_ctrl_char('c')) && key.is_ctrl_char('d') ==> r == PopupKeyOutcome::Scrolled
                && final(self).scroll == min(old(self).scroll + old(self).size.1 / 2, max_scroll(old(self).child_size.1, old(self).size.1)),
            !(key.is_esc() || key.is_ctrl_char('c') || key.is_ctrl_char('d')) && key.is_ctrl_char('u') ==> r == PopupKeyOutcome::Scrolled
                && final(self).scroll == min(sat_sub(old(self).scroll as int, (old(self).size.1 / 2) as int), max_scroll(old(self).child_size.1, old(self).size.1)),
            !(key.is_esc() || key.is_ctrl_char('c') || key.is_ctrl_char('d') || key.is_ctrl_char('u')) ==> r == PopupKeyOutcome::Forward && *final(self) == *old(self),
            final(self).size == old(self).size,
            final(self).child_size == old(self).child_size,
    {
        if key.esc() || key.ctrl_char('c') {
            PopupKeyOutcome::Close
        } else if key.ctrl_char('d') {
            let half: usize = (self.size.1 / 2) as usize;
            self.scroll(half, true);
            PopupKeyOutcome::Scrolled
        } else if key.ctrl_char('u') {
            let half: usize = (self.size.1 / 2) as usize;
            self.scroll(half, false);
            PopupKeyOutcome::Scrolled
        } else {
            PopupKeyOutcome::Forward
        }
    }
}

impl<T: Component> Popup<T> {
    /// Measures the content within the popup's limits for a viewport and
    /// negotiates the box size; `None` where the content reports no size.
    pub fn required_size(&mut self, viewport: (u16, u16)) -> (r: Option<(u16, u16)>)
        ensures
            final(self).wf() || r.is_none(),
            r.is_some() ==> r.unwrap() == final(self).size,
            r.is_some() ==> final(self).size.0 <= max_box(viewport).0 && final(self).size.1 <= max_box(viewport).1,
            final(self).position == old(self).position,
            final(self).margin == old(self).margin,
    {
        let limits = self.child_limits(viewport);
        match self.contents.required_size(limits) {
            Some(child) => Some(self.fit(viewport, child)),
            None => None,
        }
    }

    /// Lays the popup out in a viewport: re-measures the content, anchors
    /// the box and clips it to the viewport. Returns the box and the area
    /// inside its margin, where the content is drawn.
    pub fn layout(&mut self, viewport: Rect, cursor: Option<Position>) -> (r: Option<(Rect, Rect)>)
        ensures
            r.is_some() ==> final(self).wf(),
            r.is_some() ==> ({
                let (area, inner) = r.unwrap();
                &&& area.x >= viewport.x && area.y >= viewport.y
                &&& area.width > 0 ==> area.right_spec() <= viewport.right_spec()
                &&& area.height > 0 ==> area.bottom_spec() <= viewport.bottom_spec()
                &&& area.width <= final(self).size.0 && area.height <= final(self).size.1
                &&& inner == area.inner_spec(final(self).margin)
                &&& final(self).position.is_some()
                &&& area == placed_box(viewport, final(self).position.unwrap(), final(self).size)
            }),
            old(self).position.is_some() ==> final(self).position == old(self).position,
            r.is_some() && old(self).position.is_none() ==> final(self).position == Some(
                match cursor { Some(p) => p, None => Position { row: 0, col: 0 } },
            ),
    {
        match self.required_size((viewport.width, viewport.height)) {
            None => None,
            Some(size) => {
                let (rel_x, rel_y) = self.get_rel_position(viewport, cursor);
                let area = viewport.intersection(&Rect::new(rel_x, rel_y, size.0, size.1));
                let inner = area.inner(&self.margin);
                Some((area, inner))
            },
        }
    }

    /// Lays the popup out (see [`Popup::layout`]) and blanks its box in
    /// the background style; returns the area inside the margin, where the
    /// content is to be drawn.
    pub fn render(&mut self, viewport: Rect, cursor: Option<Position>, surface: &mut Surface, background: Style) -> (r: Option<Rect>)
        requires
            old(surface).wf(),
        ensures
            final(surface).wf(),
            final(surface).width == old(surface).width,
            final(surface).height == old(surface).height,
            r.is_none() ==> final(surface).view() == old(surface).view(),
            r.is_some() ==> final(self).wf() && final(self).position.is_some() && ({
                let area = placed_box(viewport, final(self).position.unwrap(), final(self).size);
                &&& r.unwrap() == area.inner_spec(final(self).margin)
                &&& final(surface).view() == clear_rows(old(surface).view(), old(surface).w(), old(surface).h(),
                    area.x as int, area.y as int, area.width as int, area.height as int, background)
            }),
            old(self).position.is_some() ==> final(self).position == old(self).position,
            r.is_some() && old(self).position.is_none() ==> final(self).position == Some(
                match cursor { Some(p) => p, None => Position { row: 0, col: 0 } },
            ),
    {
        match self.layout(viewport, cursor) {
            None => None,
            Some((area, inner)) => {
                let ghost c0 = surface.view();
                let blank: Vec<char> = vec![' '];
                assert(blank@ =~= space());
                let mut i: u16 = 0;
                while i < area.height
                    invariant
                        i <= area.height,
                        surface.wf(),
                        surface.width == old(surface).width,
                        surface.height == old(surface).height,
                        blank@ == space(),
                        surface.view() == clear_rows(c0, old(surface).w(), old(surface).h(), area.x as int, area.y as int,
                            area.width as int, i as int, background),
                    decreases area.height - i,
                {
                    surface.fill(area.x as usize, area.y as usize + i as usize, area.width as usize, &blank, background);
                    i = i + 1;
                }
                Some(inner)
            },
        }
    }
}

} // verus!
