use vstd::prelude::*;
use crate::input::ALT;

verus! {

/// A mouse button.
#[derive(Clone, Copy, Debug, PartialEq, Eq, Structural)]
pub enum MouseButton {
    Left,
    Right,
    Middle,
}

/// What the mouse did.
#[derive(Clone, Copy, Debug, PartialEq, Eq, Structural)]
pub enum MouseEventKind {
    Down(MouseButton),
    Up(MouseButton),
    Drag(MouseButton),
    Moved,
    ScrollDown,
    ScrollUp,
}

/// A mouse event at a screen cell, with modifier bits.
#[derive(Clone, Copy, Debug, PartialEq, Eq, Structural)]
pub struct MouseEvent {
    pub kind: MouseEventKind,
    pub column: u16,
    pub row: u16,
    pub modifiers: u8,
}

/// What the editor is to do for a mouse event, in order.
#[derive(Clone, Copy, Debug, PartialEq, Eq, Structural)]
pub enum MouseAction {
    /// Make the selection of a view a single point.
    SelectPoint { view: usize, pos: usize },
    /// Add a point to the selection of a view.
    AddPoint { view: usize, pos: usize },
    /// Set the primary range of a view.
    SetPrimary { view: usize, anchor: usize, head: usize },
    /// Give a view the focus.
    Focus(usize),
    /// Scroll the focused view by some lines, forward or backward.
    Scroll { lines: usize, forward: bool },
    /// Copy the primary selection to the primary clipboard.
    YankPrimaryClipboard,
    /// Replace the selections with the primary clipboard.
    ReplaceWithPrimaryClipboard,
    /// Paste the primary clipboard before the selections.
    PastePrimaryClipboardBefore,
}

/// The state that mouse handling reads.
#[derive(Clone, Copy, Debug, PartialEq, Eq, Structural)]
pub struct MouseContext {
    /// The focused view.
    pub focus: usize,
    /// The anchor of the focused view's primary range.
    pub primary_anchor: usize,
    /// The extent of the focused view's primary range.
    pub primary_from: usize,
    pub primary_to: usize,
    /// Whether clipboard actions by mouse are on.
    pub middle_click_paste: bool,
    /// How many lines a wheel step scrolls; its sign is ignored.
    pub scroll_lines: isize,
}

/// The first view, in order, that has a document position under the
/// pointer, with that position.
pub open spec fn first_hit(hits: Seq<Option<usize>>, i: int) -> Option<(usize, usize)>
    decreases hits.len() - i,
{
    if i >= hits.len() || i < 0 {
        None
    } else {
        match hits[i] {
            Some(p) => Some((i as usize, p)),
            None => first_hit(hits, i + 1),
        }
    }
}

fn find_hit(hits: &Vec<Option<usize>>) -> (r: Option<(usize, usize)>)
    ensures
        r == first_hit(hits@, 0),
{
    let mut i: usize = 0;
    while i < hits.len()
        invariant
            i <= hits@.len(),
            first_hit(hits@, i as int) == first_hit(hits@, 0),
        decreases hits@.len() - i,
    {
        match hits[i] {
            Some(p) => {
                return Some((i, p));
            },
            None => {},
        }
        i = i + 1;
    }
    None
}

pub open spec fn abs_spec(n: isize) -> int {
    if n < 0 { -n } else { n as int }
}

/// The actions for a mouse event, or `None` when it is ignored. `hits[v]`
/// is the document position under the pointer in view `v`, if the pointer
/// is over its text. A left press selects the point in the view hit (or
/// adds it, with alt) and focuses that view. A left drag moves the focused
/// view's primary head to the point, keeping its anchor. The wheel scrolls
/// the view under the pointer and gives the focus back. With clipboard
/// actions on, a left release copies a selection of more than one
/// character, and a middle release pastes at the point (or, with alt,
/// replaces the selections).
pub open spec fn mouse_spec(e: MouseEvent, hits: Seq<Option<usize>>, cx: MouseContext) -> Option<Seq<MouseAction>> {
    match e.kind {
        MouseEventKind::Down(MouseButton::Left) => match first_hit(hits, 0) {
            Some((v, p)) => Some(if e.modifiers == ALT {
                seq![MouseAction::AddPoint { view: v, pos: p }, MouseAction::Focus(v)]
            } else {
                seq![MouseAction::SelectPoint { view: v, pos: p }, MouseAction::Focus(v)]
            }),
            None => None,
        },
        MouseEventKind::Drag(MouseButton::Left) => if 0 <= cx.focus < hits.len() && hits[cx.focus as int] is Some {
            Some(seq![MouseAction::SetPrimary { view: cx.focus, anchor: cx.primary_anchor, head: hits[cx.focus as int].unwrap() }])
        } else {
            None
        },
        MouseEventKind::ScrollUp | MouseEventKind::ScrollDown => match first_hit(hits, 0) {
            Some((v, _)) => Some(seq![
                MouseAction::Focus(v),
                MouseAction::Scroll { lines: abs_spec(cx.scroll_lines) as usize, forward: e.kind == MouseEventKind::ScrollDown },
                MouseAction::Focus(cx.focus),
            ]),
            None => None,
        },
        MouseEventKind::Up(MouseButton::Left) => if !cx.middle_click_paste || cx.primary_to - cx.primary_from <= 1 {
            None
        } else {
            Some(seq![MouseAction::YankPrimaryClipboard])
        },
        MouseEventKind::Up(MouseButton::Middle) => if !cx.middle_click_paste {
            None
        } else if e.modifiers == ALT {
            Some(seq![MouseAction::ReplaceWithPrimaryClipboard])
        } else {
            match first_hit(hits, 0) {
                Some((v, p)) => Some(seq![
                    MouseAction::SelectPoint { view: v, pos: p },
                    MouseAction::Focus(v),
                    MouseAction::PastePrimaryClipboardBefore,
                ]),
                None => None,
            }
        },
        _ => None,
    }
}

/// See [`mouse_spec`].
pub fn handle_mouse_event(e: MouseEvent, hits: &Vec<Option<usize>>, cx: MouseContext) -> (r: Option<Vec<MouseAction>>)
    ensures
        match r {
            Some(v) => mouse_spec(e, hits@, cx) == Some(v@),
            None => mouse_spec(e, hits@, cx).is_none(),
        },
{
    match e.kind {
        MouseEventKind::Down(MouseButton::Left) => match find_hit(hits) {
            Some((v, p)) => {
                let a = if e.modifiers == ALT {
                    MouseAction::AddPoint { view: v, pos: p }
                } else {
                    MouseAction::SelectPoint { view: v, pos: p }
                };
                let out = vec![a, MouseAction::Focus(v)];
                assert(out@ =~= seq![a, MouseAction::Focus(v)]);
                Some(out)
            },
            None => None,
        },
        MouseEventKind::Drag(MouseButton::Left) => {
            if cx.focus < hits.len() {
                match hits[cx.focus] {
                    Some(p) => {
                        let a = MouseAction::SetPrimary { view: cx.focus, anchor: cx.primary_anchor, head: p };
                        let out = vec![a];
                        assert(out@ =~= seq![a]);
                        Some(out)
                    },
                    None => None,
                }
            } else {
                None
            }
        },
        MouseEventKind::ScrollUp | MouseEventKind::ScrollDown => match find_hit(hits) {
            Some((v, _)) => {
                let n = cx.scroll_lines;
                let lines: usize = if n < 0 { ((-(n + 1)) as usize) + 1 } else { n as usize };
                let forward = match e.kind {
                    MouseEventKind::ScrollDown => true,
                    _ => false,
                };
                let s = MouseAction::Scroll { lines, forward };
                let out = vec![MouseAction::Focus(v), s, MouseAction::Focus(cx.focus)];
                assert(out@ =~= seq![MouseAction::Focus(v), s, MouseAction::Focus(cx.focus)]);
                Some(out)
            },
            None => None,
        },
        MouseEventKind::Up(MouseButton::Left) => {
            if !cx.middle_click_paste || (cx.primary_to <= cx.primary_from) || cx.primary_to - cx.primary_from <= 1 {
                None
            } else {
                let out = vec![MouseAction::YankPrimaryClipboard];
                assert(out@ =~= seq![MouseAction::YankPrimaryClipboard]);
                Some(out)
            }
        },
        MouseEventKind::Up(MouseButton::Middle) => {
            if !cx.middle_click_paste {
                None
            } else if e.modifiers == ALT {
                let out = vec![MouseAction::ReplaceWithPrimaryClipboard];
                assert(out@ =~= seq![MouseAction::ReplaceWithPrimaryClipboard]);
                Some(out)
            } else {
                match find_hit(hits) {
                    Some((v, p)) => {
                        let out = vec![
                            MouseAction::SelectPoint { view: v, pos: p },
                            MouseAction::Focus(v),
                            MouseAction::PastePrimaryClipboardBefore,
                        ];
                        assert(out@ =~= seq![
                            MouseAction::SelectPoint { view: v, pos: p },
                            MouseAction::Focus(v),
                            MouseAction::PastePrimaryClipboardBefore,
                        ]);
                        Some(out)
                    },
                    None => None,
                }
            }
        },
        _ => None,
    }
}

} // verus!
