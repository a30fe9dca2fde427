use helix_view_core::diagnostics::{
    diagnostic_lines, diagnostics_area, diagnostics_at_cursor, doc_diagnostics_highlights, render_diagnostics,
    severity_counts, Diagnostic, Severity, SeverityStyles,
};
use helix_view_core::dispatch::{Action, CompletionOutcome, EditorView};
use helix_view_core::geometry::{Margin, Position, Rect};
use helix_view_core::gutter::{gutter_cell, render_gutter, GutterKind, GutterStyles};
use helix_view_core::highlight::{merge_highlights, spans_ordered, HighlightEvent, Span};
use helix_view_core::input::{canonicalize_key, key_name, pending_keys_display, Binding, KeyCode, KeyEvent, KeymapResult, Keymaps, ALT, CONTROL, SHIFT};
use helix_view_core::mouse::{handle_mouse_event, MouseAction, MouseButton, MouseContext, MouseEvent, MouseEventKind};
use helix_view_core::popup::{Component, Popup, PopupKeyOutcome};
use helix_view_core::render::{draw_grapheme, render_text_highlights, Surface, TextLayout};
use helix_view_core::selection::{
    doc_selection_highlights, resolve_scopes, CursorKind, CursorShapeConfig, Mode, SelRange, SelectionScopes, ThemeScopes,
};
use helix_view_core::statusline::{
    decimal_chars, mode_name, statusline_right, statusline_title, title_room, truncate_title, StatusCounts,
};
use helix_view_core::style::{Style, Theme};
use helix_view_core::text::{doc_syntax_highlights, grapheme_width, grapheme_width_with, is_line_ending, Text};
use helix_view_core::view::{cursor, render_border, render_bottom_line, render_view, BottomStyles};

fn s(t: &str) -> Vec<char> {
    t.chars().collect()
}

fn key(c: char) -> KeyEvent {
    KeyEvent { code: KeyCode::Char(c), modifiers: 0 }
}

fn plain() -> Style {
    Style::new()
}

fn colored(c: u32) -> Style {
    Style { fg: Some(c), bg: None, add_modifier: 0, sub_modifier: 0 }
}

fn row_text(surface: &Surface, y: u16) -> String {
    let mut out = String::new();
    for x in 0..surface.width {
        let cell = surface.get(x, y);
        out.extend(cell.symbol.iter());
    }
    out
}

fn runs(events: &[HighlightEvent]) -> Vec<(usize, usize)> {
    events
        .iter()
        .filter_map(|e| match e {
            HighlightEvent::Source { start, end } => Some((*start, *end)),
            _ => None,
        })
        .collect()
}

#[test]
fn merge_covers_range_with_nested_scopes() {
    let sources = vec![
        vec![Span { scope: 1, start: 0, end: 6 }],
        vec![Span { scope: 2, start: 2, end: 4 }],
        vec![Span { scope: 3, start: 3, end: 8 }],
    ];
    let ev = merge_highlights(&sources, 0, 10);
    assert_eq!(runs(&ev), vec![(0, 2), (2, 3), (3, 4), (4, 6), (6, 8), (8, 10)]);
    let mut depth: i64 = 0;
    let mut stack: Vec<usize> = Vec::new();
    for e in &ev {
        match e {
            HighlightEvent::HighlightStart(s) => {
                depth += 1;
                stack.push(*s);
            }
            HighlightEvent::HighlightEnd => {
                depth -= 1;
                stack.pop();
            }
            HighlightEvent::Source { start, .. } => {
                let expect: Vec<usize> = match start {
                    0 => vec![1],
                    2 => vec![1, 2],
                    3 => vec![1, 2, 3],
                    4 => vec![1, 3],
                    6 => vec![3],
                    _ => vec![],
                };
                assert_eq!(stack, expect);
            }
        }
        assert!(depth >= 0);
    }
    assert_eq!(depth, 0);
}

#[test]
fn merge_keeps_outer_scope_open_across_runs() {
    let sources = vec![vec![Span { scope: 1, start: 0, end: 6 }], vec![Span { scope: 2, start: 2, end: 4 }]];
    let ev = merge_highlights(&sources, 0, 10);
    assert_eq!(
        ev,
        vec![
            HighlightEvent::HighlightStart(1),
            HighlightEvent::Source { start: 0, end: 2 },
            HighlightEvent::HighlightStart(2),
            HighlightEvent::Source { start: 2, end: 4 },
            HighlightEvent::HighlightEnd,
            HighlightEvent::Source { start: 4, end: 6 },
            HighlightEvent::HighlightEnd,
            HighlightEvent::Source { start: 6, end: 10 },
        ]
    );
}

#[test]
fn merge_of_empty_range_is_empty() {
    let sources: Vec<Vec<Span>> = vec![vec![Span { scope: 1, start: 0, end: 3 }]];
    assert!(merge_highlights(&sources, 4, 4).is_empty());
    let ev = merge_highlights(&Vec::new(), 0, 5);
    assert_eq!(ev, vec![HighlightEvent::Source { start: 0, end: 5 }]);
}

#[test]
fn span_order_check() {
    assert!(spans_ordered(&vec![Span { scope: 0, start: 0, end: 2 }, Span { scope: 0, start: 2, end: 3 }]));
    assert!(!spans_ordered(&vec![Span { scope: 0, start: 0, end: 3 }, Span { scope: 0, start: 2, end: 4 }]));
    assert!(!spans_ordered(&vec![Span { scope: 0, start: 3, end: 2 }]));
}

#[test]
fn text_splits_grapheme_clusters() {
    let t = Text::new("e\u{301}x\r\ny");
    assert_eq!(t.chars, s("e\u{301}x\r\ny"));
    assert_eq!(t.bounds, vec![0, 2, 3, 5, 6]);
    assert_eq!(t.next_grapheme_boundary(0), 2);
    assert_eq!(t.prev_grapheme_boundary(3), 2);
    assert_eq!(t.prev_grapheme_boundary(2), 0);
    assert_eq!(t.next_grapheme_boundary(6), 6);
    assert_eq!(t.prev_grapheme_boundary(0), 0);
}

#[test]
fn grapheme_widths() {
    assert_eq!(grapheme_width(&s("a")), 1);
    assert_eq!(grapheme_width(&s("中")), 2);
    assert_eq!(grapheme_width(&s("\u{301}")), 1);
    assert!(is_line_ending(&s("\r\n")));
    assert!(is_line_ending(&s("\n")));
    assert!(!is_line_ending(&s("a")));
}

#[test]
fn lines_and_view_range() {
    let t = Text::new("ab\ncd\nef");
    assert_eq!(t.len_lines(), 3);
    assert_eq!(t.line_to_char(1), 3);
    assert_eq!(t.line_to_char(5), 8);
    assert_eq!(doc_syntax_highlights(&t, Position::new(1, 0), 2), (3, 8));
    assert_eq!(doc_syntax_highlights(&t, Position::new(0, 0), 1), (0, 3));
}

fn scopes() -> SelectionScopes {
    SelectionScopes { cursor: 1, selection: 2, primary_cursor: 3, primary_selection: 4 }
}

fn shapes(kind: CursorKind) -> CursorShapeConfig {
    CursorShapeConfig { normal: kind, insert: CursorKind::Bar, select: kind }
}

#[test]
fn end_of_text_cursor_span() {
    let t = Text::new("abc");
    let ranges = vec![SelRange { anchor: 3, head: 3 }];
    let block = doc_selection_highlights(&t, &ranges, 0, Mode::Normal, &shapes(CursorKind::Block), &scopes());
    assert_eq!(block, vec![Span { scope: 3, start: 3, end: 4 }]);
    let bar = doc_selection_highlights(&t, &ranges, 0, Mode::Normal, &shapes(CursorKind::Bar), &scopes());
    assert!(bar.is_empty());
    let secondary = doc_selection_highlights(&t, &ranges, 5, Mode::Normal, &shapes(CursorKind::Bar), &scopes());
    assert_eq!(secondary, vec![Span { scope: 1, start: 3, end: 4 }]);
}

#[test]
fn forward_and_backward_selection_spans() {
    let t = Text::new("ae\u{301}cd");
    let ranges = vec![SelRange { anchor: 0, head: 3 }, SelRange { anchor: 5, head: 1 }];
    let spans = doc_selection_highlights(&t, &ranges, 0, Mode::Normal, &shapes(CursorKind::Block), &scopes());
    assert_eq!(
        spans,
        vec![
            Span { scope: 4, start: 0, end: 1 },
            Span { scope: 3, start: 1, end: 3 },
            Span { scope: 1, start: 1, end: 3 },
            Span { scope: 2, start: 3, end: 5 },
        ]
    );
}

#[test]
fn scope_fallbacks() {
    let t = ThemeScopes {
        selection: 7,
        cursor: None,
        cursor_insert: Some(9),
        cursor_select: None,
        cursor_primary: None,
        selection_primary: Some(11),
    };
    let n = resolve_scopes(&t, Mode::Normal);
    assert_eq!(n, SelectionScopes { cursor: 7, selection: 7, primary_cursor: 7, primary_selection: 11 });
    let i = resolve_scopes(&t, Mode::Insert);
    assert_eq!(i.cursor, 9);
    assert_eq!(i.primary_cursor, 9);
}

#[test]
fn tab_takes_tab_width_columns() {
    let mut surface = Surface::new(10, 1, plain());
    let vp = Rect::new(0, 0, 10, 1);
    let mut probe = Surface::new(10, 1, plain());
    probe.put(0, 0, s("x"), plain());
    probe.put(1, 0, s("x"), plain());
    probe.put(2, 0, s("x"), plain());
    probe.put(3, 0, s("x"), plain());
    probe.put(4, 0, s("x"), plain());
    let nx = draw_grapheme(&mut probe, &s("\t"), colored(5), 1, 0, 0, vp, 3);
    assert_eq!(nx, 4);
    assert_eq!(row_text(&probe, 0), "x   x     ");
    assert_eq!(probe.get(3, 0).style, colored(5));
    let nx = draw_grapheme(&mut surface, &s("a"), plain(), 2, 0, 5, vp, 4);
    assert_eq!(nx, 3);
    assert_eq!(row_text(&surface, 0), "          ");
    let nx = draw_grapheme(&mut surface, &s("\t"), plain(), 20, 0, 5, vp, 4);
    assert_eq!(nx, 24);
    assert_eq!(row_text(&surface, 0), "          ");
}

#[test]
fn wide_grapheme_leaves_following_cell_empty() {
    let mut surface = Surface::new(4, 1, plain());
    let vp = Rect::new(0, 0, 4, 1);
    let nx = draw_grapheme(&mut surface, &s("中"), plain(), 0, 0, 0, vp, 4);
    assert_eq!(nx, 2);
    assert_eq!(surface.get(0, 0).symbol, s("中"));
    assert!(surface.get(1, 0).symbol.is_empty());
}

#[test]
fn rendering_stops_at_viewport_height() {
    let t = Text::new("one\ntwo\nsix\n");
    let (lo, hi) = doc_syntax_highlights(&t, Position::new(1, 0), 3);
    assert_eq!((lo, hi), (4, 12));
    let theme = Theme { highlights: vec![plain()] };
    let mut surface = Surface::new(5, 4, plain());
    let events = vec![
        HighlightEvent::Source { start: 4, end: 8 },
        HighlightEvent::Source { start: 8, end: 12 },
        HighlightEvent::Source { start: 0, end: 4 },
    ];
    let layout = TextLayout { viewport: Rect::new(0, 1, 5, 2), offset_col: 0, tab_width: 4, text_style: plain() };
    let lines = render_text_highlights(&t, layout, &mut surface, &theme, &events);
    assert_eq!(lines, 2);
    assert_eq!(row_text(&surface, 0), "     ");
    assert_eq!(row_text(&surface, 1), "two  ");
    assert_eq!(row_text(&surface, 2), "six  ");
    assert_eq!(row_text(&surface, 3), "     ");
}

#[test]
fn render_applies_scope_styles_and_horizontal_scroll() {
    let t = Text::new("abcdef");
    let theme = Theme { highlights: vec![colored(1), colored(2)] };
    let mut surface = Surface::new(3, 1, plain());
    let events = vec![
        HighlightEvent::Source { start: 0, end: 2 },
        HighlightEvent::HighlightStart(1),
        HighlightEvent::Source { start: 2, end: 6 },
        HighlightEvent::HighlightEnd,
    ];
    let layout = TextLayout { viewport: Rect::new(0, 0, 3, 1), offset_col: 2, tab_width: 4, text_style: plain() };
    render_text_highlights(&t, layout, &mut surface, &theme, &events);
    assert_eq!(row_text(&surface, 0), "cde");
    assert_eq!(surface.get(0, 0).style, colored(2));
}

#[test]
fn render_view_draws_cursor_past_end() {
    let t = Text::new("ab");
    let theme = Theme { highlights: vec![plain(), colored(9)] };
    let mut surface = Surface::new(4, 1, plain());
    let sel = vec![Span { scope: 1, start: 2, end: 3 }];
    let layout = TextLayout { viewport: Rect::new(0, 0, 4, 1), offset_col: 0, tab_width: 4, text_style: plain() };
    let lines = render_view(&mut surface, &t, layout, &theme, 0, 3, vec![], vec![], Some(sel));
    assert_eq!(lines, 0);
    assert_eq!(row_text(&surface, 0), "ab  ");
    assert_eq!(surface.get(2, 0).style, colored(9));
}

fn keymaps() -> Keymaps {
    Keymaps::new(
        vec![
            Binding { keys: vec![key('i')], commands: vec![10] },
            Binding { keys: vec![key('g'), key('g')], commands: vec![11] },
            Binding { keys: vec![key('x')], commands: vec![12, 13] },
        ],
        vec![
            Binding { keys: vec![KeyEvent { code: KeyCode::Esc, modifiers: 0 }], commands: vec![20] },
            Binding { keys: vec![key('j'), key('k')], commands: vec![21] },
        ],
        vec![],
    )
}

#[test]
fn keymap_resolution() {
    let mut k = keymaps();
    assert_eq!(k.get(Mode::Normal, key('i')), KeymapResult::Matched(10));
    assert_eq!(k.get(Mode::Normal, key('g')), KeymapResult::Pending);
    assert_eq!(k.pending(), &vec![key('g')]);
    assert_eq!(k.get(Mode::Normal, key('g')), KeymapResult::Matched(11));
    assert_eq!(k.get(Mode::Normal, key('x')), KeymapResult::MatchedSequence(vec![12, 13]));
    assert_eq!(k.get(Mode::Normal, key('q')), KeymapResult::NotFound);
    assert_eq!(k.get(Mode::Normal, key('g')), KeymapResult::Pending);
    assert_eq!(k.get(Mode::Normal, key('q')), KeymapResult::Cancelled(vec![key('g'), key('q')]));
    assert!(k.pending().is_empty());
}

#[test]
fn count_accumulates_and_resets() {
    let mut v = EditorView::new(keymaps(), 0);
    assert!(v.handle_key(key('1'), Mode::Normal, CompletionOutcome::Inactive).is_empty());
    assert!(v.handle_key(key('2'), Mode::Normal, CompletionOutcome::Inactive).is_empty());
    assert!(v.handle_key(key('3'), Mode::Normal, CompletionOutcome::Inactive).is_empty());
    assert_eq!(v.count, Some(123));
    let acts = v.handle_key(key('i'), Mode::Normal, CompletionOutcome::Inactive);
    assert_eq!(acts, vec![Action::Execute { command: 10, count: Some(123), register: None }]);
    assert_eq!(v.count, None);
}

#[test]
fn leading_zero_starts_no_count() {
    let mut v = EditorView::new(keymaps(), 0);
    v.handle_key(key('0'), Mode::Normal, CompletionOutcome::Inactive);
    assert_eq!(v.count, None);
    v.handle_key(key('2'), Mode::Select, CompletionOutcome::Inactive);
    assert_eq!(v.handle_key(key('g'), Mode::Normal, CompletionOutcome::Inactive), vec![Action::ShowPending]);
    assert_eq!(v.count, Some(2));
    let acts = v.handle_key(key('g'), Mode::Normal, CompletionOutcome::Inactive);
    assert_eq!(acts, vec![Action::Execute { command: 11, count: Some(2), register: None }]);
    assert_eq!(v.count, None);
}

#[test]
fn insert_mode_types_unbound_keys() {
    let mut v = EditorView::new(keymaps(), 0);
    let acts = v.handle_key(key('z'), Mode::Insert, CompletionOutcome::Inactive);
    assert_eq!(acts, vec![Action::InsertChar('z')]);
    let acts = v.handle_key(KeyEvent { code: KeyCode::Left, modifiers: 0 }, Mode::Insert, CompletionOutcome::Inactive);
    assert!(acts.is_empty());
    assert_eq!(v.handle_key(key('j'), Mode::Insert, CompletionOutcome::Ignored), vec![Action::ShowPending]);
    let acts = v.handle_key(key('a'), Mode::Insert, CompletionOutcome::Ignored);
    assert_eq!(acts, vec![Action::InsertChar('j'), Action::InsertChar('a')]);
}

#[test]
fn completion_takes_keys_first() {
    let mut v = EditorView::new(keymaps(), 0);
    assert!(!v.offers_to_completion(Mode::Insert));
    v.set_completion(3);
    assert!(v.offers_to_completion(Mode::Insert));
    assert!(!v.offers_to_completion(Mode::Normal));
    assert!(v.handle_key(key('z'), Mode::Insert, CompletionOutcome::Consumed).is_empty());
    let acts = v.handle_key(KeyEvent { code: KeyCode::Esc, modifiers: 0 }, Mode::Insert, CompletionOutcome::ConsumedAndClosed);
    assert_eq!(acts, vec![Action::ClearCompletion]);
    assert!(!v.completion);
}

#[test]
fn mode_transitions_record_insert_and_close_completion() {
    let mut v = EditorView::new(keymaps(), 0);
    v.last_insert.1.push(key('q'));
    let acts = v.handle_key(key('i'), Mode::Normal, CompletionOutcome::Inactive);
    assert_eq!(acts.len(), 1);
    assert!(!v.finish_event(Mode::Normal, Mode::Insert));
    assert_eq!(v.last_insert.0, 10);
    assert!(v.last_insert.1.is_empty());
    v.handle_key(key('h'), Mode::Insert, CompletionOutcome::Inactive);
    v.handle_key(key('i'), Mode::Insert, CompletionOutcome::Inactive);
    assert_eq!(v.last_insert.1, vec![key('h'), key('i')]);
    v.set_completion(3);
    assert!(v.finish_event(Mode::Insert, Mode::Normal));
    assert!(!v.completion);
    let acts = v.handle_key(key('.'), Mode::Normal, CompletionOutcome::Inactive);
    assert_eq!(
        acts,
        vec![
            Action::Execute { command: 10, count: None, register: None },
            Action::InsertChar('h'),
            Action::InsertChar('i'),
        ]
    );
}

#[test]
fn repeat_without_record_runs_initial_command() {
    let mut v = EditorView::new(keymaps(), 42);
    let acts = v.handle_key(key('.'), Mode::Normal, CompletionOutcome::Inactive);
    assert_eq!(acts, vec![Action::Execute { command: 42, count: None, register: None }]);
}

#[test]
fn next_key_handler_takes_the_key() {
    let mut v = EditorView::new(keymaps(), 0);
    v.set_on_next_key(7);
    let acts = v.handle_key(key('i'), Mode::Normal, CompletionOutcome::Inactive);
    assert_eq!(acts, vec![Action::OnNextKey { handler: 7, key: key('i') }]);
    assert_eq!(v.on_next_key, None);
}

#[test]
fn shift_dropped_from_characters() {
    let mut k = KeyEvent { code: KeyCode::Char('A'), modifiers: SHIFT | CONTROL };
    canonicalize_key(&mut k);
    assert_eq!(k.modifiers, CONTROL);
    let mut k = KeyEvent { code: KeyCode::Left, modifiers: SHIFT };
    canonicalize_key(&mut k);
    assert_eq!(k.modifiers, SHIFT);
}

struct Fixed(u16, u16);

impl Component for Fixed {
    fn required_size(&mut self, _viewport: (u16, u16)) -> Option<(u16, u16)> {
        Some((self.0, self.1))
    }
}

#[test]
fn popup_shifts_left_to_fit() {
    let mut p = Popup::new("info".to_string(), Fixed(30, 5));
    p.required_size((80, 24));
    assert_eq!(p.get_size(), (30, 5));
    let (x, y) = p.get_rel_position(Rect::new(0, 0, 80, 24), Some(Position::new(3, 70)));
    assert_eq!((x, y), (50, 4));
    let (x, _) = p.get_rel_position(Rect::new(0, 0, 80, 24), Some(Position::new(10, 10)));
    assert_eq!(x, 50);
}

#[test]
fn popup_flips_above_without_room() {
    let mut p = Popup::new("info".to_string(), Fixed(10, 5));
    p.required_size((40, 12));
    let (x, y) = p.get_rel_position(Rect::new(0, 0, 40, 12), Some(Position::new(9, 5)));
    assert_eq!((x, y), (5, 4));
}

#[test]
fn popup_size_is_capped() {
    let mut p = Popup::new("menu".to_string(), Fixed(200, 50)).margin(Margin { vertical: 1, horizontal: 2 });
    assert_eq!(p.child_limits((300, 100)), (116, 24));
    assert_eq!(p.required_size((300, 100)), Some((120, 26)));
    assert_eq!(p.required_size((50, 10)), Some((50, 8)));
}

#[test]
fn popup_scroll_stays_within_content() {
    let mut p = Popup::new("doc".to_string(), Fixed(10, 30));
    p.required_size((80, 12));
    assert_eq!(p.get_size(), (10, 10));
    p.scroll(5, true);
    assert_eq!(p.scroll, 5);
    p.scroll(100, true);
    assert_eq!(p.scroll, 20);
    p.scroll(3, false);
    assert_eq!(p.scroll, 17);
    p.scroll(100, false);
    assert_eq!(p.scroll, 0);
    let outcome = p.handle_key(KeyEvent { code: KeyCode::Char('d'), modifiers: CONTROL });
    assert_eq!(outcome, PopupKeyOutcome::Scrolled);
    assert_eq!(p.scroll, 5);
    assert_eq!(p.handle_key(KeyEvent { code: KeyCode::Esc, modifiers: 0 }), PopupKeyOutcome::Close);
    assert_eq!(p.handle_key(key('a')), PopupKeyOutcome::Forward);
    let mut q = Popup::new("doc".to_string(), Fixed(10, 3));
    q.required_size((80, 12));
    q.scroll(4, true);
    assert_eq!(q.scroll, 0);
}

#[test]
fn popup_layout_clips_to_viewport() {
    let mut p = Popup::new("doc".to_string(), Fixed(10, 4)).margin(Margin { vertical: 1, horizontal: 1 });
    let (area, inner) = p.layout(Rect::new(0, 0, 20, 10), Some(Position::new(2, 15))).unwrap();
    assert_eq!(area, Rect::new(8, 3, 12, 6));
    assert_eq!(inner, Rect::new(9, 4, 10, 4));
    assert_eq!(p.position, Some(Position::new(2, 15)));
    let (area2, _) = p.layout(Rect::new(0, 0, 20, 10), Some(Position::new(0, 0))).unwrap();
    assert_eq!(area2, area);
}

#[test]
fn statusline_pieces() {
    assert_eq!(decimal_chars(0), s("0"));
    assert_eq!(decimal_chars(4096), s("4096"));
    assert_eq!(mode_name(Mode::Insert), s("INS"));
    let counts = StatusCounts { warnings: 0, errors: 2, selections: 1, row: 4, col: 0 };
    let right = statusline_right(counts, None, plain(), colored(1), colored(2));
    let texts: Vec<String> = right.iter().map(|t| t.text.iter().collect()).collect();
    assert_eq!(texts, vec!["●", " 2 ", " 1 sel ", " 5:1 "]);
    assert_eq!(right[0].style, colored(2));
    let counts = StatusCounts { warnings: 3, errors: 0, selections: 2, row: 0, col: 9 };
    let right = statusline_right(counts, Some(s("UTF-16LE")), plain(), colored(1), colored(2));
    let texts: Vec<String> = right.iter().map(|t| t.text.iter().collect()).collect();
    assert_eq!(texts, vec!["●", " 3 ", " 2 sels ", " 1:10 ", " UTF-16LE "]);
    assert_eq!(statusline_title(None, true), s("[scratch][+]"));
    assert_eq!(statusline_title(Some(s("src/a.rs")), false), s("src/a.rs"));
    assert_eq!(title_room(40, 20), 13);
    assert_eq!(title_room(10, 20), 0);
    assert_eq!(truncate_title(&s("abcdef"), 4), s("…def"));
    assert_eq!(truncate_title(&s("abc"), 4), s("abc"));
}

#[test]
fn diagnostics_views() {
    let diags = vec![
        Diagnostic { start: 0, end: 3, severity: Some(Severity::Error), message: "bad".to_string() },
        Diagnostic { start: 2, end: 6, severity: None, message: "odd".to_string() },
        Diagnostic { start: 8, end: 9, severity: Some(Severity::Hint), message: "hm".to_string() },
    ];
    assert_eq!(severity_counts(&diags), (0, 2));
    assert_eq!(diagnostics_at_cursor(&diags, 3), vec![(0, Severity::Error), (1, Severity::Warning)]);
    assert_eq!(diagnostics_at_cursor(&diags, 7), vec![]);
    let spans = doc_diagnostics_highlights(&diags, None, Some(4), Some(5));
    assert_eq!(spans.len(), 3);
    assert_eq!(spans[1], Span { scope: 4, start: 2, end: 6 });
    assert_eq!(diagnostics_area(Rect::new(0, 0, 150, 40)), Rect::new(50, 1, 100, 15));
}

#[test]
fn gutter_cells() {
    let st = GutterStyles {
        gutter: plain(),
        warning: colored(1),
        error: colored(2),
        info: colored(3),
        hint: colored(4),
        line_number: colored(5),
        line_number_selected: colored(6),
    };
    let diag_lines = vec![(3, Severity::Error)];
    assert_eq!(gutter_cell(GutterKind::Diagnostics, 3, false, 1, &diag_lines, st), Some((s("●"), colored(2))));
    assert_eq!(gutter_cell(GutterKind::Diagnostics, 4, false, 1, &diag_lines, st), None);
    assert_eq!(gutter_cell(GutterKind::LineNumbers, 8, true, 5, &diag_lines, st), Some((s("   9"), colored(6))));
}

fn mouse(kind: MouseEventKind, modifiers: u8) -> MouseEvent {
    MouseEvent { kind, column: 3, row: 4, modifiers }
}

fn mouse_cx(paste: bool) -> MouseContext {
    MouseContext { focus: 0, primary_anchor: 2, primary_from: 2, primary_to: 6, middle_click_paste: paste, scroll_lines: -3 }
}

#[test]
fn mouse_routing() {
    let hits = vec![None, Some(17)];
    assert_eq!(
        handle_mouse_event(mouse(MouseEventKind::Down(MouseButton::Left), 0), &hits, mouse_cx(false)),
        Some(vec![MouseAction::SelectPoint { view: 1, pos: 17 }, MouseAction::Focus(1)])
    );
    assert_eq!(
        handle_mouse_event(mouse(MouseEventKind::Down(MouseButton::Left), ALT), &hits, mouse_cx(false)),
        Some(vec![MouseAction::AddPoint { view: 1, pos: 17 }, MouseAction::Focus(1)])
    );
    assert_eq!(
        handle_mouse_event(mouse(MouseEventKind::ScrollDown, 0), &hits, mouse_cx(false)),
        Some(vec![MouseAction::Focus(1), MouseAction::Scroll { lines: 3, forward: true }, MouseAction::Focus(0)])
    );
    assert_eq!(handle_mouse_event(mouse(MouseEventKind::Drag(MouseButton::Left), 0), &hits, mouse_cx(false)), None);
    assert_eq!(
        handle_mouse_event(mouse(MouseEventKind::Drag(MouseButton::Left), 0), &vec![Some(9)], mouse_cx(false)),
        Some(vec![MouseAction::SetPrimary { view: 0, anchor: 2, head: 9 }])
    );
    assert_eq!(handle_mouse_event(mouse(MouseEventKind::Up(MouseButton::Left), 0), &hits, mouse_cx(false)), None);
    assert_eq!(
        handle_mouse_event(mouse(MouseEventKind::Up(MouseButton::Left), 0), &hits, mouse_cx(true)),
        Some(vec![MouseAction::YankPrimaryClipboard])
    );
    assert_eq!(
        handle_mouse_event(mouse(MouseEventKind::Up(MouseButton::Middle), 0), &hits, mouse_cx(true)),
        Some(vec![
            MouseAction::SelectPoint { view: 1, pos: 17 },
            MouseAction::Focus(1),
            MouseAction::PastePrimaryClipboardBefore
        ])
    );
    assert_eq!(handle_mouse_event(mouse(MouseEventKind::ScrollUp, 0), &vec![None], mouse_cx(true)), None);
}

#[test]
fn block_cursor_is_hidden_from_terminal() {
    let p = Some(Position::new(1, 2));
    assert_eq!(cursor(p, CursorKind::Block), (p, CursorKind::Hidden));
    assert_eq!(cursor(p, CursorKind::Bar), (p, CursorKind::Bar));
}

#[test]
fn empty_completion_result_installs_nothing() {
    let mut v = EditorView::new(keymaps(), 0);
    v.set_completion(2);
    assert!(v.completion);
    v.set_completion(0);
    assert!(v.completion);
    v.clear_completion();
    v.set_completion(0);
    assert!(!v.completion);
}

#[test]
fn key_names_and_pending_display() {
    assert_eq!(key_name(&KeyEvent { code: KeyCode::Char('x'), modifiers: CONTROL | ALT }), s("A-C-x"));
    assert_eq!(key_name(&KeyEvent { code: KeyCode::F(12), modifiers: 0 }), s("F12"));
    assert_eq!(key_name(&KeyEvent { code: KeyCode::Char(' '), modifiers: SHIFT }), s("S-space"));
    assert_eq!(key_name(&KeyEvent { code: KeyCode::Esc, modifiers: 0 }), s("esc"));
    let keys = vec![key('g'), KeyEvent { code: KeyCode::Char('w'), modifiers: CONTROL }];
    assert_eq!(pending_keys_display(Some(12), &keys, 15), s("12g<C-w>"));
    assert_eq!(pending_keys_display(Some(12), &keys, 4), s("C-w>"));
    assert_eq!(pending_keys_display(None, &vec![], 15), s(""));
}

#[test]
fn gutters_side_by_side() {
    let st = GutterStyles {
        gutter: plain(),
        warning: colored(1),
        error: colored(2),
        info: colored(3),
        hint: colored(4),
        line_number: colored(5),
        line_number_selected: colored(6),
    };
    let mut surface = Surface::new(6, 2, plain());
    let gutters = vec![(GutterKind::Diagnostics, 1), (GutterKind::LineNumbers, 3)];
    render_gutter(&mut surface, Rect::new(0, 0, 6, 2), 0, 1, &vec![1], &gutters, &vec![(0, Severity::Error)], st);
    assert_eq!(row_text(&surface, 0), "● 1   ");
    assert_eq!(row_text(&surface, 1), "  2   ");
    assert_eq!(surface.get(0, 0).style, colored(2));
    assert_eq!(surface.get(2, 1).style, colored(6));
    assert_eq!(surface.get(2, 0).style, colored(5));
}

#[test]
fn text_from_given_clusters() {
    let t = Text::from_graphemes(&vec![s("ab"), s("c"), s("\r\n")]);
    assert_eq!(t.chars, s("abc\r\n"));
    assert_eq!(t.bounds, vec![0, 2, 3, 5]);
    assert_eq!(grapheme_width_with(&s("x"), 0), 1);
    assert_eq!(grapheme_width_with(&s("中"), 2), 2);
    assert_eq!(grapheme_width_with(&s("\u{200b}"), 0), 1);
}

#[test]
fn bottom_line_message_and_pending_keys() {
    let st = BottomStyles { text: plain(), error: colored(1), recording: colored(2) };
    let mut surface = Surface::new(30, 2, plain());
    let pending = vec![key('g')];
    render_bottom_line(&mut surface, Rect::new(0, 0, 30, 2), Some((s("saved"), false)), Some(3), &pending, Some('q'), st);
    assert_eq!(row_text(&surface, 1), "saved       3g             [q]");
    assert_eq!(surface.get(27, 1).style, colored(2));
    let mut narrow = Surface::new(18, 1, plain());
    render_bottom_line(&mut narrow, Rect::new(0, 0, 18, 1), Some((s("oops"), true)), Some(3), &pending, None, st);
    assert_eq!(row_text(&narrow, 0), "oops              ");
    assert_eq!(narrow.get(0, 0).style, colored(1));
}

#[test]
fn popup_render_clears_its_box() {
    let mut p = Popup::new("doc".to_string(), Fixed(3, 1)).margin(Margin { vertical: 0, horizontal: 1 });
    assert_eq!(p.id(), "doc");
    let mut surface = Surface::new(8, 4, plain());
    surface.put(2, 1, s("z"), plain());
    let inner = p.render(Rect::new(0, 0, 8, 4), Some(Position::new(0, 1)), &mut surface, colored(4)).unwrap();
    assert_eq!(inner, Rect::new(2, 1, 3, 1));
    assert_eq!(row_text(&surface, 1), "        ");
    assert_eq!(surface.get(1, 1).style, colored(4));
    assert_eq!(surface.get(0, 1).style, plain());
}

#[test]
fn diagnostics_panel_wraps_and_right_aligns() {
    let st = SeverityStyles { error: colored(1), warning: colored(2), info: colored(3), hint: colored(4) };
    let diags = vec![
        Diagnostic { start: 0, end: 4, severity: Some(Severity::Error), message: "abcdefg".to_string() },
        Diagnostic { start: 9, end: 9, severity: None, message: "far".to_string() },
        Diagnostic { start: 1, end: 2, severity: None, message: "hi".to_string() },
    ];
    let lines = diagnostic_lines(&diags, 2, 3, st);
    let texts: Vec<String> = lines.iter().map(|l| l.0.iter().collect()).collect();
    assert_eq!(texts, vec!["abc", "def", "g", "hi"]);
    assert_eq!(lines[3].1, colored(2));
    let mut surface = Surface::new(5, 4, plain());
    render_diagnostics(&mut surface, Rect::new(0, 0, 5, 4), &diags, 2, st);
    assert_eq!(row_text(&surface, 0), "     ");
    assert_eq!(row_text(&surface, 1), "abcde");
    assert_eq!(row_text(&surface, 2), "   fg");
    assert_eq!(row_text(&surface, 3), "   hi");
    assert_eq!(surface.get(0, 1).style, colored(1));
}

#[test]
fn border_drawn_unless_at_screen_edge() {
    let mut surface = Surface::new(6, 2, plain());
    render_border(&mut surface, Rect::new(0, 0, 6, 2), Rect::new(0, 0, 3, 2), colored(1));
    assert_eq!(row_text(&surface, 0), "   │  ");
    assert_eq!(row_text(&surface, 1), "   │  ");
    let mut edge = Surface::new(6, 2, plain());
    render_border(&mut edge, Rect::new(0, 0, 6, 2), Rect::new(3, 0, 3, 2), colored(1));
    assert_eq!(row_text(&edge, 0), "      ");
}

#[test]
fn diagnostics_wrap_at_words_and_line_feeds() {
    let st = SeverityStyles { error: colored(1), warning: colored(2), info: colored(3), hint: colored(4) };
    let diags = vec![Diagnostic { start: 0, end: 4, severity: Some(Severity::Info), message: "one two\n\nthree  x".to_string() }];
    let lines = diagnostic_lines(&diags, 1, 5, st);
    let texts: Vec<String> = lines.iter().map(|l| l.0.iter().collect()).collect();
    assert_eq!(texts, vec!["one", "two", "", "three", "x"]);
    assert_eq!(lines[0].1, colored(3));
}

#[test]
fn pending_display_cut_by_bytes() {
    let keys: Vec<KeyEvent> = "ab€cdefghijklmnop".chars().map(key).collect();
    assert_eq!(pending_keys_display(None, &keys, 15), s("ab€cdefghijklmnop"));
    let keys: Vec<KeyEvent> = "zabcdefghijklm€".chars().map(key).collect();
    assert_eq!(pending_keys_display(None, &keys, 15), s("bcdefghijklm€"));
    let keys: Vec<KeyEvent> = "abc".chars().map(key).collect();
    assert_eq!(pending_keys_display(Some(5), &keys, 15), s("5abc"));
}

#[test]
fn message_width_counts_display_columns() {
    let st = BottomStyles { text: plain(), error: colored(1), recording: plain() };
    let mut surface = Surface::new(23, 1, plain());
    render_bottom_line(&mut surface, Rect::new(0, 0, 23, 1), Some((s("中文中文"), false)), Some(7), &vec![], None, st);
    assert_eq!(surface.get(8, 0).symbol, s(" "));
    let mut wide = Surface::new(24, 1, plain());
    render_bottom_line(&mut wide, Rect::new(0, 0, 24, 1), Some((s("中文中文"), false)), Some(7), &vec![], None, st);
    assert_eq!(wide.get(9, 0).symbol, s("7"));
}

#[test]
fn cancelled_sequence_replays_each_key() {
    let mut v = EditorView::new(keymaps(), 0);
    assert_eq!(v.handle_key(key('j'), Mode::Insert, CompletionOutcome::Inactive), vec![Action::ShowPending]);
    let esc = KeyEvent { code: KeyCode::Esc, modifiers: 0 };
    let acts = v.handle_key(esc, Mode::Insert, CompletionOutcome::Inactive);
    assert_eq!(acts, vec![Action::InsertChar('j'), Action::Execute { command: 20, count: None, register: None }]);
    assert!(v.keymaps.pending().is_empty());
}

#[test]
fn completed_sequence_runs_commands_in_order() {
    let mut v = EditorView::new(keymaps(), 0);
    v.handle_key(key('4'), Mode::Normal, CompletionOutcome::Inactive);
    let acts = v.handle_key(key('x'), Mode::Normal, CompletionOutcome::Inactive);
    assert_eq!(
        acts,
        vec![
            Action::Execute { command: 12, count: Some(4), register: None },
            Action::Execute { command: 13, count: Some(4), register: None },
        ]
    );
}
