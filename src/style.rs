use vstd::prelude::*;

verus! {

/// A cell style: optional colors, and modifier bits to add and to remove.
#[derive(Clone, Copy, Debug, PartialEq, Eq, Structural)]
pub struct Style {
    pub fg: Option<u32>,
    pub bg: Option<u32>,
    pub add_modifier: u16,
    pub sub_modifier: u16,
}

pub open spec fn or_color(a: Option<u32>, b: Option<u32>) -> Option<u32> {
    if a.is_some() { a } else { b }
}

impl Style {
    pub fn new() -> (r: Style)
        ensures
            r == (Style { fg: None, bg: None, add_modifier: 0, sub_modifier: 0 }),
    {
        Style { fg: None, bg: None, add_modifier: 0, sub_modifier: 0 }
    }

    /// `other` laid over `self`: its colors win where it has them, and its
    /// modifiers are added or removed.
    pub open spec fn patch_spec(self, other: Style) -> Style {
        Style {
            fg: or_color(other.fg, self.fg),
            bg: or_color(other.bg, self.bg),
            add_modifier: (self.add_modifier & !other.sub_modifier) | other.add_modifier,
            sub_modifier: (self.sub_modifier & !other.add_modifier) | other.sub_modifier,
        }
    }

    /// See [`Style::patch_spec`].
    pub fn patch(self, other: Style) -> (r: Style)
        ensures
            r == self.patch_spec(other),
    {
        Style {
            fg: if other.fg.is_some() { other.fg } else { self.fg },
            bg: if other.bg.is_some() { other.bg } else { self.bg },
            add_modifier: (self.add_modifier & !other.sub_modifier) | other.add_modifier,
            sub_modifier: (self.sub_modifier & !other.add_modifier) | other.sub_modifier,
        }
    }
}

/// The styles of the highlight scopes, indexed by scope id.
pub struct Theme {
    pub highlights: Vec<Style>,
}

impl Theme {
    /// The style of a scope; the plain style for an unknown scope.
    pub open spec fn highlight_spec(&self, scope: usize) -> Style {
        if scope < self.highlights@.len() {
            self.highlights@[scope as int]
        } else {
            Style { fg: None, bg: None, add_modifier: 0, sub_modifier: 0 }
        }
    }

    /// See [`Theme::highlight_spec`].
    pub fn highlight(&self, scope: usize) -> (r: Style)
        ensures
            r == self.highlight_spec(scope),
    {
        if scope < self.highlights.len() {
            self.highlights[scope]
        } else {
            Style::new()
        }
    }

    /// `base` with the styles of the open scopes laid over it, outermost first.
    pub open spec fn stack_style_spec(&self, base: Style, stack: Seq<usize>) -> Style
        decreases stack.len(),
    {
        if stack.len() == 0 {
            base
        } else {
            self.stack_style_spec(base, stack.drop_last()).patch_spec(self.highlight_spec(stack.last()))
        }
    }

    /// See [`Theme::stack_style_spec`].
    pub fn stack_style(&self, base: Style, stack: &Vec<usize>) -> (r: Style)
        ensures
            r == self.stack_style_spec(base, stack@),
    {
        let mut acc = base;
        let mut i: usize = 0;
        while i < stack.len()
            invariant
                i <= stack@.len(),
                acc == self.stack_style_spec(base, stack@.take(i as int)),
            decreases stack@.len() - i,
        {
            let ghost tk = stack@.take(i as int + 1);
            assert(tk.drop_last() =~= stack@.take(i as int));
            acc = acc.patch(self.highlight(stack[i]));
            i = i + 1;
        }
        assert(stack@.take(i as int) =~= stack@);
        acc
    }
}

} // verus!
